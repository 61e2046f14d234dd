//! What can go wrong with a job, and how it is told to a client.
use crate::text::{decimal, push_decimal};
use vstd::prelude::*;
use vstd::string::*;

verus! {

/// How a process ended: with an exit code, or without one where it was
/// killed by a signal.
#[derive(Clone, Copy, Debug, PartialEq, Eq)]
pub struct ExitOutcome {
    pub code: Option<i32>,
}

impl ExitOutcome {
    /// A process has done its work exactly when it ended with exit code 0.
    pub open spec fn succeeded(self) -> bool {
        self.code == Some(0i32)
    }

    /// Whether the process has done its work.
    pub fn success(self) -> (r: bool)
        ensures
            r == self.succeeded(),
    {
        match self.code {
            Some(code) => code == 0,
            None => false,
        }
    }

    /// The outcome in words.
    pub open spec fn description(self) -> Seq<char> {
        match self.code {
            Some(code) => "exit status: "@ + signed_decimal(code as int),
            None => "no exit status"@,
        }
    }

    /// The outcome in words.
    pub fn describe(self) -> (r: String)
        ensures
            r@ == self.description(),
    {
        match self.code {
            Some(code) => {
                let mut r = String::from_str("exit status: ");
                push_signed_decimal(&mut r, code);
                r
            },
            None => String::from_str("no exit status"),
        }
    }
}

/// The decimal digits of `n`, after a minus sign where `n` is negative.
pub open spec fn signed_decimal(n: int) -> Seq<char> {
    if n < 0 {
        "-"@ + decimal((-n) as nat)
    } else {
        decimal(n as nat)
    }
}

/// Appends `signed_decimal(n)` to `out`.
pub fn push_signed_decimal(out: &mut String, n: i32)
    ensures
        final(out)@ == old(out)@ + signed_decimal(n as int),
{
    if n < 0 {
        out.append("-");
        let magnitude: u32 = if n == i32::MIN {
            2147483648u32
        } else {
            (-n) as u32
        };
        push_decimal(out, magnitude);
        assert(final(out)@ =~= old(out)@ + signed_decimal(n as int));
    } else {
        push_decimal(out, n as u32);
    }
}

/// Why a job gave no artifact.
#[derive(Debug)]
pub enum JobError {
    /// The directory of input files could not be listed.
    DirectoryUnreadable { dir: String, why: String },
    /// The directory holds no input file of the run.
    NoInputFiles { run_number: u32, dir: String },
    /// The program could not be started.
    SpawnFailed(String),
    /// The artifact is not there and no process is producing it.
    NotRunningAndMissing(String),
    /// Waiting for the process failed.
    WaitFailed(String),
    /// The process did not end with exit code 0.
    ProcessFailed(ExitOutcome),
    /// The process ended with exit code 0 and left no artifact.
    OutputMissingAfterSuccess(String),
}

impl JobError {
    /// The error in words.
    pub open spec fn text(self) -> Seq<char> {
        match self {
            JobError::DirectoryUnreadable { dir, why } => "failed to read `"@ + dir@ + "`: "@
                + why@,
            JobError::NoInputFiles { run_number, dir } => "no MIDAS files found for run number `"@
                + decimal(run_number as nat) + "` in `"@ + dir@ + "`"@,
            JobError::SpawnFailed(why) => "failed to spawn command: "@ + why@,
            JobError::NotRunningAndMissing(path) => "`"@ + path@
                + "` does not exist and no child process is producing it"@,
            JobError::WaitFailed(why) => "failed to wait core command: "@ + why@,
            JobError::ProcessFailed(outcome) => "core command failed with `"@
                + outcome.description() + "`"@,
            JobError::OutputMissingAfterSuccess(path) => "`"@ + path@
                + "` does not exist after successful core command"@,
        }
    }

    /// The error in words.
    pub fn message(&self) -> (r: String)
        ensures
            r@ == self.text(),
    {
        match self {
            JobError::DirectoryUnreadable { dir, why } => {
                let mut r = String::from_str("failed to read `");
                r.append(dir.as_str());
                r.append("`: ");
                r.append(why.as_str());
                r
            },
            JobError::NoInputFiles { run_number, dir } => {
                let mut r = String::from_str("no MIDAS files found for run number `");
                push_decimal(&mut r, *run_number);
                r.append("` in `");
                r.append(dir.as_str());
                r.append("`");
                r
            },
            JobError::SpawnFailed(why) => {
                let mut r = String::from_str("failed to spawn command: ");
                r.append(why.as_str());
                r
            },
            JobError::NotRunningAndMissing(path) => {
                let mut r = String::from_str("`");
                r.append(path.as_str());
                r.append("` does not exist and no child process is producing it");
                r
            },
            JobError::WaitFailed(why) => {
                let mut r = String::from_str("failed to wait core command: ");
                r.append(why.as_str());
                r
            },
            JobError::ProcessFailed(outcome) => {
                let mut r = String::from_str("core command failed with `");
                r.append(outcome.describe().as_str());
                r.append("`");
                r
            },
            JobError::OutputMissingAfterSuccess(path) => {
                let mut r = String::from_str("`");
                r.append(path.as_str());
                r.append("` does not exist after successful core command");
                r
            },
        }
    }
}

} // verus!
