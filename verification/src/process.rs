//! The life of one process and what those who wait for it are told.
//!
//! A process is started once. Any number of callers may wait for it; the
//! first wait that sees it end fixes the outcome, and every wait after that
//! is answered with the same outcome without asking the operating system
//! again.
use crate::error::ExitOutcome;
use vstd::prelude::*;

verus! {

/// Where a process stands: still running, or ended for good.
#[derive(Clone, Copy, Debug, PartialEq, Eq)]
pub enum ProcessState {
    Running,
    Exited(ExitOutcome),
}

/// What the owner of a process does when somebody asks to wait for it.
#[derive(Clone, Copy, Debug, PartialEq, Eq)]
pub enum WaitAction {
    /// Wait for the process to end, then hand what was seen to `record`.
    AwaitExit,
    /// Answer at once with the outcome that is already known.
    Reply(ExitOutcome),
}

/// The record that the owner of a process keeps of it.
#[derive(Clone, Copy, Debug)]
pub struct ProcessHandle {
    pub state: ProcessState,
}

/// What a wait is answered with when the operating system reports
/// `observed` for a process in state `state`.
pub open spec fn answer(state: ProcessState, observed: Result<ExitOutcome, Seq<char>>) -> Result<
    ExitOutcome,
    Seq<char>,
> {
    match state {
        ProcessState::Exited(outcome) => Ok(outcome),
        ProcessState::Running => observed,
    }
}

/// The state of a process after a wait in which the operating system
/// reported `observed`.
pub open spec fn after_wait(state: ProcessState, observed: Result<ExitOutcome, Seq<char>>)
    -> ProcessState {
    match state {
        ProcessState::Exited(outcome) => state,
        ProcessState::Running => match observed {
            Ok(outcome) => ProcessState::Exited(outcome),
            Err(_) => ProcessState::Running,
        },
    }
}

/// The state of a process after the waits `observed`, one after another.
pub open spec fn after_waits(state: ProcessState, observed: Seq<Result<ExitOutcome, Seq<char>>>)
    -> ProcessState
    decreases observed.len(),
{
    if observed.len() == 0 {
        state
    } else {
        after_wait(after_waits(state, observed.drop_last()), observed.last())
    }
}

impl ProcessHandle {
    /// The record of a process that has just been started.
    pub fn new() -> (r: Self)
        ensures
            r.state == ProcessState::Running,
    {
        ProcessHandle { state: ProcessState::Running }
    }

    /// What to do for a caller who asks to wait.
    pub fn on_wait(&self) -> (r: WaitAction)
        ensures
            r == match self.state {
                ProcessState::Running => WaitAction::AwaitExit,
                ProcessState::Exited(outcome) => WaitAction::Reply(outcome),
            },
    {
        match self.state {
            ProcessState::Running => WaitAction::AwaitExit,
            ProcessState::Exited(outcome) => WaitAction::Reply(outcome),
        }
    }

    /// Takes note of what a wait on the process gave, and returns what the
    /// caller is told. An outcome, once noted, is never replaced.
    pub fn record(&mut self, observed: Result<ExitOutcome, String>) -> (r: Result<
        ExitOutcome,
        String,
    >)
        ensures
            final(self).state == after_wait(old(self).state, observed_view(observed)),
            observed_view(r) == answer(old(self).state, observed_view(observed)),
    {
        match self.state {
            ProcessState::Exited(outcome) => Ok(outcome),
            ProcessState::Running => {
                match observed {
                    Ok(outcome) => {
                        self.state = ProcessState::Exited(outcome);
                        Ok(outcome)
                    },
                    Err(why) => Err(why),
                }
            },
        }
    }
}

/// What a wait gave, with the text of a failure as a sequence of characters.
pub open spec fn observed_view(observed: Result<ExitOutcome, String>) -> Result<
    ExitOutcome,
    Seq<char>,
> {
    match observed {
        Ok(outcome) => Ok(outcome),
        Err(why) => Err(why@),
    }
}

/// Once a process has ended, it stays ended with the same outcome whatever
/// later waits observe, and each of them is answered with that outcome: all
/// who wait for a process are told the same.
pub proof fn lemma_waiters_agree(
    outcome: ExitOutcome,
    observed: Seq<Result<ExitOutcome, Seq<char>>>,
)
    ensures
        after_waits(ProcessState::Exited(outcome), observed) == ProcessState::Exited(outcome),
        forall|i: int|
            0 <= i < observed.len() ==> answer(
                after_waits(ProcessState::Exited(outcome), observed.subrange(0, i)),
                #[trigger] observed[i],
            ) == Ok::<ExitOutcome, Seq<char>>(outcome),
    decreases observed.len(),
{
    let ended = ProcessState::Exited(outcome);
    if observed.len() > 0 {
        lemma_waiters_agree(outcome, observed.drop_last());
    }
    assert forall|i: int| 0 <= i < observed.len() implies answer(
        after_waits(ended, observed.subrange(0, i)),
        #[trigger] observed[i],
    ) == Ok::<ExitOutcome, Seq<char>>(outcome) by {
        lemma_waiters_agree(outcome, observed.subrange(0, i));
    }
}

/// The first wait that sees a running process end fixes what every later
/// wait is told.
pub proof fn lemma_first_exit_is_kept(
    outcome: ExitOutcome,
    later: Seq<Result<ExitOutcome, Seq<char>>>,
)
    ensures
        after_waits(after_wait(ProcessState::Running, Ok(outcome)), later) == ProcessState::Exited(
            outcome,
        ),
{
    lemma_waiters_agree(outcome, later);
}

} // verus!
