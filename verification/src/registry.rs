//! The registry of running jobs.
//!
//! The registry maps a job to the handle of the process that is producing its
//! artifact. Together with the artifact on disk it decides, for every
//! request, whether a process has to be started, whether a running one is
//! joined, or whether the work was already done. It holds at most one handle
//! per job, and a handle leaves it as soon as somebody has seen its process
//! end.
//!
//! The registry does not touch the file system or any process. The caller
//! looks whether the artifact is there and says so (`cached`), starts the
//! process where the registry asks for one, and waits for it. All calls for
//! one registry are expected to be made under one lock; the wait for the
//! process is not.
use crate::error::{ExitOutcome, JobError};
use crate::job::{Config, CoreBin, CoreCmd};
use std::collections::HashMap;
use vstd::prelude::*;

verus! {

broadcast use vstd::std_specs::hash::group_hash_axioms;

/// What a request for a job has to do next.
#[derive(Clone, Copy, Debug, PartialEq, Eq, Structural)]
pub enum SpawnStep {
    /// The artifact is there: nothing to start and nothing to join.
    Satisfied,
    /// A process is producing the artifact: join it.
    Attach,
    /// Nobody is producing the artifact: start a process and register it.
    Spawn,
}

/// What a caller that wants the artifact of a job does.
pub enum WaitStep<'a, H> {
    /// No process is registered; this is the result of the wait.
    Done(Result<String, JobError>),
    /// Wait for this process, then call `finish_core_command`.
    Join(&'a H),
}

/// The number that stands for a job inside the registry.
pub open spec fn job_code(cmd: CoreCmd) -> u64 {
    let kind: u64 = match cmd.bin {
        CoreBin::ChronoboxTimestamps => 0,
        CoreBin::InitialOdb => 1,
        CoreBin::FinalOdb => 2,
        CoreBin::Sequencer => 3,
        CoreBin::TrgScalers => 4,
        CoreBin::Vertices => 5,
    };
    (kind * 0x1_0000_0000 + cmd.run_number) as u64
}

/// Different jobs have different numbers.
pub proof fn lemma_job_code_injective(a: CoreCmd, b: CoreCmd)
    ensures
        job_code(a) == job_code(b) ==> a == b,
{
}

fn code_of(cmd: CoreCmd) -> (r: u64)
    ensures
        r == job_code(cmd),
{
    let kind: u64 = match cmd.bin {
        CoreBin::ChronoboxTimestamps => 0,
        CoreBin::InitialOdb => 1,
        CoreBin::FinalOdb => 2,
        CoreBin::Sequencer => 3,
        CoreBin::TrgScalers => 4,
        CoreBin::Vertices => 5,
    };
    kind * 0x1_0000_0000 + cmd.run_number as u64
}

/// The jobs that are running, each with the handle of its process.
pub struct AppState<H> {
    processes: HashMap<u64, H>,
}

impl<H> View for AppState<H> {
    type V = Map<CoreCmd, H>;

    closed spec fn view(&self) -> Map<CoreCmd, H> {
        Map::new(
            |cmd: CoreCmd| self.processes@.contains_key(job_code(cmd)),
            |cmd: CoreCmd| self.processes@[job_code(cmd)],
        )
    }
}

/// What a request for `cmd` has to do, given the registered jobs and
/// whether the artifact is there.
pub open spec fn spawn_step<H>(entries: Map<CoreCmd, H>, cmd: CoreCmd, cached: bool) -> SpawnStep {
    if cached {
        SpawnStep::Satisfied
    } else if entries.contains_key(cmd) {
        SpawnStep::Attach
    } else {
        SpawnStep::Spawn
    }
}

/// The registered jobs after a request for `cmd`: where the artifact is
/// there, what is registered for it is out of date and leaves.
pub open spec fn after_spawn_step<H>(entries: Map<CoreCmd, H>, cmd: CoreCmd, cached: bool) -> Map<
    CoreCmd,
    H,
> {
    if cached {
        entries.remove(cmd)
    } else {
        entries
    }
}

/// The registered jobs after `handle` was offered for `cmd`: a job that is
/// registered keeps its handle.
pub open spec fn after_register<H>(entries: Map<CoreCmd, H>, cmd: CoreCmd, handle: H) -> Map<
    CoreCmd,
    H,
> {
    if entries.contains_key(cmd) {
        entries
    } else {
        entries.insert(cmd, handle)
    }
}

/// What a wait for `cmd` gives once its process has been seen to end with
/// `outcome`, `cached` telling whether the artifact is there afterwards:
/// the path of the artifact, or the error.
pub open spec fn wait_outcome(
    cmd: CoreCmd,
    cache_dir: Seq<char>,
    outcome: Result<ExitOutcome, String>,
    cached: bool,
    r: Result<String, JobError>,
) -> bool {
    match outcome {
        Err(why) => r matches Err(JobError::WaitFailed(text)) && text@ == why@,
        Ok(exit) => if !exit.succeeded() {
            r matches Err(JobError::ProcessFailed(e)) && e == exit
        } else if !cached {
            r matches Err(JobError::OutputMissingAfterSuccess(path)) && path@ == cmd.artifact_path(
                cache_dir,
            )
        } else {
            r matches Ok(path) && path@ == cmd.artifact_path(cache_dir)
        },
    }
}

/// What a wait for `cmd` gives when no process is registered for it.
pub open spec fn unregistered_outcome(
    cmd: CoreCmd,
    cache_dir: Seq<char>,
    cached: bool,
    r: Result<String, JobError>,
) -> bool {
    if cached {
        r matches Ok(path) && path@ == cmd.artifact_path(cache_dir)
    } else {
        r matches Err(JobError::NotRunningAndMissing(path)) && path@ == cmd.artifact_path(
            cache_dir,
        )
    }
}

impl<H> AppState<H> {
    /// A registry without jobs.
    pub fn new() -> (r: Self)
        ensures
            r@ == Map::<CoreCmd, H>::empty(),
    {
        let r = AppState { processes: HashMap::new() };
        assert(r@ =~= Map::<CoreCmd, H>::empty());
        r
    }

    /// Whether a process is registered for `cmd`.
    pub fn is_running(&self, cmd: CoreCmd) -> (r: bool)
        ensures
            r == self@.contains_key(cmd),
    {
        let code = code_of(cmd);
        self.processes.contains_key(&code)
    }

    /// The handle of the process that is registered for `cmd`.
    pub fn handle(&self, cmd: CoreCmd) -> (r: Option<&H>)
        ensures
            match r {
                Some(handle) => self@.contains_key(cmd) && *handle == self@[cmd],
                None => !self@.contains_key(cmd),
            },
    {
        let code = code_of(cmd);
        self.processes.get(&code)
    }

    /// Registers `handle` as the process of `cmd` and returns `true`, unless
    /// a process is registered for `cmd` already: that one stays, and the
    /// result is `false`.
    pub fn register(&mut self, cmd: CoreCmd, handle: H) -> (r: bool)
        ensures
            r == !old(self)@.contains_key(cmd),
            final(self)@ == after_register(old(self)@, cmd, handle),
    {
        let code = code_of(cmd);
        if self.processes.contains_key(&code) {
            return false;
        }
        self.processes.insert(code, handle);
        proof {
            assert forall|other: CoreCmd| other != cmd implies job_code(other) != job_code(
                cmd,
            ) by {
                lemma_job_code_injective(other, cmd);
            }
            assert(final(self)@ =~= old(self)@.insert(cmd, handle));
        }
        true
    }

    /// Takes in what starting a process for `cmd` gave. A process that was
    /// started is registered, unless one is registered for `cmd` already. A
    /// process that could not be started leaves the registry as it was, and
    /// the error is handed on.
    pub fn take_in(&mut self, cmd: CoreCmd, started: Result<H, JobError>) -> (r: Result<
        (),
        JobError,
    >)
        ensures
            match started {
                Ok(handle) => r is Ok && final(self)@ == after_register(old(self)@, cmd, handle),
                Err(error) => r == Err::<(), JobError>(error) && final(self)@ == old(self)@,
            },
    {
        match started {
            Ok(handle) => {
                self.register(cmd, handle);
                Ok(())
            },
            Err(error) => Err(error),
        }
    }

    /// Takes `cmd` out of the registry, whether it is in it or not.
    fn forget(&mut self, cmd: CoreCmd)
        ensures
            final(self)@ == old(self)@.remove(cmd),
    {
        let code = code_of(cmd);
        self.processes.remove(&code);
        proof {
            assert forall|other: CoreCmd| other != cmd implies job_code(other) != job_code(
                cmd,
            ) by {
                lemma_job_code_injective(other, cmd);
            }
            assert(final(self)@ =~= old(self)@.remove(cmd));
        }
    }
}

impl<H> Default for AppState<H> {
    fn default() -> (r: Self)
        ensures
            r@ == Map::<CoreCmd, H>::empty(),
    {
        AppState::new()
    }
}

/// The first step of a request for the artifact of `cmd`. `cached` tells
/// whether the artifact is there.
///
/// Where it is, the disk is taken at its word: a handle that is still
/// registered for `cmd` is out of date and is dropped, and nothing is to be
/// started. Where it is not, a registered process is joined; only when there
/// is none does the caller start one, which it then hands to `take_in`.
pub fn spawn_core_command<H>(cmd: CoreCmd, app_state: &mut AppState<H>, cached: bool) -> (r:
    SpawnStep)
    ensures
        r == spawn_step(old(app_state)@, cmd, cached),
        final(app_state)@ == after_spawn_step(old(app_state)@, cmd, cached),
{
    if cached {
        app_state.forget(cmd);
        SpawnStep::Satisfied
    } else if app_state.is_running(cmd) {
        SpawnStep::Attach
    } else {
        SpawnStep::Spawn
    }
}

/// The first half of a wait for the artifact of `cmd`. `cached` tells whether
/// the artifact is there.
///
/// Where a process is registered for `cmd`, the caller waits for it and then
/// calls `finish_core_command`. Where none is, the wait is over: it gives the
/// path of the artifact if that is there, and fails if it is not, since
/// nobody is producing it.
pub fn wait_core_command<'a, H>(
    cmd: CoreCmd,
    app_state: &'a AppState<H>,
    config: &Config,
    cached: bool,
) -> (r: WaitStep<'a, H>)
    ensures
        match r {
            WaitStep::Join(handle) => app_state@.contains_key(cmd) && *handle == app_state@[cmd],
            WaitStep::Done(result) => !app_state@.contains_key(cmd) && unregistered_outcome(
                cmd,
                config.cache_dir@,
                cached,
                result,
            ),
        },
{
    match app_state.handle(cmd) {
        Some(handle) => WaitStep::Join(handle),
        None => {
            let path = cmd.output(config);
            if cached {
                WaitStep::Done(Ok(path))
            } else {
                WaitStep::Done(Err(JobError::NotRunningAndMissing(path)))
            }
        },
    }
}

/// The second half of a wait for the artifact of `cmd`, after the wait for
/// its process gave `outcome`. `cached` tells whether the artifact is there
/// now.
///
/// The job leaves the registry whatever the outcome, so that a job that
/// failed can be asked for again. The wait gives the path of the artifact
/// only if the process ended with exit code 0 and the artifact is there.
pub fn finish_core_command<H>(
    cmd: CoreCmd,
    app_state: &mut AppState<H>,
    config: &Config,
    outcome: Result<ExitOutcome, String>,
    cached: bool,
) -> (r: Result<String, JobError>)
    ensures
        final(app_state)@ == old(app_state)@.remove(cmd),
        !final(app_state)@.contains_key(cmd),
        wait_outcome(cmd, config.cache_dir@, outcome, cached, r),
{
    app_state.forget(cmd);
    let exit = match outcome {
        Err(why) => {
            return Err(JobError::WaitFailed(why));
        },
        Ok(exit) => exit,
    };
    if !exit.success() {
        return Err(JobError::ProcessFailed(exit));
    }
    let path = cmd.output(config);
    if !cached {
        return Err(JobError::OutputMissingAfterSuccess(path));
    }
    Ok(path)
}

/// The registered jobs, and how many processes were started, after one
/// request for `cmd` for each element of `offered`, made one after another
/// while the artifact is not there. A request that is told to start a process
/// does so and registers it; `offered[i]` is the handle that request `i` would
/// register.
pub open spec fn after_requests<H>(entries: Map<CoreCmd, H>, cmd: CoreCmd, offered: Seq<H>) -> (
    Map<CoreCmd, H>,
    nat,
)
    decreases offered.len(),
{
    if offered.len() == 0 {
        (entries, 0)
    } else {
        let (before, started) = after_requests(entries, cmd, offered.drop_last());
        match spawn_step(before, cmd, false) {
            SpawnStep::Spawn => (after_register(before, cmd, offered.last()), started + 1),
            _ => (before, started),
        }
    }
}

/// However many requests are made for a job whose artifact is not there,
/// one process is started for them if none was registered and none if one
/// was, and they all end up with one and the same handle: that of the process
/// that was registered before them, or else that of the first request.
pub proof fn lemma_one_process_for_many_requests<H>(
    entries: Map<CoreCmd, H>,
    cmd: CoreCmd,
    offered: Seq<H>,
)
    requires
        offered.len() > 0,
    ensures
        after_requests(entries, cmd, offered).0 == after_register(entries, cmd, offered[0]),
        after_requests(entries, cmd, offered).1 == (if entries.contains_key(cmd) {
            0nat
        } else {
            1nat
        }),
        after_requests(entries, cmd, offered).0.contains_key(cmd),
    decreases offered.len(),
{
    if offered.len() == 1 {
        assert(offered.drop_last().len() == 0);
        assert(after_requests(entries, cmd, offered.drop_last()) == (entries, 0nat));
    } else {
        lemma_one_process_for_many_requests(entries, cmd, offered.drop_last());
        assert(offered.drop_last()[0] == offered[0]);
    }
}

/// Where the artifact is there before a request, the request starts no
/// process and leaves none registered, and the wait that follows is over at
/// once with the path of the artifact.
pub proof fn lemma_cached_short_circuit<H>(
    entries: Map<CoreCmd, H>,
    cmd: CoreCmd,
    cache_dir: Seq<char>,
    waited: Result<String, JobError>,
)
    requires
        unregistered_outcome(cmd, cache_dir, true, waited),
    ensures
        spawn_step(entries, cmd, true) == SpawnStep::Satisfied,
        !after_spawn_step(entries, cmd, true).contains_key(cmd),
        waited matches Ok(path) && path@ == cmd.artifact_path(cache_dir),
{
}

/// Those who waited for the process of a job and those who came when it was
/// no longer registered get the same: the path of the artifact, or a failure.
/// This holds as long as a process that fails leaves no artifact behind.
pub proof fn lemma_late_waiters_agree(
    cmd: CoreCmd,
    cache_dir: Seq<char>,
    exit: ExitOutcome,
    cached: bool,
    joined: Result<String, JobError>,
    late: Result<String, JobError>,
)
    requires
        cached ==> exit.succeeded(),
        wait_outcome(cmd, cache_dir, Ok(exit), cached, joined),
        unregistered_outcome(cmd, cache_dir, cached, late),
    ensures
        joined is Ok <==> late is Ok,
        joined is Ok ==> joined->Ok_0@ == late->Ok_0@,
{
}

} // verus!
