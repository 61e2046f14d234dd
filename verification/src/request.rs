//! The course of one request, from the jobs it needs to the ticket for its
//! file.
//!
//! A request needs the artifacts of one or several jobs. The jobs are asked
//! for at the same time and do not wait for each other. As soon as one of
//! them fails the request is over: the client is told why, and nothing is
//! done for it any more. Only when every job has given its artifact does the
//! request go on, to its script if it has one, and then to the ticket.
//!
//! The course is kept as a state that is moved by events. The caller does
//! what the state asks for (it asks the registry for a job, waits for a
//! process, runs a script) and reports what came of it; each report gives the
//! messages for the client and what to do next.
use crate::error::JobError;
use crate::job::CoreCmd;
use crate::message::{
    enveloped, envelopes, error_text, finished_text, spawned_text, ClientMessage, ClientRequest,
    Reply, ServerMessage,
};
use crate::registry::SpawnStep;
use crate::script::{Script, ScriptError, SecondaryScript, Sequencer, TrgScalers, Vertices};
use crate::sorting::texts;
use vstd::prelude::*;
use vstd::string::*;

verus! {

/// How far one of the jobs of a request has come.
#[derive(Clone, Copy, Debug, PartialEq, Eq, Structural)]
pub enum StageState {
    /// The registry has been asked for the job; no word yet.
    Requested,
    /// The job is being waited for. `announced` tells whether the client was
    /// told that it was started, which it is not where the artifact was
    /// there already.
    Running { announced: bool },
    /// The artifact is there.
    Done,
}

/// Where a request stands.
#[derive(Clone, Copy, Debug, PartialEq, Eq, Structural)]
pub enum Phase {
    /// Its jobs are under way.
    Upstream,
    /// Its script is running.
    Script,
    /// It is over: the file is ready to be handed out, or the request failed.
    Closed,
}

/// What the caller reports.
#[derive(Debug)]
#[allow(inconsistent_fields)]
pub enum Event {
    /// The registry was asked for the job at place `stage`.
    Spawned { stage: usize, result: Result<SpawnStep, JobError> },
    /// The wait for the job at place `stage` is over.
    Waited { stage: usize, result: Result<String, JobError> },
    /// The script has ended.
    ScriptEnded { result: Result<String, ScriptError> },
}

/// What the caller is to do next.
pub enum Action {
    /// Nothing: go on reporting what is under way, if anything.
    Nothing,
    /// Wait for the artifact of this job.
    Wait(CoreCmd),
    /// Run `script`, which is to write a file named `output` into a fresh
    /// directory.
    RunScript { script: Script, output: String },
    /// Give the client a ticket for the file at this path.
    Deliver(String),
}

/// What the caller is to do next, as plain values.
pub enum Planned {
    Nothing,
    Wait(CoreCmd),
    RunScript,
    Deliver(Seq<char>),
}

/// What a report gives.
pub struct Step {
    /// The messages for the client, in the order in which they are sent.
    pub messages: Vec<ServerMessage>,
    pub action: Action,
}

/// The state of a request.
pub struct RequestState {
    service: String,
    context: String,
    request: ClientRequest,
    states: Vec<StageState>,
    paths: Vec<String>,
    phase: Phase,
}

/// The state of a request, as plain values.
pub struct RequestView {
    pub service: Seq<char>,
    pub context: Seq<char>,
    pub request: ClientRequest,
    /// How far each job has come.
    pub states: Seq<StageState>,
    /// The path of the artifact of each job that is done.
    pub paths: Seq<Seq<char>>,
    pub phase: Phase,
}

/// A state after a report, with the messages and the next action.
pub struct Outcome {
    pub state: RequestView,
    pub replies: Seq<Reply>,
    pub action: Planned,
}

/// Whether every job is done.
pub open spec fn all_done(states: Seq<StageState>) -> bool {
    forall|i: int| 0 <= i < states.len() ==> #[trigger] states[i] == StageState::Done
}

impl RequestView {
    /// A state has one place for each job of its request.
    pub open spec fn wf(self) -> bool {
        &&& self.states.len() == self.request.upstream().len()
        &&& self.paths.len() == self.request.upstream().len()
    }

    /// The state in which a request begins: every job asked for.
    pub open spec fn begin(msg: ClientMessage) -> RequestView {
        RequestView {
            service: msg.service@,
            context: msg.context@,
            request: msg.request,
            states: Seq::new(msg.request.upstream().len(), |i: int| StageState::Requested),
            paths: Seq::new(msg.request.upstream().len(), |i: int| Seq::<char>::empty()),
            phase: Phase::Upstream,
        }
    }

    /// The same state in another phase.
    pub open spec fn in_phase(self, phase: Phase) -> RequestView {
        RequestView {
            service: self.service,
            context: self.context,
            request: self.request,
            states: self.states,
            paths: self.paths,
            phase,
        }
    }

    /// The same state with the job at place `stage` in state `state`.
    pub open spec fn with_stage(self, stage: int, state: StageState) -> RequestView {
        RequestView {
            service: self.service,
            context: self.context,
            request: self.request,
            states: self.states.update(stage, state),
            paths: self.paths,
            phase: self.phase,
        }
    }

    /// The same state with the job at place `stage` done, its artifact at
    /// `path`.
    pub open spec fn with_artifact(self, stage: int, path: Seq<char>) -> RequestView {
        RequestView {
            service: self.service,
            context: self.context,
            request: self.request,
            states: self.states.update(stage, StageState::Done),
            paths: self.paths.update(stage, path),
            phase: self.phase,
        }
    }

    /// A report that does not fit the state changes nothing.
    pub open spec fn ignored(self) -> Outcome {
        Outcome { state: self, replies: Seq::empty(), action: Planned::Nothing }
    }

    /// A failure ends the request: the client is told why, and nothing more
    /// is done.
    pub open spec fn failed(self, why: Seq<char>) -> Outcome {
        Outcome {
            state: self.in_phase(Phase::Closed),
            replies: seq![Reply::Error(error_text(why))],
            action: Planned::Nothing,
        }
    }

    /// What the report that the registry was asked for the job at place
    /// `stage` gives.
    pub open spec fn spawned(self, stage: int, result: Result<SpawnStep, JobError>) -> Outcome {
        if self.phase != Phase::Upstream || stage >= self.states.len() || self.states[stage]
            != StageState::Requested {
            self.ignored()
        } else {
            match result {
                Err(error) => self.failed(error.text()),
                Ok(step) => {
                    let cmd = self.request.upstream()[stage];
                    let announced = step != SpawnStep::Satisfied;
                    Outcome {
                        state: self.with_stage(stage, StageState::Running { announced }),
                        replies: if announced {
                            seq![Reply::Text(spawned_text(cmd.bin.label()))]
                        } else {
                            Seq::empty()
                        },
                        action: Planned::Wait(cmd),
                    }
                },
            }
        }
    }

    /// What the report that the wait for the job at place `stage` is over
    /// gives.
    pub open spec fn waited(self, stage: int, result: Result<String, JobError>) -> Outcome {
        if self.phase != Phase::Upstream || stage >= self.states.len() || !(self.states[stage] is Running) {
            self.ignored()
        } else {
            match result {
                Err(error) => self.failed(error.text()),
                Ok(path) => {
                    let cmd = self.request.upstream()[stage];
                    let state = self.with_artifact(stage, path@);
                    let finished = if self.states[stage]->announced {
                        seq![Reply::Text(finished_text(cmd.bin.label()))]
                    } else {
                        Seq::empty()
                    };
                    if !all_done(state.states) {
                        Outcome { state, replies: finished, action: Planned::Nothing }
                    } else {
                        match self.request.script_name() {
                            Some(script) => Outcome {
                                state: state.in_phase(Phase::Script),
                                replies: finished.push(Reply::Text(spawned_text(script))),
                                action: Planned::RunScript,
                            },
                            None => Outcome {
                                state: state.in_phase(Phase::Closed),
                                replies: finished,
                                action: Planned::Deliver(path@),
                            },
                        }
                    }
                },
            }
        }
    }

    /// What the report that the script has ended gives.
    pub open spec fn script_ended(self, result: Result<String, ScriptError>) -> Outcome {
        if self.phase != Phase::Script || self.request.script_name().is_none() {
            self.ignored()
        } else {
            match result {
                Err(error) => self.failed(error.text()),
                Ok(path) => Outcome {
                    state: self.in_phase(Phase::Closed),
                    replies: seq![
                        Reply::Text(finished_text(self.request.script_name().unwrap())),
                    ],
                    action: Planned::Deliver(path@),
                },
            }
        }
    }

    /// What a report gives.
    pub open spec fn next(self, event: Event) -> Outcome {
        match event {
            Event::Spawned { stage, result } => self.spawned(stage as int, result),
            Event::Waited { stage, result } => self.waited(stage as int, result),
            Event::ScriptEnded { result } => self.script_ended(result),
        }
    }

    /// Whether `script` is the script of the request, set to work on the
    /// artifacts of its jobs.
    pub open spec fn runs(self, script: Script) -> bool {
        match self.request {
            ClientRequest::SequencerEvents { run_number } => script matches Script::Sequencer(s)
                && s.sequencer_csv@ == self.paths[0] && s.initial_odb_json@ == self.paths[1]
                && s.chronobox_csv@ == self.paths[2],
            ClientRequest::TrgScalersPlot { run_number, args } => script matches Script::TrgScalers(
                s,
            ) && s.csv@ == self.paths[0] && s.args == args,
            ClientRequest::VerticesPlot { run_number, args } => script matches Script::Vertices(s)
                && s.csv@ == self.paths[0] && s.args == args,
            _ => false,
        }
    }

    /// Whether `action` is what `planned` says, in this state.
    pub open spec fn asks(self, action: Action, planned: Planned) -> bool {
        match planned {
            Planned::Nothing => action is Nothing,
            Planned::Wait(cmd) => action matches Action::Wait(c) && c == cmd,
            Planned::RunScript => action matches Action::RunScript { script, output }
                && self.runs(script) && self.request.product() == Some(output@),
            Planned::Deliver(path) => action matches Action::Deliver(p) && p@ == path,
        }
    }
}

impl View for RequestState {
    type V = RequestView;

    closed spec fn view(&self) -> RequestView {
        RequestView {
            service: self.service@,
            context: self.context@,
            request: self.request,
            states: self.states@,
            paths: texts(self.paths@),
            phase: self.phase,
        }
    }
}

/// Takes up the request of a client. The caller then asks the registry for
/// each of the jobs of the request and reports what it was told.
pub fn handle_client_message(msg: ClientMessage) -> (r: RequestState)
    ensures
        r@ == RequestView::begin(msg),
        r@.wf(),
{
    let count = msg.request.jobs().len();
    let mut states: Vec<StageState> = Vec::new();
    let mut paths: Vec<String> = Vec::new();
    let mut i: usize = 0;
    while i < count
        invariant
            i <= count,
            states@.len() == i,
            paths@.len() == i,
            forall|j: int| 0 <= j < i ==> states@[j] == StageState::Requested,
            forall|j: int| 0 <= j < i ==> (#[trigger] paths@[j])@ == Seq::<char>::empty(),
        decreases count - i,
    {
        states.push(StageState::Requested);
        paths.push(String::new());
        i = i + 1;
    }
    let r = RequestState {
        service: msg.service,
        context: msg.context,
        request: msg.request,
        states,
        paths,
        phase: Phase::Upstream,
    };
    assert(r@.states =~= RequestView::begin(msg).states);
    assert(r@.paths =~= RequestView::begin(msg).paths);
    r
}

impl RequestState {
    /// The jobs of the request, each at its place.
    pub fn jobs(&self) -> (r: Vec<CoreCmd>)
        ensures
            r@ == self@.request.upstream(),
    {
        self.request.jobs()
    }

    /// Where the request stands.
    pub fn phase(&self) -> (r: Phase)
        ensures
            r == self@.phase,
    {
        self.phase
    }

    /// Whether the request is over.
    pub fn is_closed(&self) -> (r: bool)
        ensures
            r == (self@.phase == Phase::Closed),
    {
        self.phase == Phase::Closed
    }

    fn every_job_done(&self) -> (r: bool)
        ensures
            r == all_done(self.states@),
    {
        let mut i: usize = 0;
        while i < self.states.len()
            invariant
                i <= self.states@.len(),
                forall|j: int| 0 <= j < i ==> #[trigger] self.states@[j] == StageState::Done,
            decreases self.states@.len() - i,
        {
            if self.states[i] != StageState::Done {
                return false;
            }
            i = i + 1;
        }
        true
    }

    fn ignore(&self) -> (r: Step)
        ensures
            envelopes(r.messages@) == enveloped(self@.service, self@.context, self@.ignored().replies),
            r.action is Nothing,
    {
        let messages: Vec<ServerMessage> = Vec::new();
        assert(envelopes(messages@) =~= enveloped(
            self@.service,
            self@.context,
            self@.ignored().replies,
        ));
        Step { messages, action: Action::Nothing }
    }

    fn fail(&mut self, why: &str) -> (r: Step)
        ensures
            final(self)@ == old(self)@.failed(why@).state,
            envelopes(r.messages@) == enveloped(
                old(self)@.service,
                old(self)@.context,
                old(self)@.failed(why@).replies,
            ),
            r.action is Nothing,
    {
        self.phase = Phase::Closed;
        let mut messages: Vec<ServerMessage> = Vec::new();
        messages.push(ServerMessage::error(self.service.as_str(), self.context.as_str(), why));
        assert(envelopes(messages@) =~= enveloped(
            old(self)@.service,
            old(self)@.context,
            old(self)@.failed(why@).replies,
        ));
        Step { messages, action: Action::Nothing }
    }

    fn script(&self) -> (r: Script)
        requires
            self@.wf(),
            self@.request.script_name().is_some(),
        ensures
            self@.runs(r),
            Some(r.file_name()) == self@.request.script_name(),
    {
        match &self.request {
            ClientRequest::SequencerEvents { run_number } => {
                assert(self@.request.upstream().len() == 3);
                Script::Sequencer(
                    Sequencer {
                        sequencer_csv: self.paths[0].clone(),
                        initial_odb_json: self.paths[1].clone(),
                        chronobox_csv: self.paths[2].clone(),
                    },
                )
            },
            ClientRequest::TrgScalersPlot { run_number, args } => {
                assert(self@.request.upstream().len() == 1);
                Script::TrgScalers(TrgScalers { csv: self.paths[0].clone(), args: args.duplicate() })
            },
            ClientRequest::VerticesPlot { run_number, args } => {
                assert(self@.request.upstream().len() == 1);
                Script::Vertices(Vertices { csv: self.paths[0].clone(), args: args.duplicate() })
            },
            _ => {
                proof {
                    assert(false);
                }
                Script::Sequencer(
                    Sequencer {
                        sequencer_csv: String::new(),
                        initial_odb_json: String::new(),
                        chronobox_csv: String::new(),
                    },
                )
            },
        }
    }

    fn on_spawned(&mut self, stage: usize, result: Result<SpawnStep, JobError>) -> (r: Step)
        requires
            old(self)@.wf(),
        ensures
            final(self)@ == old(self)@.spawned(stage as int, result).state,
            envelopes(r.messages@) == enveloped(
                old(self)@.service,
                old(self)@.context,
                old(self)@.spawned(stage as int, result).replies,
            ),
            final(self)@.asks(r.action, old(self)@.spawned(stage as int, result).action),
    {
        if self.phase != Phase::Upstream || stage >= self.states.len() || self.states[stage]
            != StageState::Requested {
            return self.ignore();
        }
        let step = match result {
            Err(error) => {
                let why = error.message();
                return self.fail(why.as_str());
            },
            Ok(step) => step,
        };
        let jobs = self.request.jobs();
        let cmd = jobs[stage];
        let announced = step != SpawnStep::Satisfied;
        self.states.set(stage, StageState::Running { announced });
        let mut messages: Vec<ServerMessage> = Vec::new();
        if announced {
            messages.push(
                ServerMessage::spawned(self.service.as_str(), self.context.as_str(), cmd.bin.name()),
            );
        }
        assert(envelopes(messages@) =~= enveloped(
            old(self)@.service,
            old(self)@.context,
            old(self)@.spawned(stage as int, result).replies,
        ));
        Step { messages, action: Action::Wait(cmd) }
    }

    fn on_waited(&mut self, stage: usize, result: Result<String, JobError>) -> (r: Step)
        requires
            old(self)@.wf(),
        ensures
            final(self)@ == old(self)@.waited(stage as int, result).state,
            envelopes(r.messages@) == enveloped(
                old(self)@.service,
                old(self)@.context,
                old(self)@.waited(stage as int, result).replies,
            ),
            final(self)@.asks(r.action, old(self)@.waited(stage as int, result).action),
    {
        if self.phase != Phase::Upstream || stage >= self.states.len() {
            return self.ignore();
        }
        let announced = match self.states[stage] {
            StageState::Running { announced } => announced,
            _ => {
                return self.ignore();
            },
        };
        let path = match result {
            Err(error) => {
                let why = error.message();
                return self.fail(why.as_str());
            },
            Ok(path) => path,
        };
        let jobs = self.request.jobs();
        let cmd = jobs[stage];
        let ghost planned = old(self)@.waited(stage as int, result);
        let delivered = path.clone();
        self.states.set(stage, StageState::Done);
        self.paths.set(stage, path);
        assert(self@ == old(self)@.with_artifact(stage as int, path@)) by {
            assert(texts(self.paths@) =~= texts(old(self).paths@).update(stage as int, path@));
        }
        let mut messages: Vec<ServerMessage> = Vec::new();
        if announced {
            messages.push(
                ServerMessage::finished(
                    self.service.as_str(),
                    self.context.as_str(),
                    cmd.bin.name(),
                ),
            );
        }
        if !self.every_job_done() {
            assert(envelopes(messages@) =~= enveloped(
                old(self)@.service,
                old(self)@.context,
                planned.replies,
            ));
            return Step { messages, action: Action::Nothing };
        }
        match self.request.script_output() {
            Some(output) => {
                let script = self.script();
                self.phase = Phase::Script;
                let name = script.name();
                messages.push(
                    ServerMessage::spawned(
                        self.service.as_str(),
                        self.context.as_str(),
                        name.as_str(),
                    ),
                );
                assert(envelopes(messages@) =~= enveloped(
                    old(self)@.service,
                    old(self)@.context,
                    planned.replies,
                ));
                Step { messages, action: Action::RunScript { script, output } }
            },
            None => {
                self.phase = Phase::Closed;
                assert(envelopes(messages@) =~= enveloped(
                    old(self)@.service,
                    old(self)@.context,
                    planned.replies,
                ));
                Step { messages, action: Action::Deliver(delivered) }
            },
        }
    }

    fn on_script_ended(&mut self, result: Result<String, ScriptError>) -> (r: Step)
        requires
            old(self)@.wf(),
        ensures
            final(self)@ == old(self)@.script_ended(result).state,
            envelopes(r.messages@) == enveloped(
                old(self)@.service,
                old(self)@.context,
                old(self)@.script_ended(result).replies,
            ),
            final(self)@.asks(r.action, old(self)@.script_ended(result).action),
    {
        if self.phase != Phase::Script || self.request.script_output().is_none() {
            return self.ignore();
        }
        let path = match result {
            Err(error) => {
                let why = error.message();
                return self.fail(why.as_str());
            },
            Ok(path) => path,
        };
        let script = self.script();
        let name = script.name();
        self.phase = Phase::Closed;
        let mut messages: Vec<ServerMessage> = Vec::new();
        messages.push(
            ServerMessage::finished(self.service.as_str(), self.context.as_str(), name.as_str()),
        );
        assert(envelopes(messages@) =~= enveloped(
            old(self)@.service,
            old(self)@.context,
            old(self)@.script_ended(result).replies,
        ));
        Step { messages, action: Action::Deliver(path) }
    }

    /// Moves the request on by what the caller reports, and gives the
    /// messages for the client and what to do next. A report that does not
    /// fit the state of the request is passed over.
    pub fn step(&mut self, event: Event) -> (r: Step)
        requires
            old(self)@.wf(),
        ensures
            final(self)@.wf(),
            final(self)@ == old(self)@.next(event).state,
            envelopes(r.messages@) == enveloped(
                old(self)@.service,
                old(self)@.context,
                old(self)@.next(event).replies,
            ),
            final(self)@.asks(r.action, old(self)@.next(event).action),
    {
        match event {
            Event::Spawned { stage, result } => self.on_spawned(stage, result),
            Event::Waited { stage, result } => self.on_waited(stage, result),
            Event::ScriptEnded { result } => self.on_script_ended(result),
        }
    }
}

/// The last of `actions` that asks for something, or `Nothing` where none
/// does.
pub open spec fn last_asked(actions: Seq<Action>) -> Action
    decreases actions.len(),
{
    if actions.len() == 0 {
        Action::Nothing
    } else if !(actions.last() is Nothing) {
        actions.last()
    } else {
        last_asked(actions.drop_last())
    }
}

/// What is to be done once the jobs of a request have all been waited for,
/// given what the report of each of them asked for: the job that ended last
/// carries what comes next, and the others asked for nothing.
pub fn next_action(actions: Vec<Action>) -> (r: Action)
    ensures
        r == last_asked(actions@),
{
    let mut rest = actions;
    loop
        invariant
            last_asked(actions@) == last_asked(rest@),
        decreases rest@.len(),
    {
        let ghost before = rest@;
        match rest.pop() {
            None => {
                return Action::Nothing;
            },
            Some(action) => {
                assert(before.last() == action);
                assert(before.drop_last() =~= rest@);
                match action {
                    Action::Nothing => {},
                    asked => {
                        return asked;
                    },
                }
            },
        }
    }
}

impl RequestView {
    /// The state after the reports `events`, one after another.
    pub open spec fn run(self, events: Seq<Event>) -> RequestView
        decreases events.len(),
    {
        if events.len() == 0 {
            self
        } else {
            self.run(events.drop_last()).next(events.last()).state
        }
    }
}

/// Every report leaves the state with one place for each job of its
/// request, and with the marks and the request that it began with.
pub proof fn lemma_next_keeps_request(state: RequestView, event: Event)
    requires
        state.wf(),
    ensures
        state.next(event).state.wf(),
        state.next(event).state.request == state.request,
        state.next(event).state.service == state.service,
        state.next(event).state.context == state.context,
{
}

/// A request that is over stays over: whatever is reported after that, the
/// client gets no message and the caller nothing to do.
pub proof fn lemma_closed_is_final(state: RequestView, events: Seq<Event>)
    requires
        state.phase == Phase::Closed,
    ensures
        state.run(events) == state,
        forall|i: int|
            0 <= i < events.len() ==> state.run(events.subrange(0, i)).next(#[trigger] events[i])
                == state.ignored(),
    decreases events.len(),
{
    if events.len() > 0 {
        lemma_closed_is_final(state, events.drop_last());
    }
    assert forall|i: int| 0 <= i < events.len() implies state.run(events.subrange(0, i)).next(
        #[trigger] events[i],
    ) == state.ignored() by {
        lemma_closed_is_final(state, events.subrange(0, i));
    }
}

/// The script of a request is asked for by the report that its last job is
/// done, and by no other: at that point every job of the request is done.
pub proof fn lemma_script_needs_every_job(state: RequestView, event: Event)
    requires
        state.next(event).action is RunScript,
    ensures
        event matches Event::Waited { stage, result } && result is Ok,
        state.phase == Phase::Upstream,
        all_done(state.next(event).state.states),
        state.next(event).state.phase == Phase::Script,
{
}

/// Where a job of a request fails, be it when the registry is asked for it or
/// when it is waited for, the client is told the error, and whatever is
/// reported after that, for the other jobs or for anything else, the script
/// is not run, no ticket is given and no further message is sent.
pub proof fn lemma_fail_fast(
    state: RequestView,
    failure: Event,
    error: JobError,
    later: Seq<Event>,
)
    requires
        state.phase == Phase::Upstream,
        match failure {
            Event::Spawned { stage, result } => stage < state.states.len() && state.states[stage as int]
                == StageState::Requested && result == Err::<SpawnStep, JobError>(error),
            Event::Waited { stage, result } => stage < state.states.len()
                && state.states[stage as int] is Running && result == Err::<String, JobError>(
                error,
            ),
            Event::ScriptEnded { result } => false,
        },
    ensures
        state.next(failure).replies == seq![Reply::Error(error_text(error.text()))],
        state.next(failure).action is Nothing,
        state.next(failure).state.phase == Phase::Closed,
        forall|i: int|
            0 <= i < later.len() ==> {
                let outcome = state.next(failure).state.run(later.subrange(0, i)).next(
                    #[trigger] later[i],
                );
                outcome.action is Nothing && outcome.replies.len() == 0
            },
{
    lemma_closed_is_final(state.next(failure).state, later);
}

} // verus!
