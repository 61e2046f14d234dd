//! What clients ask for and what they are told.
//!
//! A client marks each request with two texts of its own, `service` and
//! `context`. The server does not read them; it puts them unchanged on every
//! answer to that request, so that the client can tell the answers apart.
use crate::job::{CoreBin, CoreCmd};
use crate::script::{TrgScalersArgs, VerticesArgs};
use crate::text::{decimal, push_decimal};
use vstd::prelude::*;
use vstd::string::*;

verus! {

/// A request as it comes from a client.
#[derive(Clone, Debug)]
pub struct ClientMessage {
    pub service: String,
    pub context: String,
    pub request: ClientRequest,
}

/// The things a client can ask for.
#[derive(Clone, Debug)]
#[allow(inconsistent_fields)]
pub enum ClientRequest {
    ChronoboxCsv { run_number: u32 },
    InitialOdb { run_number: u32 },
    SequencerEvents { run_number: u32 },
    TrgScalersCsv { run_number: u32 },
    TrgScalersPlot { run_number: u32, args: TrgScalersArgs },
    VerticesCsv { run_number: u32 },
    VerticesPlot { run_number: u32, args: VerticesArgs },
}

/// An answer as it goes to a client.
#[derive(Clone, Debug)]
pub struct ServerMessage {
    pub service: String,
    pub context: String,
    pub response: ServerResponse,
}

/// What an answer says: how far the work has come, that it failed, or the
/// ticket with which the file can be fetched.
#[derive(Clone, Debug)]
pub enum ServerResponse {
    Text(String),
    Error(String),
    DownloadJWT(String),
}

/// What an answer says, as plain text.
pub enum Reply {
    Text(Seq<char>),
    Error(Seq<char>),
    DownloadJWT(Seq<char>),
}

/// An answer, as plain text.
pub struct Envelope {
    pub service: Seq<char>,
    pub context: Seq<char>,
    pub response: Reply,
}

impl View for ServerResponse {
    type V = Reply;

    open spec fn view(&self) -> Reply {
        match self {
            ServerResponse::Text(text) => Reply::Text(text@),
            ServerResponse::Error(text) => Reply::Error(text@),
            ServerResponse::DownloadJWT(token) => Reply::DownloadJWT(token@),
        }
    }
}

impl View for ServerMessage {
    type V = Envelope;

    open spec fn view(&self) -> Envelope {
        Envelope { service: self.service@, context: self.context@, response: self.response@ }
    }
}

/// The answers `replies` to a request marked `service` and `context`.
pub open spec fn enveloped(service: Seq<char>, context: Seq<char>, replies: Seq<Reply>) -> Seq<
    Envelope,
> {
    Seq::new(replies.len(), |i: int| Envelope { service, context, response: replies[i] })
}

/// The answers in `messages`, as plain text.
pub open spec fn envelopes(messages: Seq<ServerMessage>) -> Seq<Envelope> {
    Seq::new(messages.len(), |i: int| messages[i]@)
}

/// The text that tells that `what` was started.
pub open spec fn spawned_text(what: Seq<char>) -> Seq<char> {
    "Spawned `"@ + what + "`"@
}

/// The text that tells that `what` has done its work.
pub open spec fn finished_text(what: Seq<char>) -> Seq<char> {
    "Finished running `"@ + what + "`"@
}

/// The text that tells that the request failed, and why.
pub open spec fn error_text(why: Seq<char>) -> Seq<char> {
    "Error: "@ + why
}

impl ServerMessage {
    /// An answer to a request marked `service` and `context`.
    pub fn reply(service: &str, context: &str, response: ServerResponse) -> (r: Self)
        ensures
            r@ == (Envelope { service: service@, context: context@, response: response@ }),
    {
        ServerMessage {
            service: String::from_str(service),
            context: String::from_str(context),
            response,
        }
    }

    /// The answer that tells that `what` was started.
    pub fn spawned(service: &str, context: &str, what: &str) -> (r: Self)
        ensures
            r@ == (Envelope {
                service: service@,
                context: context@,
                response: Reply::Text(spawned_text(what@)),
            }),
    {
        let mut text = String::from_str("Spawned `");
        text.append(what);
        text.append("`");
        ServerMessage::reply(service, context, ServerResponse::Text(text))
    }

    /// The answer that tells that `what` has done its work.
    pub fn finished(service: &str, context: &str, what: &str) -> (r: Self)
        ensures
            r@ == (Envelope {
                service: service@,
                context: context@,
                response: Reply::Text(finished_text(what@)),
            }),
    {
        let mut text = String::from_str("Finished running `");
        text.append(what);
        text.append("`");
        ServerMessage::reply(service, context, ServerResponse::Text(text))
    }

    /// The answer that tells that the request failed, and why.
    pub fn error(service: &str, context: &str, why: &str) -> (r: Self)
        ensures
            r@ == (Envelope {
                service: service@,
                context: context@,
                response: Reply::Error(error_text(why@)),
            }),
    {
        let mut text = String::from_str("Error: ");
        text.append(why);
        ServerMessage::reply(service, context, ServerResponse::Error(text))
    }
}

/// The name of the file that a script writes for run `run_number`, ending in
/// `suffix`.
pub open spec fn product_name(run_number: u32, suffix: Seq<char>) -> Seq<char> {
    "R"@ + decimal(run_number as nat) + suffix
}

impl ClientRequest {
    /// The run number that the request is about.
    pub open spec fn run(self) -> u32 {
        match self {
            ClientRequest::ChronoboxCsv { run_number } => run_number,
            ClientRequest::InitialOdb { run_number } => run_number,
            ClientRequest::SequencerEvents { run_number } => run_number,
            ClientRequest::TrgScalersCsv { run_number } => run_number,
            ClientRequest::TrgScalersPlot { run_number, args } => run_number,
            ClientRequest::VerticesCsv { run_number } => run_number,
            ClientRequest::VerticesPlot { run_number, args } => run_number,
        }
    }

    /// The kinds of job whose artifacts the request needs, in the order in
    /// which its script, if it has one, takes them.
    pub open spec fn kinds(self) -> Seq<CoreBin> {
        match self {
            ClientRequest::ChronoboxCsv { run_number } => seq![CoreBin::ChronoboxTimestamps],
            ClientRequest::InitialOdb { run_number } => seq![CoreBin::InitialOdb],
            ClientRequest::SequencerEvents { run_number } => seq![
                CoreBin::Sequencer,
                CoreBin::InitialOdb,
                CoreBin::ChronoboxTimestamps,
            ],
            ClientRequest::TrgScalersCsv { run_number } => seq![CoreBin::TrgScalers],
            ClientRequest::TrgScalersPlot { run_number, args } => seq![CoreBin::TrgScalers],
            ClientRequest::VerticesCsv { run_number } => seq![CoreBin::Vertices],
            ClientRequest::VerticesPlot { run_number, args } => seq![CoreBin::Vertices],
        }
    }

    /// The jobs whose artifacts the request needs.
    pub open spec fn upstream(self) -> Seq<CoreCmd> {
        Seq::new(
            self.kinds().len(),
            |i: int| CoreCmd { bin: self.kinds()[i], run_number: self.run() },
        )
    }

    /// The name of the script that the request ends with, if it has one.
    pub open spec fn script_name(self) -> Option<Seq<char>> {
        match self {
            ClientRequest::SequencerEvents { run_number } => Some("sequencer.py"@),
            ClientRequest::TrgScalersPlot { run_number, args } => Some("trg_scalers.py"@),
            ClientRequest::VerticesPlot { run_number, args } => Some("vertices.py"@),
            _ => None,
        }
    }

    /// The name of the file that the script of the request writes, if it has
    /// one.
    pub open spec fn product(self) -> Option<Seq<char>> {
        match self {
            ClientRequest::SequencerEvents { run_number } => Some(
                product_name(run_number, "_sequencer_events.csv"@),
            ),
            ClientRequest::TrgScalersPlot { run_number, args } => Some(
                product_name(run_number, "_trg_scalers_plot.pdf"@),
            ),
            ClientRequest::VerticesPlot { run_number, args } => Some(
                product_name(run_number, "_vertices_plot.pdf"@),
            ),
            _ => None,
        }
    }

    /// The run number that the request is about.
    pub fn run_number(&self) -> (r: u32)
        ensures
            r == self.run(),
    {
        match self {
            ClientRequest::ChronoboxCsv { run_number } => *run_number,
            ClientRequest::InitialOdb { run_number } => *run_number,
            ClientRequest::SequencerEvents { run_number } => *run_number,
            ClientRequest::TrgScalersCsv { run_number } => *run_number,
            ClientRequest::TrgScalersPlot { run_number, args } => *run_number,
            ClientRequest::VerticesCsv { run_number } => *run_number,
            ClientRequest::VerticesPlot { run_number, args } => *run_number,
        }
    }

    /// The jobs whose artifacts the request needs. They do not depend on each
    /// other and can be done at the same time.
    pub fn jobs(&self) -> (r: Vec<CoreCmd>)
        ensures
            r@ == self.upstream(),
    {
        let run_number = self.run_number();
        let mut r: Vec<CoreCmd> = Vec::new();
        match self {
            ClientRequest::ChronoboxCsv { run_number: _ } => {
                r.push(CoreCmd { bin: CoreBin::ChronoboxTimestamps, run_number });
            },
            ClientRequest::InitialOdb { run_number: _ } => {
                r.push(CoreCmd { bin: CoreBin::InitialOdb, run_number });
            },
            ClientRequest::SequencerEvents { run_number: _ } => {
                r.push(CoreCmd { bin: CoreBin::Sequencer, run_number });
                r.push(CoreCmd { bin: CoreBin::InitialOdb, run_number });
                r.push(CoreCmd { bin: CoreBin::ChronoboxTimestamps, run_number });
            },
            ClientRequest::TrgScalersCsv { run_number: _ } => {
                r.push(CoreCmd { bin: CoreBin::TrgScalers, run_number });
            },
            ClientRequest::TrgScalersPlot { run_number: _, args } => {
                r.push(CoreCmd { bin: CoreBin::TrgScalers, run_number });
            },
            ClientRequest::VerticesCsv { run_number: _ } => {
                r.push(CoreCmd { bin: CoreBin::Vertices, run_number });
            },
            ClientRequest::VerticesPlot { run_number: _, args } => {
                r.push(CoreCmd { bin: CoreBin::Vertices, run_number });
            },
        }
        assert(r@ =~= self.upstream());
        r
    }

    /// The name of the file that the script of the request writes, if it has
    /// one.
    pub fn script_output(&self) -> (r: Option<String>)
        ensures
            match r {
                Some(name) => self.product() == Some(name@),
                None => self.product().is_none(),
            },
    {
        let suffix = match self {
            ClientRequest::SequencerEvents { run_number } => "_sequencer_events.csv",
            ClientRequest::TrgScalersPlot { run_number, args } => "_trg_scalers_plot.pdf",
            ClientRequest::VerticesPlot { run_number, args } => "_vertices_plot.pdf",
            _ => {
                return None;
            },
        };
        let mut name = String::from_str("R");
        push_decimal(&mut name, self.run_number());
        name.append(suffix);
        Some(name)
    }
}

} // verus!
