//! Job orchestration and caching for the ALPHA-g data handler.
//!
//! The crate holds the decisions of the server: where an artifact lives, how
//! the command line of a job is put together, when a process is started and
//! when a running one is joined, how the stages of a request follow each
//! other, and what is said to the client. Every decision is a function from
//! plain values to plain values with a proved contract; performing the
//! actions (starting processes, touching the file system, talking to
//! sockets) is left to the caller.
pub mod error;
pub mod job;
pub mod message;
pub mod process;
pub mod registry;
pub mod request;
pub mod run_info;
pub mod script;
pub mod setup;
pub mod sorting;
pub mod text;
pub mod ticket;
