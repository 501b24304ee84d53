//! Orchestration core of a compile-and-run service.
//!
//! A client hands in source text; the service compiles it with an external
//! toolchain, runs the artifact as a child process and bridges the child's
//! pipes to the client over a duplex channel or an output-only event stream.
//! This crate holds the decisions of that service as verified, synchronous
//! code: the naming of the scratch files, the framing of output, the line
//! termination of input, and the session state machine that turns each
//! observed event into the actions to perform next. Performing the actions
//! (file and process I/O, the transport) is left to the embedding program.
//!
//! - [`workspace`]: the identifier of a session and the scratch files named
//!   after it.
//! - [`bridge`] and [`framing`]: what passes between the child's pipes and
//!   the client, as chunks, as lines, and as terminated input.
//! - [`protocol`]: events, actions and phases.
//! - [`machine`]: the session as a state machine over mathematical values.
//! - [`session`]: the session that programs drive, proved to be that machine.
//! - [`traces`] and [`ordering`]: what holds of whole runs.
//! - [`auth`] and [`snippets`]: the requests of the account and snippet
//!   endpoints and the decisions of their handlers.

pub mod auth;
pub mod bridge;
pub mod framing;
pub mod machine;
pub mod ordering;
pub mod protocol;
pub mod session;
pub mod snippets;
pub mod traces;
pub mod workspace;
