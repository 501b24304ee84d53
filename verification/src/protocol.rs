//! The vocabulary between the session and the program that embeds it: the
//! events the program reports, the actions the session asks for, and the
//! phases a session passes through.

use crate::bridge::Inbound;
use crate::bridge::Pipe;
use vstd::prelude::*;
use vstd::string::*;

verus! {

/// The shape of the channel to the client.
#[derive(Clone, Copy, Debug, PartialEq, Eq, Structural)]
pub enum Transport {
    /// Bidirectional and message-oriented: the client may send input while
    /// output is streaming.
    Duplex,
    /// Output only: one event per line of output, closed when production
    /// ends.
    EventStream,
}

/// The phases of a session. `SourceWritten` and `CompileSucceeded` are
/// milestones: a session passes them within the step that reaches them and
/// is next observed in `Compiling` and `Spawning`.
#[derive(Clone, Copy, Debug, PartialEq, Eq, Structural)]
pub enum Phase {
    /// The request is in; the source is being written.
    Received,
    /// The source file is on disk.
    SourceWritten,
    /// The compiler is running.
    Compiling,
    /// The compiler failed or could not be started. Terminal.
    CompileFailed,
    /// The compiler produced the artifact.
    CompileSucceeded,
    /// The artifact is being started.
    Spawning,
    /// The artifact could not be started. Terminal.
    SpawnFailed,
    /// The child runs and the bridge forwards.
    Running,
    /// The child exited and both output pipes were read to their end.
    /// Terminal.
    Completed,
    /// The session was cut short: by a workspace failure, a stream fault or
    /// the loss of the transport. Terminal.
    Interrupted,
}

impl Phase {
    /// Whether no event leads out of this phase.
    pub open spec fn is_terminal(self) -> bool {
        self == Phase::CompileFailed || self == Phase::SpawnFailed || self == Phase::Completed
            || self == Phase::Interrupted
    }

    /// Whether a session passes this phase without resting in it.
    pub open spec fn is_milestone(self) -> bool {
        self == Phase::SourceWritten || self == Phase::CompileSucceeded
    }

    /// Whether the course of a session leads from this phase straight to
    /// `next`: forward along the course, or out of it into `Interrupted`.
    pub open spec fn leads_to(self, next: Phase) -> bool {
        match (self, next) {
            (Phase::Received, Phase::SourceWritten) => true,
            (Phase::SourceWritten, Phase::Compiling) => true,
            (Phase::Compiling, Phase::CompileFailed) => true,
            (Phase::Compiling, Phase::CompileSucceeded) => true,
            (Phase::CompileSucceeded, Phase::Spawning) => true,
            (Phase::Spawning, Phase::SpawnFailed) => true,
            (Phase::Spawning, Phase::Running) => true,
            (Phase::Running, Phase::Completed) => true,
            (Phase::Received, Phase::Interrupted) => true,
            (Phase::Compiling, Phase::Interrupted) => true,
            (Phase::Spawning, Phase::Interrupted) => true,
            (Phase::Running, Phase::Interrupted) => true,
            _ => false,
        }
    }

    /// The phases a session enters on its way from this phase to `to`, the
    /// phase it is next observed in: the milestone between them, if there is
    /// one, and `to`; nothing if it stays where it is.
    pub open spec fn course_to(self, to: Phase) -> Seq<Phase> {
        if self == to {
            Seq::empty()
        } else if self == Phase::Received && to == Phase::Compiling {
            seq![Phase::SourceWritten, Phase::Compiling]
        } else if self == Phase::Compiling && to == Phase::Spawning {
            seq![Phase::CompileSucceeded, Phase::Spawning]
        } else {
            seq![to]
        }
    }

    /// The phases a session enters on its way from this phase to `to`.
    pub fn course(self, to: Phase) -> (entered: Vec<Phase>)
        ensures
            entered@ == self.course_to(to),
    {
        let mut entered: Vec<Phase> = Vec::new();
        if self == to {
        } else if self == Phase::Received && to == Phase::Compiling {
            entered.push(Phase::SourceWritten);
            entered.push(Phase::Compiling);
        } else if self == Phase::Compiling && to == Phase::Spawning {
            entered.push(Phase::CompileSucceeded);
            entered.push(Phase::Spawning);
        } else {
            entered.push(to);
        }
        assert(entered@ =~= self.course_to(to));
        entered
    }

    /// Whether no event leads out of this phase.
    pub fn terminal(&self) -> (yes: bool)
        ensures
            yes == self.is_terminal(),
    {
        match self {
            Phase::CompileFailed | Phase::SpawnFailed | Phase::Completed | Phase::Interrupted => true,
            _ => false,
        }
    }
}

/// The kinds of failure a session reports.
#[derive(Clone, Copy, Debug, PartialEq, Eq, Structural)]
pub enum FailureKind {
    /// The scratch directory or the source file could not be written.
    Io,
    /// The compiler could not be started.
    CompilerLaunch,
    /// The artifact could not be started.
    Spawn,
    /// Reading the child's output failed, or a line of it is not UTF-8.
    Stream,
    /// Writing to the child's input failed.
    Feed,
}

/// What introduces the detail of a failure in the message to the client.
pub open spec fn failure_prefix(kind: FailureKind) -> Seq<char> {
    match kind {
        FailureKind::Io => "Failed to write file: "@,
        FailureKind::CompilerLaunch => "Failed to execute rustc: "@,
        FailureKind::Spawn => "Failed to spawn process: "@,
        FailureKind::Stream => "Error reading output: "@,
        FailureKind::Feed => "Failed to forward input: "@,
    }
}

/// The message that reports a failure to the client.
pub open spec fn failure_text(kind: FailureKind, detail: Seq<char>) -> Seq<char> {
    failure_prefix(kind) + detail
}

/// The detail reported for a line of output that is not UTF-8.
pub open spec fn undecodable() -> Seq<char> {
    "Unable to decode input as UTF8"@
}

/// Writes the message that reports a failure to the client.
pub fn failure_message(kind: FailureKind, detail: &str) -> (message: String)
    ensures
        message@ == failure_text(kind, detail@),
{
    let mut message = match kind {
        FailureKind::Io => String::from_str("Failed to write file: "),
        FailureKind::CompilerLaunch => String::from_str("Failed to execute rustc: "),
        FailureKind::Spawn => String::from_str("Failed to spawn process: "),
        FailureKind::Stream => String::from_str("Error reading output: "),
        FailureKind::Feed => String::from_str("Failed to forward input: "),
    };
    message.append(detail);
    message
}

/// One request to compile and run a source text.
#[derive(Clone, Debug, PartialEq, Eq)]
pub struct ExecutionRequest {
    pub source_text: String,
}

/// The source text carried by the first message of a duplex session. A text
/// message carries it: the `code` of the envelope if the message could be
/// read as one, else the message itself. Any other first message carries
/// none.
pub open spec fn first_source(message: Inbound, envelope: Option<String>) -> Option<Seq<char>> {
    match message {
        Inbound::Text(text) => match envelope {
            Some(code) => Some(code@),
            None => Some(text@),
        },
        _ => None,
    }
}

impl ExecutionRequest {
    /// The request made by the first message of a duplex session, if it
    /// makes one. `envelope` is the `code` field of the message read as a
    /// JSON envelope, where it could be read as one.
    pub fn of_first_message(message: Inbound, envelope: Option<String>) -> (request: Option<
        ExecutionRequest,
    >)
        ensures
            match first_source(message, envelope) {
                Some(source) => request matches Some(r) && r.source_text@ == source,
                None => request is None,
            },
    {
        match message {
            Inbound::Text(text) => match envelope {
                Some(code) => Some(ExecutionRequest { source_text: code }),
                None => Some(ExecutionRequest { source_text: text }),
            },
            _ => None,
        }
    }
}

/// How the compilation of a session ended.
#[derive(Clone, Debug, PartialEq, Eq)]
pub enum CompileOutcome {
    /// The compiler exited with success and left the artifact at this path.
    Success(String),
    /// The compiler exited with a failure, and this is what it wrote to its
    /// standard error; or it could not be started, and this says why.
    Failure(String),
}

/// A compile outcome as a mathematical value.
pub ghost enum CompileOutcomeModel {
    Success(Seq<char>),
    Failure(Seq<char>),
}

impl DeepView for CompileOutcome {
    type V = CompileOutcomeModel;

    open spec fn deep_view(&self) -> CompileOutcomeModel {
        match *self {
            CompileOutcome::Success(artifact) => CompileOutcomeModel::Success(artifact@),
            CompileOutcome::Failure(diagnostics) => CompileOutcomeModel::Failure(diagnostics@),
        }
    }
}

/// What the embedding program observed.
#[derive(Clone, Debug, PartialEq, Eq)]
pub enum Event {
    /// The scratch directory exists and the source file was written.
    Stored,
    /// The directory or the source file could not be written.
    StoreFailed(String),
    /// The compiler ran and exited; `diagnostics` is what it wrote to its
    /// standard error.
    CompilerExited { success: bool, diagnostics: Vec<u8> },
    /// The compiler could not be started.
    CompilerUnavailable(String),
    /// The artifact was started.
    Spawned,
    /// The artifact could not be started.
    SpawnRefused(String),
    /// A chunk was read from an output pipe.
    Output(Pipe, Vec<u8>),
    /// An output pipe reached its end.
    OutputEnded(Pipe),
    /// A read of an output pipe failed.
    OutputFault(Pipe, String),
    /// The child exited and was waited for.
    ChildExited,
    /// The client sent a text message.
    Input(String),
    /// The client asked to close the channel.
    CloseRequested,
    /// A write to the child's input failed.
    FeedFailed(String),
    /// A message could not be delivered to the client.
    SendFailed,
    /// The client is gone.
    TransportLost,
}

/// An event as a mathematical value.
pub ghost enum EventModel {
    Stored,
    StoreFailed(Seq<char>),
    CompilerExited { success: bool, diagnostics: Seq<u8> },
    CompilerUnavailable(Seq<char>),
    Spawned,
    SpawnRefused(Seq<char>),
    Output(Pipe, Seq<u8>),
    OutputEnded(Pipe),
    OutputFault(Pipe, Seq<char>),
    ChildExited,
    Input(Seq<char>),
    CloseRequested,
    FeedFailed(Seq<char>),
    SendFailed,
    TransportLost,
}

impl View for Event {
    type V = EventModel;

    open spec fn view(&self) -> EventModel {
        match *self {
            Event::Stored => EventModel::Stored,
            Event::StoreFailed(reason) => EventModel::StoreFailed(reason@),
            Event::CompilerExited { success, diagnostics } => EventModel::CompilerExited {
                success,
                diagnostics: diagnostics@,
            },
            Event::CompilerUnavailable(reason) => EventModel::CompilerUnavailable(reason@),
            Event::Spawned => EventModel::Spawned,
            Event::SpawnRefused(reason) => EventModel::SpawnRefused(reason@),
            Event::Output(pipe, bytes) => EventModel::Output(pipe, bytes@),
            Event::OutputEnded(pipe) => EventModel::OutputEnded(pipe),
            Event::OutputFault(pipe, reason) => EventModel::OutputFault(pipe, reason@),
            Event::ChildExited => EventModel::ChildExited,
            Event::Input(text) => EventModel::Input(text@),
            Event::CloseRequested => EventModel::CloseRequested,
            Event::FeedFailed(reason) => EventModel::FeedFailed(reason@),
            Event::SendFailed => EventModel::SendFailed,
            Event::TransportLost => EventModel::TransportLost,
        }
    }
}

impl Event {
    /// The event that reports one read of an output pipe: no bytes mean the
    /// end of the pipe.
    pub fn of_read(pipe: Pipe, outcome: Result<Vec<u8>, String>) -> (event: Event)
        ensures
            event@ == match outcome {
                Ok(bytes) => if bytes@.len() == 0 {
                    EventModel::OutputEnded(pipe)
                } else {
                    EventModel::Output(pipe, bytes@)
                },
                Err(reason) => EventModel::OutputFault(pipe, reason@),
            },
    {
        match outcome {
            Ok(bytes) => if bytes.len() == 0 {
                Event::OutputEnded(pipe)
            } else {
                Event::Output(pipe, bytes)
            },
            Err(reason) => Event::OutputFault(pipe, reason),
        }
    }

    /// The event that reports one message from the client, if it is of a
    /// kind the session hears of.
    pub fn of_inbound(message: Inbound) -> (event: Option<Event>)
        ensures
            match message {
                Inbound::Text(text) => event matches Some(e) && e@ == EventModel::Input(text@),
                Inbound::Close => event matches Some(e) && e@ == EventModel::CloseRequested,
                Inbound::Other => event is None,
            },
    {
        match message {
            Inbound::Text(text) => Some(Event::Input(text)),
            Inbound::Close => Some(Event::CloseRequested),
            Inbound::Other => None,
        }
    }
}

/// What the session asks the embedding program to do.
#[derive(Clone, Debug, PartialEq, Eq)]
pub enum Action {
    /// Make sure the scratch directory exists.
    EnsureDirectory(String),
    /// Write the source text to a file.
    Store { path: String, text: String },
    /// Run the compiler to completion and capture its standard error.
    Compile { program: String, arguments: Vec<String> },
    /// Start the artifact with its output pipes captured, and with an input
    /// pipe if `with_input`.
    Launch { program: String, with_input: bool },
    /// Deliver one message to the client.
    Send(String),
    /// Write a line to the child's input and flush.
    Feed(String),
    /// Wait for the child, so that it leaves no zombie.
    Reap,
    /// Delete a file; a failure to delete is logged and goes no further.
    Remove(String),
    /// Stop forwarding and close the transport.
    Close,
}

/// An action as a mathematical value.
pub ghost enum ActionModel {
    EnsureDirectory(Seq<char>),
    Store { path: Seq<char>, text: Seq<char> },
    Compile { program: Seq<char>, arguments: Seq<Seq<char>> },
    Launch { program: Seq<char>, with_input: bool },
    Send(Seq<char>),
    Feed(Seq<char>),
    Reap,
    Remove(Seq<char>),
    Close,
}

impl DeepView for Action {
    type V = ActionModel;

    open spec fn deep_view(&self) -> ActionModel {
        match *self {
            Action::EnsureDirectory(path) => ActionModel::EnsureDirectory(path@),
            Action::Store { path, text } => ActionModel::Store { path: path@, text: text@ },
            Action::Compile { program, arguments } => ActionModel::Compile {
                program: program@,
                arguments: arguments.deep_view(),
            },
            Action::Launch { program, with_input } => ActionModel::Launch {
                program: program@,
                with_input,
            },
            Action::Send(text) => ActionModel::Send(text@),
            Action::Feed(text) => ActionModel::Feed(text@),
            Action::Reap => ActionModel::Reap,
            Action::Remove(path) => ActionModel::Remove(path@),
            Action::Close => ActionModel::Close,
        }
    }
}

} // verus!
