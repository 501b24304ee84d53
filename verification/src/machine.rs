//! The session as a mathematical state machine: what each event does to a
//! session and which actions it calls for.
//!
//! The machine settles what the forwarding of a running child leaves open:
//!
//! - A session is `Completed` when the child has exited and both of its
//!   output pipes were read to their end, in whichever order the three come.
//!   The exit alone ends nothing: what the child wrote before it is still
//!   read and delivered. The end of one pipe stops that pipe only.
//! - A failed read, a failed write to the child's input, a failed delivery
//!   and the loss of the client each end the session as `Interrupted`. The
//!   child is not killed: it is waited for, so that it leaves no zombie.
//! - Input that arrives before the child runs is held back, and fed to the
//!   child in order when it starts. Input that arrives after the child has
//!   exited is dropped, for nobody is left to read it.
//! - Every way out of a session removes its scratch files and closes the
//!   transport, once.

use crate::bridge::lossy_text;
use crate::bridge::terminated;
use crate::bridge::Pipe;
use crate::framing::closing;
use crate::framing::framing;
use crate::framing::Framing;
use crate::protocol::failure_text;
use crate::protocol::undecodable;
use crate::protocol::ActionModel;
use crate::protocol::CompileOutcomeModel;
use crate::protocol::EventModel;
use crate::protocol::FailureKind;
use crate::protocol::Phase;
use crate::protocol::Transport;
use crate::workspace::artifact_path_of;
use crate::workspace::compiler_arguments_of;
use crate::workspace::is_identifier;
use crate::workspace::run_path_of;
use crate::workspace::scratch_files_of;
use crate::workspace::source_path_of;
use crate::workspace::Platform;
use vstd::prelude::*;

verus! {

/// A session as a mathematical value.
pub ghost struct SessionModel {
    /// The shape of the channel to the client.
    pub transport: Transport,
    /// The platform the workspace was laid out for.
    pub platform: Platform,
    /// The identifier of the workspace.
    pub id: Seq<char>,
    /// Where the session stands.
    pub phase: Phase,
    /// Whether the child's standard output has not reached its end.
    pub stdout_open: bool,
    /// Whether the child's standard error has not reached its end.
    pub stderr_open: bool,
    /// Whether the child has exited.
    pub exited: bool,
    /// Input that arrived before the child ran, oldest first.
    pub held: Seq<Seq<char>>,
    /// Bytes of standard output not yet framed into a line.
    pub stdout_pending: Seq<u8>,
    /// Bytes of standard error not yet framed into a line.
    pub stderr_pending: Seq<u8>,
}

impl SessionModel {
    /// Whether `pipe` has not reached its end.
    pub open spec fn open(self, pipe: Pipe) -> bool {
        match pipe {
            Pipe::Stdout => self.stdout_open,
            Pipe::Stderr => self.stderr_open,
        }
    }

    /// The bytes of `pipe` not yet framed into a line.
    pub open spec fn pending(self, pipe: Pipe) -> Seq<u8> {
        match pipe {
            Pipe::Stdout => self.stdout_pending,
            Pipe::Stderr => self.stderr_pending,
        }
    }

    /// This session with `rest` pending on `pipe`.
    pub open spec fn with_pending(self, pipe: Pipe, rest: Seq<u8>) -> SessionModel {
        match pipe {
            Pipe::Stdout => SessionModel { stdout_pending: rest, ..self },
            Pipe::Stderr => SessionModel { stderr_pending: rest, ..self },
        }
    }

    /// This session with `pipe` at its end.
    pub open spec fn with_closed(self, pipe: Pipe) -> SessionModel {
        match pipe {
            Pipe::Stdout => SessionModel { stdout_open: false, ..self },
            Pipe::Stderr => SessionModel { stderr_open: false, ..self },
        }
    }

    /// Whether a child runs that nobody has waited for yet.
    pub open spec fn child_at_large(self) -> bool {
        self.phase == Phase::Running && !self.exited
    }

    /// Whether the child exited and both of its pipes were read to the end.
    pub open spec fn drained(self) -> bool {
        self.exited && !self.stdout_open && !self.stderr_open
    }

    /// Whether no child has been started yet.
    pub open spec fn before_the_child(self) -> bool {
        self.phase == Phase::Received || self.phase == Phase::Compiling || self.phase
            == Phase::Spawning
    }

    /// The invariant of a session. It is named by a session identifier and
    /// rests at no milestone. Before there is a child nothing is known of
    /// one: it has not exited, no pipe is open and nothing is pending. Input
    /// is held only on the duplex transport and no longer once the child
    /// runs; bytes are pending only on the event stream. A running session is not
    /// yet drained, and a completed one is.
    pub open spec fn well_formed(self) -> bool {
        &&& is_identifier(self.id)
        &&& !self.phase.is_milestone()
        &&& self.before_the_child() ==> !self.exited && !self.stdout_open && !self.stderr_open
            && self.stdout_pending.len() == 0 && self.stderr_pending.len() == 0
        &&& self.held.len() > 0 ==> self.transport == Transport::Duplex && self.phase
            != Phase::Running && self.phase != Phase::Completed
        &&& self.transport == Transport::Duplex ==> self.stdout_pending.len() == 0
            && self.stderr_pending.len() == 0
        &&& self.phase == Phase::Running ==> !self.drained()
        &&& self.phase == Phase::Completed ==> self.drained()
    }
}

/// The result of one step: the session afterwards and the actions to perform,
/// in order.
pub ghost struct StepModel {
    pub next: SessionModel,
    pub actions: Seq<ActionModel>,
}

/// One message to the client for each text.
pub open spec fn sends(texts: Seq<Seq<char>>) -> Seq<ActionModel> {
    texts.map_values(|text: Seq<char>| ActionModel::Send(text))
}

/// One line for the child's input for each text.
pub open spec fn feeds(texts: Seq<Seq<char>>) -> Seq<ActionModel> {
    texts.map_values(|text: Seq<char>| ActionModel::Feed(terminated(text)))
}

/// The removal of each scratch file of the session.
pub open spec fn removals(id: Seq<char>, platform: Platform) -> Seq<ActionModel> {
    scratch_files_of(id, platform).map_values(|path: Seq<char>| ActionModel::Remove(path))
}

/// What ends a session: the notice to the client if there is one, the wait
/// for a child still at large, the removal of every scratch file, and the
/// close of the transport.
pub open spec fn farewell(s: SessionModel, notice: Option<Seq<char>>) -> Seq<ActionModel> {
    let told = match notice {
        Some(text) => seq![ActionModel::Send(text)],
        None => Seq::empty(),
    };
    let reaped = if s.child_at_large() {
        seq![ActionModel::Reap]
    } else {
        Seq::empty()
    };
    told + reaped + removals(s.id, s.platform) + seq![ActionModel::Close]
}

/// Ends the session in `phase`.
pub open spec fn finish(s: SessionModel, phase: Phase, notice: Option<Seq<char>>) -> StepModel {
    StepModel { next: SessionModel { phase, ..s }, actions: farewell(s, notice) }
}

/// Leaves the session as it is and asks for nothing.
pub open spec fn ignore(s: SessionModel) -> StepModel {
    StepModel { next: s, actions: Seq::empty() }
}

/// Completes the session if the child exited and both pipes are at their end;
/// `actions` are performed first either way.
pub open spec fn conclude(s: SessionModel, actions: Seq<ActionModel>) -> StepModel {
    if s.drained() {
        StepModel {
            next: SessionModel { phase: Phase::Completed, ..s },
            actions: actions + farewell(s, None),
        }
    } else {
        StepModel { next: s, actions }
    }
}

/// Ends the session over a line of output that is not UTF-8, after the lines
/// before it were sent.
pub open spec fn break_off(s: SessionModel, pipe: Pipe, framed: Framing) -> StepModel {
    StepModel {
        next: SessionModel { phase: Phase::Interrupted, ..s.with_pending(pipe, framed.rest) },
        actions: sends(framed.lines) + farewell(
            s,
            Some(failure_text(FailureKind::Stream, undecodable())),
        ),
    }
}

/// Forwards a chunk read from an open pipe of the running child: as one
/// message on the duplex transport, as one event per completed line on the
/// event stream.
pub open spec fn forward(s: SessionModel, pipe: Pipe, bytes: Seq<u8>) -> StepModel {
    match s.transport {
        Transport::Duplex => StepModel {
            next: s,
            actions: seq![ActionModel::Send(lossy_text(bytes))],
        },
        Transport::EventStream => {
            let framed = framing(s.pending(pipe) + bytes);
            if framed.broken {
                break_off(s, pipe, framed)
            } else {
                StepModel { next: s.with_pending(pipe, framed.rest), actions: sends(framed.lines) }
            }
        },
    }
}

/// Takes note that an open pipe of the running child reached its end; on the
/// event stream the lines still pending on it are sent first.
pub open spec fn end_pipe(s: SessionModel, pipe: Pipe) -> StepModel {
    match s.transport {
        Transport::Duplex => conclude(s.with_closed(pipe), Seq::empty()),
        Transport::EventStream => {
            let framed = closing(s.pending(pipe));
            if framed.broken {
                break_off(s, pipe, framed)
            } else {
                conclude(s.with_pending(pipe, framed.rest).with_closed(pipe), sends(framed.lines))
            }
        },
    }
}

/// Starts forwarding for a child that was just started: input held back so
/// far is fed to it, oldest first.
pub open spec fn start_running(s: SessionModel) -> StepModel {
    StepModel {
        next: SessionModel {
            phase: Phase::Running,
            stdout_open: true,
            stderr_open: true,
            exited: false,
            held: Seq::empty(),
            stdout_pending: Seq::empty(),
            stderr_pending: Seq::empty(),
            ..s
        },
        actions: feeds(s.held),
    }
}

/// Takes a text message from the client: fed to the running child, held back
/// while there is no child yet, dropped once the child has exited. The event
/// stream has no input.
pub open spec fn take_input(s: SessionModel, text: Seq<char>) -> StepModel {
    if s.transport != Transport::Duplex {
        ignore(s)
    } else if s.phase != Phase::Running {
        StepModel { next: SessionModel { held: s.held.push(text), ..s }, actions: Seq::empty() }
    } else if s.exited {
        ignore(s)
    } else {
        StepModel { next: s, actions: seq![ActionModel::Feed(terminated(text))] }
    }
}

/// The session of a request just received, and the actions that store its
/// source.
pub open spec fn opening(
    transport: Transport,
    platform: Platform,
    id: Seq<char>,
    source: Seq<char>,
) -> StepModel {
    StepModel {
        next: SessionModel {
            transport,
            platform,
            id,
            phase: Phase::Received,
            stdout_open: false,
            stderr_open: false,
            exited: false,
            held: Seq::empty(),
            stdout_pending: Seq::empty(),
            stderr_pending: Seq::empty(),
        },
        actions: seq![
            ActionModel::EnsureDirectory("temp"@),
            ActionModel::Store { path: source_path_of(id), text: source },
        ],
    }
}

/// The outcome that the end of the compiler run reports: success with the
/// artifact's path; failure with the compiler's own diagnostics as text,
/// unchanged; or, where the compiler could not be started, failure with a
/// diagnostic that says so.
pub open spec fn compile_outcome(
    id: Seq<char>,
    platform: Platform,
    e: EventModel,
) -> CompileOutcomeModel
    recommends
        e is CompilerExited || e is CompilerUnavailable,
{
    match e {
        EventModel::CompilerExited { success, diagnostics } => if success {
            CompileOutcomeModel::Success(artifact_path_of(id, platform))
        } else {
            CompileOutcomeModel::Failure(lossy_text(diagnostics))
        },
        EventModel::CompilerUnavailable(reason) => CompileOutcomeModel::Failure(
            failure_text(FailureKind::CompilerLaunch, reason),
        ),
        _ => CompileOutcomeModel::Failure(Seq::empty()),
    }
}

/// Goes on from the outcome of the compilation: a success starts the
/// artifact, a failure ends the session with its diagnostic as the one
/// message to the client.
pub open spec fn after_compilation(s: SessionModel, outcome: CompileOutcomeModel) -> StepModel {
    match outcome {
        CompileOutcomeModel::Success(_) => StepModel {
            next: SessionModel { phase: Phase::Spawning, ..s },
            actions: seq![
                ActionModel::Launch {
                    program: run_path_of(s.id, s.platform),
                    with_input: s.transport == Transport::Duplex,
                },
            ],
        },
        CompileOutcomeModel::Failure(diagnostics) => finish(
            s,
            Phase::CompileFailed,
            Some(diagnostics),
        ),
    }
}

/// What an event does to a session.
///
/// A finished session hears nothing more; only a child started after the
/// session ended is still waited for. The loss of the transport ends a
/// session in any phase, and so does a failed delivery; a request to close
/// does on the duplex transport. Every other event acts in the one phase
/// that awaits it and is ignored elsewhere.
pub open spec fn step(s: SessionModel, e: EventModel) -> StepModel {
    if s.phase.is_terminal() {
        StepModel {
            next: s,
            actions: if e is Spawned {
                seq![ActionModel::Reap]
            } else {
                Seq::empty()
            },
        }
    } else {
        match e {
            EventModel::TransportLost | EventModel::SendFailed => finish(s, Phase::Interrupted, None),
            EventModel::CloseRequested => if s.transport == Transport::Duplex {
                finish(s, Phase::Interrupted, None)
            } else {
                ignore(s)
            },
            EventModel::Input(text) => take_input(s, text),
            EventModel::Stored => if s.phase == Phase::Received {
                StepModel {
                    next: SessionModel { phase: Phase::Compiling, ..s },
                    actions: seq![
                        ActionModel::Compile {
                            program: "rustc"@,
                            arguments: compiler_arguments_of(s.id, s.platform),
                        },
                    ],
                }
            } else {
                ignore(s)
            },
            EventModel::StoreFailed(reason) => if s.phase == Phase::Received {
                finish(s, Phase::Interrupted, Some(failure_text(FailureKind::Io, reason)))
            } else {
                ignore(s)
            },
            EventModel::CompilerExited { .. } | EventModel::CompilerUnavailable(_) => if s.phase
                == Phase::Compiling {
                after_compilation(s, compile_outcome(s.id, s.platform, e))
            } else {
                ignore(s)
            },
            EventModel::Spawned => if s.phase == Phase::Spawning {
                start_running(s)
            } else {
                ignore(s)
            },
            EventModel::SpawnRefused(reason) => if s.phase == Phase::Spawning {
                finish(s, Phase::SpawnFailed, Some(failure_text(FailureKind::Spawn, reason)))
            } else {
                ignore(s)
            },
            EventModel::Output(pipe, bytes) => if s.phase == Phase::Running && s.open(pipe) {
                forward(s, pipe, bytes)
            } else {
                ignore(s)
            },
            EventModel::OutputEnded(pipe) => if s.phase == Phase::Running && s.open(pipe) {
                end_pipe(s, pipe)
            } else {
                ignore(s)
            },
            EventModel::OutputFault(pipe, reason) => if s.phase == Phase::Running && s.open(pipe) {
                finish(s, Phase::Interrupted, Some(failure_text(FailureKind::Stream, reason)))
            } else {
                ignore(s)
            },
            EventModel::ChildExited => if s.child_at_large() {
                conclude(SessionModel { exited: true, ..s }, Seq::empty())
            } else {
                ignore(s)
            },
            EventModel::FeedFailed(reason) => if s.child_at_large() && s.transport
                == Transport::Duplex {
                finish(s, Phase::Interrupted, Some(failure_text(FailureKind::Feed, reason)))
            } else {
                ignore(s)
            },
        }
    }
}

/// A step never changes the transport, the platform or the identifier of a
/// session, and a finished session stays exactly as it is.
pub proof fn law_steps_go_forward(s: SessionModel, e: EventModel)
    ensures
        step(s, e).next.transport == s.transport,
        step(s, e).next.platform == s.platform,
        step(s, e).next.id == s.id,
        s.phase.is_terminal() ==> step(s, e).next == s,
{
}

/// The invariant of a session holds when it is opened, and every step keeps
/// it.
pub proof fn law_sessions_stay_well_formed(
    s: SessionModel,
    e: EventModel,
    transport: Transport,
    platform: Platform,
    source: Seq<char>,
)
    ensures
        is_identifier(s.id) ==> opening(transport, platform, s.id, source).next.well_formed(),
        s.well_formed() ==> step(s, e).next.well_formed(),
{
}

/// The phase a session was in, followed by the phases it entered in a step.
pub open spec fn path(s: SessionModel, e: EventModel) -> Seq<Phase> {
    seq![s.phase] + s.phase.course_to(step(s, e).next.phase)
}

/// Every step follows the course of a session: from phase to phase along
/// `Received`, `SourceWritten`, `Compiling`, `CompileSucceeded`, `Spawning`,
/// `Running`, `Completed`, or off it into the failure that belongs to the
/// phase or into `Interrupted`. The session never rests at a milestone.
pub proof fn law_steps_follow_the_course(s: SessionModel, e: EventModel)
    requires
        !s.phase.is_milestone(),
    ensures
        !step(s, e).next.phase.is_milestone(),
        path(s, e).last() == step(s, e).next.phase,
        forall|i: int|
            0 <= i < path(s, e).len() - 1 ==> (#[trigger] path(s, e)[i]).leads_to(path(s, e)[i + 1]),
{
    let to = step(s, e).next.phase;
    let entered = s.phase.course_to(to);
    assert forall|i: int| 0 <= i < path(s, e).len() - 1 implies (#[trigger] path(s, e)[i]).leads_to(
        path(s, e)[i + 1],
    ) by {
        if i == 0 {
            assert(path(s, e)[0] == s.phase);
            assert(path(s, e)[1] == entered[0]);
        } else {
            assert(path(s, e)[1] == entered[0]);
            assert(path(s, e)[2] == entered[1]);
        }
    }
}

/// A compiler that exits with a failure ends the session in `CompileFailed`.
/// The client is sent one message, the compiler's diagnostics as text; every
/// scratch file of the session is removed; the transport is closed; nothing
/// is started.
pub proof fn law_compile_failure_reports_and_cleans(s: SessionModel, diagnostics: Seq<u8>)
    requires
        s.phase == Phase::Compiling,
    ensures
        step(s, EventModel::CompilerExited { success: false, diagnostics }).next.phase
            == Phase::CompileFailed,
        step(s, EventModel::CompilerExited { success: false, diagnostics }).actions == seq![
            ActionModel::Send(lossy_text(diagnostics)),
        ] + removals(s.id, s.platform) + seq![ActionModel::Close],
{
    let actions = step(s, EventModel::CompilerExited { success: false, diagnostics }).actions;
    assert(actions =~= seq![ActionModel::Send(lossy_text(diagnostics))] + removals(
        s.id,
        s.platform,
    ) + seq![ActionModel::Close]);
}

/// On the duplex transport a text message that arrives while the child runs
/// is written to the child's input as one terminated line, and nothing else
/// happens.
pub proof fn law_input_reaches_running_child(s: SessionModel, text: Seq<char>)
    requires
        s.transport == Transport::Duplex,
        s.child_at_large(),
    ensures
        step(s, EventModel::Input(text)).next == s,
        step(s, EventModel::Input(text)).actions == seq![ActionModel::Feed(terminated(text))],
{
}

/// Input that arrives on the duplex transport before the child runs is held
/// back, and the start of the child feeds all of it, oldest first.
pub proof fn law_early_input_is_held_and_delivered(s: SessionModel, text: Seq<char>)
    requires
        s.transport == Transport::Duplex,
        !s.phase.is_terminal(),
        s.phase != Phase::Running,
    ensures
        step(s, EventModel::Input(text)).next.held == s.held.push(text),
        step(s, EventModel::Input(text)).next.phase == s.phase,
        step(s, EventModel::Input(text)).actions == Seq::<ActionModel>::empty(),
        s.phase == Phase::Spawning ==> step(s, EventModel::Spawned).actions == feeds(s.held)
            && step(s, EventModel::Spawned).next.phase == Phase::Running,
{
}

/// When the client is lost while the child runs, the session ends in
/// `Interrupted`: the child is waited for, every scratch file is removed and
/// the transport is closed.
pub proof fn law_disconnect_reaps_and_cleans(s: SessionModel)
    requires
        s.child_at_large(),
    ensures
        step(s, EventModel::TransportLost).next.phase == Phase::Interrupted,
        step(s, EventModel::TransportLost).actions == seq![ActionModel::Reap] + removals(
            s.id,
            s.platform,
        ) + seq![ActionModel::Close],
{
    assert(step(s, EventModel::TransportLost).actions =~= seq![ActionModel::Reap] + removals(
        s.id,
        s.platform,
    ) + seq![ActionModel::Close]);
}

/// A running session completes exactly when the child has exited and both
/// of its output pipes were read to their end, whichever of the three comes
/// last: it is `Completed` only with all three done, and does not stay
/// `Running` once they are.
pub proof fn law_completion(s: SessionModel, e: EventModel)
    requires
        s.phase == Phase::Running,
        !s.drained(),
    ensures
        step(s, e).next.phase == Phase::Completed ==> step(s, e).next.drained(),
        step(s, e).next.phase == Phase::Running ==> !step(s, e).next.drained(),
{
}

} // verus!
