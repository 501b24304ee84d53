//! The session controller: one compile-and-run request from the arrival of
//! its source to the removal of its scratch files.
//!
//! A session performs no I/O. The embedding program reports each thing it
//! observes as an [`Event`] and performs the [`Action`]s that come back, in
//! order. Input that the client sends before the child runs is held back and
//! fed to the child, in order, as soon as it has started.

use crate::bridge::decode_lossy;
use crate::bridge::terminate_line;
use crate::bridge::Pipe;
use crate::framing::Drained;
use crate::framing::LineFramer;
use crate::framing::closing;
use crate::framing::framing;
use crate::machine::after_compilation;
use crate::machine::compile_outcome;
use crate::machine::conclude;
use crate::machine::end_pipe;
use crate::machine::farewell;
use crate::machine::feeds;
use crate::machine::finish;
use crate::machine::law_sessions_stay_well_formed;
use crate::machine::forward;
use crate::machine::opening;
use crate::machine::removals;
use crate::machine::sends;
use crate::machine::start_running;
use crate::machine::step;
use crate::machine::take_input;
use crate::machine::SessionModel;
use crate::machine::StepModel;
use crate::protocol::failure_message;
use crate::protocol::failure_text;
use crate::protocol::undecodable;
use crate::protocol::Action;
use crate::protocol::ActionModel;
use crate::protocol::CompileOutcome;
use crate::protocol::EventModel;
use crate::protocol::ExecutionRequest;
use crate::protocol::Event;
use crate::protocol::FailureKind;
use crate::protocol::Phase;
use crate::protocol::Transport;
use crate::workspace::compiler_program;
use crate::workspace::scratch_directory;
use crate::workspace::Platform;
use crate::workspace::Workspace;
use vstd::prelude::*;
use vstd::string::*;

verus! {

fn push_action(actions: &mut Vec<Action>, action: Action)
    ensures
        final(actions).deep_view() == old(actions).deep_view().push(action.deep_view()),
{
    actions.push(action);
    assert(actions.deep_view() =~= old(actions).deep_view().push(action.deep_view()));
}

fn append_actions(actions: &mut Vec<Action>, more: Vec<Action>)
    ensures
        final(actions).deep_view() == old(actions).deep_view() + more.deep_view(),
{
    let mut rest = more;
    actions.append(&mut rest);
    assert(actions.deep_view() =~= old(actions).deep_view() + more.deep_view());
}

fn one_action(action: Action) -> (actions: Vec<Action>)
    ensures
        actions.deep_view() == seq![action.deep_view()],
{
    let mut actions: Vec<Action> = Vec::new();
    actions.push(action);
    assert(actions.deep_view() =~= seq![action.deep_view()]);
    actions
}

fn no_action() -> (actions: Vec<Action>)
    ensures
        actions.deep_view() == Seq::<ActionModel>::empty(),
{
    let actions: Vec<Action> = Vec::new();
    assert(actions.deep_view() =~= Seq::<ActionModel>::empty());
    actions
}

fn send_each(texts: &Vec<String>) -> (actions: Vec<Action>)
    ensures
        actions.deep_view() == sends(texts.deep_view()),
{
    let mut actions: Vec<Action> = Vec::new();
    let mut i: usize = 0;
    while i < texts.len()
        invariant
            i <= texts.len(),
            actions.deep_view() == sends(texts.deep_view().subrange(0, i as int)),
        decreases texts.len() - i,
    {
        let ghost before = actions.deep_view();
        actions.push(Action::Send(texts[i].clone()));
        assert(actions.deep_view() =~= before.push(ActionModel::Send(texts@[i as int]@)));
        assert(sends(texts.deep_view().subrange(0, i + 1)) =~= before.push(
            ActionModel::Send(texts@[i as int]@),
        ));
        i = i + 1;
    }
    assert(texts.deep_view().subrange(0, i as int) =~= texts.deep_view());
    actions
}

fn feed_each(texts: &Vec<String>) -> (actions: Vec<Action>)
    ensures
        actions.deep_view() == feeds(texts.deep_view()),
{
    let mut actions: Vec<Action> = Vec::new();
    let mut i: usize = 0;
    while i < texts.len()
        invariant
            i <= texts.len(),
            actions.deep_view() == feeds(texts.deep_view().subrange(0, i as int)),
        decreases texts.len() - i,
    {
        let ghost before = actions.deep_view();
        let line = terminate_line(texts[i].clone());
        actions.push(Action::Feed(line));
        assert(actions.deep_view() =~= before.push(ActionModel::Feed(line@)));
        assert(feeds(texts.deep_view().subrange(0, i + 1)) =~= before.push(
            ActionModel::Feed(line@),
        ));
        i = i + 1;
    }
    assert(texts.deep_view().subrange(0, i as int) =~= texts.deep_view());
    actions
}

fn remove_each(paths: &Vec<String>) -> (actions: Vec<Action>)
    ensures
        actions.deep_view() == paths.deep_view().map_values(
            |path: Seq<char>| ActionModel::Remove(path),
        ),
{
    let mut actions: Vec<Action> = Vec::new();
    let mut i: usize = 0;
    while i < paths.len()
        invariant
            i <= paths.len(),
            actions.deep_view() == paths.deep_view().subrange(0, i as int).map_values(
                |path: Seq<char>| ActionModel::Remove(path),
            ),
        decreases paths.len() - i,
    {
        let ghost before = actions.deep_view();
        actions.push(Action::Remove(paths[i].clone()));
        assert(actions.deep_view() =~= before.push(ActionModel::Remove(paths@[i as int]@)));
        assert(paths.deep_view().subrange(0, i + 1).map_values(
            |path: Seq<char>| ActionModel::Remove(path),
        ) =~= before.push(ActionModel::Remove(paths@[i as int]@)));
        i = i + 1;
    }
    assert(paths.deep_view().subrange(0, i as int) =~= paths.deep_view());
    actions
}

/// The event that reports how the compiler run ended: its exit, with the
/// success of its status and what it wrote to its standard error, or the
/// reason why it could not be started.
pub open spec fn compiler_event(run: Result<(bool, Vec<u8>), String>) -> EventModel {
    match run {
        Ok((success, diagnostics)) => EventModel::CompilerExited {
            success,
            diagnostics: diagnostics@,
        },
        Err(reason) => EventModel::CompilerUnavailable(reason@),
    }
}

/// Judges a compiler run in `workspace`.
pub fn compile_result(workspace: &Workspace, run: Result<(bool, Vec<u8>), String>) -> (outcome:
    CompileOutcome)
    ensures
        outcome.deep_view() == compile_outcome(
            workspace.id(),
            workspace.platform(),
            compiler_event(run),
        ),
{
    match run {
        Ok((success, diagnostics)) => if success {
            CompileOutcome::Success(workspace.artifact_path())
        } else {
            CompileOutcome::Failure(decode_lossy(diagnostics.as_slice()))
        },
        Err(reason) => CompileOutcome::Failure(
            failure_message(FailureKind::CompilerLaunch, reason.as_str()),
        ),
    }
}

/// The removal of each scratch file of `workspace`: what teardown performs,
/// in order.
pub fn teardown(workspace: &Workspace) -> (actions: Vec<Action>)
    ensures
        actions.deep_view() == removals(workspace.id(), workspace.platform()),
{
    let files = workspace.scratch_files();
    remove_each(&files)
}

/// One compile-and-run request.
#[derive(Debug)]
pub struct Session {
    transport: Transport,
    workspace: Workspace,
    phase: Phase,
    stdout_open: bool,
    stderr_open: bool,
    exited: bool,
    held: Vec<String>,
    stdout_lines: LineFramer,
    stderr_lines: LineFramer,
}

impl View for Session {
    type V = SessionModel;

    closed spec fn view(&self) -> SessionModel {
        SessionModel {
            transport: self.transport,
            platform: self.workspace.platform(),
            id: self.workspace.id(),
            phase: self.phase,
            stdout_open: self.stdout_open,
            stderr_open: self.stderr_open,
            exited: self.exited,
            held: self.held.deep_view(),
            stdout_pending: self.stdout_lines.pending(),
            stderr_pending: self.stderr_lines.pending(),
        }
    }
}

impl Session {
    /// Opens the session of a request under a freshly drawn identifier and
    /// asks for its source to be stored.
    pub fn begin(transport: Transport, platform: Platform, request: ExecutionRequest) -> (opened: (
        Session,
        Vec<Action>,
    ))
        ensures
            opened.0.well_formed(),
            opened.0@ == opening(transport, platform, opened.0@.id, request.source_text@).next,
            opened.1.deep_view() == opening(
                transport,
                platform,
                opened.0@.id,
                request.source_text@,
            ).actions,
    {
        Session::begin_in(Workspace::prepare(platform), transport, request)
    }

    /// Opens the session of a request in a given workspace and asks for its
    /// source to be stored.
    pub fn begin_in(workspace: Workspace, transport: Transport, request: ExecutionRequest) -> (opened:
        (Session, Vec<Action>))
        ensures
            workspace.well_formed() ==> opened.0.well_formed(),
            opened.0@ == opening(
                transport,
                workspace.platform(),
                workspace.id(),
                request.source_text@,
            ).next,
            opened.1.deep_view() == opening(
                transport,
                workspace.platform(),
                workspace.id(),
                request.source_text@,
            ).actions,
    {
        let ghost source = request.source_text;
        let mut actions: Vec<Action> = Vec::new();
        push_action(&mut actions, Action::EnsureDirectory(scratch_directory()));
        push_action(
            &mut actions,
            Action::Store { path: workspace.source_path(), text: request.source_text },
        );
        let session = Session {
            transport,
            workspace,
            phase: Phase::Received,
            stdout_open: false,
            stderr_open: false,
            exited: false,
            held: Vec::new(),
            stdout_lines: LineFramer::new(),
            stderr_lines: LineFramer::new(),
        };
        proof {
            let model = opening(transport, workspace.platform(), workspace.id(), source@);
            assert(session.held.deep_view() =~= Seq::<Seq<char>>::empty());
            assert(actions.deep_view() =~= model.actions);
            law_sessions_stay_well_formed(
                model.next,
                EventModel::Stored,
                transport,
                workspace.platform(),
                source@,
            );
        }
        (session, actions)
    }

    /// The invariant of a session, which opening establishes and every step
    /// keeps.
    pub open spec fn well_formed(&self) -> bool {
        self@.well_formed()
    }

    /// Where the session stands.
    pub fn phase(&self) -> (phase: Phase)
        ensures
            phase == self@.phase,
    {
        self.phase
    }

    /// Whether the session has ended.
    pub fn is_finished(&self) -> (finished: bool)
        ensures
            finished == self@.phase.is_terminal(),
    {
        self.phase.terminal()
    }

    /// The shape of the channel to the client.
    pub fn transport(&self) -> (transport: Transport)
        ensures
            transport == self@.transport,
    {
        self.transport
    }

    /// The identifier of the session's workspace.
    pub fn identifier(&self) -> (id: String)
        ensures
            id@ == self@.id,
    {
        self.workspace.identifier()
    }

    /// Whether the child has exited.
    pub fn child_exited(&self) -> (exited: bool)
        ensures
            exited == self@.exited,
    {
        self.exited
    }

    /// Whether `pipe` has not reached its end.
    pub fn pipe_open(&self, pipe: Pipe) -> (open: bool)
        ensures
            open == self@.open(pipe),
    {
        match pipe {
            Pipe::Stdout => self.stdout_open,
            Pipe::Stderr => self.stderr_open,
        }
    }

    /// Number of input messages held back for a child that does not run yet.
    pub fn held_input(&self) -> (count: usize)
        ensures
            count == self@.held.len(),
    {
        self.held.len()
    }

    fn farewell(&self, notice: Option<String>) -> (actions: Vec<Action>)
        ensures
            actions.deep_view() == farewell(self@, notice.deep_view()),
    {
        let mut actions: Vec<Action> = match notice {
            Some(text) => one_action(Action::Send(text)),
            None => no_action(),
        };
        let reaped = if matches!(self.phase, Phase::Running) && !self.exited {
            one_action(Action::Reap)
        } else {
            no_action()
        };
        append_actions(&mut actions, reaped);
        append_actions(&mut actions, teardown(&self.workspace));
        push_action(&mut actions, Action::Close);
        proof {
            assert(actions.deep_view() =~= farewell(self@, notice.deep_view()));
        }
        actions
    }

    fn finish(&mut self, phase: Phase, notice: Option<String>) -> (actions: Vec<Action>)
        ensures
            (StepModel { next: final(self)@, actions: actions.deep_view() }) == finish(
                old(self)@,
                phase,
                notice.deep_view(),
            ),
    {
        let actions = self.farewell(notice);
        self.phase = phase;
        actions
    }

    fn conclude(&mut self, actions: Vec<Action>) -> (all: Vec<Action>)
        ensures
            (StepModel { next: final(self)@, actions: all.deep_view() }) == conclude(
                old(self)@,
                actions.deep_view(),
            ),
    {
        if self.exited && !self.stdout_open && !self.stderr_open {
            let mut all = actions;
            let last = self.farewell(None);
            append_actions(&mut all, last);
            self.phase = Phase::Completed;
            all
        } else {
            actions
        }
    }

    fn break_off(&mut self, lines: &Vec<String>) -> (actions: Vec<Action>)
        ensures
            final(self)@ == (SessionModel { phase: Phase::Interrupted, ..old(self)@ }),
            actions.deep_view() == sends(lines.deep_view()) + farewell(
                old(self)@,
                Some(failure_text(FailureKind::Stream, undecodable())),
            ),
    {
        let mut actions = send_each(lines);
        let notice = failure_message(FailureKind::Stream, "Unable to decode input as UTF8");
        let last = self.farewell(Some(notice));
        append_actions(&mut actions, last);
        self.phase = Phase::Interrupted;
        actions
    }

    fn accept(&mut self, pipe: Pipe, chunk: &[u8]) -> (out: Drained)
        ensures
            out.reports(framing(old(self)@.pending(pipe) + chunk@)),
            final(self)@ == old(self)@.with_pending(
                pipe,
                framing(old(self)@.pending(pipe) + chunk@).rest,
            ),
    {
        match pipe {
            Pipe::Stdout => self.stdout_lines.accept(chunk),
            Pipe::Stderr => self.stderr_lines.accept(chunk),
        }
    }

    fn close_lines(&mut self, pipe: Pipe) -> (out: Drained)
        ensures
            out.reports(closing(old(self)@.pending(pipe))),
            final(self)@ == old(self)@.with_pending(pipe, closing(old(self)@.pending(pipe)).rest),
    {
        match pipe {
            Pipe::Stdout => self.stdout_lines.finish(),
            Pipe::Stderr => self.stderr_lines.finish(),
        }
    }

    fn mark_closed(&mut self, pipe: Pipe)
        ensures
            final(self)@ == old(self)@.with_closed(pipe),
    {
        match pipe {
            Pipe::Stdout => {
                self.stdout_open = false;
            },
            Pipe::Stderr => {
                self.stderr_open = false;
            },
        }
    }

    fn forward(&mut self, pipe: Pipe, bytes: Vec<u8>) -> (actions: Vec<Action>)
        ensures
            (StepModel { next: final(self)@, actions: actions.deep_view() }) == forward(
                old(self)@,
                pipe,
                bytes@,
            ),
    {
        match self.transport {
            Transport::Duplex => one_action(Action::Send(decode_lossy(bytes.as_slice()))),
            Transport::EventStream => {
                let out = self.accept(pipe, bytes.as_slice());
                if out.broken {
                    self.break_off(&out.lines)
                } else {
                    send_each(&out.lines)
                }
            },
        }
    }

    fn end_pipe(&mut self, pipe: Pipe) -> (actions: Vec<Action>)
        ensures
            (StepModel { next: final(self)@, actions: actions.deep_view() }) == end_pipe(
                old(self)@,
                pipe,
            ),
    {
        match self.transport {
            Transport::Duplex => {
                self.mark_closed(pipe);
                self.conclude(no_action())
            },
            Transport::EventStream => {
                let out = self.close_lines(pipe);
                if out.broken {
                    self.break_off(&out.lines)
                } else {
                    self.mark_closed(pipe);
                    self.conclude(send_each(&out.lines))
                }
            },
        }
    }

    fn start_running(&mut self) -> (actions: Vec<Action>)
        ensures
            (StepModel { next: final(self)@, actions: actions.deep_view() }) == start_running(
                old(self)@,
            ),
    {
        let actions = feed_each(&self.held);
        self.phase = Phase::Running;
        self.stdout_open = true;
        self.stderr_open = true;
        self.exited = false;
        self.held = Vec::new();
        self.stdout_lines = LineFramer::new();
        self.stderr_lines = LineFramer::new();
        proof {
            assert(self.held.deep_view() =~= Seq::<Seq<char>>::empty());
        }
        actions
    }

    fn take_input(&mut self, text: String) -> (actions: Vec<Action>)
        ensures
            (StepModel { next: final(self)@, actions: actions.deep_view() }) == take_input(
                old(self)@,
                text@,
            ),
    {
        match self.transport {
            Transport::EventStream => no_action(),
            Transport::Duplex => {
                if !matches!(self.phase, Phase::Running) {
                    self.held.push(text);
                    proof {
                        assert(self.held.deep_view() =~= old(self).held.deep_view().push(text@));
                    }
                    no_action()
                } else if self.exited {
                    no_action()
                } else {
                    one_action(Action::Feed(terminate_line(text)))
                }
            },
        }
    }

    fn after_compilation(&mut self, outcome: CompileOutcome) -> (actions: Vec<Action>)
        ensures
            (StepModel { next: final(self)@, actions: actions.deep_view() }) == after_compilation(
                old(self)@,
                outcome.deep_view(),
            ),
    {
        match outcome {
            CompileOutcome::Success(_) => {
                self.phase = Phase::Spawning;
                one_action(
                    Action::Launch {
                        program: self.workspace.run_path(),
                        with_input: matches!(self.transport, Transport::Duplex),
                    },
                )
            },
            CompileOutcome::Failure(diagnostics) => self.finish(
                Phase::CompileFailed,
                Some(diagnostics),
            ),
        }
    }

    /// Takes in one event and hands out the actions it calls for, in the
    /// order in which they are to be performed.
    pub fn step(&mut self, event: Event) -> (actions: Vec<Action>)
        ensures
            (StepModel { next: final(self)@, actions: actions.deep_view() }) == step(
                old(self)@,
                event@,
            ),
            old(self).well_formed() ==> final(self).well_formed(),
    {
        proof {
            law_sessions_stay_well_formed(
                self@,
                event@,
                self@.transport,
                self@.platform,
                Seq::empty(),
            );
        }
        if self.phase.terminal() {
            return match event {
                Event::Spawned => one_action(Action::Reap),
                _ => no_action(),
            };
        }
        let duplex = matches!(self.transport, Transport::Duplex);
        match event {
            Event::TransportLost => self.finish(Phase::Interrupted, None),
            Event::SendFailed => self.finish(Phase::Interrupted, None),
            Event::CloseRequested => if duplex {
                self.finish(Phase::Interrupted, None)
            } else {
                no_action()
            },
            Event::Input(text) => self.take_input(text),
            Event::Stored => if matches!(self.phase, Phase::Received) {
                self.phase = Phase::Compiling;
                one_action(
                    Action::Compile {
                        program: compiler_program(),
                        arguments: self.workspace.compiler_arguments(),
                    },
                )
            } else {
                no_action()
            },
            Event::StoreFailed(reason) => if matches!(self.phase, Phase::Received) {
                let notice = failure_message(FailureKind::Io, reason.as_str());
                self.finish(Phase::Interrupted, Some(notice))
            } else {
                no_action()
            },
            Event::CompilerExited { success, diagnostics } => if matches!(
                self.phase,
                Phase::Compiling
            ) {
                let outcome = compile_result(&self.workspace, Ok((success, diagnostics)));
                self.after_compilation(outcome)
            } else {
                no_action()
            },
            Event::CompilerUnavailable(reason) => if matches!(self.phase, Phase::Compiling) {
                let outcome = compile_result(&self.workspace, Err(reason));
                self.after_compilation(outcome)
            } else {
                no_action()
            },
            Event::Spawned => if matches!(self.phase, Phase::Spawning) {
                self.start_running()
            } else {
                no_action()
            },
            Event::SpawnRefused(reason) => if matches!(self.phase, Phase::Spawning) {
                let notice = failure_message(FailureKind::Spawn, reason.as_str());
                self.finish(Phase::SpawnFailed, Some(notice))
            } else {
                no_action()
            },
            Event::Output(pipe, bytes) => if matches!(self.phase, Phase::Running)
                && self.pipe_open(pipe) {
                self.forward(pipe, bytes)
            } else {
                no_action()
            },
            Event::OutputEnded(pipe) => if matches!(self.phase, Phase::Running) && self.pipe_open(
                pipe,
            ) {
                self.end_pipe(pipe)
            } else {
                no_action()
            },
            Event::OutputFault(pipe, reason) => if matches!(self.phase, Phase::Running)
                && self.pipe_open(pipe) {
                let notice = failure_message(FailureKind::Stream, reason.as_str());
                self.finish(Phase::Interrupted, Some(notice))
            } else {
                no_action()
            },
            Event::ChildExited => if matches!(self.phase, Phase::Running) && !self.exited {
                self.exited = true;
                self.conclude(no_action())
            } else {
                no_action()
            },
            Event::FeedFailed(reason) => if matches!(self.phase, Phase::Running) && !self.exited
                && duplex {
                let notice = failure_message(FailureKind::Feed, reason.as_str());
                self.finish(Phase::Interrupted, Some(notice))
            } else {
                no_action()
            },
        }
    }
}

} // verus!
