//! The order of what passes through a session: input reaches the child as
//! it arrived, and output reaches the client as it was written.

use crate::bridge::lossy_text;
use crate::bridge::terminated;
use crate::bridge::Pipe;
use crate::framing::closing;
use crate::framing::framing;
use crate::framing::law_closing_ignores_chunking;
use crate::framing::law_framing_ignores_chunking;
use crate::framing::line_break;
use crate::machine::farewell;
use crate::machine::law_steps_go_forward;
use crate::machine::opening;
use crate::machine::sends;
use crate::machine::step;
use crate::machine::SessionModel;
use crate::protocol::ActionModel;
use crate::protocol::EventModel;
use crate::protocol::Phase;
use crate::protocol::Transport;
use crate::traces::fed;
use crate::traces::law_steps_stay_ended;
use crate::traces::law_teardown_exactly_once;
use crate::traces::lemma_empty_strands;
use crate::traces::lemma_farewell_strands;
use crate::traces::lemma_feeds_strands;
use crate::traces::lemma_gather_concat;
use crate::traces::lemma_gather_one;
use crate::traces::lemma_sends_strands;
use crate::traces::run;
use crate::traces::sent;
use crate::traces::Strand;
use crate::workspace::Platform;
use vstd::prelude::*;

verus! {

/// The texts of the messages from the client among `events`, in order.
pub open spec fn inputs(events: Seq<EventModel>) -> Seq<Seq<char>>
    decreases events.len(),
{
    if events.len() == 0 {
        Seq::empty()
    } else {
        match events.last() {
            EventModel::Input(text) => inputs(events.drop_last()).push(text),
            _ => inputs(events.drop_last()),
        }
    }
}

/// Each of `texts` as a terminated line.
pub open spec fn lines_of(texts: Seq<Seq<char>>) -> Seq<Seq<char>> {
    texts.map_values(|text: Seq<char>| terminated(text))
}

impl SessionModel {
    /// Whether the session can still hand input to its child: it has not
    /// ended, and its child, if started, has not exited.
    pub open spec fn listens(self) -> bool {
        !self.phase.is_terminal() && !(self.phase == Phase::Running && self.exited)
    }
}

proof fn lemma_step_feeds(s: SessionModel, e: EventModel)
    requires
        s.transport == Transport::Duplex,
        s.phase == Phase::Running ==> s.held.len() == 0,
        step(s, e).next.listens(),
    ensures
        s.listens(),
        step(s, e).next.phase == Phase::Running ==> step(s, e).next.held.len() == 0,
        fed(step(s, e).actions) + lines_of(step(s, e).next.held) == lines_of(s.held) + (match e {
            EventModel::Input(text) => seq![terminated(text)],
            _ => Seq::empty(),
        }),
{
    let next = step(s, e).next;
    let actions = step(s, e).actions;
    let none = Seq::<Seq<char>>::empty();
    lemma_empty_strands(Strand::Fed);
    match e {
        EventModel::Input(text) => {
            if s.phase == Phase::Running {
                lemma_gather_one(ActionModel::Feed(terminated(text)), Strand::Fed);
                assert(lines_of(s.held) =~= none);
                assert(fed(actions) + lines_of(next.held) =~= lines_of(s.held) + seq![
                    terminated(text),
                ]);
            } else {
                assert(lines_of(s.held.push(text)) =~= lines_of(s.held) + seq![terminated(text)]);
                assert(none + lines_of(next.held) =~= lines_of(next.held));
            }
        },
        EventModel::Spawned => {
            if s.phase == Phase::Spawning {
                lemma_feeds_strands(s.held);
                assert(lines_of(next.held) =~= none);
                assert(fed(actions) + none =~= lines_of(s.held) + none);
            } else {
                assert(none + lines_of(next.held) =~= lines_of(s.held) + none);
            }
        },
        EventModel::Stored => {
            if s.phase == Phase::Received {
                lemma_gather_one(actions[0], Strand::Fed);
                assert(actions =~= seq![actions[0]]);
            }
            assert(none + lines_of(next.held) =~= lines_of(s.held) + none);
        },
        EventModel::CompilerExited { success, diagnostics } => {
            if s.phase == Phase::Compiling {
                lemma_gather_one(actions[0], Strand::Fed);
                assert(actions =~= seq![actions[0]]);
            }
            assert(none + lines_of(next.held) =~= lines_of(s.held) + none);
        },
        EventModel::Output(pipe, bytes) => {
            if s.phase == Phase::Running && s.open(pipe) {
                lemma_gather_one(ActionModel::Send(lossy_text(bytes)), Strand::Fed);
            }
            assert(none + lines_of(next.held) =~= lines_of(s.held) + none);
        },
        _ => {
            assert(none + lines_of(next.held) =~= lines_of(s.held) + none);
        },
    }
}

proof fn lemma_run_feeds(s: SessionModel, events: Seq<EventModel>)
    requires
        s.transport == Transport::Duplex,
        s.phase == Phase::Running ==> s.held.len() == 0,
        run(s, events).next.listens(),
    ensures
        s.listens(),
        run(s, events).next.transport == Transport::Duplex,
        run(s, events).next.phase == Phase::Running ==> run(s, events).next.held.len() == 0,
        fed(run(s, events).actions) + lines_of(run(s, events).next.held) == lines_of(s.held)
            + lines_of(inputs(events)),
    decreases events.len(),
{
    let none = Seq::<Seq<char>>::empty();
    if events.len() == 0 {
        lemma_empty_strands(Strand::Fed);
        assert(lines_of(inputs(events)) =~= none);
        assert(none + lines_of(s.held) =~= lines_of(s.held) + none);
    } else {
        let before = run(s, events.drop_last());
        let e = events.last();
        let last = step(before.next, e);
        if s.phase.is_terminal() {
            law_steps_stay_ended(s, events);
        } else {
            law_teardown_exactly_once(s, events.drop_last());
        }
        assert(before.next.transport == Transport::Duplex);
        if before.next.phase.is_terminal() {
            law_steps_go_forward(before.next, e);
        } else if before.next.phase == Phase::Running && before.next.exited {
            assert(!last.next.listens());
        } else {
            lemma_run_feeds(s, events.drop_last());
            lemma_step_feeds(before.next, e);
            lemma_gather_concat(before.actions, last.actions, Strand::Fed);
            let told = match e {
                EventModel::Input(text) => seq![terminated(text)],
                _ => Seq::empty(),
            };
            assert(lines_of(inputs(events)) =~= lines_of(inputs(events.drop_last())) + told);
            assert(fed(before.actions) + fed(last.actions) + lines_of(last.next.held) =~= fed(
                before.actions,
            ) + (fed(last.actions) + lines_of(last.next.held)));
            assert(fed(before.actions) + (lines_of(before.next.held) + told) =~= (fed(
                before.actions,
            ) + lines_of(before.next.held)) + told);
            assert(lines_of(s.held) + lines_of(inputs(events.drop_last())) + told =~= lines_of(
                s.held,
            ) + (lines_of(inputs(events.drop_last())) + told));
        }
    }
}

/// No input is lost on the duplex transport. For as long as a session can
/// hand input to its child, every text message that has arrived since the
/// session was opened has been fed to the child as a terminated line or is
/// still held back for it, in the order of arrival and with nothing added:
/// the lines fed so far, followed by the lines held, are the messages that
/// arrived.
pub proof fn law_no_input_is_lost(
    platform: Platform,
    id: Seq<char>,
    source: Seq<char>,
    events: Seq<EventModel>,
)
    requires
        run(opening(Transport::Duplex, platform, id, source).next, events).next.listens(),
    ensures
        fed(run(opening(Transport::Duplex, platform, id, source).next, events).actions)
            + lines_of(run(opening(Transport::Duplex, platform, id, source).next, events).next.held)
            == lines_of(inputs(events)),
        run(opening(Transport::Duplex, platform, id, source).next, events).next.phase
            == Phase::Running ==> fed(
            run(opening(Transport::Duplex, platform, id, source).next, events).actions,
        ) == lines_of(inputs(events)),
{
    let s = opening(Transport::Duplex, platform, id, source).next;
    lemma_run_feeds(s, events);
    let r = run(s, events);
    assert(lines_of(s.held) =~= Seq::<Seq<char>>::empty());
    assert(lines_of(s.held) + lines_of(inputs(events)) =~= lines_of(inputs(events)));
    if r.next.phase == Phase::Running {
        assert(lines_of(r.next.held) =~= Seq::<Seq<char>>::empty());
        assert(fed(r.actions) + lines_of(r.next.held) =~= fed(r.actions));
    }
}

/// The chunks of output among `events`, in order.
pub open spec fn chunks(events: Seq<EventModel>) -> Seq<Seq<u8>>
    decreases events.len(),
{
    if events.len() == 0 {
        Seq::empty()
    } else {
        match events.last() {
            EventModel::Output(_, bytes) => chunks(events.drop_last()).push(bytes),
            _ => chunks(events.drop_last()),
        }
    }
}

/// The pipe that an event of output, or of its end, speaks of.
pub open spec fn pipe_of(e: EventModel) -> Option<Pipe> {
    match e {
        EventModel::Output(pipe, _) => Some(pipe),
        EventModel::OutputEnded(pipe) => Some(pipe),
        EventModel::OutputFault(pipe, _) => Some(pipe),
        _ => None,
    }
}

/// Whether no output of a pipe follows the end of that pipe in `events`.
pub open spec fn silent_after_end(events: Seq<EventModel>) -> bool {
    forall|i: int, j: int|
        0 <= i < j < events.len() && (#[trigger] events[i]) is OutputEnded && (
        #[trigger] events[j]) is Output ==> pipe_of(events[i]) != pipe_of(events[j])
}

/// Whether `pipe` is known to have ended in the course of `events`.
spec fn ended_in(events: Seq<EventModel>, pipe: Pipe) -> bool {
    exists|i: int| 0 <= i < events.len() && #[trigger] events[i] == EventModel::OutputEnded(pipe)
}

/// A running session is afterwards running, completed or interrupted.
proof fn lemma_running_goes_on(s: SessionModel, events: Seq<EventModel>)
    requires
        s.phase == Phase::Running,
    ensures
        run(s, events).next.phase == Phase::Running || run(s, events).next.phase
            == Phase::Completed || run(s, events).next.phase == Phase::Interrupted,
    decreases events.len(),
{
    if events.len() > 0 {
        lemma_running_goes_on(s, events.drop_last());
    }
}

proof fn lemma_duplex_run(s: SessionModel, events: Seq<EventModel>)
    requires
        s.transport == Transport::Duplex,
        s.phase == Phase::Running,
        s.stdout_open,
        s.stderr_open,
        silent_after_end(events),
        run(s, events).next.phase == Phase::Running || run(s, events).next.phase
            == Phase::Completed,
    ensures
        run(s, events).next.transport == Transport::Duplex,
        run(s, events).next.phase == Phase::Completed ==> !run(s, events).next.stdout_open && !run(
            s,
            events,
        ).next.stderr_open,
        !run(s, events).next.stdout_open ==> ended_in(events, Pipe::Stdout),
        !run(s, events).next.stderr_open ==> ended_in(events, Pipe::Stderr),
        sent(run(s, events).actions) == chunks(events).map_values(|bytes: Seq<u8>| lossy_text(bytes)),
    decreases events.len(),
{
    let none = Seq::<Seq<char>>::empty();
    lemma_empty_strands(Strand::Sent);
    if events.len() == 0 {
        assert(chunks(events).map_values(|bytes: Seq<u8>| lossy_text(bytes)) =~= none);
    } else {
        let earlier = events.drop_last();
        let before = run(s, earlier);
        let e = events.last();
        let last = step(before.next, e);
        law_teardown_exactly_once(s, earlier);
        lemma_running_goes_on(s, earlier);
        law_steps_go_forward(before.next, e);
        assert(before.next.phase == Phase::Running || before.next.phase == Phase::Completed);
        assert(silent_after_end(earlier)) by {
            assert forall|i: int, j: int|
                0 <= i < j < earlier.len() && (#[trigger] earlier[i]) is OutputEnded && (
                #[trigger] earlier[j]) is Output implies pipe_of(earlier[i]) != pipe_of(
                earlier[j],
            ) by {
                assert(events[i] == earlier[i]);
                assert(events[j] == earlier[j]);
            }
        }
        lemma_duplex_run(s, earlier);
        lemma_gather_concat(before.actions, last.actions, Strand::Sent);
        assert forall|pipe: Pipe| !last.next.open(pipe) implies ended_in(events, pipe) by {
            if !before.next.open(pipe) {
                assert(ended_in(earlier, pipe));
                let i = choose|i: int|
                    0 <= i < earlier.len() && #[trigger] earlier[i] == EventModel::OutputEnded(
                        pipe,
                    );
                assert(events[i] == EventModel::OutputEnded(pipe));
            } else {
                assert(e == EventModel::OutputEnded(pipe));
                assert(events[events.len() - 1] == EventModel::OutputEnded(pipe));
            }
        }
        assert(!last.next.open(Pipe::Stdout) ==> ended_in(events, Pipe::Stdout));
        assert(!last.next.open(Pipe::Stderr) ==> ended_in(events, Pipe::Stderr));
        let told = chunks(earlier).map_values(|bytes: Seq<u8>| lossy_text(bytes));
        match e {
            EventModel::Output(pipe, bytes) => {
                if !before.next.open(pipe) {
                    assert(ended_in(earlier, pipe));
                    let i = choose|i: int|
                        0 <= i < earlier.len() && #[trigger] earlier[i] == EventModel::OutputEnded(
                            pipe,
                        );
                    assert(events[i] == EventModel::OutputEnded(pipe));
                    assert(events[events.len() - 1] == e);
                    assert(false);
                }
                lemma_gather_one(ActionModel::Send(lossy_text(bytes)), Strand::Sent);
                assert(chunks(events).map_values(|bytes: Seq<u8>| lossy_text(bytes)) =~= told.push(
                    lossy_text(bytes),
                ));
                assert(told + seq![lossy_text(bytes)] =~= told.push(lossy_text(bytes)));
            },
            EventModel::Input(text) => {
                lemma_gather_one(ActionModel::Feed(terminated(text)), Strand::Sent);
                assert(told + none =~= told);
            },
            EventModel::Spawned => {
                lemma_gather_one(ActionModel::Reap, Strand::Sent);
                assert(told + none =~= told);
            },
            EventModel::OutputEnded(pipe) => {
                lemma_farewell_strands(before.next.with_closed(pipe), None);
                lemma_gather_concat(
                    Seq::<ActionModel>::empty(),
                    farewell(before.next.with_closed(pipe), None),
                    Strand::Sent,
                );
                assert(told + none =~= told);
            },
            EventModel::ChildExited => {
                let t = SessionModel { exited: true, ..before.next };
                lemma_farewell_strands(t, None);
                lemma_gather_concat(Seq::<ActionModel>::empty(), farewell(t, None), Strand::Sent);
                assert(told + none =~= told);
            },
            _ => {
                assert(told + none =~= told);
            },
        }
    }
}

/// On the duplex transport the client receives the child's output in the
/// order in which it was read. In a run of a running session that no fault
/// cuts short, in which no pipe speaks after its end, the messages sent are
/// the chunks read, one message per chunk and in the order of the reads; so
/// the bytes of each pipe reach the client in the order in which the child
/// wrote them.
pub proof fn law_duplex_output_in_order(s: SessionModel, events: Seq<EventModel>)
    requires
        s.transport == Transport::Duplex,
        s.phase == Phase::Running,
        s.stdout_open,
        s.stderr_open,
        silent_after_end(events),
        run(s, events).next.phase == Phase::Running || run(s, events).next.phase
            == Phase::Completed,
    ensures
        sent(run(s, events).actions) == chunks(events).map_values(|bytes: Seq<u8>| lossy_text(bytes)),
{
    lemma_duplex_run(s, events);
}

/// All the bytes read from `pipe` in the course of `events`, in order.
pub open spec fn stream(events: Seq<EventModel>, pipe: Pipe) -> Seq<u8>
    decreases events.len(),
{
    if events.len() == 0 {
        Seq::empty()
    } else {
        match events.last() {
            EventModel::Output(from, bytes) => if from == pipe {
                stream(events.drop_last(), pipe) + bytes
            } else {
                stream(events.drop_last(), pipe)
            },
            _ => stream(events.drop_last(), pipe),
        }
    }
}

/// The messages that a run sends to the client in the steps that handle the
/// events of `pipe`, in order.
pub open spec fn sent_for(s: SessionModel, events: Seq<EventModel>, pipe: Pipe) -> Seq<Seq<char>>
    decreases events.len(),
{
    if events.len() == 0 {
        Seq::empty()
    } else if pipe_of(events.last()) == Some(pipe) {
        sent_for(s, events.drop_last(), pipe) + sent(
            step(run(s, events.drop_last()).next, events.last()).actions,
        )
    } else {
        sent_for(s, events.drop_last(), pipe)
    }
}

/// The bytes read from `pipe` once `e` has been added to a run in which
/// `sofar` were read from it.
spec fn grown(sofar: Seq<u8>, e: EventModel, pipe: Pipe) -> Seq<u8> {
    match e {
        EventModel::Output(from, bytes) => if from == pipe {
            sofar + bytes
        } else {
            sofar
        },
        _ => sofar,
    }
}

/// The messages that the step for `e` sends on behalf of `pipe`.
spec fn told_for(t: SessionModel, e: EventModel, pipe: Pipe) -> Seq<Seq<char>> {
    if pipe_of(e) == Some(pipe) {
        sent(step(t, e).actions)
    } else {
        Seq::empty()
    }
}

proof fn lemma_stream_step_open(t: SessionModel, e: EventModel, pipe: Pipe, sofar: Seq<u8>)
    requires
        t.transport == Transport::EventStream,
        t.phase == Phase::Running,
        t.open(pipe),
        !framing(sofar).broken,
        t.pending(pipe) == framing(sofar).rest,
        step(t, e).next.phase == Phase::Running || step(t, e).next.phase == Phase::Completed,
    ensures
        step(t, e).next.phase == Phase::Completed ==> !step(t, e).next.open(pipe),
        !step(t, e).next.open(pipe) ==> e == EventModel::OutputEnded(pipe),
        step(t, e).next.open(pipe) ==> !framing(grown(sofar, e, pipe)).broken && step(
            t,
            e,
        ).next.pending(pipe) == framing(grown(sofar, e, pipe)).rest && framing(sofar).lines
            + told_for(t, e, pipe) == framing(grown(sofar, e, pipe)).lines,
        !step(t, e).next.open(pipe) ==> framing(sofar).lines + told_for(t, e, pipe) == closing(
            grown(sofar, e, pipe),
        ).lines,
{
    let none = Seq::<Seq<char>>::empty();
    let next = step(t, e).next;
    assert(framing(sofar).lines + none =~= framing(sofar).lines);
    match e {
        EventModel::Output(from, bytes) => {
            if from == pipe {
                let framed = framing(t.pending(pipe) + bytes);
                law_framing_ignores_chunking(sofar, bytes);
                lemma_sends_strands(framed.lines);
            }
        },
        EventModel::OutputEnded(from) => {
            if from == pipe {
                let framed = closing(t.pending(pipe));
                let u = t.with_pending(pipe, framed.rest).with_closed(pipe);
                law_closing_ignores_chunking(sofar, Seq::<u8>::empty());
                assert(sofar + Seq::<u8>::empty() =~= sofar);
                assert(framing(sofar).rest + Seq::<u8>::empty() =~= framing(sofar).rest);
                lemma_sends_strands(framed.lines);
                lemma_farewell_strands(u, None);
                lemma_gather_concat(sends(framed.lines), farewell(u, None), Strand::Sent);
                assert(framed.lines + none =~= framed.lines);
            }
        },
        _ => {},
    }
}

proof fn lemma_stream_step_closed(t: SessionModel, e: EventModel, pipe: Pipe)
    requires
        t.phase == Phase::Running || t.phase == Phase::Completed,
        !t.open(pipe),
        !(e is Output) || pipe_of(e) != Some(pipe),
    ensures
        !step(t, e).next.open(pipe),
        told_for(t, e, pipe) == Seq::<Seq<char>>::empty(),
{
    lemma_empty_strands(Strand::Sent);
}

proof fn lemma_stream_run(s: SessionModel, events: Seq<EventModel>, pipe: Pipe)
    requires
        s.transport == Transport::EventStream,
        s.phase == Phase::Running,
        s.stdout_open,
        s.stderr_open,
        s.pending(pipe) == Seq::<u8>::empty(),
        silent_after_end(events),
        run(s, events).next.phase == Phase::Running || run(s, events).next.phase
            == Phase::Completed,
    ensures
        run(s, events).next.phase == Phase::Completed ==> !run(s, events).next.open(pipe),
        !run(s, events).next.open(pipe) ==> ended_in(events, pipe),
        run(s, events).next.open(pipe) ==> !framing(stream(events, pipe)).broken && run(
            s,
            events,
        ).next.pending(pipe) == framing(stream(events, pipe)).rest && sent_for(s, events, pipe)
            == framing(stream(events, pipe)).lines,
        !run(s, events).next.open(pipe) ==> sent_for(s, events, pipe) == closing(
            stream(events, pipe),
        ).lines,
    decreases events.len(),
{
    if events.len() == 0 {
        assert(line_break(Seq::<u8>::empty()) == 0);
    } else {
        let earlier = events.drop_last();
        let before = run(s, earlier);
        let e = events.last();
        law_teardown_exactly_once(s, earlier);
        lemma_running_goes_on(s, earlier);
        law_steps_go_forward(before.next, e);
        assert(before.next.phase == Phase::Running || before.next.phase == Phase::Completed);
        assert(silent_after_end(earlier)) by {
            assert forall|i: int, j: int|
                0 <= i < j < earlier.len() && (#[trigger] earlier[i]) is OutputEnded && (
                #[trigger] earlier[j]) is Output implies pipe_of(earlier[i]) != pipe_of(
                earlier[j],
            ) by {
                assert(events[i] == earlier[i]);
                assert(events[j] == earlier[j]);
            }
        }
        lemma_stream_run(s, earlier, pipe);
        assert(sent_for(s, events, pipe) == sent_for(s, earlier, pipe) + told_for(
            before.next,
            e,
            pipe,
        )) by {
            assert(sent_for(s, earlier, pipe) + Seq::<Seq<char>>::empty() =~= sent_for(
                s,
                earlier,
                pipe,
            ));
        }
        assert(stream(events, pipe) == grown(stream(earlier, pipe), e, pipe));
        assert(events[events.len() - 1] == e);
        if !before.next.open(pipe) {
            assert(ended_in(earlier, pipe));
            let i = choose|i: int|
                0 <= i < earlier.len() && #[trigger] earlier[i] == EventModel::OutputEnded(pipe);
            assert(events[i] == EventModel::OutputEnded(pipe));
            assert(ended_in(events, pipe));
            lemma_stream_step_closed(before.next, e, pipe);
            assert(sent_for(s, earlier, pipe) + Seq::<Seq<char>>::empty() =~= sent_for(
                s,
                earlier,
                pipe,
            ));
        } else {
            lemma_stream_step_open(before.next, e, pipe, stream(earlier, pipe));
        }
    }
}

/// On the event stream the client receives each pipe's output line by line
/// and in order, however the reads cut it into chunks and however the two
/// pipes interleave. In a run of a running session that no fault cuts short,
/// in which no pipe speaks after its end, the messages sent for a pipe are
/// the lines of all the bytes read from it: the complete lines while the pipe
/// is open, with the bytes after the last line feed still pending, and every
/// line, an unterminated last one included, once it has ended.
pub proof fn law_event_stream_output_in_order(
    s: SessionModel,
    events: Seq<EventModel>,
    pipe: Pipe,
)
    requires
        s.transport == Transport::EventStream,
        s.phase == Phase::Running,
        s.stdout_open,
        s.stderr_open,
        s.pending(pipe) == Seq::<u8>::empty(),
        silent_after_end(events),
        run(s, events).next.phase == Phase::Running || run(s, events).next.phase
            == Phase::Completed,
    ensures
        run(s, events).next.open(pipe) ==> sent_for(s, events, pipe) == framing(
            stream(events, pipe),
        ).lines && run(s, events).next.pending(pipe) == framing(stream(events, pipe)).rest,
        !run(s, events).next.open(pipe) ==> sent_for(s, events, pipe) == closing(
            stream(events, pipe),
        ).lines,
        run(s, events).next.phase == Phase::Completed ==> !run(s, events).next.open(pipe),
{
    lemma_stream_run(s, events, pipe);
}

} // verus!
