//! Whole runs of a session: what holds of the actions that a sequence of
//! events calls for, from the first event to the last, and above all that
//! the workspace is torn down once on every path.

use crate::bridge::terminated;
use crate::framing::closing;
use crate::framing::framing;
use crate::bridge::lossy_text;
use crate::machine::farewell;
use crate::machine::feeds;
use crate::machine::removals;
use crate::machine::sends;
use crate::machine::step;
use crate::machine::SessionModel;
use crate::machine::StepModel;
use crate::protocol::failure_text;
use crate::protocol::undecodable;
use crate::protocol::ActionModel;
use crate::protocol::EventModel;
use crate::protocol::FailureKind;
use crate::protocol::Transport;
use crate::workspace::scratch_files_of;
use crate::workspace::Platform;
use vstd::prelude::*;

verus! {


/// Runs a session through `events`, in order: the session afterwards and all
/// the actions called for on the way.
pub open spec fn run(s: SessionModel, events: Seq<EventModel>) -> StepModel
    decreases events.len(),
{
    if events.len() == 0 {
        StepModel { next: s, actions: Seq::empty() }
    } else {
        let before = run(s, events.drop_last());
        let last = step(before.next, events.last());
        StepModel { next: last.next, actions: before.actions + last.actions }
    }
}

/// The strands a run's actions are read along.
pub ghost enum Strand {
    /// The messages to the client.
    Sent,
    /// The lines for the child's input.
    Fed,
    /// The files removed.
    Removed,
    /// The closes of the transport.
    Closed,
    /// The waits for the child.
    Reaped,
}

/// What `action` adds to a strand: its text or path where it belongs to the
/// strand, an empty text for a close or a wait, nothing otherwise.
pub open spec fn strand_of(action: ActionModel, strand: Strand) -> Seq<Seq<char>> {
    match (strand, action) {
        (Strand::Sent, ActionModel::Send(text)) => seq![text],
        (Strand::Fed, ActionModel::Feed(line)) => seq![line],
        (Strand::Removed, ActionModel::Remove(path)) => seq![path],
        (Strand::Closed, ActionModel::Close) => seq![Seq::empty()],
        (Strand::Reaped, ActionModel::Reap) => seq![Seq::empty()],
        _ => Seq::empty(),
    }
}

/// What `actions` add to a strand, in order.
pub open spec fn gather(actions: Seq<ActionModel>, strand: Strand) -> Seq<Seq<char>>
    decreases actions.len(),
{
    if actions.len() == 0 {
        Seq::empty()
    } else {
        gather(actions.drop_last(), strand) + strand_of(actions.last(), strand)
    }
}

/// The texts of the messages to the client among `actions`, in order.
pub open spec fn sent(actions: Seq<ActionModel>) -> Seq<Seq<char>> {
    gather(actions, Strand::Sent)
}

/// The lines for the child's input among `actions`, in order.
pub open spec fn fed(actions: Seq<ActionModel>) -> Seq<Seq<char>> {
    gather(actions, Strand::Fed)
}

/// The files removed by `actions`, in order.
pub open spec fn removed(actions: Seq<ActionModel>) -> Seq<Seq<char>> {
    gather(actions, Strand::Removed)
}

/// How often `actions` close the transport.
pub open spec fn closes(actions: Seq<ActionModel>) -> nat {
    gather(actions, Strand::Closed).len()
}

/// How often `actions` wait for the child.
pub open spec fn reaps(actions: Seq<ActionModel>) -> nat {
    gather(actions, Strand::Reaped).len()
}

pub(crate) proof fn lemma_gather_concat(a: Seq<ActionModel>, b: Seq<ActionModel>, strand: Strand)
    ensures
        gather(a + b, strand) == gather(a, strand) + gather(b, strand),
    decreases b.len(),
{
    if b.len() == 0 {
        assert(a + b =~= a);
        assert(gather(a, strand) + gather(b, strand) =~= gather(a, strand));
    } else {
        assert((a + b).drop_last() =~= a + b.drop_last());
        assert((a + b).last() == b.last());
        lemma_gather_concat(a, b.drop_last(), strand);
        assert(gather(a, strand) + (gather(b.drop_last(), strand) + strand_of(b.last(), strand))
            =~= (gather(a, strand) + gather(b.drop_last(), strand)) + strand_of(b.last(), strand));
    }
}

pub(crate) proof fn lemma_gather_one(action: ActionModel, strand: Strand)
    ensures
        gather(seq![action], strand) == strand_of(action, strand),
{
    let one = seq![action];
    assert(one.drop_last() =~= Seq::<ActionModel>::empty());
    assert(gather(one.drop_last(), strand) + strand_of(one.last(), strand) =~= strand_of(
        action,
        strand,
    ));
}

pub(crate) proof fn lemma_gather_none(actions: Seq<ActionModel>, strand: Strand)
    requires
        forall|i: int| 0 <= i < actions.len() ==> (#[trigger] strand_of(actions[i], strand)).len() == 0,
    ensures
        gather(actions, strand) == Seq::<Seq<char>>::empty(),
    decreases actions.len(),
{
    if actions.len() > 0 {
        lemma_gather_none(actions.drop_last(), strand);
        assert(gather(actions.drop_last(), strand) + strand_of(actions.last(), strand)
            =~= Seq::<Seq<char>>::empty());
    }
}

pub(crate) proof fn lemma_gather_each(actions: Seq<ActionModel>, strand: Strand, items: Seq<Seq<char>>)
    requires
        actions.len() == items.len(),
        forall|i: int|
            0 <= i < actions.len() ==> #[trigger] strand_of(actions[i], strand) == seq![items[i]],
    ensures
        gather(actions, strand) == items,
    decreases actions.len(),
{
    if actions.len() > 0 {
        lemma_gather_each(actions.drop_last(), strand, items.drop_last());
        assert(items.drop_last() + seq![items.last()] =~= items);
    } else {
        assert(items =~= Seq::<Seq<char>>::empty());
    }
}

/// What the actions that end a session add to each strand.
pub(crate) proof fn lemma_farewell_strands(s: SessionModel, notice: Option<Seq<char>>)
    ensures
        sent(farewell(s, notice)) == match notice {
            Some(text) => seq![text],
            None => Seq::empty(),
        },
        fed(farewell(s, notice)) == Seq::<Seq<char>>::empty(),
        removed(farewell(s, notice)) == scratch_files_of(s.id, s.platform),
        closes(farewell(s, notice)) == 1,
        reaps(farewell(s, notice)) == if s.child_at_large() {
            1nat
        } else {
            0nat
        },
{
    let told = match notice {
        Some(text) => seq![ActionModel::Send(text)],
        None => Seq::empty(),
    };
    let reaped = if s.child_at_large() {
        seq![ActionModel::Reap]
    } else {
        Seq::empty()
    };
    let gone = removals(s.id, s.platform);
    let closed = seq![ActionModel::Close];
    let files = scratch_files_of(s.id, s.platform);
    assert forall|strand: Strand| #![auto]
        gather(farewell(s, notice), strand) == gather(told, strand) + gather(reaped, strand)
            + gather(gone, strand) + gather(closed, strand) by {
        lemma_gather_concat(told, reaped, strand);
        lemma_gather_concat(told + reaped, gone, strand);
        lemma_gather_concat(told + reaped + gone, closed, strand);
    }
    assert forall|strand: Strand| #![auto]
        gather(told, strand) == (match notice {
            Some(text) => strand_of(ActionModel::Send(text), strand),
            None => Seq::empty(),
        }) by {
        match notice {
            Some(text) => lemma_gather_one(ActionModel::Send(text), strand),
            None => {},
        }
    }
    assert forall|strand: Strand| #![auto]
        gather(reaped, strand) == (if s.child_at_large() {
            strand_of(ActionModel::Reap, strand)
        } else {
            Seq::empty()
        }) by {
        if s.child_at_large() {
            lemma_gather_one(ActionModel::Reap, strand);
        }
    }
    assert forall|strand: Strand| #![auto]
        gather(closed, strand) == strand_of(ActionModel::Close, strand) by {
        lemma_gather_one(ActionModel::Close, strand);
    }
    lemma_gather_each(gone, Strand::Removed, files);
    lemma_gather_none(gone, Strand::Sent);
    lemma_gather_none(gone, Strand::Fed);
    lemma_gather_none(gone, Strand::Closed);
    lemma_gather_none(gone, Strand::Reaped);
    assert(sent(farewell(s, notice)) =~= match notice {
        Some(text) => seq![text],
        None => Seq::empty(),
    });
    assert(fed(farewell(s, notice)) =~= Seq::<Seq<char>>::empty());
    assert(removed(farewell(s, notice)) =~= files);
}

pub(crate) proof fn lemma_sends_strands(texts: Seq<Seq<char>>)
    ensures
        sent(sends(texts)) == texts,
        fed(sends(texts)) == Seq::<Seq<char>>::empty(),
        removed(sends(texts)) == Seq::<Seq<char>>::empty(),
        closes(sends(texts)) == 0,
{
    lemma_gather_each(sends(texts), Strand::Sent, texts);
    lemma_gather_none(sends(texts), Strand::Fed);
    lemma_gather_none(sends(texts), Strand::Removed);
    lemma_gather_none(sends(texts), Strand::Closed);
}

pub(crate) proof fn lemma_feeds_strands(texts: Seq<Seq<char>>)
    ensures
        sent(feeds(texts)) == Seq::<Seq<char>>::empty(),
        fed(feeds(texts)) == texts.map_values(|text: Seq<char>| terminated(text)),
        removed(feeds(texts)) == Seq::<Seq<char>>::empty(),
        closes(feeds(texts)) == 0,
{
    lemma_gather_each(
        feeds(texts),
        Strand::Fed,
        texts.map_values(|text: Seq<char>| terminated(text)),
    );
    lemma_gather_none(feeds(texts), Strand::Sent);
    lemma_gather_none(feeds(texts), Strand::Removed);
    lemma_gather_none(feeds(texts), Strand::Closed);
}

pub(crate) proof fn lemma_empty_strands(strand: Strand)
    ensures
        gather(Seq::<ActionModel>::empty(), strand) == Seq::<Seq<char>>::empty(),
{
}

/// Whether `actions` are `prefix`, which sends messages only, followed by
/// the actions that end the session `t`.
spec fn ends_with_farewell(
    actions: Seq<ActionModel>,
    prefix: Seq<ActionModel>,
    t: SessionModel,
    notice: Option<Seq<char>>,
) -> bool {
    &&& actions == prefix + farewell(t, notice)
    &&& forall|i: int| 0 <= i < prefix.len() ==> #[trigger] prefix[i] is Send
}

proof fn lemma_ending_shape(s: SessionModel, e: EventModel)
    requires
        !s.phase.is_terminal(),
        step(s, e).next.phase.is_terminal(),
    ensures
        exists|prefix: Seq<ActionModel>, t: SessionModel, notice: Option<Seq<char>>|
            #[trigger] ends_with_farewell(step(s, e).actions, prefix, t, notice) && t.id == s.id
                && t.platform == s.platform && (e is ChildExited || t.child_at_large()
                == s.child_at_large()),
{
    let actions = step(s, e).actions;
    let none = Seq::<ActionModel>::empty();
    let undecodable = Some(
        failure_text(
            FailureKind::Stream,
            undecodable(),
        ),
    );
    match e {
        EventModel::TransportLost | EventModel::SendFailed | EventModel::CloseRequested => {
            assert(actions =~= none + farewell(s, None));
            assert(ends_with_farewell(actions, none, s, None));
        },
        EventModel::StoreFailed(reason) => {
            let notice = Some(
                failure_text(FailureKind::Io, reason),
            );
            assert(actions =~= none + farewell(s, notice));
            assert(ends_with_farewell(actions, none, s, notice));
        },
        EventModel::CompilerExited { success, diagnostics } => {
            let notice = Some(lossy_text(diagnostics));
            assert(actions =~= none + farewell(s, notice));
            assert(ends_with_farewell(actions, none, s, notice));
        },
        EventModel::CompilerUnavailable(reason) => {
            let notice = Some(
                failure_text(FailureKind::CompilerLaunch, reason),
            );
            assert(actions =~= none + farewell(s, notice));
            assert(ends_with_farewell(actions, none, s, notice));
        },
        EventModel::SpawnRefused(reason) => {
            let notice = Some(
                failure_text(FailureKind::Spawn, reason),
            );
            assert(actions =~= none + farewell(s, notice));
            assert(ends_with_farewell(actions, none, s, notice));
        },
        EventModel::Output(pipe, bytes) => {
            let framed = framing(s.pending(pipe) + bytes);
            assert(ends_with_farewell(actions, sends(framed.lines), s, undecodable));
        },
        EventModel::OutputEnded(pipe) => {
            match s.transport {
                Transport::Duplex => {
                    let t = s.with_closed(pipe);
                    assert(ends_with_farewell(actions, none, t, None));
                },
                Transport::EventStream => {
                    let framed = closing(s.pending(pipe));
                    if framed.broken {
                        assert(ends_with_farewell(actions, sends(framed.lines), s, undecodable));
                    } else {
                        let t = s.with_pending(pipe, framed.rest).with_closed(pipe);
                        assert(ends_with_farewell(actions, sends(framed.lines), t, None));
                    }
                },
            }
        },
        EventModel::OutputFault(pipe, reason) => {
            let notice = Some(
                failure_text(FailureKind::Stream, reason),
            );
            assert(actions =~= none + farewell(s, notice));
            assert(ends_with_farewell(actions, none, s, notice));
        },
        EventModel::ChildExited => {
            let t = SessionModel { exited: true, ..s };
            assert(ends_with_farewell(actions, none, t, None));
        },
        EventModel::FeedFailed(reason) => {
            let notice = Some(
                failure_text(FailureKind::Feed, reason),
            );
            assert(actions =~= none + farewell(s, notice));
            assert(ends_with_farewell(actions, none, s, notice));
        },
        _ => {},
    }
}

/// A step that does not end the session removes nothing and leaves the
/// transport open.
proof fn lemma_quiet_step(s: SessionModel, e: EventModel)
    requires
        s.phase.is_terminal() || !step(s, e).next.phase.is_terminal(),
    ensures
        forall|i: int|
            0 <= i < step(s, e).actions.len() ==> !(#[trigger] step(s, e).actions[i] is Remove)
                && !(step(s, e).actions[i] is Close),
{
}

/// What one step removes and closes: everything, once, if it ends the
/// session, and nothing otherwise.
proof fn lemma_step_cleans(s: SessionModel, e: EventModel)
    ensures
        !s.phase.is_terminal() && step(s, e).next.phase.is_terminal() ==> removed(
            step(s, e).actions,
        ) == scratch_files_of(s.id, s.platform) && closes(step(s, e).actions) == 1,
        s.phase.is_terminal() || !step(s, e).next.phase.is_terminal() ==> removed(
            step(s, e).actions,
        ) == Seq::<Seq<char>>::empty() && closes(step(s, e).actions) == 0,
{
    let actions = step(s, e).actions;
    if !s.phase.is_terminal() && step(s, e).next.phase.is_terminal() {
        lemma_ending_shape(s, e);
        let (prefix, t, notice) = choose|
            prefix: Seq<ActionModel>,
            t: SessionModel,
            notice: Option<Seq<char>>,
        |
            #[trigger] ends_with_farewell(actions, prefix, t, notice) && t.id == s.id && t.platform
                == s.platform && (e is ChildExited || t.child_at_large() == s.child_at_large());
        lemma_farewell_strands(t, notice);
        lemma_gather_none(prefix, Strand::Removed);
        lemma_gather_none(prefix, Strand::Closed);
        lemma_gather_concat(prefix, farewell(t, notice), Strand::Removed);
        lemma_gather_concat(prefix, farewell(t, notice), Strand::Closed);
        assert(Seq::<Seq<char>>::empty() + scratch_files_of(s.id, s.platform) =~= scratch_files_of(
            s.id,
            s.platform,
        ));
    } else {
        lemma_quiet_step(s, e);
        lemma_gather_none(actions, Strand::Removed);
        lemma_gather_none(actions, Strand::Closed);
    }
}

/// Teardown happens exactly once, on every path: the actions of a run remove
/// nothing and leave the transport open for as long as the session goes on,
/// and once it has ended, however it ended and whatever came after, they have
/// removed each scratch file of the session once, in order, and closed the
/// transport once.
pub proof fn law_teardown_exactly_once(s: SessionModel, events: Seq<EventModel>)
    requires
        !s.phase.is_terminal(),
    ensures
        run(s, events).next.id == s.id,
        run(s, events).next.platform == s.platform,
        run(s, events).next.transport == s.transport,
        removed(run(s, events).actions) == if run(s, events).next.phase.is_terminal() {
            scratch_files_of(s.id, s.platform)
        } else {
            Seq::empty()
        },
        closes(run(s, events).actions) == if run(s, events).next.phase.is_terminal() {
            1nat
        } else {
            0nat
        },
    decreases events.len(),
{
    if events.len() > 0 {
        let before = run(s, events.drop_last());
        let last = step(before.next, events.last());
        law_teardown_exactly_once(s, events.drop_last());
        lemma_step_cleans(before.next, events.last());
        lemma_gather_concat(before.actions, last.actions, Strand::Removed);
        lemma_gather_concat(before.actions, last.actions, Strand::Closed);
        assert(removed(before.actions) + removed(last.actions) =~= if last.next.phase.is_terminal() {
            scratch_files_of(s.id, s.platform)
        } else {
            Seq::empty()
        });
    }
}

/// The scratch files that may exist once `actions` were performed on a
/// directory that held `listing`, if every removal succeeds: storing the
/// source or running the compiler may leave any of `files` behind, and a
/// removal takes its file away.
pub open spec fn residue(
    listing: Set<Seq<char>>,
    actions: Seq<ActionModel>,
    files: Set<Seq<char>>,
) -> Set<Seq<char>>
    decreases actions.len(),
{
    if actions.len() == 0 {
        listing
    } else {
        let before = residue(listing, actions.drop_last(), files);
        match actions.last() {
            ActionModel::Store { .. } | ActionModel::Compile { .. } => before.union(files),
            ActionModel::Remove(path) => before.remove(path),
            _ => before,
        }
    }
}

/// Whether `action` neither creates nor removes a file.
pub open spec fn leaves_files_alone(action: ActionModel) -> bool {
    !(action is Store) && !(action is Compile) && !(action is Remove)
}

proof fn lemma_residue_concat(
    listing: Set<Seq<char>>,
    a: Seq<ActionModel>,
    b: Seq<ActionModel>,
    files: Set<Seq<char>>,
)
    ensures
        residue(listing, a + b, files) == residue(residue(listing, a, files), b, files),
    decreases b.len(),
{
    if b.len() == 0 {
        assert(a + b =~= a);
    } else {
        assert((a + b).drop_last() =~= a + b.drop_last());
        assert((a + b).last() == b.last());
        lemma_residue_concat(listing, a, b.drop_last(), files);
    }
}

proof fn lemma_residue_untouched(
    listing: Set<Seq<char>>,
    actions: Seq<ActionModel>,
    files: Set<Seq<char>>,
)
    requires
        forall|i: int| 0 <= i < actions.len() ==> leaves_files_alone(#[trigger] actions[i]),
    ensures
        residue(listing, actions, files) == listing,
    decreases actions.len(),
{
    if actions.len() > 0 {
        lemma_residue_untouched(listing, actions.drop_last(), files);
    }
}

proof fn lemma_residue_of_removals(
    listing: Set<Seq<char>>,
    paths: Seq<Seq<char>>,
    files: Set<Seq<char>>,
)
    ensures
        residue(
            listing,
            paths.map_values(|path: Seq<char>| ActionModel::Remove(path)),
            files,
        ) == listing.difference(paths.to_set()),
    decreases paths.len(),
{
    let actions = paths.map_values(|path: Seq<char>| ActionModel::Remove(path));
    if paths.len() == 0 {
        assert(listing.difference(paths.to_set()) =~= listing);
    } else {
        lemma_residue_of_removals(listing, paths.drop_last(), files);
        assert(actions.drop_last() =~= paths.drop_last().map_values(
            |path: Seq<char>| ActionModel::Remove(path),
        ));
        assert(actions.last() == ActionModel::Remove(paths.last()));
        assert forall|path: Seq<char>| #[trigger]
            paths.to_set().contains(path) <==> paths.drop_last().to_set().contains(path) || path
                == paths.last() by {
            if paths.to_set().contains(path) {
                let i = choose|i: int| 0 <= i < paths.len() && paths[i] == path;
                if i < paths.len() - 1 {
                    assert(paths.drop_last()[i] == path);
                }
            }
            if paths.drop_last().to_set().contains(path) {
                let i = choose|i: int| 0 <= i < paths.len() - 1 && paths.drop_last()[i] == path;
                assert(paths[i] == path);
            }
            if path == paths.last() {
                assert(paths[paths.len() - 1] == path);
            }
        }
        assert(listing.difference(paths.drop_last().to_set()).remove(paths.last())
            =~= listing.difference(paths.to_set()));
    }
}

proof fn lemma_farewell_residue(
    listing: Set<Seq<char>>,
    prefix: Seq<ActionModel>,
    t: SessionModel,
    notice: Option<Seq<char>>,
)
    requires
        forall|i: int| 0 <= i < prefix.len() ==> #[trigger] prefix[i] is Send,
    ensures
        residue(
            listing,
            prefix + farewell(t, notice),
            scratch_files_of(t.id, t.platform).to_set(),
        ) == listing.difference(scratch_files_of(t.id, t.platform).to_set()),
{
    let files = scratch_files_of(t.id, t.platform);
    let told = match notice {
        Some(text) => seq![ActionModel::Send(text)],
        None => Seq::empty(),
    };
    let reaped = if t.child_at_large() {
        seq![ActionModel::Reap]
    } else {
        Seq::empty()
    };
    let quiet = prefix + told + reaped;
    let closed = seq![ActionModel::Close];
    assert(prefix + farewell(t, notice) =~= quiet + removals(t.id, t.platform) + closed);
    lemma_residue_concat(listing, quiet + removals(t.id, t.platform), closed, files.to_set());
    lemma_residue_concat(listing, quiet, removals(t.id, t.platform), files.to_set());
    lemma_residue_untouched(listing, quiet, files.to_set());
    lemma_residue_of_removals(listing, files, files.to_set());
    lemma_residue_untouched(listing.difference(files.to_set()), closed, files.to_set());
}

/// A session that has ended has left none of its scratch files behind: in
/// the course of any run that ends the session, whatever was stored or
/// compiled before, each scratch file is removed after the last action that
/// could have created it.
pub proof fn law_no_file_is_left(
    s: SessionModel,
    events: Seq<EventModel>,
    listing: Set<Seq<char>>,
)
    requires
        !s.phase.is_terminal(),
        run(s, events).next.phase.is_terminal(),
    ensures
        residue(listing, run(s, events).actions, scratch_files_of(s.id, s.platform).to_set())
            .disjoint(scratch_files_of(s.id, s.platform).to_set()),
    decreases events.len(),
{
    let files = scratch_files_of(s.id, s.platform).to_set();
    if events.len() > 0 {
        let before = run(s, events.drop_last());
        let last = step(before.next, events.last());
        law_teardown_exactly_once(s, events.drop_last());
        lemma_residue_concat(listing, before.actions, last.actions, files);
        let reached = residue(listing, before.actions, files);
        if before.next.phase.is_terminal() {
            law_no_file_is_left(s, events.drop_last(), listing);
            lemma_residue_untouched(reached, last.actions, files);
        } else {
            lemma_ending_shape(before.next, events.last());
            let (prefix, t, notice) = choose|
                prefix: Seq<ActionModel>,
                t: SessionModel,
                notice: Option<Seq<char>>,
            |
                #[trigger] ends_with_farewell(last.actions, prefix, t, notice) && t.id
                    == before.next.id && t.platform == before.next.platform && (events.last() is ChildExited
                    || t.child_at_large() == before.next.child_at_large());
            lemma_farewell_residue(reached, prefix, t, notice);
        }
    }
}

/// Teardown is idempotent: removing the scratch files of a session a second
/// time leaves the directory as the first time left it.
pub proof fn law_teardown_is_idempotent(
    listing: Set<Seq<char>>,
    id: Seq<char>,
    platform: Platform,
    files: Set<Seq<char>>,
)
    ensures
        residue(listing, removals(id, platform) + removals(id, platform), files) == residue(
            listing,
            removals(id, platform),
            files,
        ),
{
    let paths = scratch_files_of(id, platform);
    lemma_residue_concat(listing, removals(id, platform), removals(id, platform), files);
    lemma_residue_of_removals(listing, paths, files);
    lemma_residue_of_removals(listing.difference(paths.to_set()), paths, files);
    assert(listing.difference(paths.to_set()).difference(paths.to_set()) =~= listing.difference(
        paths.to_set(),
    ));
}

/// A session that has ended stays as it is, whatever follows.
pub proof fn law_steps_stay_ended(s: SessionModel, events: Seq<EventModel>)
    requires
        s.phase.is_terminal(),
    ensures
        run(s, events).next == s,
    decreases events.len(),
{
    if events.len() > 0 {
        law_steps_stay_ended(s, events.drop_last());
    }
}

/// No child is abandoned. A child at large stays known as such until it
/// exits or the session ends; a step that ends the session while the child is
/// at large waits for it, once; and a child that turns out to have been
/// started after the session ended is waited for at once.
pub proof fn law_no_child_is_abandoned(s: SessionModel, e: EventModel)
    ensures
        s.child_at_large() && !(e is ChildExited) && !step(s, e).next.phase.is_terminal() ==> step(
            s,
            e,
        ).next.child_at_large(),
        s.child_at_large() && !(e is ChildExited) && step(s, e).next.phase.is_terminal() ==> reaps(
            step(s, e).actions,
        ) == 1,
        s.phase.is_terminal() && e is Spawned ==> step(s, e).actions == seq![ActionModel::Reap],
{
    if s.child_at_large() && !(e is ChildExited) && step(s, e).next.phase.is_terminal() {
        lemma_ending_shape(s, e);
        let (prefix, t, notice) = choose|
            prefix: Seq<ActionModel>,
            t: SessionModel,
            notice: Option<Seq<char>>,
        |
            #[trigger] ends_with_farewell(step(s, e).actions, prefix, t, notice) && t.id == s.id
                && t.platform == s.platform && (e is ChildExited || t.child_at_large()
                == s.child_at_large());
        lemma_gather_none(prefix, Strand::Reaped);
        lemma_farewell_strands(t, notice);
        lemma_gather_concat(prefix, farewell(t, notice), Strand::Reaped);
    }
}

} // verus!
