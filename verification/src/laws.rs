//! What holds of every crawl, whatever the file system holds and whatever the
//! driver reports: stated over the model of `protocol` and proved here.

use vstd::prelude::*;
use crate::app_state::{announced, received_all, refreshed, signals_done, AppView};
use crate::matcher::{is_substring, occurs_at, prunes};
use crate::message::MessageView;
use crate::protocol::{
    awaits_walk, in_phase, issued, leave_root, log, next, outgoing, pending, run, start, wf,
    ActionView, EventView, PhaseView, Sent, SessionView,
};

verus! {

/// The message is the completion signal, or a directory that no pattern of
/// `ignore` occurs in.
pub open spec fn respects(message: MessageView, ignore: Seq<Seq<char>>) -> bool {
    match message {
        MessageView::Subdir(path) => !prunes(path, ignore),
        MessageView::Done => true,
    }
}

/// The messages of a log, without their origins.
pub open spec fn messages_of(sent: Seq<Sent>) -> Seq<MessageView> {
    sent.map_values(|one: Sent| one.message)
}

/// Containment is transitive: what occurs in a part occurs in the whole.
pub proof fn lemma_substring_transitive(outer: Seq<char>, mid: Seq<char>, needle: Seq<char>)
    requires
        is_substring(outer, mid),
        is_substring(mid, needle),
    ensures
        is_substring(outer, needle),
{
    let a = choose|a: int| occurs_at(outer, mid, a);
    let b = choose|b: int| occurs_at(mid, needle, b);
    assert(outer.subrange(a + b, a + b + needle.len()) =~= outer.subrange(
        a,
        a + mid.len(),
    ).subrange(b, b + needle.len()));
    assert(occurs_at(outer, needle, a + b));
}

/// A path contains each of its prefixes, so it contains the path of every
/// directory above it.
pub proof fn lemma_prefix_is_substring(dir: Seq<char>, path: Seq<char>)
    requires
        dir.is_prefix_of(path),
    ensures
        is_substring(path, dir),
{
    assert(path.subrange(0, dir.len() as int) =~= dir);
    assert(occurs_at(path, dir, 0));
}

/// Pruning reaches the whole subtree: if a directory is pruned, so is every
/// path that contains the directory's path, and so every path below it.
pub proof fn lemma_pruning_covers_descendants(
    dir: Seq<char>,
    below: Seq<char>,
    patterns: Seq<Seq<char>>,
)
    requires
        prunes(dir, patterns),
        is_substring(below, dir),
    ensures
        prunes(below, patterns),
{
    let k = choose|k: int| 0 <= k < patterns.len() && is_substring(dir, #[trigger] patterns[k]);
    lemma_substring_transitive(below, dir, patterns[k]);
}

/// A session at its beginning is well-formed and not over, whatever its
/// roots and patterns: the laws of this module hold of it.
pub proof fn lemma_start_is_well_formed(roots: Seq<Seq<char>>, ignore: Seq<Seq<char>>)
    ensures
        wf(start(roots, ignore)),
        !(start(roots, ignore).phase is Finished),
        start(roots, ignore).cursor == 0,
{
}

/// One step keeps a session well-formed, keeps its roots and its ignore
/// patterns, and never moves back to an earlier root.
pub proof fn lemma_step_preserves(s: SessionView, e: EventView)
    requires
        wf(s),
    ensures
        wf(next(s, e)),
        next(s, e).roots == s.roots,
        next(s, e).ignore == s.ignore,
        s.cursor <= next(s, e).cursor <= s.cursor + 1,
{
}

proof fn lemma_log_shape(s: SessionView, events: Seq<EventView>)
    requires
        wf(s),
    ensures
        wf(run(s, events)),
        run(s, events).roots == s.roots,
        run(s, events).ignore == s.ignore,
        s.cursor <= run(s, events).cursor,
        forall|i: int|
            0 <= i < log(s, events).len() ==> {
                let sent = #[trigger] log(s, events)[i];
                &&& s.cursor <= sent.origin <= run(s, events).cursor
                &&& respects(sent.message, s.ignore)
                &&& (sent.message is Done <==> sent.origin == s.roots.len())
                &&& (sent.message is Done ==> i == log(s, events).len() - 1)
            },
        forall|i: int, j: int|
            0 <= i <= j < log(s, events).len() ==> (#[trigger] log(s, events)[i]).origin <= (
            #[trigger] log(s, events)[j]).origin,
        !(s.phase is Finished) && run(s, events).cursor == s.roots.len() ==> log(s, events).len()
            > 0 && log(s, events).last().message is Done,
    decreases events.len(),
{
    if events.len() > 0 {
        let before = events.drop_last();
        let prev = run(s, before);
        let e = events.last();
        let old_log = log(s, before);
        let new_log = log(s, events);
        lemma_log_shape(s, before);
        lemma_step_preserves(prev, e);
        assert(new_log == old_log + issued(prev, e));
        assert forall|i: int| 0 <= i < new_log.len() implies {
            let sent = #[trigger] new_log[i];
            &&& s.cursor <= sent.origin <= run(s, events).cursor
            &&& respects(sent.message, s.ignore)
            &&& (sent.message is Done <==> sent.origin == s.roots.len())
            &&& (sent.message is Done ==> i == new_log.len() - 1)
        } by {
            if i < old_log.len() {
                assert(new_log[i] == old_log[i]);
            }
        }
        assert forall|i: int, j: int| 0 <= i <= j < new_log.len() implies (
        #[trigger] new_log[i]).origin <= (#[trigger] new_log[j]).origin by {
            if i < old_log.len() {
                assert(new_log[i] == old_log[i]);
            }
            if j < old_log.len() {
                assert(new_log[j] == old_log[j]);
            }
        }
    }
}

/// During a session the ignore patterns are those it began with, the roots
/// are unchanged, the state stays well-formed, and the roots are taken in
/// their order: the index of the current root never decreases.
pub proof fn lemma_run_preserves(s: SessionView, events: Seq<EventView>)
    requires
        wf(s),
    ensures
        wf(run(s, events)),
        run(s, events).roots == s.roots,
        run(s, events).ignore == s.ignore,
        s.cursor <= run(s, events).cursor,
{
    lemma_log_shape(s, events);
}

/// Pruning is correct: no ignore pattern occurs in any directory that the
/// session hands to the sink.
pub proof fn lemma_announced_respect_ignore(s: SessionView, events: Seq<EventView>)
    requires
        wf(s),
    ensures
        forall|i: int|
            0 <= i < log(s, events).len() ==> respects(
                (#[trigger] log(s, events)[i]).message,
                s.ignore,
            ),
        forall|i: int, k: int|
            0 <= i < log(s, events).len() && 0 <= k < s.ignore.len() ==> (
            (#[trigger] log(s, events)[i]).message matches MessageView::Subdir(path)
                ==> !is_substring(path, #[trigger] s.ignore[k])),
{
    lemma_log_shape(s, events);
}

/// A pruned directory is silent with all that lies below it: neither the
/// directory nor any path that contains its path is ever handed to the sink.
pub proof fn lemma_pruned_subtree_silent(
    s: SessionView,
    events: Seq<EventView>,
    dir: Seq<char>,
    below: Seq<char>,
)
    requires
        wf(s),
        prunes(dir, s.ignore),
        is_substring(below, dir),
    ensures
        forall|i: int|
            0 <= i < log(s, events).len() ==> (#[trigger] log(s, events)[i]).message
                != MessageView::Subdir(below),
{
    lemma_log_shape(s, events);
    lemma_pruning_covers_descendants(dir, below, s.ignore);
    assert forall|i: int| 0 <= i < log(s, events).len() implies (#[trigger] log(
        s,
        events,
    )[i]).message != MessageView::Subdir(below) by {
        assert(respects(log(s, events)[i].message, s.ignore));
    }
}

/// The completion signal comes once and last. In the log of a session that
/// was not over at the start it stands nowhere but at the end, after every
/// directory; and it stands there exactly when the last root has been left,
/// however that root's walk ended.
pub proof fn lemma_done_once_at_end(s: SessionView, events: Seq<EventView>)
    requires
        wf(s),
        !(s.phase is Finished),
    ensures
        forall|i: int|
            0 <= i < log(s, events).len() && (#[trigger] log(s, events)[i]).message is Done ==> i
                == log(s, events).len() - 1,
        run(s, events).cursor == s.roots.len() <==> log(s, events).len() > 0 && log(
            s,
            events,
        ).last().message is Done,
{
    lemma_log_shape(s, events);
    if log(s, events).len() > 0 {
        let last = log(s, events).len() - 1;
        assert(log(s, events)[last].message is Done <==> log(s, events)[last].origin
            == s.roots.len());
    }
}

/// The roots are served one after the other: in the log the messages of an
/// earlier root all stand before those of a later one, each directory
/// belongs to one of the roots, and the completion signal belongs to none.
pub proof fn lemma_roots_in_sequence(s: SessionView, events: Seq<EventView>)
    requires
        wf(s),
    ensures
        forall|i: int, j: int|
            0 <= i <= j < log(s, events).len() ==> (#[trigger] log(s, events)[i]).origin <= (
            #[trigger] log(s, events)[j]).origin,
        forall|i: int|
            0 <= i < log(s, events).len() ==> {
                let sent = #[trigger] log(s, events)[i];
                &&& s.cursor <= sent.origin <= s.roots.len()
                &&& (sent.message is Subdir <==> sent.origin < s.roots.len())
            },
{
    lemma_log_shape(s, events);
    assert forall|i: int| 0 <= i < log(s, events).len() implies {
        let sent = #[trigger] log(s, events)[i];
        &&& s.cursor <= sent.origin <= s.roots.len()
        &&& (sent.message is Subdir <==> sent.origin < s.roots.len())
    } by {
        let sent = log(s, events)[i];
        assert(sent.message is Done <==> sent.origin == s.roots.len());
    }
}

/// A root that cannot be read is empty, not an error: when the walk of a
/// root reports a failure and then nothing more, no message is sent for that
/// root and the session goes on as after any other root.
pub proof fn lemma_unreadable_root_is_empty(s: SessionView)
    requires
        wf(s),
        s.phase is Opening,
    ensures
        ({
            let events = seq![EventView::Unreadable, EventView::Exhausted];
            &&& run(s, events) == leave_root(s)
            &&& log(s, events) == outgoing(leave_root(s))
            &&& forall|i: int|
                0 <= i < log(s, events).len() ==> (#[trigger] log(s, events)[i]).message is Done
        }),
{
    let events = seq![EventView::Unreadable, EventView::Exhausted];
    let first = seq![EventView::Unreadable];
    assert(events.drop_last() =~= first);
    assert(first.drop_last() =~= Seq::<EventView>::empty());
    assert(run(s, first.drop_last()) == s);
    assert(run(s, first) == in_phase(s, PhaseView::Walking));
    assert(log(s, first.drop_last()) =~= Seq::<Sent>::empty());
    assert(log(s, first) =~= Seq::<Sent>::empty());
    assert(log(s, events) =~= outgoing(leave_root(s)));
}

/// Every root is left by exactly one report: that its walk is exhausted, or
/// that the sink refused one of its directories. Either moves the session to
/// the next root; no other report moves it.
pub proof fn lemma_roots_are_left_one_by_one(s: SessionView, e: EventView)
    requires
        wf(s),
    ensures
        next(s, e).cursor == s.cursor + 1 <==> (e is Exhausted && awaits_walk(s.phase)) || (e
            is Disconnected && s.phase is Sending),
        next(s, e).cursor != s.cursor + 1 ==> next(s, e).cursor == s.cursor,
        next(s, e).cursor == s.roots.len() && s.cursor < s.roots.len() ==> pending(next(s, e))
            == ActionView::Send(MessageView::Done),
{
}

/// When the sink refuses a directory, only the current root is given up. The
/// session moves on to the next root, which is opened and walked like any
/// other, or to the completion signal after the last; and whatever is
/// reported from then on, no further message belongs to the root that was
/// given up.
pub proof fn lemma_disconnect_leaves_one_root(s: SessionView, events: Seq<EventView>)
    requires
        wf(s),
        s.phase is Sending,
    ensures
        ({
            let t = next(s, EventView::Disconnected);
            &&& wf(t)
            &&& t.cursor == s.cursor + 1
            &&& t.cursor < s.roots.len() ==> pending(t) == ActionView::Open(
                s.roots[t.cursor as int],
            )
            &&& t.cursor == s.roots.len() ==> pending(t) == ActionView::Send(MessageView::Done)
            &&& forall|i: int|
                0 <= i < log(t, events).len() ==> (#[trigger] log(t, events)[i]).origin > s.cursor
        }),
{
    let t = next(s, EventView::Disconnected);
    lemma_log_shape(t, events);
}

/// Taking a run of messages appends the directories it announces, in their
/// order, and ends the indexing exactly if the completion signal is among
/// them; nothing else changes.
pub proof fn lemma_received_all(s: AppView, messages: Seq<MessageView>)
    ensures
        received_all(s, messages) == (AppView {
            subdirs: s.subdirs + announced(messages),
            indexing_in_progress: s.indexing_in_progress && !signals_done(messages),
            ..s
        }),
    decreases messages.len(),
{
    let target = AppView {
        subdirs: s.subdirs + announced(messages),
        indexing_in_progress: s.indexing_in_progress && !signals_done(messages),
        ..s
    };
    if messages.len() == 0 {
        assert(received_all(s, messages) =~= target);
    } else {
        let before = messages.drop_last();
        lemma_received_all(s, before);
        assert(signals_done(messages) == (signals_done(before) || messages.last()
            == MessageView::Done)) by {
            if signals_done(before) {
                let i = choose|i: int| 0 <= i < before.len() && before[i] == MessageView::Done;
                assert(messages[i] == MessageView::Done);
            }
            if messages.last() == MessageView::Done {
                assert(messages[messages.len() - 1] == MessageView::Done);
            }
            if signals_done(messages) {
                let i = choose|i: int|
                    0 <= i < messages.len() && messages[i] == MessageView::Done;
                if i < before.len() {
                    assert(before[i] == MessageView::Done);
                }
            }
        }
        assert(received_all(s, messages) =~= target);
    }
}

/// The channel keeps the order whatever the polls: taking the messages in
/// two polls leaves the same state as taking them in one.
pub proof fn lemma_polls_compose(s: AppView, first: Seq<MessageView>, second: Seq<MessageView>)
    ensures
        received_all(s, first + second) == received_all(received_all(s, first), second),
    decreases second.len(),
{
    if second.len() == 0 {
        assert(first + second =~= first);
    } else {
        lemma_polls_compose(s, first, second.drop_last());
        assert((first + second).drop_last() =~= first + second.drop_last());
        assert((first + second).last() == second.last());
    }
}

/// Every directory that a run of messages announces stands in one of its
/// messages.
pub proof fn lemma_announced_are_messages(messages: Seq<MessageView>, i: int)
    requires
        0 <= i < announced(messages).len(),
    ensures
        exists|j: int|
            0 <= j < messages.len() && #[trigger] messages[j] == MessageView::Subdir(
                announced(messages)[i],
            ),
    decreases messages.len(),
{
    let before = messages.drop_last();
    let last = messages.len() - 1;
    if i < announced(before).len() {
        lemma_announced_are_messages(before, i);
        let j = choose|j: int|
            0 <= j < before.len() && #[trigger] before[j] == MessageView::Subdir(
                announced(before)[i],
            );
        assert(messages[j] == before[j]);
    } else {
        assert(messages[last] == MessageView::Subdir(announced(messages)[i]));
    }
}

/// From refresh to result: a front end that begins a refresh and takes
/// every message of the crawl holds, at any moment, only directories that no
/// ignore pattern of the moment of the refresh occurs in; it is indexing
/// exactly until the last root has been left; and the crawl changes neither
/// its roots nor its patterns.
pub proof fn lemma_crawl_fills_the_list(app: AppView, events: Seq<EventView>)
    ensures
        ({
            let session = start(app.root_dirs, app.ignore_patterns);
            let after = received_all(refreshed(app), messages_of(log(session, events)));
            &&& forall|i: int|
                0 <= i < after.subdirs.len() ==> !prunes(
                    #[trigger] after.subdirs[i],
                    app.ignore_patterns,
                )
            &&& after.indexing_in_progress <==> run(session, events).cursor < app.root_dirs.len()
            &&& after.root_dirs == app.root_dirs
            &&& after.ignore_patterns == app.ignore_patterns
        }),
{
    let session = start(app.root_dirs, app.ignore_patterns);
    let sent = log(session, events);
    let messages = messages_of(sent);
    let after = received_all(refreshed(app), messages);
    lemma_received_all(refreshed(app), messages);
    lemma_log_shape(session, events);
    lemma_done_once_at_end(session, events);
    assert(after.subdirs =~= announced(messages));
    assert forall|i: int| 0 <= i < after.subdirs.len() implies !prunes(
        #[trigger] after.subdirs[i],
        app.ignore_patterns,
    ) by {
        lemma_announced_are_messages(messages, i);
        let j = choose|j: int|
            0 <= j < messages.len() && #[trigger] messages[j] == MessageView::Subdir(
                announced(messages)[i],
            );
        assert(respects(sent[j].message, session.ignore));
    }
    if signals_done(messages) {
        let j = choose|j: int| 0 <= j < messages.len() && messages[j] == MessageView::Done;
        assert(sent[j].message is Done);
    }
    if run(session, events).cursor == app.root_dirs.len() {
        assert(messages[sent.len() - 1] == MessageView::Done);
    }
}

} // verus!
