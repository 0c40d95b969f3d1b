//! The crawl as a transition system. A session walks its roots one after the
//! other. Whoever drives it performs the pending action (open a root, take
//! the walk's next entry, leave a subtree out, hand a message to the sink)
//! and reports what came of it as an event. This module is the mathematical
//! model; `session` holds the executable state that follows it.

use vstd::prelude::*;
use crate::matcher::prunes;
use crate::message::MessageView;

verus! {

/// What the driver reports back.
pub enum EventView {
    /// The walk produced an entry with this full path.
    Entry { path: Seq<char>, is_dir: bool },
    /// The walk failed on one entry (no permission, a broken link, ...).
    Unreadable,
    /// The walk of the current root has nothing more to offer.
    Exhausted,
    /// The sink took the message.
    Delivered,
    /// The sink is gone: the message could not be sent.
    Disconnected,
}

/// What the driver is asked to do.
pub enum ActionView {
    /// Begin walking this root, following links, and report its first entry.
    Open(Seq<char>),
    /// Report the walk's next entry.
    Advance,
    /// Do not descend into the directory just reported; report the next entry.
    SkipSubtree,
    /// Hand this message to the sink and report whether it was taken.
    Send(MessageView),
    /// Nothing more: the session is over.
    Stop,
}

/// Where a session stands.
pub enum PhaseView {
    /// The current root is about to be opened.
    Opening,
    /// The current root is being walked.
    Walking,
    /// The directory just reported was pruned.
    Pruning,
    /// This directory is being handed to the sink.
    Sending(Seq<char>),
    /// Every root is dealt with; the completion signal is being handed over.
    Completing,
    /// The completion signal has been handed over.
    Finished,
}

/// A session: the roots in their order, the ignore patterns as they were when
/// the session began, the index of the current root (the number of roots once
/// all are dealt with), and the phase.
pub struct SessionView {
    pub roots: Seq<Seq<char>>,
    pub ignore: Seq<Seq<char>>,
    pub cursor: nat,
    pub phase: PhaseView,
}

/// The session waits for a report from the walk.
pub open spec fn awaits_walk(phase: PhaseView) -> bool {
    phase is Opening || phase is Walking || phase is Pruning
}

/// The session waits for a report from the sink.
pub open spec fn awaits_sink(phase: PhaseView) -> bool {
    phase is Sending || phase is Completing
}

/// The event answers the action that the session has pending. Any other
/// event is ignored.
pub open spec fn accepts(s: SessionView, e: EventView) -> bool {
    match e {
        EventView::Entry { .. } | EventView::Unreadable | EventView::Exhausted => awaits_walk(
            s.phase,
        ),
        EventView::Delivered | EventView::Disconnected => awaits_sink(s.phase),
    }
}

/// A session in the given phase, all else unchanged.
pub open spec fn in_phase(s: SessionView, phase: PhaseView) -> SessionView {
    SessionView { roots: s.roots, ignore: s.ignore, cursor: s.cursor, phase }
}

/// The current root is left behind: the next one is opened, or after the
/// last one the session completes.
pub open spec fn leave_root(s: SessionView) -> SessionView {
    SessionView {
        roots: s.roots,
        ignore: s.ignore,
        cursor: s.cursor + 1,
        phase: if s.cursor + 1 < s.roots.len() {
            PhaseView::Opening
        } else {
            PhaseView::Completing
        },
    }
}

/// A session at its beginning.
pub open spec fn start(roots: Seq<Seq<char>>, ignore: Seq<Seq<char>>) -> SessionView {
    SessionView {
        roots,
        ignore,
        cursor: 0,
        phase: if roots.len() > 0 {
            PhaseView::Opening
        } else {
            PhaseView::Completing
        },
    }
}

/// The session after one event.
///
/// A directory is tested against the ignore patterns before the walk
/// descends into it: a pruned one is skipped with all that lies below, any
/// other is announced. Files and unreadable entries are passed over. When the
/// walk is exhausted, or the sink refuses a directory, the current root is
/// left; what happens to the completion signal ends the session either way.
pub open spec fn next(s: SessionView, e: EventView) -> SessionView {
    if !accepts(s, e) {
        s
    } else {
        match e {
            EventView::Entry { path, is_dir } => if !is_dir {
                in_phase(s, PhaseView::Walking)
            } else if prunes(path, s.ignore) {
                in_phase(s, PhaseView::Pruning)
            } else {
                in_phase(s, PhaseView::Sending(path))
            },
            EventView::Unreadable => in_phase(s, PhaseView::Walking),
            EventView::Exhausted => leave_root(s),
            EventView::Delivered => if s.phase is Sending {
                in_phase(s, PhaseView::Walking)
            } else {
                in_phase(s, PhaseView::Finished)
            },
            EventView::Disconnected => if s.phase is Sending {
                leave_root(s)
            } else {
                in_phase(s, PhaseView::Finished)
            },
        }
    }
}

/// The action that the session has pending.
pub open spec fn pending(s: SessionView) -> ActionView {
    match s.phase {
        PhaseView::Opening => ActionView::Open(s.roots[s.cursor as int]),
        PhaseView::Walking => ActionView::Advance,
        PhaseView::Pruning => ActionView::SkipSubtree,
        PhaseView::Sending(path) => ActionView::Send(MessageView::Subdir(path)),
        PhaseView::Completing => ActionView::Send(MessageView::Done),
        PhaseView::Finished => ActionView::Stop,
    }
}

/// The states that a session can be in: a root is current exactly while one
/// is walked or one of its directories is sent, and a directory that is being
/// sent is not pruned.
pub open spec fn wf(s: SessionView) -> bool {
    &&& s.cursor <= s.roots.len()
    &&& (awaits_walk(s.phase) || s.phase is Sending) <==> s.cursor < s.roots.len()
    &&& match s.phase {
        PhaseView::Sending(path) => !prunes(path, s.ignore),
        _ => true,
    }
}

/// The session after a sequence of events.
pub open spec fn run(s: SessionView, events: Seq<EventView>) -> SessionView
    decreases events.len(),
{
    if events.len() == 0 {
        s
    } else {
        next(run(s, events.drop_last()), events.last())
    }
}

/// A message together with the index of the root whose walk produced it. The
/// completion signal carries the number of roots.
pub struct Sent {
    pub origin: nat,
    pub message: MessageView,
}

/// The session's answer to a report: the action that is pending after it,
/// or nothing where the report does not answer the action that was pending.
pub open spec fn answer(s: SessionView, e: EventView) -> Option<ActionView> {
    if accepts(s, e) {
        Some(pending(next(s, e)))
    } else {
        None
    }
}

/// The message that an action hands to the sink, if it hands one, marked
/// with the root it belongs to.
pub open spec fn sent_by(action: ActionView, origin: nat) -> Seq<Sent> {
    match action {
        ActionView::Send(message) => seq![Sent { origin, message }],
        _ => Seq::empty(),
    }
}

/// The message that a session in this state is handing to the sink, if any.
pub open spec fn outgoing(s: SessionView) -> Seq<Sent> {
    sent_by(pending(s), s.cursor)
}

/// The message that the answer to `e` in state `s` hands to the sink, if
/// any.
pub open spec fn issued(s: SessionView, e: EventView) -> Seq<Sent> {
    match answer(s, e) {
        Some(action) => sent_by(action, next(s, e).cursor),
        None => Seq::empty(),
    }
}

/// Every message that a session hands to the sink, in order, from state `s`
/// through `events`: the one in the action that `s` itself has pending, then
/// those in the answers to the events.
pub open spec fn log(s: SessionView, events: Seq<EventView>) -> Seq<Sent>
    decreases events.len(),
{
    if events.len() == 0 {
        outgoing(s)
    } else {
        log(s, events.drop_last()) + issued(run(s, events.drop_last()), events.last())
    }
}

} // verus!
