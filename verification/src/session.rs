//! The executable crawl session. It holds the roots, its own copy of the
//! ignore patterns, and where the crawl stands; `step` takes what the driver
//! reports and answers with what to do next.

use vstd::prelude::*;
use crate::matcher::{should_prune, texts};
use crate::message::AppMessage;
use crate::protocol::{
    answer, next, pending, start, wf, ActionView, EventView, PhaseView, SessionView,
};

verus! {

/// What the driver reports to the session.
#[derive(Debug, Clone, PartialEq, Eq)]
pub enum WalkEvent {
    /// The walk produced an entry with this full path.
    Entry { path: String, is_dir: bool },
    /// The walk failed on one entry.
    Unreadable,
    /// The walk of the current root has nothing more to offer.
    Exhausted,
    /// The sink took the message.
    Delivered,
    /// The sink is gone: the message could not be sent.
    Disconnected,
}

impl View for WalkEvent {
    type V = EventView;

    open spec fn view(&self) -> EventView {
        match self {
            WalkEvent::Entry { path, is_dir } => EventView::Entry { path: path@, is_dir: *is_dir },
            WalkEvent::Unreadable => EventView::Unreadable,
            WalkEvent::Exhausted => EventView::Exhausted,
            WalkEvent::Delivered => EventView::Delivered,
            WalkEvent::Disconnected => EventView::Disconnected,
        }
    }
}

/// What the session asks of the driver.
#[derive(Debug, Clone, PartialEq, Eq)]
pub enum WalkAction {
    /// Begin walking this root, following links, and report its first entry.
    Open(String),
    /// Report the walk's next entry.
    Advance,
    /// Do not descend into the directory just reported; report the next entry.
    SkipSubtree,
    /// Hand this message to the sink and report whether it was taken.
    Send(AppMessage),
    /// Nothing more: the session is over.
    Stop,
}

impl View for WalkAction {
    type V = ActionView;

    open spec fn view(&self) -> ActionView {
        match self {
            WalkAction::Open(root) => ActionView::Open(root@),
            WalkAction::Advance => ActionView::Advance,
            WalkAction::SkipSubtree => ActionView::SkipSubtree,
            WalkAction::Send(message) => ActionView::Send(message@),
            WalkAction::Stop => ActionView::Stop,
        }
    }
}

/// Where the crawl stands. While a root is current, the phase holds its
/// index.
enum Phase {
    Opening(usize),
    Walking(usize),
    Pruning(usize),
    Sending(usize, String),
    Completing,
    Finished,
}

/// One crawl over an ordered list of roots.
pub struct CrawlSession {
    roots: Vec<String>,
    ignore: Vec<String>,
    phase: Phase,
}

impl View for CrawlSession {
    type V = SessionView;

    closed spec fn view(&self) -> SessionView {
        SessionView {
            roots: texts(self.roots@),
            ignore: texts(self.ignore@),
            cursor: match self.phase {
                Phase::Opening(k) | Phase::Walking(k) | Phase::Pruning(k) | Phase::Sending(
                    k,
                    _,
                ) => k as nat,
                Phase::Completing | Phase::Finished => self.roots@.len(),
            },
            phase: match self.phase {
                Phase::Opening(_) => PhaseView::Opening,
                Phase::Walking(_) => PhaseView::Walking,
                Phase::Pruning(_) => PhaseView::Pruning,
                Phase::Sending(_, path) => PhaseView::Sending(path@),
                Phase::Completing => PhaseView::Completing,
                Phase::Finished => PhaseView::Finished,
            },
        }
    }
}

/// A copy of a list of strings, text for text.
pub fn snapshot(list: &[String]) -> (copy: Vec<String>)
    ensures
        texts(copy@) == texts(list@),
{
    let mut copy: Vec<String> = Vec::new();
    let mut k: usize = 0;
    while k < list.len()
        invariant
            k <= list.len(),
            copy@.len() == k,
            forall|j: int| 0 <= j < k ==> copy@[j]@ == list@[j]@,
        decreases list.len() - k,
    {
        copy.push(list[k].clone());
        k += 1;
    }
    assert(texts(copy@) =~= texts(list@));
    copy
}

impl CrawlSession {
    #[verifier::type_invariant]
    spec fn well_formed(&self) -> bool {
        wf(self@)
    }

    /// A session over `roots`, in their order, duplicates and overlaps
    /// included. Roots and ignore patterns are copied: what the caller does
    /// to its lists afterwards does not reach this session.
    pub fn new(roots: &[String], ignore_patterns: &[String]) -> (session: Self)
        ensures
            session@ == start(texts(roots@), texts(ignore_patterns@)),
            wf(session@),
    {
        let phase = if roots.len() > 0 {
            Phase::Opening(0)
        } else {
            Phase::Completing
        };
        let roots = snapshot(roots);
        let ignore = snapshot(ignore_patterns);
        assert(texts(roots@).len() == roots@.len());
        CrawlSession { roots, ignore, phase }
    }

    /// The action that the session has pending.
    pub fn pending(&self) -> (action: WalkAction)
        ensures
            action@ == pending(self@),
            wf(self@),
    {
        proof {
            use_type_invariant(self);
        }
        match &self.phase {
            Phase::Opening(k) => {
                assert(texts(self.roots@).len() == self.roots@.len());
                WalkAction::Open(self.roots[*k].clone())
            },
            Phase::Walking(_) => WalkAction::Advance,
            Phase::Pruning(_) => WalkAction::SkipSubtree,
            Phase::Sending(_, path) => WalkAction::Send(AppMessage::Subdir(path.clone())),
            Phase::Completing => WalkAction::Send(AppMessage::Done),
            Phase::Finished => WalkAction::Stop,
        }
    }

    /// Whether the completion signal has been handed over.
    pub fn is_finished(&self) -> (over: bool)
        ensures
            over == (self@.phase is Finished),
    {
        match &self.phase {
            Phase::Finished => true,
            _ => false,
        }
    }

    /// The index of the root that is being walked, or `None` once every root
    /// is dealt with.
    pub fn current_root(&self) -> (index: Option<usize>)
        ensures
            match index {
                Some(k) => k == self@.cursor && self@.cursor < self@.roots.len(),
                None => self@.cursor == self@.roots.len(),
            },
    {
        proof {
            use_type_invariant(self);
        }
        match &self.phase {
            Phase::Opening(k) | Phase::Walking(k) | Phase::Pruning(k) | Phase::Sending(k, _) => {
                Some(*k)
            },
            Phase::Completing | Phase::Finished => {
                assert(texts(self.roots@).len() == self.roots@.len());
                None
            },
        }
    }

    /// The phase after the root with index `k` is left.
    fn after_root(&self, k: usize) -> (phase: Phase)
        requires
            k < self.roots@.len(),
        ensures
            match phase {
                Phase::Opening(j) => j == k + 1 && j < self.roots@.len(),
                Phase::Completing => k + 1 == self.roots@.len(),
                _ => false,
            },
    {
        let total = self.roots.len();
        if k + 1 < total {
            Phase::Opening(k + 1)
        } else {
            Phase::Completing
        }
    }

    /// Takes one report of the driver and answers with the next action. A
    /// report that does not answer the pending action changes nothing and is
    /// answered with `None`: the pending action stays pending.
    pub fn step(&mut self, event: WalkEvent) -> (action: Option<WalkAction>)
        ensures
            final(self)@ == next(old(self)@, event@),
            wf(old(self)@),
            wf(final(self)@),
            match action {
                Some(a) => answer(old(self)@, event@) == Some(a@),
                None => answer(old(self)@, event@) is None,
            },
    {
        proof {
            use_type_invariant(&*self);
            assert(texts(self.roots@).len() == self.roots@.len());
        }
        let walking: Option<usize> = match &self.phase {
            Phase::Opening(k) | Phase::Walking(k) | Phase::Pruning(k) => Some(*k),
            _ => None,
        };
        let sending: Option<usize> = match &self.phase {
            Phase::Sending(k, _) => Some(*k),
            _ => None,
        };
        let completing: bool = match &self.phase {
            Phase::Completing => true,
            _ => false,
        };
        match event {
            WalkEvent::Entry { path, is_dir } => {
                if let Some(k) = walking {
                    if !is_dir {
                        self.phase = Phase::Walking(k);
                    } else if should_prune(path.as_str(), self.ignore.as_slice()) {
                        self.phase = Phase::Pruning(k);
                    } else {
                        self.phase = Phase::Sending(k, path);
                    }
                } else {
                    return None;
                }
            },
            WalkEvent::Unreadable => {
                if let Some(k) = walking {
                    self.phase = Phase::Walking(k);
                } else {
                    return None;
                }
            },
            WalkEvent::Exhausted => {
                if let Some(k) = walking {
                    self.phase = self.after_root(k);
                } else {
                    return None;
                }
            },
            WalkEvent::Delivered => {
                if let Some(k) = sending {
                    self.phase = Phase::Walking(k);
                } else if completing {
                    self.phase = Phase::Finished;
                } else {
                    return None;
                }
            },
            WalkEvent::Disconnected => {
                if let Some(k) = sending {
                    self.phase = self.after_root(k);
                } else if completing {
                    self.phase = Phase::Finished;
                } else {
                    return None;
                }
            },
        }
        Some(self.pending())
    }
}

} // verus!
