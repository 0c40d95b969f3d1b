//! The two messages that a crawl hands to its consumer.

use vstd::prelude::*;

verus! {

/// A message of the crawl: one discovered directory, or the end of the
/// whole session.
#[derive(Debug, Clone, PartialEq, Eq)]
pub enum AppMessage {
    /// A directory that was found and not pruned, by its full path.
    Subdir(String),
    /// The session is over: every root has been dealt with.
    Done,
}

/// What an `AppMessage` says, with the path as a sequence of characters.
pub enum MessageView {
    Subdir(Seq<char>),
    Done,
}

impl View for AppMessage {
    type V = MessageView;

    open spec fn view(&self) -> MessageView {
        match self {
            AppMessage::Subdir(path) => MessageView::Subdir(path@),
            AppMessage::Done => MessageView::Done,
        }
    }
}

impl AppMessage {
    /// Whether this is the completion signal.
    pub fn is_done(&self) -> (done: bool)
        ensures
            done == (self@ == MessageView::Done),
    {
        match self {
            AppMessage::Subdir(_) => false,
            AppMessage::Done => true,
        }
    }

    /// The announced directory, or `None` for the completion signal.
    pub fn path(&self) -> (found: Option<&String>)
        ensures
            match found {
                Some(p) => self@ == MessageView::Subdir(p@),
                None => self@ == MessageView::Done,
            },
    {
        match self {
            AppMessage::Subdir(path) => Some(path),
            AppMessage::Done => None,
        }
    }
}

} // verus!
