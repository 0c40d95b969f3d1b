//! The decisions of a cancellable, multi-root directory crawl, and the state
//! of the front end that consumes it.
//!
//! A crawl discovers the directories below an ordered list of roots, prunes
//! every subtree whose path holds an ignore pattern, streams each directory
//! it keeps to a sink, and ends with one completion signal. This crate
//! decides; it does not touch the file system or the channel. A driver walks
//! the roots and sends the messages as a [`session::CrawlSession`] tells it,
//! and reports back what happened.
//!
//! - [`matcher`]: the prune decision, a literal substring test.
//! - [`message`]: the two messages of a crawl.
//! - [`protocol`]: the crawl as a transition system over plain values.
//! - [`session`]: the executable session that follows that system.
//! - [`app_state`]: the consumer's state and how it reacts.
//! - [`text`]: text helpers of the consumer.
//! - [`laws`]: what holds of every crawl, proved.

pub mod matcher;
pub mod message;
pub mod protocol;
pub mod session;
pub mod text;
pub mod app_state;
pub mod laws;
