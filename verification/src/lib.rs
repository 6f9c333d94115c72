//! Bounded-concurrency fetching and playback of track previews.
//!
//! The crate holds the decisions of a preview player: which tracks are
//! playable, how a failed download is retried, how one track moves from
//! download to playback, and how many tracks may be in flight at once.
//! Network and audio work is left to the caller, which performs the actions
//! this crate hands out and reports back what happened.

pub mod budget;
pub mod fetch;
pub mod limit;
pub mod pipeline;
pub mod retry;
pub mod scheduler;
pub mod service;
pub mod track;
