//! The rows that the tweet store keeps.
use vstd::prelude::*;

verus! {

/// A post's place in a self-thread.
#[derive(Debug, Clone, Copy, PartialEq, Eq, Structural)]
pub struct ThreadInfo {
    pub tweet_id: u64,
    pub thread_id: u64,
    pub reply_to: u64,
}

#[derive(Debug)]
pub struct Tweet {
    pub id: u64,
    pub author: String,
    pub content: String,
    /// Seconds since the epoch.
    pub create_time: u64,
}

#[derive(Debug)]
pub struct Media {
    pub id: String,
    pub tweet_id: u64,
    pub url: String,
    pub width: u64,
    pub height: u64,
    pub no: i32,
    pub _type: String,
}

} // verus!
