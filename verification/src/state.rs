//! Plain data carried between the stream engine and its callers.

use vstd::prelude::*;

use crate::post::Post;

verus! {

/// One page of a catch-up query, and whether the caller has reached the
/// newest post.
#[derive(Debug)]
pub struct CatchUpResponse {
    pub posts: Vec<Post>,
    pub caught_up: bool,
}

/// Metadata of the stream as a whole.
#[derive(Debug)]
pub struct StreamMetadata {
    pub latest_post_id: Option<u32>,
    pub last_updated: u64,
    pub posts_count: u64,
}

/// A catch-up request: the id the caller last fetched.
#[derive(Debug)]
pub struct Catchup {
    pub last_id: usize,
}

} // verus!
