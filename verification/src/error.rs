use vstd::prelude::*;

verus! {

/// Result type used throughout the crate.
pub type BriefsResult<T> = Result<T, BriefsError>;

/// Errors surfaced by the post stream and its row store.
#[derive(Clone, Debug, PartialEq)]
pub enum BriefsError {
    /// An empty title was provided for the post.
    EmptyTitle,
    /// An empty message was provided for the post.
    EmptyPost,
    /// The title length exceeds the maximum length.
    InvalidTitleLength { max_size: usize, curr_size: usize },
    /// The post length exceeds the maximum length.
    InvalidPostLength { max_size: usize, curr_size: usize },
    /// The requested/specified index is out of bounds.
    InvalidIndex { posts_count: usize, given_index: usize },
    /// The requested/specified ID does not exist.
    InvalidId {},
    /// An error occurred in a sqlite operation; wraps the error message.
    SqliteError { msg: String },
    /// Parsing of a sqlite value into the required type failed.
    SqliteValueParseError,
    /// Custom error type for errors not covered by the other variants.
    CustomError { msg: String },
}

impl BriefsError {
    pub fn custom_error(msg: String) -> (r: Self)
        ensures
            r matches BriefsError::CustomError { msg: m } && m@ == msg@,
    {
        Self::CustomError { msg }
    }
}

} // verus!
