//! Interfaces a stream, a post factory, a database and a cache are meant
//! to offer; the concrete types of this crate are one family of
//! implementors, and embedders may provide their own.

use vstd::prelude::*;

use crate::error::BriefsResult;
use crate::post::Post;

verus! {

pub trait CatchupStream {
    fn insert_post(&mut self, post: Post) -> BriefsResult<()>;

    fn delete_post(&mut self, id: usize) -> BriefsResult<()>;

    fn update_post_msg(&mut self, id: usize, new_msg: String) -> BriefsResult<()>;

    fn update_post_title(&mut self, id: usize, new_title: String) -> BriefsResult<()>;

    fn last_updated(&self) -> u64;

    fn metadata(&self) -> ();
}

pub trait CatchupPost {
    fn new(id: usize, title: String, msg: String) -> BriefsResult<()>;

    fn update_msg(id: usize, msg: String) -> BriefsResult<()>;

    fn update_title(id: usize, title: String) -> BriefsResult<()>;

    fn verify_title(title: &String) -> BriefsResult<()>;

    fn verify_msg(msg: &String) -> BriefsResult<()>;
}

pub trait DataBase {
    fn insert_post(&self, post: &Post) -> BriefsResult<()>;

    fn delete_post(&self, id: usize) -> BriefsResult<()>;

    fn modify_post(&self, post: &Post) -> BriefsResult<()>;

    /// Retrieve the latest `n` posts, as the cache-refresh path needs.
    fn get_n_posts(&self, n: usize) -> BriefsResult<Vec<Post>>;
}

pub trait Cache {
    fn refresh_cache(&mut self) -> BriefsResult<()>;
}

} // verus!
