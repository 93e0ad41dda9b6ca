//! A small append-mostly post stream: posts are created, read, updated
//! and deleted through typed commands, backed by a durable sqlite row
//! store, with a bounded in-memory window of the most recent posts kept
//! for fast pagination.

use vstd::prelude::*;

pub mod db;
pub mod error;
pub mod post;
pub mod prelude;
pub mod server;
pub mod state;
pub mod stream;
pub mod utils;

pub use error::{BriefsError, BriefsResult};

use crate::db::{ids_strictly_asc, rows_match_store, store_posts, views_of};
use crate::post::{Post, PostView};
use crate::state::{CatchUpResponse, StreamMetadata};
use crate::stream::Stream;

verus! {

/// Upper bound on the length of a post body, in characters.
pub const MAX_POST_LEN: u16 = 300;

/// Upper bound on the length of a post title, in characters.
pub const MAX_POST_TITLE: u16 = 100;

/// Number of most-recent posts kept in the in-memory window.
pub const STREAM_CACHE_SIZE: u16 = 10;

/// Largest page size a catch-up query will serve.
pub const PAGINATION_LIMIT: u32 = 40;

/// Page size used when a catch-up query gives none.
pub const PAGINATION_DEFAULT: u32 = 20;

/// One wire command, as the dispatcher hands it to the engine.
#[derive(Debug)]
pub enum Command {
    Catchup { last_fetch_id: u32 },
    Create { title: String, msg: String },
    UpdateMsg { id: u32, msg: String },
    UpdateTitle { id: u32, title: String },
    Delete { id: u32 },
    Get { id: u32 },
    Metadata {},
}

/// A plain text message sent back to the client.
#[derive(Debug)]
pub struct StreamResponse {
    pub msg: String,
}

impl StreamResponse {
    pub fn new(msg: String) -> (r: Self)
        ensures
            r.msg@ == msg@,
    {
        Self { msg }
    }
}

/// What one command produced, ready for serialization by the caller.
#[derive(Debug)]
pub enum CommandOutcome {
    /// A post was created and stored.
    Created(Post),
    /// One page of a catch-up query.
    Page(CatchUpResponse),
    /// One post, looked up by id.
    Single(Post),
    /// A mutation went through; a message describes it.
    Done(StreamResponse),
    /// The stream's metadata.
    Meta(StreamMetadata),
}

/// Dispatch one decoded command to the stream cache engine. The engine's
/// well-formedness and its consistency with the store survive every
/// command; each command maps to its kind of outcome, and each outcome
/// carries what the engine's own contract promises of it.
pub fn handle_command(stream: &mut Stream, conn: &mut sqlite::Connection, cmd: Command) -> (r:
    Result<CommandOutcome, BriefsError>)
    requires
        old(stream).inv(),
        old(stream).consistent_with(store_posts(*old(conn))),
    ensures
        final(stream).inv(),
        final(stream).consistent_with(store_posts(*final(conn))),
        r matches Ok(o) ==> match cmd {
            Command::Catchup { .. } => o is Page,
            Command::Create { .. } => o is Created,
            Command::UpdateMsg { .. } => o is Done,
            Command::UpdateTitle { .. } => o is Done,
            Command::Delete { .. } => o is Done,
            Command::Get { .. } => o is Single,
            Command::Metadata { .. } => o is Meta,
        },
        r matches Ok(o) ==> (o matches CommandOutcome::Single(p) ==> store_posts(
            *final(conn),
        ).contains_key(p@.id) && store_posts(*final(conn))[p@.id] == p@),
        cmd matches Command::Get { id } ==> (r matches Ok(o) ==> (o matches
            CommandOutcome::Single(p) ==> p@.id == id)),
        cmd matches Command::Metadata { .. } ==> r is Ok && *final(stream) == *old(stream)
            && store_posts(*final(conn)) == store_posts(*old(conn)),
        cmd matches Command::Metadata { .. } ==> (r matches Ok(o) ==> (o matches
            CommandOutcome::Meta(m) && m.posts_count == old(stream).nposts && m.last_updated
            == old(stream).last_updated && m.latest_post_id == (if old(stream).window().len() > 0 {
            Some(old(stream).window().last().id)
        } else {
            None::<u32>
        }))),
        cmd matches Command::Create { title, msg } ==> (r matches Ok(o) ==> (o matches
            CommandOutcome::Created(p) && p@.id == old(stream).nposts && p@.title == title@
            && p@.msg == msg@ && !p@.edited && !store_posts(*old(conn)).contains_key(p@.id)
            && store_posts(*final(conn)) == store_posts(*old(conn)).insert(p@.id, p@)
            && final(stream).nposts == old(stream).nposts + 1)),
        cmd matches Command::Delete { id } ==> (r is Ok ==> store_posts(*final(conn))
            == store_posts(*old(conn)).remove(id) && final(stream).nposts == (if old(stream).nposts
            > 0 {
            (old(stream).nposts - 1) as u64
        } else {
            0u64
        })),
        cmd matches Command::UpdateMsg { id, msg } ==> (r is Ok ==> store_posts(*final(conn)) == (
        if store_posts(*old(conn)).contains_key(id) {
            store_posts(*old(conn)).insert(
                id,
                PostView { msg: msg@, edited: true, ..store_posts(*old(conn))[id] },
            )
        } else {
            store_posts(*old(conn))
        }) && final(stream).nposts == old(stream).nposts),
        cmd matches Command::UpdateTitle { id, title } ==> (r is Ok ==> store_posts(*final(conn))
            == (if store_posts(*old(conn)).contains_key(id) {
            store_posts(*old(conn)).insert(
                id,
                PostView { title: title@, edited: true, ..store_posts(*old(conn))[id] },
            )
        } else {
            store_posts(*old(conn))
        }) && final(stream).nposts == old(stream).nposts),
        cmd matches Command::Catchup { last_fetch_id } ==> ((old(stream).size == 0 || last_fetch_id
            >= old(stream).nposts) ==> (r matches Ok(o) && o matches CommandOutcome::Page(c)
            && c.posts@.len() == 0 && c.caught_up && *final(stream) == *old(stream) && store_posts(
            *final(conn),
        ) == store_posts(*old(conn)))),
        r matches Ok(o) ==> (o matches CommandOutcome::Page(c) ==> rows_match_store(
            views_of(c.posts@),
            store_posts(*final(conn)),
        ) && ids_strictly_asc(views_of(c.posts@))),
{
    match cmd {
        Command::Create { title, msg } => match stream.create_post(conn, title, msg) {
            Ok(p) => Ok(CommandOutcome::Created(p)),
            Err(e) => Err(e),
        },
        Command::Catchup { last_fetch_id } => {
            if stream.size == 0 || last_fetch_id as u64 >= stream.nposts {
                return Ok(
                    CommandOutcome::Page(CatchUpResponse { posts: Vec::new(), caught_up: true }),
                );
            }
            match stream.catchup(conn, last_fetch_id, None) {
                Ok(c) => {
                    proof {
                        let w = stream.window();
                        let st = store_posts(*conn);
                        let sid = last_fetch_id;
                        let page = views_of(c.posts@);
                        if w.len() > 0 && sid <= w.last().id {
                            let lmt = crate::stream::spec_page_limit(None);
                            let caught = w.last().id <= sid + lmt;
                            let eid: u32 = if caught {
                                w.last().id
                            } else {
                                (sid + lmt) as u32
                            };
                            if sid >= w[0].id {
                                let (si, ei) = choose|si: int, ei: int|
                                    0 <= si <= ei < w.len() && (#[trigger] w[si]).id == sid && (
                                    #[trigger] w[ei]).id == eid && page == w.subrange(si, ei + 1);
                                assert forall|i: int|
                                    0 <= i < page.len() implies st.contains_key(
                                    (#[trigger] page[i]).id,
                                ) && st[page[i].id] == page[i] by {
                                    assert(page[i] == w[si + i]);
                                }
                                assert forall|i: int, j: int|
                                    0 <= i < j < page.len() implies (#[trigger] page[i]).id < (
                                    #[trigger] page[j]).id by {
                                    assert(page[i] == w[si + i]);
                                    assert(page[j] == w[si + j]);
                                }
                            }
                        }
                    }
                    Ok(CommandOutcome::Page(c))
                },
                Err(e) => Err(e),
            }
        },
        Command::Get { id } => match stream.get_post(conn, id) {
            Some(p) => Ok(CommandOutcome::Single(p)),
            None => Err(BriefsError::InvalidId {}),
        },
        Command::Delete { id } => match stream.remove_post(conn, id) {
            Ok(()) => Ok(
                CommandOutcome::Done(StreamResponse::new("Successfully deleted post".to_owned())),
            ),
            Err(e) => Err(e),
        },
        Command::UpdateMsg { id, msg } => match stream.update_msg(conn, id, msg) {
            Ok(()) => Ok(
                CommandOutcome::Done(
                    StreamResponse::new("Successfully updated post message".to_owned()),
                ),
            ),
            Err(e) => Err(e),
        },
        Command::UpdateTitle { id, title } => match stream.update_title(conn, id, title) {
            Ok(()) => Ok(
                CommandOutcome::Done(
                    StreamResponse::new("Successfully updated post title".to_owned()),
                ),
            ),
            Err(e) => Err(e),
        },
        Command::Metadata {  } => match stream.stream_metadata() {
            Ok(m) => Ok(CommandOutcome::Meta(m)),
            Err(e) => Err(e),
        },
    }
}

/// The sub-commands of the full administration client.
#[derive(Debug)]
pub enum BriefsCommand {
    /// Creates a new post with the given `title` and `message`.
    NewPost { title: Option<String>, msg: Option<String> },
    /// Catch up with the latest posts.
    Catchup { idx: Option<usize> },
    GetPost { id: usize },
    DeletePost { id: usize },
    UpdateMsg { id: usize, msg: String },
    UpdateTitle { id: usize, title: String },
    StreamMetadata {},
}

/// The sub-commands of the small reader client.
#[derive(Debug)]
pub enum CliCommand {
    /// Creates a new post with the given `title` and `message`.
    New { title: String, msg: String },
    /// Catch up with the latest posts.
    Catchup { idx: Option<usize> },
}

} // verus!
