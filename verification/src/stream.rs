//! The stream cache engine: a bounded window of the most recent posts,
//! kept consistent with the durable row store, together with the
//! monotonic post count and the stream's timestamps.

use std::collections::VecDeque;

use vstd::prelude::*;

use crate::db;
use crate::db::{
    ids_strictly_asc, ids_strictly_desc, rows_match_store, seq_has_id, store_posts, views_of,
};
use crate::error::{BriefsError, BriefsResult};
use crate::state::{CatchUpResponse, StreamMetadata};
use crate::post::{
    spec_msg_error, spec_text_storable, spec_title_error, spec_valid_msg, spec_valid_title,
    text_has_nul, time_in_sec, Post, PostView,
};
use crate::STREAM_CACHE_SIZE;

verus! {

/// The effective page size of a catch-up query: the given limit, or the
/// default when none was given, capped at the pagination limit.
pub open spec fn spec_page_limit(limit: Option<u32>) -> u32 {
    let l = match limit {
        Some(l) => l,
        None => crate::PAGINATION_DEFAULT,
    };
    if l <= crate::PAGINATION_LIMIT {
        l
    } else {
        crate::PAGINATION_LIMIT
    }
}

/// What a page served from the store promises: exactly the rows of the
/// store with ids between `sid` and `eid`, ascending and unchanged, at
/// most one more than the page size `lmt` (both page boundaries are
/// served inclusively, as the window path serves them).
pub open spec fn page_from_store(
    page: Seq<PostView>,
    store: Map<u32, PostView>,
    sid: u32,
    eid: u32,
    lmt: u32,
) -> bool {
    &&& rows_match_store(page, store)
    &&& ids_strictly_asc(page)
    &&& page.len() <= lmt + 1
    &&& forall|i: int| 0 <= i < page.len() ==> sid <= (#[trigger] page[i]).id <= eid
    &&& forall|z: u32| store.contains_key(z) && sid <= z <= eid ==> seq_has_id(page, z)
}

/// Mapping a sequence of posts to views commutes with push.
proof fn lemma_views_of_push(s: Seq<Post>, p: Post)
    ensures
        views_of(s.push(p)) == views_of(s).push(p@),
{
    assert(views_of(s.push(p)) =~= views_of(s).push(p@));
}

/// Mapping a sequence of posts to views commutes with dropping the first.
proof fn lemma_views_of_drop_first(s: Seq<Post>)
    requires
        s.len() > 0,
    ensures
        views_of(s.drop_first()) == views_of(s).drop_first(),
{
    assert(views_of(s.drop_first()) =~= views_of(s).drop_first());
}

/// Mapping a sequence of posts to views commutes with removal.
proof fn lemma_views_of_remove(s: Seq<Post>, i: int)
    requires
        0 <= i < s.len(),
    ensures
        views_of(s.remove(i)) == views_of(s).remove(i),
{
    assert(views_of(s.remove(i)) =~= views_of(s).remove(i));
}

/// Removing an element and inserting another at the same place is an update.
proof fn lemma_remove_insert_is_update<T>(s: Seq<T>, i: int, x: T)
    requires
        0 <= i < s.len(),
    ensures
        s.remove(i).insert(i, x) == s.update(i, x),
{
    assert(s.remove(i).insert(i, x) =~= s.update(i, x));
}

/// Mapping a sequence of posts to views commutes with update.
proof fn lemma_views_of_update(s: Seq<Post>, i: int, p: Post)
    requires
        0 <= i < s.len(),
    ensures
        views_of(s.update(i, p)) == views_of(s).update(i, p@),
{
    assert(views_of(s.update(i, p)) =~= views_of(s).update(i, p@));
}

/// The window occupancy that a run of `k` successful create operations
/// leaves behind, starting from an empty stream: each step obeys the
/// size recurrence that `create_post` ensures.
pub open spec fn window_size_after_creates(k: nat) -> int
    decreases k,
{
    if k == 0 {
        0
    } else {
        vstd::math::min(
            window_size_after_creates((k - 1) as nat) + 1,
            STREAM_CACHE_SIZE as int,
        )
    }
}

/// Window size bound: for every sequence of create operations from an
/// empty stream, the window occupancy after each operation is exactly
/// the smaller of the number of creates so far and the cache capacity —
/// in particular it never exceeds the capacity.
pub proof fn lemma_window_size_bound(k: nat)
    ensures
        window_size_after_creates(k) == vstd::math::min(k as int, STREAM_CACHE_SIZE as int),
        window_size_after_creates(k) <= STREAM_CACHE_SIZE as int,
    decreases k,
{
    if k > 0 {
        lemma_window_size_bound((k - 1) as nat);
    }
}

/// Id monotonicity: ids assigned by successive successful create
/// operations increase by exactly one. The hypotheses are what
/// `create_post` ensures of each call: the new post's id is the running
/// count before the call, and the count grows by one.
pub proof fn lemma_create_ids_consecutive(
    s0: Stream,
    s1: Stream,
    s2: Stream,
    p1: PostView,
    p2: PostView,
)
    requires
        p1.id == s0.nposts,
        s1.nposts == s0.nposts + 1,
        p2.id == s1.nposts,
        s2.nposts == s1.nposts + 1,
    ensures
        p2.id == p1.id + 1,
{
}

/// Window/storage consistency: any post the window holds is, unchanged,
/// the row the authoritative store holds under the same id — so reading
/// it from the window and point-querying storage agree.
pub proof fn lemma_window_storage_consistent(s: Stream, store: Map<u32, PostView>, k: int)
    requires
        s.inv(),
        s.consistent_with(store),
        0 <= k < s.window().len(),
    ensures
        store.contains_key(s.window()[k].id),
        store[s.window()[k].id] == s.window()[k],
{
}

/// Catch-up progress: a page that is not yet caught up and not empty
/// strictly advances the resume id (one past the page's largest id)
/// while never passing the newest id, so repeated catch-up calls reach
/// `caught_up` in at most `newest - sid + 1` steps.
pub proof fn lemma_catchup_progress(
    last_id: u32,
    sid: u32,
    eid: u32,
    page: Seq<PostView>,
    next_sid: int,
)
    requires
        sid <= last_id,
        eid < last_id,
        page.len() > 0,
        forall|i: int| 0 <= i < page.len() ==> sid <= (#[trigger] page[i]).id <= eid,
        exists|i: int| 0 <= i < page.len() && (#[trigger] page[i]).id + 1 == next_sid,
        forall|i: int| 0 <= i < page.len() ==> (#[trigger] page[i]).id < next_sid,
    ensures
        sid < next_sid,
        next_sid <= last_id,
        last_id - next_sid < last_id - sid,
        seq_has_id(page, eid) ==> next_sid == eid + 1,
{
}

/// The number of catch-up calls left when resuming from `sid`, on a
/// stream whose ids up to `last_id` are all stored: a page that is not
/// caught up covers the whole range `[sid, sid + lmt]`, so the resume id
/// jumps one past it (`lemma_catchup_progress`), and one more call ends
/// the run once the newest id is within reach.
pub open spec fn catchup_calls(sid: int, last_id: int, lmt: int) -> int
    decreases last_id - sid,
        when 0 <= lmt
{
    if sid + lmt >= last_id {
        1
    } else {
        1 + catchup_calls(sid + lmt + 1, last_id, lmt)
    }
}

/// Catch-up terminates in a bounded number of calls: on a fully
/// populated range the calls from `sid` to the newest id number at most
/// one per full page, so `(calls - 1) * (page + 1)` never exceeds the
/// distance to the newest id. Pagination cannot loop forever there; a
/// range emptied by deletes wider than one page yields an empty page
/// from which the resume rule cannot advance, and is left out.
pub proof fn lemma_catchup_call_bound(sid: int, last_id: int, lmt: int)
    requires
        0 <= sid <= last_id,
        lmt >= 0,
    ensures
        catchup_calls(sid, last_id, lmt) >= 1,
        (catchup_calls(sid, last_id, lmt) - 1) * (lmt + 1) <= last_id - sid,
    decreases last_id - sid,
{
    if sid + lmt < last_id {
        lemma_catchup_call_bound(sid + lmt + 1, last_id, lmt);
        let c = catchup_calls(sid + lmt + 1, last_id, lmt);
        assert(catchup_calls(sid, last_id, lmt) == 1 + c);
        assert(c * (lmt + 1) == (c - 1) * (lmt + 1) + (lmt + 1)) by (nonlinear_arith);
        assert(c * (lmt + 1) <= last_id - sid);
    } else {
        assert(catchup_calls(sid, last_id, lmt) == 1);
        assert((1 - 1) * (lmt + 1) == 0) by (nonlinear_arith);
    }
}

/// Eviction correctness: every stored post missing from the window is
/// older than everything the window holds, so the window holds exactly
/// the newest stored ids, in ascending order.
pub proof fn lemma_eviction_correct(s: Stream, store: Map<u32, PostView>, id: u32)
    requires
        s.inv(),
        s.consistent_with(store),
        store.contains_key(id),
        !seq_has_id(s.window(), id),
    ensures
        forall|k: int| 0 <= k < s.window().len() ==> id < (#[trigger] s.window()[k]).id,
{
    let w = s.window();
    if w.len() > 0 {
        assert(id < w[0].id);
        assert forall|k: int| 0 <= k < w.len() implies id < (#[trigger] w[k]).id by {
            assert(w[0].id <= w[k].id);
        }
    }
}

/// Deleting an id below the window's floor cannot touch the window: no
/// cached post carries such an id, so `remove_post` keeps the window and
/// changes only the total count.
pub proof fn lemma_delete_below_floor_no_op(s: Stream, id: u32)
    requires
        s.inv(),
        s.window().len() > 0,
        id < s.window()[0].id,
    ensures
        !seq_has_id(s.window(), id),
{
    let w = s.window();
    assert forall|k: int| 0 <= k < w.len() implies (#[trigger] w[k]).id != id by {
        assert(w[0].id <= w[k].id);
    }
}

/// A Stream contains the window of most recent posts and some metadata.
#[derive(Debug)]
pub struct Stream {
    pub posts: VecDeque<Post>,
    pub size: usize,
    pub nposts: u64,
    pub last_updated: u64,
    pub date_of_inception: u64,
}

impl Stream {
    /// The window as a sequence of post models, ascending by id.
    pub open spec fn window(self) -> Seq<PostView> {
        views_of(self.posts@)
    }

    /// Internal well-formedness: the window is id-sorted, never exceeds
    /// the cache capacity, and `size` tracks its occupancy.
    pub open spec fn inv(self) -> bool {
        &&& self.size == self.posts@.len()
        &&& self.posts@.len() <= STREAM_CACHE_SIZE
        &&& ids_strictly_asc(self.window())
    }

    /// The window is a faithful cache of `store`: every cached post is a
    /// row of the store, unchanged, and every row at or above the
    /// window's floor is cached.
    pub open spec fn consistent_with(self, store: Map<u32, PostView>) -> bool {
        &&& rows_match_store(self.window(), store)
        &&& forall|id: u32|
            store.contains_key(id) && self.window().len() > 0 && id >= self.window()[0].id
                ==> seq_has_id(self.window(), id)
    }
}

impl Default for Stream {
    /// A fresh stream: empty window, zero counts, both timestamps now.
    fn default() -> (r: Self)
        ensures
            r.inv(),
            r.window().len() == 0,
            r.size == 0,
            r.nposts == 0,
            r.last_updated == r.date_of_inception,
            forall|store: Map<u32, PostView>| r.consistent_with(store),
    {
        let now = match time_in_sec(std::time::SystemTime::now()) {
            Ok(t) => t,
            Err(_) => 0u64,
        };
        Stream {
            posts: VecDeque::with_capacity(STREAM_CACHE_SIZE as usize),
            size: 0,
            nposts: 0,
            date_of_inception: now,
            last_updated: now,
        }
    }
}

/// An id-sorted window can hold no more posts than the store has rows.
proof fn lemma_window_card_le_store(w: Seq<PostView>, store: Map<u32, PostView>)
    requires
        ids_strictly_asc(w),
        rows_match_store(w, store),
        store.dom().finite(),
    ensures
        w.len() <= store.dom().len(),
{
    let ids = w.map_values(|p: PostView| p.id);
    assert forall|i: int, j: int|
        0 <= i < ids.len() && 0 <= j < ids.len() && i != j implies ids[i] != ids[j] by {
        if i < j {
            assert(w[i].id < w[j].id);
        } else {
            assert(w[j].id < w[i].id);
        }
    }
    assert(ids.no_duplicates());
    ids.unique_seq_to_set();
    assert forall|x: u32| ids.to_set().contains(x) implies store.dom().contains(x) by {
        assert(ids.contains(x));
        let k = choose|k: int| 0 <= k < ids.len() && ids[k] == x;
        assert(store.contains_key(w[k].id));
    }
    assert(ids.to_set().subset_of(store.dom()));
    vstd::set_lib::lemma_len_subset(ids.to_set(), store.dom());
}

/// A window that covers every stored id holds at least as many posts as
/// the store has rows.
proof fn lemma_store_card_le_window(w: Seq<PostView>, store: Map<u32, PostView>)
    requires
        forall|id: u32| store.contains_key(id) ==> seq_has_id(w, id),
        store.dom().finite(),
    ensures
        store.dom().len() <= w.len(),
{
    let ids = w.map_values(|p: PostView| p.id);
    vstd::seq_lib::seq_to_set_is_finite::<u32>(ids);
    assert forall|x: u32| store.dom().contains(x) implies ids.to_set().contains(x) by {
        assert(seq_has_id(w, x));
        let k = choose|k: int| 0 <= k < w.len() && (#[trigger] w[k]).id == x;
        assert(ids[k] == x);
        assert(ids.contains(x));
    }
    assert(store.dom().subset_of(ids.to_set()));
    vstd::set_lib::lemma_len_subset(store.dom(), ids.to_set());
    ids.lemma_cardinality_of_set();
}

/// The newest-first rows of a store query, reversed, form a consistent,
/// ascending window over that store.
proof fn lemma_reversed_cache_consistent(
    win: Seq<PostView>,
    src: Seq<PostView>,
    store: Map<u32, PostView>,
    cap: int,
)
    requires
        win.len() == src.len(),
        forall|j: int| 0 <= j < win.len() ==> win[j] == src[src.len() - 1 - j],
        ids_strictly_desc(src),
        rows_match_store(src, store),
        forall|id: u32|
            store.contains_key(id) ==> seq_has_id(src, id) || (src.len() == cap && (src.len() == 0
                || id < src.last().id)),
    ensures
        ids_strictly_asc(win),
        rows_match_store(win, store),
        forall|id: u32|
            store.contains_key(id) && win.len() > 0 && id >= win[0].id ==> seq_has_id(win, id),
        forall|id: u32|
            store.contains_key(id) ==> seq_has_id(win, id) || (win.len() == cap && (win.len() == 0
                || id < win[0].id)),
{
    let n = src.len() as int;
    assert forall|i: int, j: int| 0 <= i < j < win.len() implies (#[trigger] win[i]).id < (
    #[trigger] win[j]).id by {
        assert(win[i] == src[n - 1 - i]);
        assert(win[j] == src[n - 1 - j]);
    }
    assert forall|i: int| 0 <= i < win.len() implies store.contains_key((#[trigger] win[i]).id)
        && store[win[i].id] == win[i] by {
        assert(win[i] == src[n - 1 - i]);
    }
    assert forall|id: u32|
        store.contains_key(id) && win.len() > 0 && id >= win[0].id implies seq_has_id(
        win,
        id,
    ) by {
        assert(win[0] == src[n - 1]);
        assert(src.last() == src[n - 1]);
        assert(seq_has_id(src, id));
        let k = choose|k: int| 0 <= k < src.len() && (#[trigger] src[k]).id == id;
        assert(win[n - 1 - k] == src[k]);
    }
    assert forall|id: u32|
        store.contains_key(id) && !(win.len() == cap && (win.len() == 0 || id
            < win[0].id)) implies seq_has_id(win, id) by {
        if win.len() > 0 {
            assert(win[0] == src[n - 1]);
            assert(src.last() == src[n - 1]);
        }
        assert(seq_has_id(src, id));
        let k = choose|k: int| 0 <= k < src.len() && (#[trigger] src[k]).id == id;
        assert(win[n - 1 - k] == src[k]);
    }
}

/// Reverse a newest-first sequence of posts into an ascending window.
fn reverse_into_window(records: Vec<Post>) -> (posts: VecDeque<Post>)
    ensures
        posts@.len() == records@.len(),
        forall|j: int|
            0 <= j < posts@.len() ==> (#[trigger] posts@[j]) == records@[records@.len() - 1 - j],
{
    let ghost orig = records@;
    let ghost n = orig.len();
    let mut v = records;
    let mut posts: VecDeque<Post> = VecDeque::new();
    while v.len() > 0
        invariant
            n == orig.len(),
            posts@.len() + v@.len() == n,
            v@ == orig.subrange(0, v@.len() as int),
            forall|j: int| 0 <= j < posts@.len() ==> (#[trigger] posts@[j]) == orig[n - 1 - j],
        decreases v@.len(),
    {
        let ghost prev = v@;
        let p = match v.pop() {
            Some(p) => p,
            None => {
                proof {
                    assert(false);
                }
                continue ;
            },
        };
        posts.push_back(p);
        proof {
            assert(p == orig[prev.len() - 1]);
            assert(v@ =~= orig.subrange(0, v@.len() as int));
        }
    }
    posts
}

impl Stream {
    /// Load the most recent rows from storage into a fresh window, and
    /// take the total count from a storage-side count query. Used on
    /// restart, parameterized by the persisted timestamps.
    pub fn assemble(conn: &sqlite::Connection, last_updated: u64, doi: u64) -> (r: BriefsResult<
        Stream,
    >)
        ensures
            r matches Ok(s) ==> {
                &&& s.inv()
                &&& s.consistent_with(store_posts(*conn))
                &&& store_posts(*conn).dom().finite()
                &&& s.nposts == store_posts(*conn).dom().len()
                &&& s.window().len() == vstd::math::min(
                    STREAM_CACHE_SIZE as int,
                    store_posts(*conn).dom().len() as int,
                )
                &&& s.size == s.window().len()
                &&& s.last_updated == last_updated
                &&& s.date_of_inception == doi
            },
    {
        let records = db::query_cache(conn)?;
        let count_row = db::query_post_count(conn)?;
        let ghost src = views_of(records@);
        let posts = reverse_into_window(records);
        let size = posts.len();
        let result = Stream {
            posts,
            size,
            nposts: count_row,
            last_updated,
            date_of_inception: doi,
        };
        proof {
            assert forall|j: int| 0 <= j < result.window().len() implies (
            #[trigger] result.window()[j]) == src[src.len() - 1 - j] by {
                assert(result.posts@[j]@ == src[src.len() - 1 - j]);
            }
            lemma_reversed_cache_consistent(
                result.window(),
                src,
                store_posts(*conn),
                STREAM_CACHE_SIZE as int,
            );
            let w = result.window();
            let store = store_posts(*conn);
            lemma_window_card_le_store(w, store);
            if w.len() < STREAM_CACHE_SIZE as int {
                assert forall|id: u32| store.contains_key(id) implies seq_has_id(w, id) by {}
                lemma_store_card_le_window(w, store);
            }
        }
        Ok(result)
    }

    /// Rebuild the window from storage: fetch the newest rows, up to the
    /// window's current occupancy, and hold them ascending by id.
    pub fn refresh_cache(&mut self, conn: &sqlite::Connection) -> (r: BriefsResult<()>)
        requires
            old(self).inv(),
        ensures
            final(self).inv(),
            r is Ok ==> {
                &&& final(self).consistent_with(store_posts(*conn))
                &&& final(self).window().len() <= old(self).size
                &&& forall|id: u32|
                    store_posts(*conn).contains_key(id) ==> seq_has_id(final(self).window(), id)
                        || (final(self).window().len() == old(self).size && (
                        final(self).window().len() == 0 || id < final(self).window()[0].id))
                &&& final(self).nposts == old(self).nposts
                &&& final(self).last_updated == old(self).last_updated
                &&& final(self).date_of_inception == old(self).date_of_inception
            },
            r is Err ==> *final(self) == *old(self),
    {
        let n = self.size;
        let records = db::query_last_n(conn, n as u32)?;
        let ghost src = views_of(records@);
        self.posts = reverse_into_window(records);
        self.size = self.posts.len();
        proof {
            assert forall|j: int| 0 <= j < self.window().len() implies (
            #[trigger] self.window()[j]) == src[src.len() - 1 - j] by {
                assert(self.posts@[j]@ == src[src.len() - 1 - j]);
            }
            lemma_reversed_cache_consistent(self.window(), src, store_posts(*conn), n as int);
        }
        Ok(())
    }

    /// Whether `index` falls inside the window's id range. A hit means
    /// only that the id is between the window's floor and its newest id,
    /// not that a post with that id exists.
    fn id_in_cache(&self, index: u32) -> (r: bool)
        requires
            self.inv(),
        ensures
            r == (self.window().len() > 0 && self.window()[0].id <= index && index
                <= self.window().last().id),
    {
        if self.posts.len() == 0 {
            false
        } else if index < self.posts[0].id {
            false
        } else if index > self.posts[self.posts.len() - 1].id {
            false
        } else {
            true
        }
    }

    /// Returns the index of the post with the given id in the window:
    /// classic bisection over the id-sorted window.
    pub fn post_id_to_idx(&self, id: u32) -> (r: BriefsResult<usize>)
        requires
            self.inv(),
        ensures
            r matches Ok(i) ==> i < self.window().len() && self.window()[i as int].id == id,
            r is Err <==> !seq_has_id(self.window(), id),
            r matches Err(e) ==> e == (BriefsError::InvalidId {}),
    {
        let ghost w = self.window();
        if self.posts.len() == 0 {
            return Err(BriefsError::InvalidId {});
        }
        let mut lo: usize = 0;
        let mut hi: usize = self.posts.len();
        while lo < hi
            invariant
                self.inv(),
                w == self.window(),
                lo <= hi <= w.len(),
                forall|k: int| 0 <= k < lo ==> (#[trigger] w[k]).id < id,
                forall|k: int| hi <= k < w.len() ==> (#[trigger] w[k]).id > id,
            decreases hi - lo,
        {
            let mid = lo + (hi - lo) / 2;
            let pid = self.posts[mid].id;
            assert(pid == w[mid as int].id);
            if id < pid {
                hi = mid;
            } else if id > pid {
                lo = mid + 1;
            } else {
                return Ok(mid);
            }
        }
        proof {
            assert forall|k: int| 0 <= k < w.len() implies (#[trigger] w[k]).id != id by {
                if k < lo {
                } else {
                }
            }
        }
        Err(BriefsError::InvalidId {})
    }

    /// Get the last time the stream was updated.
    pub fn last_updated(&self) -> (r: u64)
        ensures
            r == self.last_updated,
    {
        self.last_updated
    }

    /// Get the number of posts in the window.
    pub fn size(&self) -> (r: usize)
        ensures
            r == self.size,
    {
        self.size
    }

    /// Get the number of posts in the stream.
    pub fn nposts(&self) -> (r: usize)
        requires
            self.nposts <= usize::MAX,
        ensures
            r == self.nposts,
    {
        self.nposts as usize
    }

    /// Get the date of inception of the stream.
    pub fn date_of_inception(&self) -> (r: u64)
        ensures
            r == self.date_of_inception,
    {
        self.date_of_inception
    }

    fn increment_post_count(&mut self) -> (r: BriefsResult<()>)
        requires
            old(self).nposts < u64::MAX,
        ensures
            r is Ok,
            *final(self) == (Stream { nposts: (old(self).nposts + 1) as u64, ..*old(self) }),
    {
        self.nposts = self.nposts + 1;
        Ok(())
    }

    /// Adds a new post to the current stream: write-through to the row
    /// store first, then append to the window, evicting the oldest
    /// cached post when the window is full. The post's id must be newer
    /// than everything the store holds; otherwise the operation is
    /// refused before anything is written.
    pub fn add_post(&mut self, conn: &mut sqlite::Connection, post: Post) -> (r: BriefsResult<()>)
        requires
            old(self).inv(),
            old(self).consistent_with(store_posts(*old(conn))),
        ensures
            final(self).inv(),
            r is Ok ==> {
                &&& !store_posts(*old(conn)).contains_key(post@.id)
                &&& store_posts(*final(conn)) == store_posts(*old(conn)).insert(post@.id, post@)
                &&& final(self).window() == if old(self).window().len() == STREAM_CACHE_SIZE as int {
                    old(self).window().drop_first().push(post@)
                } else {
                    old(self).window().push(post@)
                }
                &&& final(self).size as int == vstd::math::min(
                    old(self).size as int + 1,
                    STREAM_CACHE_SIZE as int,
                )
                &&& final(self).nposts == old(self).nposts + 1
                &&& final(self).date_of_inception == old(self).date_of_inception
                &&& final(self).consistent_with(store_posts(*final(conn)))
            },
            r is Err ==> *final(self) == *old(self) && store_posts(*final(conn)) == store_posts(
                *old(conn),
            ),
            old(self).nposts == u64::MAX ==> r is Err,
            !spec_text_storable(post@.title) || !spec_text_storable(post@.msg) ==> r is Err,
            old(self).window().len() > 0 && post@.id <= old(self).window().last().id ==> r is Err,
    {
        if self.nposts == u64::MAX {
            return Err(BriefsError::custom_error("post count at capacity".to_string()));
        }
        if text_has_nul(post.title.as_str()) || text_has_nul(post.msg.as_str()) {
            return Err(
                BriefsError::custom_error("text contains a NUL the row store cannot keep".to_string()),
            );
        }
        if self.posts.len() > 0 {
            if post.id <= self.posts[self.posts.len() - 1].id {
                return Err(
                    BriefsError::custom_error("post id not newer than the window".to_string()),
                );
            }
        } else {
            let newest = db::query_last_n(conn, 1)?;
            if newest.len() > 0 {
                if newest[0].id >= post.id {
                    return Err(
                        BriefsError::custom_error("post id not newer than the store".to_string()),
                    );
                }
            }
        }
        let now = time_in_sec(std::time::SystemTime::now())?;
        db::insert_post(conn, &post)?;
        let ghost prev = *self;
        let ghost new_store = store_posts(*conn);
        if self.posts.len() == STREAM_CACHE_SIZE as usize {
            let _ = self.posts.pop_front();
            self.size = self.size - 1;
        }
        self.posts.push_back(post);
        self.size = self.size + 1;
        self.last_updated = now;
        self.increment_post_count()?;
        proof {
            if prev.posts@.len() == STREAM_CACHE_SIZE as int {
                lemma_views_of_drop_first(prev.posts@);
                lemma_views_of_push(prev.posts@.drop_first(), post);
            } else {
                lemma_views_of_push(prev.posts@, post);
            }
            assert(self.window() == if prev.window().len() == STREAM_CACHE_SIZE as int {
                prev.window().drop_first().push(post@)
            } else {
                prev.window().push(post@)
            });
            let w = self.window();
            let ow = prev.window();
            assert forall|i: int, j: int| 0 <= i < j < w.len() implies (#[trigger] w[i]).id < (
            #[trigger] w[j]).id by {
                if ow.len() == STREAM_CACHE_SIZE as int {
                    assert(w[i] == ow[i + 1]);
                    if j == w.len() - 1 {
                        assert(ow[i + 1].id <= ow[ow.len() - 1].id);
                    } else {
                        assert(w[j] == ow[j + 1]);
                    }
                } else {
                    assert(w[i] == ow[i]);
                    if j == w.len() - 1 {
                        assert(ow[i].id <= ow[ow.len() - 1].id);
                    } else {
                        assert(w[j] == ow[j]);
                    }
                }
            }
            assert(self.inv());
            assert forall|id: u32|
                new_store.contains_key(id) && self.window().len() > 0 && id
                    >= self.window()[0].id implies seq_has_id(self.window(), id) by {
                let w = self.window();
                let ow = prev.window();
                if id == post@.id {
                    assert(w.last() == post@);
                    assert(w[w.len() - 1].id == id);
                } else {
                    assert(store_posts(*old(conn)).contains_key(id));
                    assert(ow.len() > 0);
                    assert(id >= ow[0].id);
                    let k = choose|k: int| 0 <= k < ow.len() && (#[trigger] ow[k]).id == id;
                    if ow.len() == STREAM_CACHE_SIZE as int {
                        if k == 0 {
                            assert(ow[0].id < ow[1].id);
                            assert(w[0] == ow[1]);
                            assert(false);
                        } else {
                            assert(w[k - 1] == ow[k]);
                        }
                    } else {
                        assert(w[k] == ow[k]);
                    }
                }
            }
            assert(self.consistent_with(new_store));
        }
        Ok(())
    }

    /// Create and store a new post from the given title and message:
    /// the next id is the running post count, validation happens before
    /// anything is written, and the row store is written before the
    /// window is touched.
    pub fn create_post(&mut self, conn: &mut sqlite::Connection, title: String, msg: String) -> (r:
        BriefsResult<Post>)
        requires
            old(self).inv(),
            old(self).consistent_with(store_posts(*old(conn))),
        ensures
            final(self).inv(),
            r matches Ok(p) ==> {
                &&& spec_valid_title(title@)
                &&& spec_valid_msg(msg@)
                &&& spec_text_storable(title@)
                &&& spec_text_storable(msg@)
                &&& p@.id == old(self).nposts
                &&& p@.title == title@
                &&& p@.msg == msg@
                &&& !p@.edited
                &&& !store_posts(*old(conn)).contains_key(p@.id)
                &&& store_posts(*final(conn)) == store_posts(*old(conn)).insert(p@.id, p@)
                &&& final(self).window() == if old(self).window().len() == STREAM_CACHE_SIZE as int {
                    old(self).window().drop_first().push(p@)
                } else {
                    old(self).window().push(p@)
                }
                &&& final(self).size as int == vstd::math::min(
                    old(self).size as int + 1,
                    STREAM_CACHE_SIZE as int,
                )
                &&& final(self).nposts == old(self).nposts + 1
                &&& final(self).date_of_inception == old(self).date_of_inception
                &&& final(self).consistent_with(store_posts(*final(conn)))
            },
            !spec_valid_title(title@) ==> r == BriefsResult::<Post>::Err(spec_title_error(title@)),
            spec_valid_title(title@) && !spec_valid_msg(msg@) ==> r == BriefsResult::<Post>::Err(
                spec_msg_error(msg@),
            ),
            r is Err ==> *final(self) == *old(self) && store_posts(*final(conn)) == store_posts(
                *old(conn),
            ),
            old(self).nposts > u32::MAX ==> r is Err,
    {
        match crate::post::verify_title(&title) {
            Ok(()) => (),
            Err(e) => {
                return Err(e);
            },
        }
        match crate::post::verify_msg(&msg) {
            Ok(()) => (),
            Err(e) => {
                return Err(e);
            },
        }
        if self.nposts > u32::MAX as u64 {
            return Err(BriefsError::custom_error("post ids are exhausted".to_string()));
        }
        let post = match Post::new(self.nposts as u32, title, msg) {
            Ok(p) => p,
            Err(e) => {
                return Err(e);
            },
        };
        let result = post.clone();
        match self.add_post(conn, post) {
            Ok(()) => Ok(result),
            Err(e) => Err(e),
        }
    }

    /// Removes an existing post from the stream: the row is deleted from
    /// the store first (idempotently), the total count shrinks
    /// (saturating at zero), and the window copy, if the id falls inside
    /// the window's range, is evicted.
    pub fn remove_post(&mut self, conn: &mut sqlite::Connection, id: u32) -> (r: BriefsResult<()>)
        requires
            old(self).inv(),
            old(self).consistent_with(store_posts(*old(conn))),
        ensures
            final(self).inv(),
            final(self).consistent_with(store_posts(*final(conn))),
            r is Ok ==> {
                &&& store_posts(*final(conn)) == store_posts(*old(conn)).remove(id)
                &&& if seq_has_id(old(self).window(), id) {
                    exists|k: int|
                        0 <= k < old(self).window().len() && (#[trigger] old(self).window()[k]).id
                            == id && final(self).window() == old(self).window().remove(k)
                } else {
                    final(self).window() == old(self).window()
                }
                &&& final(self).size == final(self).window().len()
                &&& final(self).nposts == if old(self).nposts > 0 {
                    (old(self).nposts - 1) as u64
                } else {
                    0u64
                }
                &&& final(self).date_of_inception == old(self).date_of_inception
            },
            r matches Err(e) ==> if e is InvalidId {
                &&& !store_posts(*old(conn)).contains_key(id)
                &&& store_posts(*final(conn)) == store_posts(*old(conn))
                &&& final(self).posts@ == old(self).posts@
                &&& final(self).size == old(self).size
                &&& final(self).nposts == if old(self).nposts > 0 {
                    (old(self).nposts - 1) as u64
                } else {
                    0u64
                }
                &&& final(self).date_of_inception == old(self).date_of_inception
            } else {
                *final(self) == *old(self) && store_posts(*final(conn)) == store_posts(*old(conn))
            },
    {
        let ghost old_store = store_posts(*conn);
        let now = time_in_sec(std::time::SystemTime::now())?;
        db::delete_post_by_id(conn, id)?;
        self.last_updated = now;
        self.decrement_post_count()?;
        let ghost new_store = store_posts(*conn);
        if !self.id_in_cache(id) {
            proof {
                let w = self.window();
                assert forall|k: int| 0 <= k < w.len() implies (#[trigger] w[k]).id != id by {
                    assert(w[0].id <= w[k].id);
                    assert(w[k].id <= w[w.len() - 1].id);
                }
                assert(!seq_has_id(w, id));
                assert forall|z: u32|
                    new_store.contains_key(z) && w.len() > 0 && z >= w[0].id implies seq_has_id(
                    w,
                    z,
                ) by {
                    assert(old_store.contains_key(z));
                }
            }
            return Ok(());
        }
        let idx = match self.post_id_to_idx(id) {
            Ok(i) => i,
            Err(e) => {
                proof {
                    let w = self.window();
                    assert(w[0].id <= id <= w[w.len() - 1].id);
                    assert(!old_store.contains_key(id));
                    assert(new_store =~= old_store);
                }
                return Err(e);
            },
        };
        let ghost prev = *self;
        let _ = self.posts.remove(idx);
        self.size = self.posts.len();
        proof {
            lemma_views_of_remove(prev.posts@, idx as int);
            let w = self.window();
            let ow = prev.window();
            assert(w == ow.remove(idx as int));
            assert forall|i: int, j: int| 0 <= i < j < w.len() implies (#[trigger] w[i]).id < (
            #[trigger] w[j]).id by {
                let i0 = if i < idx { i } else { i + 1 };
                let j0 = if j < idx { j } else { j + 1 };
                assert(w[i] == ow[i0]);
                assert(w[j] == ow[j0]);
            }
            assert(self.inv());
            assert forall|z: u32|
                new_store.contains_key(z) && w.len() > 0 && z >= w[0].id implies seq_has_id(
                w,
                z,
            ) by {
                assert(old_store.contains_key(z) && z != id);
                assert(ow[0].id <= w[0].id);
                let k = choose|k: int| 0 <= k < ow.len() && (#[trigger] ow[k]).id == z;
                assert(k != idx);
                if k < idx {
                    assert(w[k] == ow[k]);
                } else {
                    assert(w[k - 1] == ow[k]);
                }
            }
            assert(self.consistent_with(new_store));
        }
        Ok(())
    }

    /// Update an existing post with the new message: the message is
    /// validated first, then the store row is rewritten, then the window
    /// copy, if the id falls inside the window's range.
    pub fn update_msg(&mut self, conn: &mut sqlite::Connection, id: u32, new_msg: String) -> (r:
        BriefsResult<()>)
        requires
            old(self).inv(),
            old(self).consistent_with(store_posts(*old(conn))),
        ensures
            final(self).inv(),
            final(self).consistent_with(store_posts(*final(conn))),
            r is Ok ==> {
                &&& spec_valid_msg(new_msg@)
                &&& spec_text_storable(new_msg@)
                &&& store_posts(*final(conn)) == if store_posts(*old(conn)).contains_key(id) {
                    store_posts(*old(conn)).insert(
                        id,
                        PostView {
                            msg: new_msg@,
                            edited: true,
                            ..store_posts(*old(conn))[id]
                        },
                    )
                } else {
                    store_posts(*old(conn))
                }
                &&& if seq_has_id(old(self).window(), id) {
                    exists|k: int|
                        0 <= k < old(self).window().len() && (#[trigger] old(self).window()[k]).id
                            == id && final(self).window() == old(self).window().update(
                            k,
                            PostView {
                                msg: new_msg@,
                                edited: true,
                                ..old(self).window()[k]
                            },
                        )
                } else {
                    final(self).window() == old(self).window()
                }
                &&& final(self).size == old(self).size
                &&& final(self).nposts == old(self).nposts
                &&& final(self).date_of_inception == old(self).date_of_inception
            },
            !spec_valid_msg(new_msg@) ==> r == BriefsResult::<()>::Err(spec_msg_error(new_msg@))
                && *final(self) == *old(self) && store_posts(*final(conn)) == store_posts(
                *old(conn),
            ),
            !spec_text_storable(new_msg@) ==> r is Err,
            r matches Err(e) ==> if e is InvalidId {
                &&& !store_posts(*old(conn)).contains_key(id)
                &&& store_posts(*final(conn)) == store_posts(*old(conn))
                &&& final(self).posts@ == old(self).posts@
                &&& final(self).size == old(self).size
                &&& final(self).nposts == old(self).nposts
                &&& final(self).date_of_inception == old(self).date_of_inception
            } else {
                *final(self) == *old(self) && store_posts(*final(conn)) == store_posts(*old(conn))
            },
    {
        match crate::post::verify_msg(&new_msg) {
            Ok(()) => (),
            Err(e) => {
                return Err(e);
            },
        }
        if text_has_nul(new_msg.as_str()) {
            return Err(
                BriefsError::custom_error("text contains a NUL the row store cannot keep".to_string()),
            );
        }
        let ghost old_store = store_posts(*conn);
        let now = time_in_sec(std::time::SystemTime::now())?;
        db::update_post_msg_by_id(conn, id, new_msg.clone())?;
        self.last_updated = now;
        let ghost new_store = store_posts(*conn);
        if !self.id_in_cache(id) {
            proof {
                self.lemma_outside_range_consistent(id, old_store, new_store);
            }
            return Ok(());
        }
        let idx = match self.post_id_to_idx(id) {
            Ok(i) => i,
            Err(e) => {
                proof {
                    let w = self.window();
                    assert(w[0].id <= id <= w[w.len() - 1].id);
                    assert(!old_store.contains_key(id));
                    assert(new_store == old_store);
                }
                return Err(e);
            },
        };
        let ghost prev = *self;
        let mut p = match self.posts.remove(idx) {
            Some(p) => p,
            None => {
                proof {
                    assert(false);
                }
                return Err(BriefsError::InvalidId {});
            },
        };
        match p.update_msg(new_msg) {
            Ok(()) => (),
            Err(e) => {
                proof {
                    assert(false);
                }
                return Err(e);
            },
        }
        self.posts.insert(idx, p);
        proof {
            lemma_remove_insert_is_update(prev.posts@, idx as int, p);
            lemma_views_of_update(prev.posts@, idx as int, p);
            self.lemma_window_update_consistent(prev, idx as int, id, old_store, new_store);
        }
        Ok(())
    }

    /// Update an existing post with the new title: the title is
    /// validated first, then the store row is rewritten, then the window
    /// copy, if the id falls inside the window's range.
    pub fn update_title(&mut self, conn: &mut sqlite::Connection, id: u32, new_title: String) -> (r:
        BriefsResult<()>)
        requires
            old(self).inv(),
            old(self).consistent_with(store_posts(*old(conn))),
        ensures
            final(self).inv(),
            final(self).consistent_with(store_posts(*final(conn))),
            r is Ok ==> {
                &&& spec_valid_title(new_title@)
                &&& spec_text_storable(new_title@)
                &&& store_posts(*final(conn)) == if store_posts(*old(conn)).contains_key(id) {
                    store_posts(*old(conn)).insert(
                        id,
                        PostView {
                            title: new_title@,
                            edited: true,
                            ..store_posts(*old(conn))[id]
                        },
                    )
                } else {
                    store_posts(*old(conn))
                }
                &&& if seq_has_id(old(self).window(), id) {
                    exists|k: int|
                        0 <= k < old(self).window().len() && (#[trigger] old(self).window()[k]).id
                            == id && final(self).window() == old(self).window().update(
                            k,
                            PostView {
                                title: new_title@,
                                edited: true,
                                ..old(self).window()[k]
                            },
                        )
                } else {
                    final(self).window() == old(self).window()
                }
                &&& final(self).size == old(self).size
                &&& final(self).nposts == old(self).nposts
                &&& final(self).date_of_inception == old(self).date_of_inception
            },
            !spec_valid_title(new_title@) ==> r == BriefsResult::<()>::Err(
                spec_title_error(new_title@),
            ) && *final(self) == *old(self) && store_posts(*final(conn)) == store_posts(
                *old(conn),
            ),
            !spec_text_storable(new_title@) ==> r is Err,
            r matches Err(e) ==> if e is InvalidId {
                &&& !store_posts(*old(conn)).contains_key(id)
                &&& store_posts(*final(conn)) == store_posts(*old(conn))
                &&& final(self).posts@ == old(self).posts@
                &&& final(self).size == old(self).size
                &&& final(self).nposts == old(self).nposts
                &&& final(self).date_of_inception == old(self).date_of_inception
            } else {
                *final(self) == *old(self) && store_posts(*final(conn)) == store_posts(*old(conn))
            },
    {
        match crate::post::verify_title(&new_title) {
            Ok(()) => (),
            Err(e) => {
                return Err(e);
            },
        }
        if text_has_nul(new_title.as_str()) {
            return Err(
                BriefsError::custom_error("text contains a NUL the row store cannot keep".to_string()),
            );
        }
        let ghost old_store = store_posts(*conn);
        let now = time_in_sec(std::time::SystemTime::now())?;
        db::update_post_title_by_id(conn, id, new_title.clone())?;
        self.last_updated = now;
        let ghost new_store = store_posts(*conn);
        if !self.id_in_cache(id) {
            proof {
                self.lemma_outside_range_consistent(id, old_store, new_store);
            }
            return Ok(());
        }
        let idx = match self.post_id_to_idx(id) {
            Ok(i) => i,
            Err(e) => {
                proof {
                    let w = self.window();
                    assert(w[0].id <= id <= w[w.len() - 1].id);
                    assert(!old_store.contains_key(id));
                    assert(new_store == old_store);
                }
                return Err(e);
            },
        };
        let ghost prev = *self;
        let mut p = match self.posts.remove(idx) {
            Some(p) => p,
            None => {
                proof {
                    assert(false);
                }
                return Err(BriefsError::InvalidId {});
            },
        };
        match p.update_title(new_title) {
            Ok(()) => (),
            Err(e) => {
                proof {
                    assert(false);
                }
                return Err(e);
            },
        }
        self.posts.insert(idx, p);
        proof {
            lemma_remove_insert_is_update(prev.posts@, idx as int, p);
            lemma_views_of_update(prev.posts@, idx as int, p);
            self.lemma_window_update_consistent(prev, idx as int, id, old_store, new_store);
        }
        Ok(())
    }

    /// After a store row outside the window's range changed or vanished,
    /// the untouched window is still consistent.
    proof fn lemma_outside_range_consistent(
        self,
        id: u32,
        old_store: Map<u32, PostView>,
        new_store: Map<u32, PostView>,
    )
        requires
            self.inv(),
            self.consistent_with(old_store),
            !(self.window().len() > 0 && self.window()[0].id <= id && id
                <= self.window().last().id),
            forall|z: u32|
                z != id && old_store.contains_key(z) ==> new_store.contains_key(z)
                    && new_store[z] == old_store[z],
            forall|z: u32| new_store.contains_key(z) ==> old_store.contains_key(z),
        ensures
            self.consistent_with(new_store),
            !seq_has_id(self.window(), id),
    {
        let w = self.window();
        assert forall|k: int| 0 <= k < w.len() implies (#[trigger] w[k]).id != id by {
            assert(w[0].id <= w[k].id);
            assert(w[k].id <= w[w.len() - 1].id);
        }
        assert forall|k: int| 0 <= k < w.len() implies new_store.contains_key((#[trigger] w[k]).id)
            && new_store[w[k].id] == w[k] by {
            assert(w[k].id != id);
            assert(old_store.contains_key(w[k].id));
        }
        assert forall|z: u32|
            new_store.contains_key(z) && w.len() > 0 && z >= w[0].id implies seq_has_id(w, z) by {
            assert(old_store.contains_key(z));
        }
    }

    /// After one window post and its store row changed in the same way,
    /// the window is still consistent.
    proof fn lemma_window_update_consistent(
        self,
        prev: Stream,
        idx: int,
        id: u32,
        old_store: Map<u32, PostView>,
        new_store: Map<u32, PostView>,
    )
        requires
            prev.inv(),
            prev.consistent_with(old_store),
            0 <= idx < prev.window().len(),
            prev.window()[idx].id == id,
            self.window() == prev.window().update(idx, new_store[id]),
            self.size == prev.size,
            self.posts@.len() == prev.posts@.len(),
            new_store == old_store.insert(id, new_store[id]),
            new_store[id].id == id,
        ensures
            self.inv(),
            self.consistent_with(new_store),
    {
        let w = self.window();
        let ow = prev.window();
        assert forall|i: int, j: int| 0 <= i < j < w.len() implies (#[trigger] w[i]).id < (
        #[trigger] w[j]).id by {
            assert(w[i].id == ow[i].id);
            assert(w[j].id == ow[j].id);
        }
        assert forall|z: u32|
            new_store.contains_key(z) && w.len() > 0 && z >= w[0].id implies seq_has_id(w, z) by {
            assert(old_store.contains_key(z));
            assert(w[0].id == ow[0].id);
            let k = choose|k: int| 0 <= k < ow.len() && (#[trigger] ow[k]).id == z;
            assert(w[k].id == ow[k].id);
        }
        assert forall|i: int| 0 <= i < w.len() implies new_store.contains_key((#[trigger] w[i]).id)
            && new_store[w[i].id] == w[i] by {
            if i == idx {
            } else {
                assert(w[i] == ow[i]);
                assert(ow[i].id != id);
            }
        }
    }

    /// Return a specific post: the window is searched first; on a miss
    /// the authoritative store is point-queried.
    pub fn get_post(&self, conn: &sqlite::Connection, id: u32) -> (r: Option<Post>)
        requires
            self.inv(),
            self.consistent_with(store_posts(*conn)),
        ensures
            seq_has_id(self.window(), id) ==> (r matches Some(p) && p@ == store_posts(*conn)[id]),
            r matches Some(p) ==> store_posts(*conn).contains_key(id) && p@ == store_posts(
                *conn,
            )[id] && p@.id == id,
            !store_posts(*conn).contains_key(id) ==> r is None,
    {
        match self.post_id_to_idx(id) {
            Ok(idx) => Some(self.posts[idx].clone()),
            Err(_) => match db::query_post_by_id(conn, id) {
                Ok(Some(p)) => Some(p),
                _ => None,
            },
        }
    }

    /// The stream's metadata: total count, last update time and the
    /// newest cached id.
    pub fn stream_metadata(&self) -> (r: BriefsResult<StreamMetadata>)
        requires
            self.inv(),
        ensures
            r matches Ok(m) ==> {
                &&& m.posts_count == self.nposts
                &&& m.last_updated == self.last_updated
                &&& m.latest_post_id == if self.window().len() > 0 {
                    Some(self.window().last().id)
                } else {
                    None::<u32>
                }
            },
            r is Ok,
    {
        let latest_post_id = if self.posts.len() > 0 {
            Some(self.posts[self.posts.len() - 1].id)
        } else {
            None
        };
        Ok(
            StreamMetadata {
                posts_count: self.nposts,
                last_updated: self.last_updated,
                latest_post_id,
            },
        )
    }

    /// Return the latest posts since the last fetch: ids from `sid` up
    /// to a page-size bound are served from the window when `sid` falls
    /// inside its range, and from the store otherwise; `caught_up` says
    /// whether the page reaches the newest post the window knows.
    pub fn catchup(&self, conn: &sqlite::Connection, sid: u32, limit: Option<u32>) -> (r:
        BriefsResult<CatchUpResponse>)
        requires
            self.inv(),
            self.consistent_with(store_posts(*conn)),
        ensures
            self.window().len() == 0 ==> (r matches Ok(c) && c.posts@.len() == 0 && c.caught_up),
            self.window().len() > 0 && self.window().last().id < sid ==> (r matches Ok(c)
                && c.posts@.len() == 0 && c.caught_up),
            self.window().len() > 0 && sid <= self.window().last().id ==> {
                let w = self.window();
                let lmt = spec_page_limit(limit);
                let caught = w.last().id <= sid + lmt;
                let eid: u32 = if caught {
                    w.last().id
                } else {
                    (sid + lmt) as u32
                };
                if sid >= w[0].id {
                    &&& (r is Ok <==> seq_has_id(w, sid) && seq_has_id(w, eid))
                    &&& (r matches Ok(c) ==> c.caught_up == caught && (exists|si: int, ei: int|
                        0 <= si <= ei < w.len() && (#[trigger] w[si]).id == sid && (
                        #[trigger] w[ei]).id == eid && views_of(c.posts@) == w.subrange(
                            si,
                            ei + 1,
                        )))
                } else {
                    r matches Ok(c) ==> c.caught_up == caught && page_from_store(
                        views_of(c.posts@),
                        store_posts(*conn),
                        sid,
                        eid,
                        lmt,
                    )
                }
            },
    {
        if self.posts.len() == 0 {
            return Ok(CatchUpResponse { posts: Vec::new(), caught_up: true });
        }
        let last_id = self.posts[self.posts.len() - 1].id;
        if last_id < sid {
            return Ok(CatchUpResponse { posts: Vec::new(), caught_up: true });
        }
        let mut lmt = match limit {
            Some(l) => l,
            None => crate::PAGINATION_DEFAULT,
        };
        if lmt > crate::PAGINATION_LIMIT {
            lmt = crate::PAGINATION_LIMIT;
        }
        let caught_up: bool;
        let eid: u32;
        let sum = sid as u64 + lmt as u64;
        if last_id as u64 <= sum {
            caught_up = true;
            eid = last_id;
        } else {
            caught_up = false;
            eid = sum as u32;
        }
        if self.id_in_cache(sid) {
            let ghost w = self.window();
            let sidx = self.post_id_to_idx(sid)?;
            let eidx = self.post_id_to_idx(eid)?;
            proof {
                if eidx < sidx {
                    assert(w[eidx as int].id < w[sidx as int].id);
                }
            }
            let mut page: Vec<Post> = Vec::new();
            let mut i = sidx;
            while i <= eidx
                invariant
                    self.inv(),
                    w == self.window(),
                    sidx <= i <= eidx + 1,
                    eidx < w.len(),
                    page@.len() == i - sidx,
                    forall|j: int| 0 <= j < page@.len() ==> (#[trigger] page@[j])@ == w[sidx + j],
                decreases eidx + 1 - i,
            {
                page.push(self.posts[i].clone());
                i = i + 1;
            }
            proof {
                assert(views_of(page@) =~= w.subrange(sidx as int, eidx as int + 1));
            }
            return Ok(CatchUpResponse { posts: page, caught_up });
        }
        let rows = db::catchup(conn, sid as u64, eid as u64, lmt + 1)?;
        Ok(CatchUpResponse { posts: rows, caught_up })
    }

    fn decrement_post_count(&mut self) -> (r: BriefsResult<()>)
        ensures
            r is Ok,
            *final(self) == (Stream {
                nposts: if old(self).nposts > 0 {
                    (old(self).nposts - 1) as u64
                } else {
                    0u64
                },
                ..*old(self)
            }),
    {
        self.nposts = if self.nposts > 0 {
            self.nposts - 1
        } else {
            0
        };
        Ok(())
    }
}

} // verus!
