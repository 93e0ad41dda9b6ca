//! Row store adapter: translates posts to and from rows of a durable
//! sqlite table, behind trusted wrappers whose contracts speak about
//! `store_posts`, the mathematical contents of the table.
//!
//! The table is `posts (id INTEGER PRIMARY KEY, title TEXT NOT NULL,
//! msg TEXT NOT NULL, date INTEGER NOT NULL, edited BOOLEAN)`. The
//! contracts model the rows whose `id` fits a `u32`, which is every row
//! this adapter ever writes. They assume the `posts` table has this
//! schema — `setup_tables` creates it, and the uniqueness claims lean on
//! the PRIMARY KEY — so a pre-existing database whose `posts` table was
//! made differently lies outside the model.

use vstd::prelude::*;
use vstd::string::StringExecFns;

use crate::error::{BriefsError, BriefsResult};
use crate::post::{spec_text_storable, Post, PostView};
use crate::STREAM_CACHE_SIZE;

verus! {

#[verifier::external_type_specification]
#[verifier::external_body]
pub struct ExConnection(sqlite::Connection);

#[verifier::external_type_specification]
#[verifier::external_body]
pub struct ExSqliteError(sqlite::Error);

#[verifier::external_type_specification]
#[verifier::external_body]
pub struct ExStatement<'l>(sqlite::Statement<'l>);

/// The posts table behind a connection, as a map from post id to the
/// post held in that row. Every wrapper below states its effect on, or
/// its reading of, this map.
pub uninterp spec fn store_posts(conn: sqlite::Connection) -> Map<u32, PostView>;

/// Every post of `s` is a row of `store`, unchanged.
pub open spec fn rows_match_store(s: Seq<PostView>, store: Map<u32, PostView>) -> bool {
    forall|i: int|
        0 <= i < s.len() ==> {
            &&& store.contains_key((#[trigger] s[i]).id)
            &&& store[s[i].id] == s[i]
        }
}

/// The ids of `s` strictly increase from front to back.
pub open spec fn ids_strictly_asc(s: Seq<PostView>) -> bool {
    forall|i: int, j: int| 0 <= i < j < s.len() ==> (#[trigger] s[i]).id < (#[trigger] s[j]).id
}

/// The ids of `s` strictly decrease from front to back.
pub open spec fn ids_strictly_desc(s: Seq<PostView>) -> bool {
    forall|i: int, j: int| 0 <= i < j < s.len() ==> (#[trigger] s[i]).id > (#[trigger] s[j]).id
}

/// Some post of `s` carries the id `id`.
pub open spec fn seq_has_id(s: Seq<PostView>, id: u32) -> bool {
    exists|i: int| 0 <= i < s.len() && (#[trigger] s[i]).id == id
}

/// The views of a sequence of posts.
pub open spec fn views_of(s: Seq<Post>) -> Seq<PostView> {
    s.map_values(|p: Post| p@)
}

/// Relies on sqlite::Error's Display impl for the stored message.
#[verifier::external_body]
fn sql_err(e: sqlite::Error) -> (r: BriefsError)
    ensures
        r matches BriefsError::SqliteError { .. },
{
    BriefsError::SqliteError { msg: e.to_string() }
}

/// Relies on sqlite::Statement::read: the typed column values of the
/// row the statement currently stands on, in the column order of the
/// posts table.
#[verifier::external_body]
fn read_post_row(stmt: &sqlite::Statement) -> (r: BriefsResult<Post>)
{
    let id = stmt.read::<i64, _>(0).map_err(sql_err)?;
    let title = stmt.read::<String, _>(1).map_err(sql_err)?;
    let msg = stmt.read::<String, _>(2).map_err(sql_err)?;
    let date = stmt.read::<i64, _>(3).map_err(sql_err)?;
    let edited = stmt.read::<i64, _>(4).map_err(sql_err)?;
    match (u32::try_from(id), u64::try_from(date)) {
        (Ok(id), Ok(date)) => Ok(Post { id, title, msg, date, edited: edited != 0 }),
        _ => Err(BriefsError::SqliteValueParseError),
    }
}

/// Relies on sqlite::open: a read-write connection to a new or existing
/// database file. Nothing is known of the rows the file already holds.
#[verifier::external_body]
pub fn create_db(path: &str) -> (r: BriefsResult<sqlite::Connection>)
{
    sqlite::open(path).map_err(sql_err)
}

/// Relies on sqlite::Connection::execute running `CREATE TABLE IF NOT
/// EXISTS`, which never touches existing rows.
#[verifier::external_body]
pub fn setup_tables(conn: &mut sqlite::Connection) -> (r: BriefsResult<()>)
    ensures
        store_posts(*final(conn)) == store_posts(*old(conn)),
{
    let statement = "
        CREATE TABLE IF NOT EXISTS posts
        (id INTEGER PRIMARY KEY,
        title TEXT NOT NULL,
        msg TEXT NOT NULL,
        date INTEGER NOT NULL,
        edited BOOLEAN);
    ";
    conn.execute(statement).map_err(sql_err)
}

/// Relies on sqlite::Connection::execute running `CREATE VIEW IF NOT
/// EXISTS`, which never touches rows.
#[verifier::external_body]
pub fn setup_views(conn: &mut sqlite::Connection) -> (r: BriefsResult<()>)
    ensures
        store_posts(*final(conn)) == store_posts(*old(conn)),
{
    let statement = format!(
        "CREATE VIEW IF NOT EXISTS cache AS \
         SELECT * FROM posts ORDER BY id DESC LIMIT {}; \
         CREATE VIEW IF NOT EXISTS post_count AS \
         SELECT COUNT(*) AS count FROM posts;",
        STREAM_CACHE_SIZE,
    );
    conn.execute(statement).map_err(sql_err)
}

/// Relies on sqlite's INSERT: on success the row is added, and the
/// PRIMARY KEY on `id` means success only when no row had that id; a
/// failed statement leaves the table as it was. Texts must be free of
/// NUL characters: the store would keep them but hand them back
/// truncated at the NUL.
#[verifier::external_body]
pub fn insert_post(conn: &mut sqlite::Connection, data: &Post) -> (r: BriefsResult<()>)
    requires
        spec_text_storable(data.title@),
        spec_text_storable(data.msg@),
    ensures
        r is Ok ==> !store_posts(*old(conn)).contains_key(data.id) && store_posts(*final(conn))
            == store_posts(*old(conn)).insert(data.id, data@),
        r is Err ==> store_posts(*final(conn)) == store_posts(*old(conn)),
        r matches Err(e) ==> (e matches BriefsError::SqliteError { .. } || e matches
            BriefsError::SqliteValueParseError),
{
    let date = match i64::try_from(data.date) {
        Ok(d) => d,
        _ => return Err(BriefsError::SqliteValueParseError),
    };
    let mut stmt = conn.prepare("INSERT INTO posts VALUES (?, ?, ?, ?, ?)").map_err(sql_err)?;
    stmt.bind((1, data.id as i64)).map_err(sql_err)?;
    stmt.bind((2, data.title.as_str())).map_err(sql_err)?;
    stmt.bind((3, data.msg.as_str())).map_err(sql_err)?;
    stmt.bind((4, date)).map_err(sql_err)?;
    stmt.bind((5, if data.edited { 1i64 } else { 0i64 })).map_err(sql_err)?;
    match stmt.next() {
        Ok(_) => Ok(()),
        Err(e) => Err(sql_err(e)),
    }
}

/// Relies on sqlite's DELETE by primary key: on success the row with
/// that id is gone (deleting an absent id succeeds and changes nothing);
/// a failed statement leaves the table as it was.
#[verifier::external_body]
pub fn delete_post_by_id(conn: &mut sqlite::Connection, post_id: u32) -> (r: BriefsResult<()>)
    ensures
        r is Ok ==> store_posts(*final(conn)) == store_posts(*old(conn)).remove(post_id),
        r is Err ==> store_posts(*final(conn)) == store_posts(*old(conn)),
        r matches Err(e) ==> e matches BriefsError::SqliteError { .. },
{
    let mut stmt = conn.prepare("DELETE FROM posts WHERE id = ?").map_err(sql_err)?;
    stmt.bind((1, post_id as i64)).map_err(sql_err)?;
    match stmt.next() {
        Ok(_) => Ok(()),
        Err(e) => Err(sql_err(e)),
    }
}

/// Relies on sqlite's UPDATE by primary key: on success the row with
/// that id, if any, carries the new title and is marked edited; a
/// failed statement leaves the table as it was. The text must be free of
/// NUL characters, which could not survive a read back.
#[verifier::external_body]
pub fn update_post_title_by_id(conn: &mut sqlite::Connection, post_id: u32, title: String) -> (r:
    BriefsResult<()>)
    requires
        spec_text_storable(title@),
    ensures
        r is Ok ==> store_posts(*final(conn)) == if store_posts(*old(conn)).contains_key(post_id) {
            store_posts(*old(conn)).insert(
                post_id,
                PostView { title: title@, edited: true, ..store_posts(*old(conn))[post_id] },
            )
        } else {
            store_posts(*old(conn))
        },
        r is Err ==> store_posts(*final(conn)) == store_posts(*old(conn)),
        r matches Err(e) ==> e matches BriefsError::SqliteError { .. },
{
    let mut stmt = conn.prepare("UPDATE posts SET title = ?, edited = 1 WHERE id = ?").map_err(
        sql_err,
    )?;
    stmt.bind((1, title.as_str())).map_err(sql_err)?;
    stmt.bind((2, post_id as i64)).map_err(sql_err)?;
    match stmt.next() {
        Ok(_) => Ok(()),
        Err(e) => Err(sql_err(e)),
    }
}

/// Relies on sqlite's UPDATE by primary key: on success the row with
/// that id, if any, carries the new message and is marked edited; a
/// failed statement leaves the table as it was. The text must be free of
/// NUL characters, which could not survive a read back.
#[verifier::external_body]
pub fn update_post_msg_by_id(conn: &mut sqlite::Connection, post_id: u32, msg: String) -> (r:
    BriefsResult<()>)
    requires
        spec_text_storable(msg@),
    ensures
        r is Ok ==> store_posts(*final(conn)) == if store_posts(*old(conn)).contains_key(post_id) {
            store_posts(*old(conn)).insert(
                post_id,
                PostView { msg: msg@, edited: true, ..store_posts(*old(conn))[post_id] },
            )
        } else {
            store_posts(*old(conn))
        },
        r is Err ==> store_posts(*final(conn)) == store_posts(*old(conn)),
        r matches Err(e) ==> e matches BriefsError::SqliteError { .. },
{
    let mut stmt = conn.prepare("UPDATE posts SET msg = ?, edited = 1 WHERE id = ?").map_err(
        sql_err,
    )?;
    stmt.bind((1, msg.as_str())).map_err(sql_err)?;
    stmt.bind((2, post_id as i64)).map_err(sql_err)?;
    match stmt.next() {
        Ok(_) => Ok(()),
        Err(e) => Err(sql_err(e)),
    }
}

/// Relies on sqlite's SELECT by primary key: the row with that id,
/// exactly as the table holds it, or nothing when no row has the id.
#[verifier::external_body]
pub fn query_post_by_id(conn: &sqlite::Connection, post_id: u32) -> (r: BriefsResult<Option<Post>>)
    ensures
        r matches Ok(Some(p)) ==> store_posts(*conn).contains_key(post_id) && p@ == store_posts(
            *conn,
        )[post_id] && p@.id == post_id,
        r matches Ok(None) ==> !store_posts(*conn).contains_key(post_id),
{
    let q = "SELECT id, title, msg, date, edited FROM posts WHERE id = ?";
    let mut stmt = conn.prepare(q).map_err(sql_err)?;
    stmt.bind((1, post_id as i64)).map_err(sql_err)?;
    match stmt.next().map_err(sql_err)? {
        sqlite::State::Row => {
            let post = read_post_row(&stmt)?;
            match stmt.next().map_err(sql_err)? {
                sqlite::State::Done => Ok(Some(post)),
                sqlite::State::Row => Err(
                    BriefsError::custom_error("broken store: several rows share one id".to_string()),
                ),
            }
        },
        sqlite::State::Done => Ok(None),
    }
}

/// Relies on sqlite's COUNT(*): the number of rows of the posts table
/// that this adapter can hold — id in the 32-bit unsigned range, both
/// texts present, date in the signed 64-bit range, which is every row
/// the adapter writes — and which in particular says the table is
/// finite.
#[verifier::external_body]
pub fn query_post_count(conn: &sqlite::Connection) -> (r: BriefsResult<u64>)
    ensures
        r matches Ok(n) ==> store_posts(*conn).dom().finite() && n == store_posts(
            *conn,
        ).dom().len(),
{
    let q = "SELECT COUNT(*) FROM posts WHERE id BETWEEN 0 AND 4294967295 \
             AND title IS NOT NULL AND msg IS NOT NULL \
             AND date BETWEEN 0 AND 9223372036854775807";
    let mut stmt = conn.prepare(q).map_err(sql_err)?;
    match stmt.next().map_err(sql_err)? {
        sqlite::State::Row => match u64::try_from(stmt.read::<i64, _>(0).map_err(sql_err)?) {
            Ok(n) => Ok(n),
            _ => Err(BriefsError::SqliteValueParseError),
        },
        sqlite::State::Done => Err(BriefsError::SqliteValueParseError),
    }
}

/// Relies on sqlite's ORDER BY id DESC LIMIT n: the rows with the `n`
/// largest ids, newest first; when fewer rows exist, all of them.
#[verifier::external_body]
pub fn query_last_n(conn: &sqlite::Connection, n: u32) -> (r: BriefsResult<Vec<Post>>)
    ensures
        r matches Ok(v) ==> {
            &&& rows_match_store(views_of(v@), store_posts(*conn))
            &&& ids_strictly_desc(views_of(v@))
            &&& v@.len() <= n
            &&& forall|id: u32|
                store_posts(*conn).dom().contains(id) ==> seq_has_id(views_of(v@), id) || (v@.len()
                    == n && (v@.len() == 0 || id < views_of(v@).last().id))
        },
{
    let q = "SELECT id, title, msg, date, edited FROM posts \
             WHERE id BETWEEN 0 AND 4294967295 ORDER BY id DESC LIMIT ?";
    let mut stmt = conn.prepare(q).map_err(sql_err)?;
    stmt.bind((1, n as i64)).map_err(sql_err)?;
    let mut result = Vec::new();
    loop {
        match stmt.next().map_err(sql_err)? {
            sqlite::State::Row => result.push(read_post_row(&stmt)?),
            sqlite::State::Done => return Ok(result),
        }
    }
}

/// The newest rows the in-memory window is rebuilt from: the
/// `STREAM_CACHE_SIZE` posts with the largest ids, newest first.
pub fn query_cache(conn: &sqlite::Connection) -> (r: BriefsResult<Vec<Post>>)
    ensures
        r matches Ok(v) ==> {
            &&& rows_match_store(views_of(v@), store_posts(*conn))
            &&& ids_strictly_desc(views_of(v@))
            &&& v@.len() <= STREAM_CACHE_SIZE
            &&& forall|id: u32|
                store_posts(*conn).dom().contains(id) ==> seq_has_id(views_of(v@), id) || (v@.len()
                    == STREAM_CACHE_SIZE && (v@.len() == 0 || id < views_of(v@).last().id))
        },
{
    query_last_n(conn, STREAM_CACHE_SIZE as u32)
}

/// Relies on sqlite's SELECT over an id range, ordered by id, with
/// LIMIT: rows of the table with ids between `sid` and `eid`, ascending,
/// at most `limit` of them; a matching row is only left out when the
/// page is full, so a range no wider than the limit comes back whole.
#[verifier::external_body]
pub fn catchup(conn: &sqlite::Connection, sid: u64, eid: u64, limit: u32) -> (r: BriefsResult<
    Vec<Post>,
>)
    ensures
        r matches Ok(v) ==> {
            &&& rows_match_store(views_of(v@), store_posts(*conn))
            &&& ids_strictly_asc(views_of(v@))
            &&& v@.len() <= limit
            &&& forall|i: int|
                0 <= i < v@.len() ==> sid <= (#[trigger] views_of(v@)[i]).id <= eid
            &&& forall|id: u32|
                store_posts(*conn).dom().contains(id) && sid <= id <= eid ==> seq_has_id(
                    views_of(v@),
                    id,
                ) || v@.len() == limit
            &&& sid + limit > eid ==> forall|id: u32|
                store_posts(*conn).dom().contains(id) && sid <= id <= eid ==> seq_has_id(
                    views_of(v@),
                    id,
                )
        },
{
    let q = "SELECT id, title, msg, date, edited FROM posts \
             WHERE id >= ? AND id <= ? ORDER BY id LIMIT ?";
    let mut stmt = conn.prepare(q).map_err(sql_err)?;
    stmt.bind((1, i64::try_from(sid).unwrap_or(i64::MAX))).map_err(sql_err)?;
    stmt.bind((2, i64::try_from(eid).unwrap_or(i64::MAX))).map_err(sql_err)?;
    stmt.bind((3, limit as i64)).map_err(sql_err)?;
    let mut result = Vec::new();
    loop {
        match stmt.next().map_err(sql_err)? {
            sqlite::State::Row => result.push(read_post_row(&stmt)?),
            sqlite::State::Done => return Ok(result),
        }
    }
}

pub assume_specification<T>[ rand::random::<T> ]() -> (r: T)
    where
        rand::distributions::Standard: rand::distributions::Distribution<T>,
;

/// The decimal digits of `v`, zero-padded to five places.
pub open spec fn pad5_spec(v: u16) -> Seq<char> {
    seq![
        digit_char(v as int / 10000),
        digit_char((v as int / 1000) % 10),
        digit_char((v as int / 100) % 10),
        digit_char((v as int / 10) % 10),
        digit_char(v as int % 10),
    ]
}

/// The character for one decimal digit.
pub open spec fn digit_char(d: int) -> char {
    (('0' as u8) + d) as char
}

/// Format `v` as exactly five decimal digits, zero-padded.
fn pad5(v: u16) -> (s: String)
    ensures
        s@ == pad5_spec(v),
        s@.len() == 5,
{
    let mut s = String::new();
    push_digit(&mut s, (v / 10000) as u64);
    push_digit(&mut s, ((v / 1000) % 10) as u64);
    push_digit(&mut s, ((v / 100) % 10) as u64);
    push_digit(&mut s, ((v / 10) % 10) as u64);
    push_digit(&mut s, (v % 10) as u64);
    assert(s@ =~= pad5_spec(v));
    s
}

/// Append the character for one decimal digit.
fn push_digit(s: &mut String, d: u64)
    requires
        d < 10,
    ensures
        final(s)@ == old(s)@.push(digit_char(d as int)),
{
    proof {
        reveal_strlit("0");
        reveal_strlit("1");
        reveal_strlit("2");
        reveal_strlit("3");
        reveal_strlit("4");
        reveal_strlit("5");
        reveal_strlit("6");
        reveal_strlit("7");
        reveal_strlit("8");
        reveal_strlit("9");
    }
    let c: &str = match d {
        0 => "0",
        1 => "1",
        2 => "2",
        3 => "3",
        4 => "4",
        5 => "5",
        6 => "6",
        7 => "7",
        8 => "8",
        _ => "9",
    };
    s.append(c);
    assert(s@ =~= old(s)@.push(digit_char(d as int)));
}

/// The decimal digits of `n`, most significant first, no leading zeros.
pub open spec fn spec_dec(n: nat) -> Seq<char>
    decreases n,
{
    if n < 10 {
        seq![digit_char(n as int)]
    } else {
        spec_dec(n / 10) + seq![digit_char((n % 10) as int)]
    }
}

/// Format `n` in decimal.
fn u64_dec(n: u64) -> (s: String)
    ensures
        s@ == spec_dec(n as nat),
    decreases n,
{
    if n < 10 {
        let mut s = String::new();
        push_digit(&mut s, n);
        assert(s@ =~= spec_dec(n as nat));
        s
    } else {
        let mut s = u64_dec(n / 10);
        push_digit(&mut s, n % 10);
        assert(s@ =~= spec_dec(n as nat));
        s
    }
}

/// Converting the underlying data into the row store's insert syntax.
pub trait DbInsertString {
    fn db_insert_string(&self) -> BriefsResult<String>;
}

/// The insert-values rendering of a post: id, quoted title, quoted
/// message, date, and the edited flag, comma-separated.
pub open spec fn spec_db_insert_string(p: PostView) -> Seq<char> {
    spec_dec(p.id as nat) + ",\""@ + p.title + "\",\""@ + p.msg + "\","@ + spec_dec(p.date as nat)
        + ","@ + (if p.edited {
        "true"@
    } else {
        "false"@
    })
}

impl DbInsertString for Post {
    fn db_insert_string(&self) -> (r: BriefsResult<String>)
        ensures
            r matches Ok(s) && s@ == spec_db_insert_string(self@),
    {
        let mut s = u64_dec(self.id as u64);
        s.append(",\"");
        s.append(self.title.as_str());
        s.append("\",\"");
        s.append(self.msg.as_str());
        s.append("\",");
        let date = u64_dec(self.date);
        s.append(date.as_str());
        s.append(",");
        s.append(if self.edited {
            "true"
        } else {
            "false"
        });
        Ok(s)
    }
}

/// The shape of a generated db name: the prefix, four zero-padded
/// five-digit decimal fields joined by dashes, and the suffix.
pub open spec fn db_name_shape(s: Seq<char>, a: u16, b: u16, c: u16, d: u16) -> bool {
    s == "briefs-"@ + pad5_spec(a) + "-"@ + pad5_spec(b) + "-"@ + pad5_spec(c) + "-"@ + pad5_spec(
        d,
    ) + ".db"@
}

/// Generates a random db name with four fields of five padded decimal
/// digits each, as `briefs-xxxxx-xxxxx-xxxxx-xxxxx.db`.
pub fn generate_random_db_name() -> (r: String)
    ensures
        exists|a: u16, b: u16, c: u16, d: u16| #[trigger] db_name_shape(r@, a, b, c, d),
        r@.len() == 33,
        r@.subrange(0, 7) == "briefs-"@,
        r@.subrange(30, 33) == ".db"@,
{
    proof {
        reveal_strlit("briefs-");
        reveal_strlit("-");
        reveal_strlit(".db");
    }
    let f1 = rand::random::<u16>();
    let f2 = rand::random::<u16>();
    let f3 = rand::random::<u16>();
    let f4 = rand::random::<u16>();
    let mut s = "briefs-".to_owned();
    s.append(pad5(f1).as_str());
    s.append("-");
    s.append(pad5(f2).as_str());
    s.append("-");
    s.append(pad5(f3).as_str());
    s.append("-");
    s.append(pad5(f4).as_str());
    s.append(".db");
    proof {
        assert(db_name_shape(s@, f1, f2, f3, f4));
        assert(s@.subrange(0, 7) =~= "briefs-"@);
        assert(s@.subrange(30, 33) =~= ".db"@);
    }
    s
}

} // verus!
