use briefs_core::db;
use briefs_core::error::BriefsError;
use briefs_core::post::Post;
use briefs_core::stream::Stream;
use briefs_core::utils;
use briefs_core::{handle_command, Command, CommandOutcome};

fn open_store() -> sqlite::Connection {
    let mut conn = db::create_db(":memory:").expect("in-memory db");
    db::setup_tables(&mut conn).expect("tables");
    db::setup_views(&mut conn).expect("views");
    conn
}

fn fresh_stream_with_posts(n: u32) -> (Stream, sqlite::Connection) {
    let mut conn = open_store();
    let mut stream = Stream::default();
    for i in 0..n {
        stream
            .create_post(&mut conn, format!("Post #{i}"), format!("Body of post {i}"))
            .expect("create");
    }
    (stream, conn)
}

fn window_ids(stream: &Stream, conn: &sqlite::Connection, lo: u32, hi: u32) -> Vec<u32> {
    // Read the window through catchup's fast path.
    let page = stream.catchup(conn, lo, Some(hi - lo)).expect("catchup");
    page.posts.iter().map(|p| p.id().unwrap()).collect()
}

#[test]
fn create_assigns_consecutive_ids() {
    let mut conn = open_store();
    let mut stream = Stream::default();
    for i in 0..5u32 {
        let post = stream
            .create_post(&mut conn, format!("Post #{i}"), String::from("body"))
            .expect("create");
        assert_eq!(post.id().unwrap(), i);
    }
    assert_eq!(stream.nposts(), 5);
    assert_eq!(stream.size(), 5);
}

#[test]
fn window_never_exceeds_capacity() {
    let mut conn = open_store();
    let mut stream = Stream::default();
    for i in 0..25u32 {
        stream
            .create_post(&mut conn, format!("Post #{i}"), String::from("body"))
            .expect("create");
        assert!(stream.size() <= 10);
        assert_eq!(stream.size(), std::cmp::min(i as usize + 1, 10));
    }
}

#[test]
fn eviction_keeps_the_newest_ids_ascending() {
    let (stream, conn) = fresh_stream_with_posts(13);
    assert_eq!(stream.size(), 10);
    assert_eq!(stream.nposts(), 13);
    // The window serves exactly ids 3..=12, ascending.
    assert_eq!(window_ids(&stream, &conn, 3, 12), (3..=12).collect::<Vec<u32>>());
}

#[test]
fn concrete_catchup_scenario() {
    let (stream, conn) = fresh_stream_with_posts(12);

    assert_eq!(stream.nposts(), 12);
    assert_eq!(window_ids(&stream, &conn, 2, 11), (2..=11).collect::<Vec<u32>>());
    let meta = stream.stream_metadata().unwrap();
    assert_eq!(meta.posts_count, 12);
    assert_eq!(meta.latest_post_id, Some(11));

    // id 0 is below the window's floor of 2: served from storage. The
    // page runs from the start id through the page-size boundary, both
    // inclusive, as the window path serves them.
    let page = stream.catchup(&conn, 0, Some(5)).expect("catchup");
    assert!(!page.caught_up);
    let ids: Vec<u32> = page.posts.iter().map(|p| p.id().unwrap()).collect();
    assert_eq!(ids, vec![0, 1, 2, 3, 4, 5]);

    // id 7 is within the window range [2, 11]: served from the window.
    let page = stream.catchup(&conn, 7, Some(10)).expect("catchup");
    assert!(page.caught_up);
    let ids: Vec<u32> = page.posts.iter().map(|p| p.id().unwrap()).collect();
    assert_eq!(ids, vec![7, 8, 9, 10, 11]);
}

#[test]
fn catchup_past_the_newest_id_is_empty_and_caught_up() {
    let (stream, conn) = fresh_stream_with_posts(4);
    let page = stream.catchup(&conn, 4, None).expect("catchup");
    assert!(page.caught_up);
    assert!(page.posts.is_empty());

    let empty = Stream::default();
    let page = empty.catchup(&conn, 0, None).expect("catchup");
    assert!(page.caught_up);
    assert!(page.posts.is_empty());
}

#[test]
fn repeated_catchup_terminates() {
    let (stream, conn) = fresh_stream_with_posts(12);
    let mut sid: u32 = 0;
    let mut rounds = 0;
    loop {
        let page = stream.catchup(&conn, sid, None).expect("catchup");
        rounds += 1;
        assert!(rounds <= 13, "pagination did not terminate");
        if page.caught_up {
            break;
        }
        assert!(!page.posts.is_empty());
        let next = page.posts.iter().map(|p| p.id().unwrap()).max().unwrap() + 1;
        assert!(next > sid);
        sid = next;
    }
}

#[test]
fn get_post_serves_window_and_storage() {
    let (stream, conn) = fresh_stream_with_posts(12);

    // id 11 sits in the window.
    let post = stream.get_post(&conn, 11).expect("present");
    assert_eq!(post.id().unwrap(), 11);
    assert_eq!(post.title, "Post #11");

    // id 0 aged out of the window: storage must answer.
    let post = stream.get_post(&conn, 0).expect("present");
    assert_eq!(post.id().unwrap(), 0);
    assert_eq!(post.title, "Post #0");
    assert_eq!(post.msg, "Body of post 0");

    assert!(stream.get_post(&conn, 99).is_none());
}

#[test]
fn delete_outside_window_keeps_the_window() {
    let (mut stream, mut conn) = fresh_stream_with_posts(12);
    assert_eq!(stream.size(), 10);

    // id 0 lies below the window's floor of 2.
    stream.remove_post(&mut conn, 0).expect("remove");
    assert_eq!(stream.nposts(), 11);
    assert_eq!(stream.size(), 10);
    assert_eq!(window_ids(&stream, &conn, 2, 11), (2..=11).collect::<Vec<u32>>());
    assert!(stream.get_post(&conn, 0).is_none());
}

#[test]
fn delete_inside_window_evicts_the_copy() {
    let (mut stream, mut conn) = fresh_stream_with_posts(5);
    stream.remove_post(&mut conn, 3).expect("remove");
    assert_eq!(stream.nposts(), 4);
    assert_eq!(stream.size(), 4);
    assert!(stream.get_post(&conn, 3).is_none());
    let page = stream.catchup(&conn, 0, None).expect("catchup");
    let ids: Vec<u32> = page.posts.iter().map(|p| p.id().unwrap()).collect();
    assert_eq!(ids, vec![0, 1, 2, 4]);
}

#[test]
fn delete_of_unknown_id_in_range_reports_invalid_id() {
    let (mut stream, mut conn) = fresh_stream_with_posts(5);
    stream.remove_post(&mut conn, 2).expect("remove");
    // id 2 is still within the window's range but no longer exists.
    assert!(matches!(stream.remove_post(&mut conn, 2), Err(BriefsError::InvalidId {})));
}

#[test]
fn updates_reach_window_and_storage() {
    let (mut stream, mut conn) = fresh_stream_with_posts(12);

    // Inside the window.
    stream
        .update_msg(&mut conn, 11, String::from("fresh body"))
        .expect("update");
    let post = stream.get_post(&conn, 11).unwrap();
    assert_eq!(post.msg, "fresh body");
    assert!(post.edited);
    let row = db::query_post_by_id(&conn, 11).unwrap().unwrap();
    assert_eq!(row.msg, "fresh body");
    assert!(row.edited);

    // Below the window's floor: only storage holds the copy.
    stream
        .update_title(&mut conn, 0, String::from("renamed"))
        .expect("update");
    let row = db::query_post_by_id(&conn, 0).unwrap().unwrap();
    assert_eq!(row.title, "renamed");
    assert!(row.edited);

    // Validation rejects before anything is written.
    assert!(matches!(
        stream.update_msg(&mut conn, 11, String::new()),
        Err(BriefsError::EmptyPost)
    ));
    let row = db::query_post_by_id(&conn, 11).unwrap().unwrap();
    assert_eq!(row.msg, "fresh body");
}

#[test]
fn assemble_restores_window_and_count() {
    let (stream, conn) = fresh_stream_with_posts(12);
    let restored = Stream::assemble(&conn, stream.last_updated(), stream.date_of_inception())
        .expect("assemble");
    assert_eq!(restored.nposts(), 12);
    assert_eq!(restored.size(), 10);
    assert_eq!(restored.last_updated(), stream.last_updated());
    assert_eq!(restored.date_of_inception(), stream.date_of_inception());
    assert_eq!(window_ids(&restored, &conn, 2, 11), (2..=11).collect::<Vec<u32>>());
}

#[test]
fn refresh_cache_rebuilds_from_storage() {
    let (mut stream, mut conn) = fresh_stream_with_posts(12);
    // Change storage behind the window's back, then refresh.
    db::update_post_msg_by_id(&mut conn, 11, String::from("behind the back")).expect("update");
    stream.refresh_cache(&conn).expect("refresh");
    let post = stream.get_post(&conn, 11).unwrap();
    assert_eq!(post.msg, "behind the back");
    assert_eq!(stream.size(), 10);
}

#[test]
fn snapshot_bytes_round_trip() {
    let bytes = utils::stream_snapshot_bytes(0x0102030405060708, 1);
    assert_eq!(bytes, vec![1, 2, 3, 4, 5, 6, 7, 8, 0, 0, 0, 0, 0, 0, 0, 1]);

    let (lu, doi) = utils::parse_stream_snapshot(&bytes).expect("parse");
    assert_eq!(lu, 0x0102030405060708);
    assert_eq!(doi, 1);

    assert!(utils::parse_stream_snapshot(&vec![0u8; 15]).is_err());
    assert!(utils::parse_stream_snapshot(&Vec::new()).is_err());
}

#[test]
fn commands_dispatch_to_the_engine() {
    let mut conn = open_store();
    let mut stream = Stream::default();

    let outcome = handle_command(
        &mut stream,
        &mut conn,
        Command::Create { title: String::from("First"), msg: String::from("hello") },
    )
    .expect("create");
    match outcome {
        CommandOutcome::Created(p) => assert_eq!(p.id().unwrap(), 0),
        other => panic!("expected a created post, got {:?}", other),
    }

    let outcome =
        handle_command(&mut stream, &mut conn, Command::Get { id: 0 }).expect("get");
    match outcome {
        CommandOutcome::Single(p) => assert_eq!(p.title, "First"),
        other => panic!("expected one post, got {:?}", other),
    }

    let outcome = handle_command(&mut stream, &mut conn, Command::Metadata {}).expect("meta");
    match outcome {
        CommandOutcome::Meta(m) => {
            assert_eq!(m.posts_count, 1);
            assert_eq!(m.latest_post_id, Some(0));
        }
        other => panic!("expected metadata, got {:?}", other),
    }

    let outcome = handle_command(
        &mut stream,
        &mut conn,
        Command::UpdateMsg { id: 0, msg: String::from("revised") },
    )
    .expect("update");
    assert!(matches!(outcome, CommandOutcome::Done(_)));

    let outcome = handle_command(&mut stream, &mut conn, Command::Catchup { last_fetch_id: 0 })
        .expect("catchup");
    match outcome {
        CommandOutcome::Page(page) => {
            assert!(page.caught_up);
            assert_eq!(page.posts.len(), 1);
            assert_eq!(page.posts[0].msg, "revised");
        }
        other => panic!("expected a page, got {:?}", other),
    }

    let outcome =
        handle_command(&mut stream, &mut conn, Command::Delete { id: 0 }).expect("delete");
    assert!(matches!(outcome, CommandOutcome::Done(_)));
    assert!(matches!(
        handle_command(&mut stream, &mut conn, Command::Get { id: 0 }),
        Err(BriefsError::InvalidId {})
    ));
}

#[test]
fn texts_with_nul_are_refused_before_storage() {
    let mut conn = open_store();
    let mut stream = Stream::default();
    assert!(matches!(
        stream.create_post(&mut conn, String::from("a\0b"), String::from("body")),
        Err(BriefsError::CustomError { .. })
    ));
    assert_eq!(db::query_post_count(&conn).unwrap(), 0);

    stream
        .create_post(&mut conn, String::from("title"), String::from("body"))
        .expect("create");
    assert!(matches!(
        stream.update_msg(&mut conn, 0, String::from("x\0y")),
        Err(BriefsError::CustomError { .. })
    ));
    let row = db::query_post_by_id(&conn, 0).unwrap().unwrap();
    assert_eq!(row.msg, "body");
}

#[test]
fn create_rejects_invalid_posts_without_storing() {
    let mut conn = open_store();
    let mut stream = Stream::default();
    assert!(matches!(
        stream.create_post(&mut conn, String::new(), String::from("body")),
        Err(BriefsError::EmptyTitle)
    ));
    assert!(matches!(
        stream.create_post(&mut conn, String::from("t"), String::new()),
        Err(BriefsError::EmptyPost)
    ));
    assert_eq!(stream.nposts(), 0);
    assert_eq!(db::query_post_count(&conn).unwrap(), 0);
}

#[test]
fn add_post_refuses_stale_ids() {
    let mut conn = open_store();
    let mut stream = Stream::default();
    for i in 0..3u32 {
        stream
            .create_post(&mut conn, format!("Post #{i}"), String::from("body"))
            .expect("create");
    }
    let stale = Post::new(1, String::from("stale"), String::from("body")).unwrap();
    assert!(matches!(
        stream.add_post(&mut conn, stale),
        Err(BriefsError::CustomError { .. })
    ));
    assert_eq!(stream.nposts(), 3);
}

#[test]
fn post_id_to_idx_finds_each_window_post() {
    let (stream, _conn) = fresh_stream_with_posts(12);
    // Window ids are 2..=11 at indices 0..=9.
    for (idx, id) in (2u32..=11).enumerate() {
        assert_eq!(stream.post_id_to_idx(id).unwrap(), idx);
    }
    assert!(matches!(stream.post_id_to_idx(1), Err(BriefsError::InvalidId {})));
    assert!(matches!(stream.post_id_to_idx(12), Err(BriefsError::InvalidId {})));
}
