use briefs_core::db;
use briefs_core::db::DbInsertString;
use briefs_core::post::Post;

fn open_store() -> sqlite::Connection {
    let mut conn = db::create_db(":memory:").expect("in-memory db");
    db::setup_tables(&mut conn).expect("tables");
    db::setup_views(&mut conn).expect("views");
    conn
}

#[test]
fn test_generate_random_db_name() {
    for _ in 0..5 {
        let db_name = db::generate_random_db_name();
        assert!(db_name.starts_with("briefs-"));
        assert!(db_name.ends_with(".db"));
        assert!(db_name.len() == 33);
    }
}

#[test]
fn test_insert_into_table() {
    let mut conn = open_store();
    let post = Post::new(
        0,
        "Post #1".into(),
        "Hello there, this is my first post".into(),
    )
    .unwrap();
    db::insert_post(&mut conn, &post).expect("insert");

    let row = db::query_post_by_id(&conn, 0).expect("query").expect("present");
    assert_eq!(row.id().unwrap(), 0);
    assert_eq!(row.title, "Post #1");
    assert_eq!(row.msg, "Hello there, this is my first post");
    assert_eq!(row.date, post.date);
    assert!(!row.edited);
}

#[test]
fn duplicate_id_insert_fails_and_changes_nothing() {
    let mut conn = open_store();
    let post = Post::new(4, "Post".into(), "Body".into()).unwrap();
    db::insert_post(&mut conn, &post).expect("insert");

    let again = Post::new(4, "Other".into(), "Other body".into()).unwrap();
    assert!(matches!(
        db::insert_post(&mut conn, &again),
        Err(briefs_core::BriefsError::SqliteError { .. })
    ));

    let row = db::query_post_by_id(&conn, 4).unwrap().unwrap();
    assert_eq!(row.title, "Post");
}

#[test]
fn titles_with_quotes_survive_the_round_trip() {
    let mut conn = open_store();
    let title = String::from("a \"quoted\" title, with ; and '");
    let post = Post::new(9, title.clone(), "plain body".into()).unwrap();
    db::insert_post(&mut conn, &post).expect("insert");

    let row = db::query_post_by_id(&conn, 9).unwrap().unwrap();
    assert_eq!(row.title, title);
}

#[test]
fn test_delete_from_table() {
    let mut conn = open_store();
    let post = Post::new(
        0,
        "Post #1".into(),
        "Hello there, this is my first post".into(),
    )
    .unwrap();
    db::insert_post(&mut conn, &post).expect("insert");
    assert!(db::query_post_by_id(&conn, 0).unwrap().is_some());

    db::delete_post_by_id(&mut conn, 0).expect("delete");
    assert!(db::query_post_by_id(&conn, 0).unwrap().is_none());

    // Deleting an absent id is an accepted no-op.
    db::delete_post_by_id(&mut conn, 0).expect("idempotent delete");
}

#[test]
fn test_update_post_title() {
    let mut conn = open_store();
    let post = Post::new(
        0,
        "Post #1".into(),
        "Hello there, this is my first post".into(),
    )
    .unwrap();
    db::insert_post(&mut conn, &post).expect("insert");

    let new_title = String::from("Updated Title!");
    db::update_post_title_by_id(&mut conn, 0, new_title.clone()).expect("update");

    let row = db::query_post_by_id(&conn, 0).unwrap().unwrap();
    assert_eq!(row.title, new_title);
    assert_eq!(row.msg, "Hello there, this is my first post");
    assert!(row.edited);
}

#[test]
fn test_update_post_msg() {
    let mut conn = open_store();
    let post = Post::new(
        0,
        "Post #1".into(),
        "Hello there, this is my first post".into(),
    )
    .unwrap();
    db::insert_post(&mut conn, &post).expect("insert");

    let new_msg = String::from("This is a new updated msg. Interesting?");
    db::update_post_msg_by_id(&mut conn, 0, new_msg.clone()).expect("update");

    let row = db::query_post_by_id(&conn, 0).unwrap().unwrap();
    assert_eq!(row.msg, new_msg);
    assert_eq!(row.title, "Post #1");
    assert!(row.edited);
}

#[test]
fn test_posts_count() {
    let mut conn = open_store();
    assert_eq!(db::query_post_count(&conn).unwrap(), 0);

    let post = Post::new(
        0,
        "Post #1".into(),
        "Hello there, this is my first post".into(),
    )
    .unwrap();
    db::insert_post(&mut conn, &post).expect("insert");
    assert_eq!(db::query_post_count(&conn).unwrap(), 1);

    let post = Post::new(
        1,
        "Post #2".into(),
        "Hello there, this is my second post".into(),
    )
    .unwrap();
    db::insert_post(&mut conn, &post).expect("insert");
    assert_eq!(db::query_post_count(&conn).unwrap(), 2);
}

#[test]
fn test_query_cache() {
    let mut conn = open_store();
    let mut posts = Vec::new();

    let post = Post::new(
        0,
        "Post #1".into(),
        "Hello there, this is my first post".into(),
    )
    .unwrap();
    db::insert_post(&mut conn, &post).expect("insert");
    posts.push(post);

    let post = Post::new(
        1,
        "Post #2".into(),
        "Hello there, this is my second post".into(),
    )
    .unwrap();
    db::insert_post(&mut conn, &post).expect("insert");
    posts.push(post);

    let cache_posts = db::query_cache(&conn).unwrap();

    assert_eq!(cache_posts.len(), 2);
    assert_eq!(posts[0].id().unwrap(), cache_posts[1].id().unwrap());
    assert_eq!(posts[0].msg, cache_posts[1].msg);
    assert_eq!(posts[0].title, cache_posts[1].title);
    assert_eq!(posts[0].edited, cache_posts[1].edited);
    assert_eq!(posts[0].date, cache_posts[1].date);

    assert_eq!(posts[1].id().unwrap(), cache_posts[0].id().unwrap());
    assert_eq!(posts[1].msg, cache_posts[0].msg);
    assert_eq!(posts[1].title, cache_posts[0].title);
    assert_eq!(posts[1].edited, cache_posts[0].edited);
    assert_eq!(posts[1].date, cache_posts[0].date);
}

#[test]
fn query_last_n_gives_newest_first() {
    let mut conn = open_store();
    for i in 0..5u32 {
        let post = Post::new(i, format!("Post #{i}"), format!("Body {i}")).unwrap();
        db::insert_post(&mut conn, &post).expect("insert");
    }
    let newest = db::query_last_n(&conn, 3).unwrap();
    let ids: Vec<u32> = newest.iter().map(|p| p.id).collect();
    assert_eq!(ids, vec![4, 3, 2]);
}

#[test]
fn db_catchup_respects_range_and_limit() {
    let mut conn = open_store();
    for i in 0..8u32 {
        let post = Post::new(i, format!("Post #{i}"), format!("Body {i}")).unwrap();
        db::insert_post(&mut conn, &post).expect("insert");
    }
    let rows = db::catchup(&conn, 2, 6, 10).unwrap();
    let ids: Vec<u32> = rows.iter().map(|p| p.id).collect();
    assert_eq!(ids, vec![2, 3, 4, 5, 6]);

    let rows = db::catchup(&conn, 0, 7, 3).unwrap();
    let ids: Vec<u32> = rows.iter().map(|p| p.id).collect();
    assert_eq!(ids, vec![0, 1, 2]);
}

#[test]
fn insert_rejects_dates_beyond_the_integer_range() {
    let mut conn = open_store();
    let post = Post::from_fields(0, "t".into(), "m".into(), u64::MAX, false);
    assert!(matches!(
        db::insert_post(&mut conn, &post),
        Err(briefs_core::BriefsError::SqliteValueParseError)
    ));
    assert_eq!(db::query_post_count(&conn).unwrap(), 0);
}

#[test]
fn db_insert_string_renders_all_fields() {
    let post = Post::from_fields(1, "T".into(), "hello".into(), 42, false);
    assert_eq!(post.db_insert_string().unwrap(), "1,\"T\",\"hello\",42,false");

    let post = Post::from_fields(1230, "a".into(), "b".into(), 7, true);
    assert_eq!(post.db_insert_string().unwrap(), "1230,\"a\",\"b\",7,true");
}
