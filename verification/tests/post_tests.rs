use briefs_core::error::BriefsError;
use briefs_core::post::Post;

#[test]
fn post_formatting_using_display() {
    let post = Post::new(
        0,
        String::from("First Post"),
        String::from("This is a demo post with emojis to test formatting 😃😃"),
    )
    .unwrap();
    println!("{}", post.render());

    let post = Post::new(
        0,
        String::from("First Post"),
        String::from("This is a demo post with emojis to test ►→℞+ formatting 😃😃"),
    )
    .unwrap();
    println!("{}", post.render());
}

#[test]
fn render_matches_wrapped_layout() {
    let title = String::from("Greeting");
    let msg = String::from(
        "A reasonably long message that goes past fifty characters so that wrapping must happen.",
    );
    let post = Post::new(3, title.clone(), msg.clone()).unwrap();
    let rendered = post.render();

    let mut expected = String::new();
    expected.push_str(&"-".repeat(54));
    expected.push('\n');
    expected.push_str(&format!("\\ {:^50} /\n/ {:50} \\\n", title, ""));
    let text = format!("{}\n", msg);
    let options = textwrap::Options::new(50).break_words(true);
    for (i, line) in textwrap::wrap(&text, options).iter().enumerate() {
        let (left, right) = if i % 2 == 0 { ("\\ ", " /") } else { ("/ ", " \\") };
        let width = textwrap::core::display_width(line);
        let pad = if width <= 50 { 50 - width } else { 0 };
        expected.push_str(&format!("{left}{line}{}{right}\n", " ".repeat(pad)));
    }
    expected.push_str(&"-".repeat(54));

    assert_eq!(rendered, expected);
}

#[test]
fn title_of_exactly_max_len_is_accepted() {
    let title = "t".repeat(100);
    let msg = String::from("body");
    let post = Post::new(7, title.clone(), msg).unwrap();
    assert_eq!(post.title, title);
    assert_eq!(post.id().unwrap(), 7);
    assert!(!post.edited);
}

#[test]
fn title_one_over_max_len_is_rejected() {
    let title = "t".repeat(101);
    let result = Post::new(7, title, String::from("body"));
    match result {
        Err(BriefsError::InvalidTitleLength { max_size, curr_size }) => {
            assert_eq!(max_size, 100);
            assert_eq!(curr_size, 101);
        }
        other => panic!("expected a title length error, got {:?}", other),
    }
}

#[test]
fn empty_title_and_empty_msg_are_rejected() {
    assert!(matches!(
        Post::new(0, String::new(), String::from("body")),
        Err(BriefsError::EmptyTitle)
    ));
    assert!(matches!(
        Post::new(0, String::from("title"), String::new()),
        Err(BriefsError::EmptyPost)
    ));
}

#[test]
fn texts_with_nul_are_rejected() {
    let title = String::from("a\0b");
    assert!(matches!(
        Post::new(0, title, String::from("body")),
        Err(BriefsError::CustomError { .. })
    ));
    let mut post = Post::new(0, String::from("title"), String::from("body")).unwrap();
    assert!(matches!(
        post.update_msg(String::from("x\0y")),
        Err(BriefsError::CustomError { .. })
    ));
    assert_eq!(post.msg, "body");
    assert!(matches!(
        post.update_title(String::from("x\0y")),
        Err(BriefsError::CustomError { .. })
    ));
    assert_eq!(post.title, "title");
}

#[test]
fn msg_over_max_len_is_rejected() {
    let msg = "m".repeat(301);
    match Post::new(0, String::from("title"), msg) {
        Err(BriefsError::InvalidPostLength { max_size, curr_size }) => {
            assert_eq!(max_size, 300);
            assert_eq!(curr_size, 301);
        }
        other => panic!("expected a post length error, got {:?}", other),
    }
}

#[test]
fn title_length_counts_characters_not_bytes() {
    // 100 two-byte characters: fine as characters, too long as bytes.
    let title = "é".repeat(100);
    assert!(Post::new(0, title, String::from("body")).is_ok());
}

#[test]
fn updates_set_edited_and_validate() {
    let mut post = Post::new(1, String::from("title"), String::from("body")).unwrap();
    post.update_msg(String::from("new body")).unwrap();
    assert_eq!(post.msg, "new body");
    assert!(post.edited);

    post.update_title(String::from("new title")).unwrap();
    assert_eq!(post.title, "new title");

    assert!(matches!(post.update_msg(String::new()), Err(BriefsError::EmptyPost)));
    assert_eq!(post.msg, "new body");

    assert!(matches!(post.update_title(String::new()), Err(BriefsError::EmptyTitle)));
    assert_eq!(post.title, "new title");
}

#[test]
fn post_date_comes_from_the_clock() {
    let post = Post::new(0, String::from("title"), String::from("body")).unwrap();
    // Well after 2020-01-01 and within sqlite's integer range.
    assert!(post.date > 1_577_836_800);
    assert!(post.date <= i64::MAX as u64);
}
