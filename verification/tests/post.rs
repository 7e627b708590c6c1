use blog::post::{pretty_date, Post, PostMatter, PostMetadata};

#[test]
fn pretty_date_writes_weekday_month_day_year() {
    assert_eq!(pretty_date("2023-03-14"), "Tue Mar 14 2023");
    assert_eq!(pretty_date("2000-01-01"), "Sat Jan 01 2000");
}

#[test]
fn unparsable_date_counts_as_epoch() {
    assert_eq!(pretty_date("not a date"), "Thu Jan 01 1970");
    assert_eq!(pretty_date(""), "Thu Jan 01 1970");
    assert_eq!(pretty_date("2023-02-30"), "Thu Jan 01 1970");
}

#[test]
fn post_from_parts_renders_markdown() {
    let matter = PostMatter {
        title: "Hello".to_string(),
        author: "Ann".to_string(),
        date: "2023-03-14".to_string(),
    };
    let body = "# Heading\n\nSome *text*.\n".to_string();
    let post = Post::from_parts(matter, body.clone());
    assert_eq!(post.title, "Hello");
    assert_eq!(post.author, "Ann");
    assert_eq!(post.created_at, "2023-03-14");
    assert_eq!(post.created_at_pretty, "Tue Mar 14 2023");
    assert_eq!(post.content, body);
    assert_ne!(post.html, body);
    assert!(post.html.contains("<em>text</em>"));
    assert!(post.html.contains("Heading"));
}

#[test]
fn post_from_default_matter() {
    let post = Post::from_parts(PostMatter::default(), String::new());
    assert_eq!(post.title, "");
    assert_eq!(post.created_at, "");
    assert_eq!(post.created_at_pretty, "Thu Jan 01 1970");
    assert_eq!(post.content, "");
}

#[test]
fn href_prefixes_posts() {
    let m = PostMetadata { title: "T".to_string(), path: "my-post".to_string() };
    assert_eq!(m.href(), "/posts/my-post");
}

#[test]
fn leap_days_are_valid_dates() {
    assert_eq!(pretty_date("2024-02-29"), "Thu Feb 29 2024");
    assert_eq!(pretty_date("2023-02-29"), "Thu Jan 01 1970");
    assert_eq!(pretty_date("2000-02-29"), "Tue Feb 29 2000");
}

#[test]
fn split_post_separates_front_matter() {
    let (body, data) = blog::post::split_post("---\ntitle: Home\n---\nOther stuff");
    assert_eq!(body, "Other stuff");
    let data = data.expect("front matter data");
    let title = data["title"].as_string().unwrap();
    assert_eq!(title, "Home");
}

#[test]
fn split_post_without_front_matter_keeps_text() {
    let (body, data) = blog::post::split_post("Just some *markdown*.");
    assert_eq!(body, "Just some *markdown*.");
    assert!(data.is_none());
}

#[test]
fn split_post_empty_front_matter_has_no_data() {
    let (body, data) = blog::post::split_post("---\n---\nBody text");
    assert_eq!(body, "Body text");
    assert!(data.is_none());
}
