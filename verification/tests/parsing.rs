use org_posts::date::{org_date_format, org_date_parse, DateError};
use org_posts::org::org_keyword_get;
use org_posts::{Keyword, OrgDocument, ParseError, Post, PostDate};

fn keyword(key: &str, value: &str) -> Keyword {
    Keyword { key: key.to_string(), value: value.to_string() }
}

#[test]
fn title_and_date_are_read_from_the_keywords() {
    let text = "#+TITLE: Hello World\n#+DATE: <2024-03-15 Fri>\n\nSome body text.\n";
    let post = Post::parse("posts/hello.org", text).unwrap();
    assert_eq!(post.slug, "hello");
    assert_eq!(post.title, Some("Hello World".to_string()));
    assert_eq!(post.date, Some(PostDate { year: 2024, month: 3, day: 15 }));
    assert_eq!(post.org_date(), Some("<2024-03-15 Fri>".to_string()));
}

#[test]
fn body_is_rendered_and_keywords_are_left_out() {
    let text = "#+TITLE: Hello World\n\n* Heading\n\nSome *bold* text.\n";
    let post = Post::parse("hello.org", text).unwrap();
    assert!(post.inner_html.contains("Heading"));
    assert!(post.inner_html.contains("<b>bold</b>"));
    assert!(!post.inner_html.contains("Hello World"));
    assert_ne!(post.inner_html, text);
}

#[test]
fn missing_date_is_no_error() {
    let post = Post::parse("undated.org", "#+TITLE: No date\n\nBody\n").unwrap();
    assert_eq!(post.date, None);
    assert_eq!(post.org_date(), None);
    assert_eq!(post.title, Some("No date".to_string()));
}

#[test]
fn missing_title_is_no_error() {
    let post = Post::parse("untitled.org", "Just a body.\n").unwrap();
    assert_eq!(post.title, None);
    assert_eq!(post.date, None);
    assert_eq!(post.slug, "untitled");
}

#[test]
fn empty_document_gives_an_empty_post() {
    let post = Post::parse("empty.org", "").unwrap();
    assert_eq!(post.title, None);
    assert_eq!(post.date, None);
}

#[test]
fn date_in_another_form_is_no_date() {
    let post = Post::parse("a.org", "#+DATE: 2024-03-15\n").unwrap();
    assert_eq!(post.date, None);
    let post = Post::parse("a.org", "#+DATE: yesterday\n").unwrap();
    assert_eq!(post.date, None);
}

#[test]
fn title_lines_are_joined_by_a_space() {
    let post = Post::parse("parts.org", "#+TITLE: Part One\n#+TITLE: Part Two\n").unwrap();
    assert_eq!(post.title, Some("Part One Part Two".to_string()));
}

#[test]
fn keyword_keys_match_in_any_case() {
    let post = Post::parse("case.org", "#+title: lower\n#+Date: <2024-01-01 Mon>\n").unwrap();
    assert_eq!(post.title, Some("lower".to_string()));
    assert_eq!(post.date, Some(PostDate { year: 2024, month: 1, day: 1 }));
}

#[test]
fn path_without_file_name_is_an_error() {
    assert_eq!(Post::parse("..", "text").err(), Some(ParseError::MissingFileName));
    assert_eq!(Post::parse("", "text").err(), Some(ParseError::MissingFileName));
    assert_eq!(Post::parse("/", "text").err(), Some(ParseError::MissingFileName));
    assert_eq!(Post::parse("posts/..", "text").err(), Some(ParseError::MissingFileName));
}

#[test]
fn post_is_made_from_a_document() {
    let doc = OrgDocument {
        keywords: vec![
            keyword("AUTHOR", " someone"),
            keyword("Title", "  A title \t"),
            keyword("DATE", " <2023-12-31 Sun>"),
        ],
        html: "<p>x</p>".to_string(),
    };
    let post = Post::from_document("dir/first.org", doc).unwrap();
    assert_eq!(post.slug, "first");
    assert_eq!(post.title, Some("A title".to_string()));
    assert_eq!(post.date, Some(PostDate { year: 2023, month: 12, day: 31 }));
    assert_eq!(post.inner_html, "<p>x</p>");
}

#[test]
fn document_without_file_name_is_refused() {
    let doc = OrgDocument { keywords: vec![], html: String::new() };
    assert_eq!(Post::from_document("a/..", doc).err(), Some(ParseError::MissingFileName));
}

#[test]
fn keyword_text_is_absent_without_a_matching_key() {
    let keywords = vec![keyword("AUTHOR", "x"), keyword("TITLES", "y")];
    assert_eq!(org_keyword_get(&keywords, "title"), None);
    assert_eq!(org_keyword_get(&Vec::new(), "title"), None);
}

#[test]
fn keyword_values_are_trimmed_and_joined() {
    let keywords = vec![
        keyword("TITLE", " Part One "),
        keyword("other", "skipped"),
        keyword("title", "\tPart Two\n"),
        keyword("TiTlE", "\u{a0}Part Three\u{3000}"),
    ];
    assert_eq!(org_keyword_get(&keywords, "title"), Some("Part One Part Two Part Three".to_string()));
}

#[test]
fn empty_values_add_no_space_at_the_front() {
    let keywords = vec![keyword("TITLE", "  "), keyword("TITLE", "a"), keyword("TITLE", ""), keyword("TITLE", "b")];
    assert_eq!(org_keyword_get(&keywords, "TITLE"), Some("a  b".to_string()));
    let only_empty = vec![keyword("TITLE", "")];
    assert_eq!(org_keyword_get(&only_empty, "title"), Some(String::new()));
}

#[test]
fn keys_differ_beyond_ascii_case() {
    let keywords = vec![keyword("\u{c9}T\u{c9}", "upper")];
    assert_eq!(org_keyword_get(&keywords, "\u{e9}t\u{e9}"), None);
    assert_eq!(org_keyword_get(&keywords, "\u{c9}t\u{c9}"), Some("upper".to_string()));
}

#[test]
fn org_dates_are_parsed() {
    assert_eq!(org_date_parse("<2024-03-15 Fri>"), Ok(PostDate { year: 2024, month: 3, day: 15 }));
    assert_eq!(org_date_parse("<2024-02-29 Thu>"), Ok(PostDate { year: 2024, month: 2, day: 29 }));
}

#[test]
fn org_dates_in_bad_form_are_refused() {
    assert_eq!(org_date_parse(""), Err(DateError::NotADate));
    assert_eq!(org_date_parse("<2024-03-15"), Err(DateError::NotADate));
    assert_eq!(org_date_parse("2024-03-15 Fri"), Err(DateError::NotADate));
    assert_eq!(org_date_parse("<2024-03-15>"), Err(DateError::NotADate));
    assert_eq!(org_date_parse("<2024-03-15 Fri> and more"), Err(DateError::NotADate));
}

#[test]
fn org_dates_that_the_calendar_lacks_are_refused() {
    assert_eq!(org_date_parse("<2024-03-15 Mon>"), Err(DateError::NotADate));
    assert_eq!(org_date_parse("<2023-02-29 Wed>"), Err(DateError::NotADate));
    assert_eq!(org_date_parse("<2024-13-01 Mon>"), Err(DateError::NotADate));
}

#[test]
fn org_dates_are_written() {
    assert_eq!(
        org_date_format(PostDate { year: 2024, month: 3, day: 15 }),
        Some("<2024-03-15 Fri>".to_string())
    );
    assert_eq!(
        org_date_format(PostDate { year: 2024, month: 1, day: 1 }),
        Some("<2024-01-01 Mon>".to_string())
    );
}

#[test]
fn dates_that_do_not_exist_are_not_written() {
    assert_eq!(org_date_format(PostDate { year: 2023, month: 2, day: 29 }), None);
    assert_eq!(org_date_format(PostDate { year: 2023, month: 0, day: 1 }), None);
}

#[test]
fn written_date_is_read_back() {
    let date = PostDate { year: 1999, month: 12, day: 31 };
    let text = org_date_format(date).unwrap();
    assert_eq!(org_date_parse(&text), Ok(date));
}
