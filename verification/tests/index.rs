use org_posts::date::is_date_le;
use org_posts::sort::sort_by_date;
use org_posts::templates::{BLOG_NAME, BLOG_TITLE, POST_NOT_FOUND};
use org_posts::{IndexTemplate, Post, PostDate, Posts, Source};

fn source(path: &str, text: &str) -> Source {
    Source { path: path.to_string(), text: text.to_string() }
}

fn post(slug: &str, date: Option<(i32, u32, u32)>, html: &str) -> Post {
    Post {
        slug: slug.to_string(),
        title: None,
        date: date.map(|(year, month, day)| PostDate { year, month, day }),
        inner_html: html.to_string(),
    }
}

fn slugs(posts: &Posts) -> Vec<String> {
    posts.list_ordered().iter().map(|post| post.slug.clone()).collect()
}

#[test]
fn undated_posts_come_first_and_the_others_by_date() {
    let sources = vec![
        source("june.org", "#+DATE: <2024-06-01 Sat>\n"),
        source("undated.org", "#+TITLE: no date\n"),
        source("january.org", "#+DATE: <2024-01-01 Mon>\n"),
    ];
    let posts = Posts::new(&sources).unwrap();
    assert_eq!(slugs(&posts), vec!["undated", "january", "june"]);
    let listed = posts.list_ordered();
    for pair in listed.windows(2) {
        assert!(is_date_le(&pair[0].date, &pair[1].date));
    }
}

#[test]
fn of_two_posts_with_one_slug_the_later_stays() {
    let sources = vec![
        source("b/dup.org", "#+TITLE: second\n#+DATE: <2024-06-01 Sat>\n"),
        source("a/dup.org", "#+TITLE: first\n#+DATE: <2024-01-01 Mon>\n"),
    ];
    let posts = Posts::new(&sources).unwrap();
    assert_eq!(posts.list_ordered().len(), 1);
    let kept = posts.get("dup").unwrap();
    assert_eq!(kept.title, Some("second".to_string()));
    assert_eq!(kept.date, Some(PostDate { year: 2024, month: 6, day: 1 }));
}

#[test]
fn a_slug_keeps_the_place_of_its_first_post() {
    let given = vec![
        post("x", Some((2024, 1, 1)), "old x"),
        post("y", Some((2024, 2, 1)), "y"),
        post("x", Some((2024, 3, 1)), "new x"),
    ];
    let posts = Posts::from_posts(given);
    assert_eq!(slugs(&posts), vec!["x", "y"]);
    assert_eq!(posts.get("x").unwrap().inner_html, "new x");
    assert_eq!(posts.get("y").unwrap().inner_html, "y");
}

#[test]
fn unknown_slug_is_not_found() {
    let posts = Posts::new(&vec![source("post.org", "text")]).unwrap();
    assert!(posts.get("nonexistent-slug").is_none());
    assert!(posts.get("").is_none());
    assert!(posts.get("post.org").is_none());
    assert!(posts.get("post").is_some());
}

#[test]
fn empty_index_finds_nothing() {
    let posts = Posts::new(&Vec::new()).unwrap();
    assert_eq!(posts.list_ordered().len(), 0);
    assert!(posts.get("anything").is_none());
    assert!(posts.list_ordered().is_empty());
}

#[test]
fn only_org_files_are_indexed() {
    let sources = vec![source("dir/notes.txt", "#+TITLE: notes\n"), source("dir/post.org", "#+TITLE: post\n")];
    let posts = Posts::new(&sources).unwrap();
    assert_eq!(slugs(&posts), vec!["post"]);
    assert!(posts.get("notes").is_none());
    assert!(posts.get("notes.txt").is_none());
    assert_eq!(posts.get("post").unwrap().title, Some("post".to_string()));
}

#[test]
fn sources_without_extension_are_passed_over() {
    let sources = vec![source(".org", "a"), source("org", "b"), source("x.ORG", "c"), source("x.org.bak", "d")];
    let posts = Posts::new(&sources).unwrap();
    assert_eq!(posts.list_ordered().len(), 0);
}

#[test]
fn read_posts_are_sorted() {
    let sources = vec![
        source("c.org", "#+DATE: <2024-03-01 Fri>\n"),
        source("skip.md", "#+DATE: <2020-01-01 Wed>\n"),
        source("a.org", "#+DATE: <2023-12-31 Sun>\n"),
        source("b.org", "no date"),
    ];
    let read = Posts::posts_read(&sources).unwrap();
    let names: Vec<&str> = read.iter().map(|post| post.slug.as_str()).collect();
    assert_eq!(names, vec!["b", "a", "c"]);
}

#[test]
fn posts_of_one_date_keep_their_order() {
    let given = vec![
        post("d", Some((2024, 5, 5)), ""),
        post("n1", None, ""),
        post("a", Some((2024, 5, 5)), ""),
        post("n2", None, ""),
        post("e", Some((2023, 5, 6)), ""),
        post("b", Some((2024, 5, 5)), ""),
        post("f", Some((2024, 4, 30)), ""),
    ];
    let sorted = sort_by_date(given);
    let names: Vec<&str> = sorted.iter().map(|post| post.slug.as_str()).collect();
    assert_eq!(names, vec!["n1", "n2", "e", "f", "d", "a", "b"]);
}

#[test]
fn sorting_nothing_gives_nothing() {
    assert!(sort_by_date(Vec::new()).is_empty());
}

#[test]
fn dates_are_ordered_by_year_month_and_day() {
    let date = |year, month, day| Some(PostDate { year, month, day });
    assert!(is_date_le(&None, &None));
    assert!(is_date_le(&None, &date(-5, 1, 1)));
    assert!(!is_date_le(&date(-5, 1, 1), &None));
    assert!(is_date_le(&date(2023, 12, 31), &date(2024, 1, 1)));
    assert!(!is_date_le(&date(2024, 1, 1), &date(2023, 12, 31)));
    assert!(is_date_le(&date(2024, 1, 31), &date(2024, 2, 1)));
    assert!(!is_date_le(&date(2024, 2, 1), &date(2024, 1, 31)));
    assert!(is_date_le(&date(2024, 2, 1), &date(2024, 2, 2)));
    assert!(!is_date_le(&date(2024, 2, 2), &date(2024, 2, 1)));
    assert!(is_date_le(&date(2024, 2, 2), &date(2024, 2, 2)));
}

#[test]
fn date_order_agrees_with_chrono() {
    let days = [(2024, 2, 29), (2024, 3, 1), (2023, 12, 31), (-1, 6, 15), (2024, 2, 28), (0, 1, 1)];
    for a in days {
        for b in days {
            let x = chrono::NaiveDate::from_ymd_opt(a.0, a.1, a.2).unwrap();
            let y = chrono::NaiveDate::from_ymd_opt(b.0, b.1, b.2).unwrap();
            let ours = is_date_le(
                &Some(PostDate { year: a.0, month: a.1, day: a.2 }),
                &Some(PostDate { year: b.0, month: b.1, day: b.2 }),
            );
            assert_eq!(ours, x <= y);
        }
    }
}

#[test]
fn page_is_the_html_of_the_post_or_says_not_found() {
    let posts = Posts::from_posts(vec![post("hello", None, "<p>hi</p>")]);
    assert_eq!(posts.page("hello"), "<p>hi</p>");
    assert_eq!(posts.page("other"), "404 post not found");
    assert_eq!(posts.page("other"), POST_NOT_FOUND);
}

#[test]
fn clone_shares_the_posts() {
    let posts = Posts::from_posts(vec![post("a", None, "x"), post("b", None, "y")]);
    let shared = posts.clone();
    assert_eq!(slugs(&shared), slugs(&posts));
    assert_eq!(shared.get("b").unwrap().inner_html, "y");
}

#[test]
fn index_page_has_the_title_of_the_blog() {
    let page = IndexTemplate::home();
    assert_eq!(page.title, "Asdrubalini's Blog");
    assert_eq!(page.name, "Asdrubalini!");
    assert_eq!(page.title, BLOG_TITLE);
    assert_eq!(page.name, BLOG_NAME);
}
