use shinbun::feeds::{Feed, FeedEntry};
use shinbun::query::{apply_query, feed_matches, parse_query, QueryFilter};

fn entry(title: &str, published: Option<&str>) -> FeedEntry {
    FeedEntry {
        title: title.to_string(),
        published: published.map(|d| d.to_string()),
        text: String::new(),
        links: Vec::new(),
        media: String::new(),
        feed_title: None,
        read: false,
    }
}

fn feed(url: &str, title: &str, tags: Option<Vec<&str>>, entries: Vec<FeedEntry>) -> Feed {
    Feed {
        url: url.to_string(),
        title: title.to_string(),
        entries,
        tags: tags.map(|t| t.into_iter().map(|s| s.to_string()).collect()),
    }
}

#[test]
fn test_parse_query_tags() {
    let filter = parse_query("tags:blog,tech");
    match filter {
        QueryFilter::Tags(tags) => {
            assert_eq!(tags, vec!["blog", "tech"]);
        }
        _ => panic!("Expected Tags filter"),
    }
}

#[test]
fn test_parse_query_all() {
    let filter = parse_query("*");
    assert!(matches!(filter, QueryFilter::All));
}

#[test]
fn test_feed_matches_tag() {
    let feed = Feed {
        url: "test".to_string(),
        title: "Test".to_string(),
        entries: Vec::new(),
        tags: Some(vec!["blog".to_string(), "tech".to_string()]),
    };

    let filter = QueryFilter::Tags(vec!["blog".to_string()]);
    assert!(feed_matches(&feed, &filter));

    let filter = QueryFilter::Tags(vec!["news".to_string()]);
    assert!(!feed_matches(&feed, &filter));
}

#[test]
fn query_sorts_newest_first_and_undated_last() {
    let feeds = vec![feed(
        "u",
        "Feed",
        None,
        vec![
            entry("old", Some("2024-01-01")),
            entry("undated", None),
            entry("new", Some("2024-06-01")),
        ],
    )];
    let result = apply_query(&feeds, "*");
    let titles: Vec<&str> = result.iter().map(|e| e.title.as_str()).collect();
    assert_eq!(titles, vec!["new", "old", "undated"]);
    assert!(result.iter().all(|e| e.feed_title.as_deref() == Some("Feed")));
}

#[test]
fn bogus_query_selects_nothing() {
    let feeds = vec![feed("u", "Feed", Some(vec!["blog"]), vec![entry("a", None)])];
    assert!(apply_query(&feeds, "bogus").is_empty());
    assert!(apply_query(&feeds, "tags:").is_empty());
    assert!(apply_query(&feeds, "tags: , ,").is_empty());
}

#[test]
fn parse_query_trims_and_drops_empty_tags() {
    match parse_query("  tags: blog , ,tech,,  rust lang ,") {
        QueryFilter::Tags(tags) => assert_eq!(tags, vec!["blog", "tech", "rust lang"]),
        QueryFilter::All => panic!("Expected Tags filter"),
    }
}

#[test]
fn parse_query_empty_and_blank_select_all() {
    assert!(matches!(parse_query(""), QueryFilter::All));
    assert!(matches!(parse_query("   \t\n"), QueryFilter::All));
    assert!(matches!(parse_query("  *  "), QueryFilter::All));
    assert!(matches!(parse_query("\u{3000}*\u{a0}"), QueryFilter::All));
}

#[test]
fn parse_query_anything_else_has_no_tags() {
    for q in ["bogus", "**", "tag:blog", "Tags:blog", "tags", "* x"] {
        match parse_query(q) {
            QueryFilter::Tags(tags) => assert!(tags.is_empty(), "{}", q),
            QueryFilter::All => panic!("{} selects all", q),
        }
    }
}

#[test]
fn parse_query_keeps_text_beyond_ascii() {
    match parse_query("tags:日本語,naïve") {
        QueryFilter::Tags(tags) => assert_eq!(tags, vec!["日本語", "naïve"]),
        QueryFilter::All => panic!("Expected Tags filter"),
    }
}

#[test]
fn feed_matches_all_and_untagged() {
    let tagged = feed("a", "A", Some(vec!["blog"]), Vec::new());
    let untagged = feed("b", "B", None, Vec::new());
    assert!(feed_matches(&tagged, &QueryFilter::All));
    assert!(feed_matches(&untagged, &QueryFilter::All));
    assert!(!feed_matches(&untagged, &QueryFilter::Tags(vec!["blog".to_string()])));
    assert!(!feed_matches(&tagged, &QueryFilter::Tags(Vec::new())));
    assert!(feed_matches(
        &tagged,
        &QueryFilter::Tags(vec!["news".to_string(), "blog".to_string()])
    ));
}

#[test]
fn query_selects_by_tag_and_names_the_source() {
    let feeds = vec![
        feed("a", "Alpha", Some(vec!["blog"]), vec![entry("a1", Some("2024-03-01"))]),
        feed("b", "Beta", Some(vec!["news"]), vec![entry("b1", Some("2024-04-01"))]),
        feed("c", "Gamma", None, vec![entry("c1", Some("2024-05-01"))]),
    ];
    let result = apply_query(&feeds, "tags:news,blog");
    let got: Vec<(&str, Option<&str>)> =
        result.iter().map(|e| (e.title.as_str(), e.feed_title.as_deref())).collect();
    assert_eq!(got, vec![("b1", Some("Beta")), ("a1", Some("Alpha"))]);
}

#[test]
fn query_keeps_the_order_of_ties() {
    let feeds = vec![
        feed(
            "a",
            "Alpha",
            None,
            vec![entry("a-undated-1", None), entry("a-dated", Some("2024-01-01")), entry("a-undated-2", None)],
        ),
        feed("b", "Beta", None, vec![entry("b-dated", Some("2024-01-01")), entry("b-undated", None)]),
    ];
    let result = apply_query(&feeds, "");
    let titles: Vec<&str> = result.iter().map(|e| e.title.as_str()).collect();
    assert_eq!(titles, vec!["a-dated", "b-dated", "a-undated-1", "a-undated-2", "b-undated"]);
}

#[test]
fn query_orders_dates_as_text() {
    let feeds = vec![feed(
        "a",
        "Alpha",
        None,
        vec![entry("short", Some("2024")), entry("long", Some("2024-01")), entry("other", Some("é"))],
    )];
    let result = apply_query(&feeds, "*");
    let titles: Vec<&str> = result.iter().map(|e| e.title.as_str()).collect();
    assert_eq!(titles, vec!["other", "long", "short"]);
}

#[test]
fn query_leaves_the_feeds_alone() {
    let feeds = vec![feed("a", "Alpha", None, vec![entry("a1", None)])];
    let _ = apply_query(&feeds, "*");
    assert_eq!(feeds[0].entries[0].feed_title, None);
}
