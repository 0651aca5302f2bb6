use shinbun::config::Feeds;
use shinbun::feeds::{Feed, FeedEntry};
use shinbun::fetch::{
    announce, batch, build_feed, conclude, refresh, report, FeedUpdate, Outcome, Parsed,
};

fn config(link: &str, name: Option<&str>, tags: Option<Vec<&str>>) -> Feeds {
    Feeds {
        link: link.to_string(),
        name: name.map(|n| n.to_string()),
        tags: tags.map(|t| t.into_iter().map(|s| s.to_string()).collect()),
    }
}

fn entry(title: &str) -> FeedEntry {
    FeedEntry {
        title: title.to_string(),
        published: None,
        text: String::new(),
        links: Vec::new(),
        media: String::new(),
        feed_title: None,
        read: false,
    }
}

fn feed(url: &str) -> Feed {
    Feed { url: url.to_string(), title: url.to_string(), entries: Vec::new(), tags: None }
}

#[test]
fn one_failure_leaves_the_others_in_the_batch() {
    let done = vec![
        (config("a", None, None), Outcome::Fetched(feed("a"))),
        (config("b", Some("Bee"), None), Outcome::Failed("timed out".to_string())),
        (config("c", None, None), Outcome::Fetched(feed("c"))),
    ];
    let messages = refresh(done);
    assert_eq!(messages.len(), 6);
    let errors: Vec<usize> = messages
        .iter()
        .enumerate()
        .filter(|(_, m)| matches!(m, FeedUpdate::FeedError { .. }))
        .map(|(i, _)| i)
        .collect();
    assert_eq!(errors, vec![2]);
    match &messages[2] {
        FeedUpdate::FeedError { name, error } => {
            assert_eq!(name, "Bee");
            assert_eq!(error, "timed out");
        }
        _ => unreachable!(),
    }
    match &messages[4] {
        FeedUpdate::Replace(feeds) => {
            let urls: Vec<&str> = feeds.iter().map(|f| f.url.as_str()).collect();
            assert_eq!(urls, vec!["a", "c"]);
        }
        _ => panic!("no batch"),
    }
    assert!(matches!(messages[5], FeedUpdate::FetchComplete));
    let names: Vec<&str> = messages
        .iter()
        .filter_map(|m| match m {
            FeedUpdate::FetchingFeed(name) => Some(name.as_str()),
            _ => None,
        })
        .collect();
    assert_eq!(names, vec!["a", "Bee", "c"]);
}

#[test]
fn a_refresh_of_nothing_ends_with_an_empty_batch() {
    let messages = refresh(Vec::new());
    assert_eq!(messages.len(), 2);
    assert!(matches!(&messages[0], FeedUpdate::Replace(feeds) if feeds.is_empty()));
    assert!(matches!(messages[1], FeedUpdate::FetchComplete));
}

#[test]
fn a_refresh_where_all_fail_ends_with_an_empty_batch() {
    let configs = vec![config("a", None, None), config("b", None, None)];
    let outcomes = vec![Outcome::Failed("x".to_string()), Outcome::Failed("y".to_string())];
    let messages = conclude(outcomes);
    assert!(matches!(&messages[0], FeedUpdate::Replace(feeds) if feeds.is_empty()));
    assert!(matches!(messages[1], FeedUpdate::FetchComplete));
    assert!(report(&configs[0], &Outcome::Failed("x".to_string())).is_some());
    assert!(report(&configs[0], &Outcome::Fetched(feed("a"))).is_none());
}

#[test]
fn the_batch_keeps_the_order_of_the_outcomes() {
    let feeds = batch(vec![
        Outcome::Failed("x".to_string()),
        Outcome::Fetched(feed("b")),
        Outcome::Fetched(feed("a")),
        Outcome::Failed("y".to_string()),
        Outcome::Fetched(feed("c")),
    ]);
    let urls: Vec<&str> = feeds.iter().map(|f| f.url.as_str()).collect();
    assert_eq!(urls, vec!["b", "a", "c"]);
}

#[test]
fn a_feed_is_announced_under_its_name_or_address() {
    assert!(matches!(announce(&config("https://a", None, None)), FeedUpdate::FetchingFeed(n) if n == "https://a"));
    assert!(matches!(announce(&config("https://a", Some("A"), None)), FeedUpdate::FetchingFeed(n) if n == "A"));
    assert_eq!(config("l", Some("n"), None).display_name(), "n");
    assert_eq!(Feeds::default().display_name(), "");
}

#[test]
fn a_feed_takes_its_name_from_the_configuration_first() {
    let parsed = Parsed { title: Some("Document".to_string()), entries: vec![entry("x")] };
    let built = build_feed(&config("https://a", Some("Mine"), Some(vec!["t"])), parsed).unwrap();
    assert_eq!(built.url, "https://a");
    assert_eq!(built.title, "Mine");
    assert_eq!(built.tags, Some(vec!["t".to_string()]));
    assert_eq!(built.entries.len(), 1);
    let parsed = Parsed { title: Some("Document".to_string()), entries: Vec::new() };
    assert_eq!(build_feed(&config("https://a", None, None), parsed).unwrap().title, "Document");
    let parsed = Parsed { title: None, entries: Vec::new() };
    assert!(build_feed(&config("https://a", None, None), parsed).is_none());
    let parsed = Parsed { title: None, entries: Vec::new() };
    assert_eq!(build_feed(&config("https://a", Some("Mine"), None), parsed).unwrap().title, "Mine");
}

#[test]
fn a_batch_and_a_single_feed_are_saved() {
    assert!(FeedUpdate::Replace(Vec::new()).saves());
    assert!(FeedUpdate::UpdateFeed(0, feed("a")).saves());
    assert!(!FeedUpdate::FetchingFeed("a".to_string()).saves());
    assert!(!FeedUpdate::FeedError { name: "a".to_string(), error: "x".to_string() }.saves());
    assert!(!FeedUpdate::FetchComplete.saves());
}
