use shinbun::config::Feeds;
use shinbun::documents::{feed_of, make_entry, make_parsed, parse_feed, RawEntry, RawFeed};
use shinbun::fetch::Outcome;

fn config(link: &str, name: Option<&str>) -> Feeds {
    Feeds { link: link.to_string(), name: name.map(|n| n.to_string()), tags: None }
}

fn document(title: Option<&str>, entries: Vec<RawEntry>) -> RawFeed {
    RawFeed { title: title.map(|t| t.to_string()), entries }
}

#[test]
fn a_document_becomes_a_feed() {
    let mut with_tags = config("https://n", None);
    with_tags.tags = Some(vec!["news".to_string()]);
    let mut second = raw_entry();
    second.title = None;
    let read = document(Some("News"), vec![raw_entry(), second]);
    let feed = match feed_of(&with_tags, Some(read)) {
        Outcome::Fetched(feed) => feed,
        Outcome::Failed(error) => panic!("{}", error),
    };
    assert_eq!(feed.url, "https://n");
    assert_eq!(feed.title, "News");
    assert_eq!(feed.tags, Some(vec!["news".to_string()]));
    assert_eq!(feed.entries.len(), 2);
    assert_eq!(feed.entries[0].title, "T");
    assert_eq!(feed.entries[0].published.as_deref(), Some("2024-01-02T00:00:00+00:00"));
    assert_eq!(feed.entries[0].text, "S");
    assert_eq!(feed.entries[0].links, vec!["l1".to_string(), "l2".to_string()]);
    assert_eq!(feed.entries[0].media, "m1");
    assert_eq!(feed.entries[0].feed_title, None);
    assert!(!feed.entries[0].read);
    assert_eq!(feed.entries[1].title, "");
}

#[test]
fn the_configured_name_comes_before_the_title() {
    let feed = feed_of(&config("https://a", Some("Mine")), Some(document(Some("Theirs"), Vec::new())));
    assert!(matches!(feed, Outcome::Fetched(feed) if feed.title == "Mine"));
    let feed = feed_of(&config("https://a", Some("Mine")), Some(document(None, Vec::new())));
    assert!(matches!(feed, Outcome::Fetched(feed) if feed.title == "Mine" && feed.entries.is_empty()));
}

#[test]
fn a_document_that_was_not_read_fails() {
    assert_eq!(
        feed_of(&config("https://a", Some("A")), None),
        Outcome::Failed("The document could not be read".to_string())
    );
    assert_eq!(
        feed_of(&config("https://a", None), None),
        Outcome::Failed("The document could not be read".to_string())
    );
}

#[test]
fn a_feed_without_any_title_fails() {
    assert_eq!(
        feed_of(&config("https://a", None), Some(document(None, vec![raw_entry()]))),
        Outcome::Failed("The feed has no title".to_string())
    );
}

#[test]
fn documents_become_feeds_by_their_place() {
    let configs = vec![config("a", Some("A")), config("b", None), config("c", None)];
    let documents =
        vec![Some(document(Some("One"), vec![raw_entry()])), Some(document(Some("Two"), Vec::new()))];
    let feeds = parse_feed(documents, configs);
    assert_eq!(feeds.len(), 2);
    assert_eq!((feeds[0].url.as_str(), feeds[0].title.as_str()), ("a", "A"));
    assert_eq!((feeds[1].url.as_str(), feeds[1].title.as_str()), ("b", "Two"));
    assert_eq!(feeds[0].entries[0].title, "T");
}

#[test]
fn documents_that_fail_give_no_feed() {
    let configs = vec![config("a", None), config("b", None), config("c", None)];
    let documents = vec![
        None,
        Some(document(Some("Two"), Vec::new())),
        Some(document(None, Vec::new())),
        Some(document(Some("Four"), Vec::new())),
    ];
    let feeds = parse_feed(documents, configs);
    assert_eq!(feeds.len(), 1);
    assert_eq!((feeds[0].url.as_str(), feeds[0].title.as_str()), ("b", "Two"));
    assert!(parse_feed(vec![Some(document(Some("One"), Vec::new()))], Vec::new()).is_empty());
    assert!(parse_feed(Vec::new(), vec![config("a", None)]).is_empty());
}

fn raw_entry() -> RawEntry {
    RawEntry {
        title: Some("T".to_string()),
        published: Some("2024-01-02T00:00:00+00:00".to_string()),
        content: None,
        summary: Some("S".to_string()),
        links: vec!["l1".to_string(), "l2".to_string()],
        media: vec![None, Some("m1".to_string()), Some("m2".to_string())],
    }
}

#[test]
fn an_entry_takes_what_the_document_has() {
    let entry = make_entry(raw_entry());
    assert_eq!(entry.title, "T");
    assert_eq!(entry.published.as_deref(), Some("2024-01-02T00:00:00+00:00"));
    assert_eq!(entry.text, "S");
    assert_eq!(entry.links, vec!["l1".to_string(), "l2".to_string()]);
    assert_eq!(entry.media, "m1");
    assert_eq!(entry.feed_title, None);
    assert!(!entry.read);

    let mut full = raw_entry();
    full.published = None;
    full.content = Some("C".to_string());
    full.media = vec![None, None];
    let entry = make_entry(full);
    assert_eq!(entry.published, None);
    assert_eq!(entry.text, "C");
    assert_eq!(entry.media, "");

    let bare = RawEntry {
        title: None,
        published: None,
        content: None,
        summary: None,
        links: Vec::new(),
        media: Vec::new(),
    };
    let entry = make_entry(bare);
    assert_eq!(entry.title, "");
    assert_eq!(entry.published, None);
    assert_eq!(entry.text, "");
}

#[test]
fn a_document_keeps_its_title_and_the_order_of_its_entries() {
    let mut second = raw_entry();
    second.title = Some("U".to_string());
    let parsed = make_parsed(RawFeed { title: Some("Doc".to_string()), entries: vec![raw_entry(), second] });
    assert_eq!(parsed.title.as_deref(), Some("Doc"));
    let titles: Vec<&str> = parsed.entries.iter().map(|e| e.title.as_str()).collect();
    assert_eq!(titles, vec!["T", "U"]);
}
