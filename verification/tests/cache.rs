use shinbun::cache::{CacheError, FeedCache};
use shinbun::feeds::{Feed, FeedEntry};
use shinbun::rows::{EntryRow, FeedRow};

fn entry(title: &str, published: Option<&str>, text: &str) -> FeedEntry {
    FeedEntry {
        title: title.to_string(),
        published: published.map(|d| d.to_string()),
        text: text.to_string(),
        links: vec![format!("https://example.org/{}", title)],
        media: String::new(),
        feed_title: None,
        read: false,
    }
}

fn feed(url: &str, title: &str, entries: Vec<FeedEntry>) -> Feed {
    Feed { url: url.to_string(), title: title.to_string(), entries, tags: None }
}

fn id_of(cache: &FeedCache, url: &str) -> Option<i64> {
    cache.rows().iter().find(|r| r.url == url).map(|r| r.id)
}

fn read_flag(cache: &FeedCache, url: &str, title: &str, published: Option<&str>) -> Option<bool> {
    let feed = cache.load_feed(url).unwrap()?;
    feed.entries
        .iter()
        .find(|e| e.title == title && e.published.as_deref() == published)
        .map(|e| e.read)
}

#[test]
fn save_then_load_gives_the_feed_back() {
    let mut cache = FeedCache::new();
    let mut f = feed(
        "https://a.example/feed",
        "Alpha",
        vec![entry("one", Some("2024-01-01"), "first"), entry("two", Some("2024-02-01"), "second")],
    );
    f.tags = Some(vec!["blog".to_string(), "tech".to_string()]);
    f.entries[0].media = "https://a.example/one.mp3".to_string();
    assert_eq!(cache.save_feed(&f, 0, 1_000), Ok(()));
    let loaded = cache.load_feed("https://a.example/feed").unwrap().unwrap();
    assert_eq!(loaded.url, "https://a.example/feed");
    assert_eq!(loaded.title, "Alpha");
    assert_eq!(loaded.tags, Some(vec!["blog".to_string(), "tech".to_string()]));
    let titles: Vec<&str> = loaded.entries.iter().map(|e| e.title.as_str()).collect();
    assert_eq!(titles, vec!["two", "one"]);
    assert_eq!(loaded.entries[1].text, "first");
    assert_eq!(loaded.entries[1].links, vec!["https://example.org/one".to_string()]);
    assert_eq!(loaded.entries[1].media, "https://a.example/one.mp3");
    assert_eq!(loaded.entries[1].feed_title, None);
    assert!(loaded.entries.iter().all(|e| !e.read));
}

#[test]
fn load_of_an_unknown_feed_is_none() {
    let cache = FeedCache::new();
    assert!(cache.load_feed("nowhere").unwrap().is_none());
    assert_eq!(cache.has_feed("nowhere"), Ok(false));
    assert_eq!(cache.get_last_fetch("nowhere"), Ok(None));
    assert!(cache.load_all_feeds().unwrap().is_empty());
}

#[test]
fn a_read_entry_stays_read_when_its_feed_is_saved_again() {
    let mut cache = FeedCache::new();
    let f = feed("u", "Feed", vec![entry("E", Some("2024-01-01"), "body"), entry("F", None, "x")]);
    cache.save_feed(&f, 0, 1_000).unwrap();
    cache.mark_entry_read("u", "E", Some("2024-01-01")).unwrap();
    assert_eq!(read_flag(&cache, "u", "E", Some("2024-01-01")), Some(true));
    cache.save_feed(&f, 0, 1_000).unwrap();
    assert_eq!(read_flag(&cache, "u", "E", Some("2024-01-01")), Some(true));
    assert_eq!(read_flag(&cache, "u", "F", None), Some(false));
    assert_eq!(cache.load_feed("u").unwrap().unwrap().entries.len(), 2);
}

#[test]
fn saving_again_refreshes_the_content_only() {
    let mut cache = FeedCache::new();
    cache.save_feed(&feed("u", "Feed", vec![entry("E", None, "old")]), 0, 1_000).unwrap();
    cache.mark_entry_read("u", "E", None).unwrap();
    let mut fresh = entry("E", None, "new");
    fresh.links = vec!["https://example.org/moved".to_string()];
    fresh.media = "m".to_string();
    fresh.read = false;
    cache.save_feed(&feed("u", "Renamed", vec![fresh]), 0, 1_000).unwrap();
    let loaded = cache.load_feed("u").unwrap().unwrap();
    assert_eq!(loaded.title, "Renamed");
    assert_eq!(loaded.entries.len(), 1);
    assert_eq!(loaded.entries[0].text, "new");
    assert_eq!(loaded.entries[0].links, vec!["https://example.org/moved".to_string()]);
    assert_eq!(loaded.entries[0].media, "m");
    assert!(loaded.entries[0].read);
}

#[test]
fn a_new_entry_starts_unread_whatever_it_says() {
    let mut cache = FeedCache::new();
    let mut e = entry("E", None, "body");
    e.read = true;
    cache.save_feed(&feed("u", "Feed", vec![e]), 0, 1_000).unwrap();
    assert_eq!(read_flag(&cache, "u", "E", None), Some(false));
}

#[test]
fn an_entry_that_is_no_longer_fetched_stays() {
    let mut cache = FeedCache::new();
    cache
        .save_feed(
            &feed("u", "Feed", vec![entry("old", Some("2023-01-01"), "a"), entry("kept", Some("2023-02-01"), "b")]),
            0,
            1_000,
        )
        .unwrap();
    cache.mark_entry_read("u", "old", Some("2023-01-01")).unwrap();
    cache
        .save_feed(
            &feed("u", "Feed", vec![entry("kept", Some("2023-02-01"), "b"), entry("new", Some("2023-03-01"), "c")]),
            0,
            1_000,
        )
        .unwrap();
    let loaded = cache.load_feed("u").unwrap().unwrap();
    let titles: Vec<&str> = loaded.entries.iter().map(|e| e.title.as_str()).collect();
    assert_eq!(titles, vec!["new", "kept", "old"]);
    assert_eq!(read_flag(&cache, "u", "old", Some("2023-01-01")), Some(true));
}

#[test]
fn a_feed_keeps_its_identifier_over_saves() {
    let mut cache = FeedCache::new();
    cache.save_feed(&feed("a", "A", vec![entry("x", None, "")]), 0, 1_000).unwrap();
    cache.save_feed(&feed("b", "B", Vec::new()), 1, 1_000).unwrap();
    let a = id_of(&cache, "a").unwrap();
    let b = id_of(&cache, "b").unwrap();
    assert_eq!((a, b), (1, 2));
    for round in 0..5 {
        cache.save_feed(&feed("a", "A again", vec![entry("y", None, "")]), round, 1_000).unwrap();
        cache.save_feed(&feed("c", "C", Vec::new()), 7, 1_000).unwrap();
        assert_eq!(id_of(&cache, "a"), Some(a));
        assert_eq!(id_of(&cache, "b"), Some(b));
    }
    assert_eq!(id_of(&cache, "c"), Some(3));
    assert_eq!(cache.load_feed("a").unwrap().unwrap().entries.len(), 2);
}

#[test]
fn no_date_matches_no_date_only() {
    let mut cache = FeedCache::new();
    cache
        .save_feed(&feed("u", "Feed", vec![entry("T", None, "undated")]), 0, 1_000)
        .unwrap();
    cache
        .save_feed(&feed("v", "Other", vec![entry("T", Some("2024-01-01"), "dated")]), 1, 1_000)
        .unwrap();
    cache.mark_entry_read("u", "T", None).unwrap();
    cache.mark_entry_read("v", "T", None).unwrap();
    assert_eq!(read_flag(&cache, "u", "T", None), Some(true));
    assert_eq!(read_flag(&cache, "v", "T", Some("2024-01-01")), Some(false));
    cache.mark_entry_read("u", "T", Some("2024-01-01")).unwrap();
    cache.mark_entry_unread("u", "T", Some("")).unwrap();
    assert_eq!(read_flag(&cache, "u", "T", None), Some(true));
    cache.mark_entry_unread("u", "T", None).unwrap();
    assert_eq!(read_flag(&cache, "u", "T", None), Some(false));
}

#[test]
fn no_date_and_the_empty_date_share_a_row() {
    let mut cache = FeedCache::new();
    cache.save_feed(&feed("u", "Feed", vec![entry("T", None, "first")]), 0, 1_000).unwrap();
    cache.save_feed(&feed("u", "Feed", vec![entry("T", Some(""), "second")]), 0, 1_000).unwrap();
    let loaded = cache.load_feed("u").unwrap().unwrap();
    assert_eq!(loaded.entries.len(), 1);
    assert_eq!(loaded.entries[0].published, None);
    assert_eq!(loaded.entries[0].text, "second");
    cache.save_feed(&feed("u", "Feed", vec![entry("T", Some("2024"), "third")]), 0, 1_000).unwrap();
    assert_eq!(cache.load_feed("u").unwrap().unwrap().entries.len(), 2);
}

#[test]
fn marking_twice_is_marking_once() {
    let mut cache = FeedCache::new();
    cache.save_feed(&feed("u", "Feed", vec![entry("E", None, "x"), entry("F", None, "y")]), 0, 1_000).unwrap();
    assert_eq!(cache.mark_entry_read("u", "E", None), Ok(()));
    let once = format!("{:?}", cache.rows());
    assert_eq!(cache.mark_entry_read("u", "E", None), Ok(()));
    assert_eq!(format!("{:?}", cache.rows()), once);
    assert_eq!(read_flag(&cache, "u", "E", None), Some(true));
    assert_eq!(read_flag(&cache, "u", "F", None), Some(false));
}

#[test]
fn marking_what_is_not_there_changes_nothing() {
    let mut cache = FeedCache::new();
    cache.save_feed(&feed("u", "Feed", vec![entry("E", None, "x")]), 0, 1_000).unwrap();
    let before = format!("{:?}", cache.rows());
    assert_eq!(cache.mark_entry_read("nowhere", "E", None), Ok(()));
    assert_eq!(cache.mark_entry_read("u", "nothing", None), Ok(()));
    assert_eq!(cache.mark_entry_unread("u", "E", None), Ok(()));
    assert_eq!(format!("{:?}", cache.rows()), before);
}

#[test]
fn all_feeds_come_in_the_order_of_their_places() {
    let mut cache = FeedCache::new();
    cache.save_feed(&feed("c", "C", Vec::new()), 2, 1_000).unwrap();
    cache.save_feed(&feed("a", "A", Vec::new()), 0, 1_000).unwrap();
    cache.save_feed(&feed("b", "B", Vec::new()), 1, 1_000).unwrap();
    cache.save_feed(&feed("b2", "B2", Vec::new()), 1, 1_000).unwrap();
    let urls: Vec<String> = cache.load_all_feeds().unwrap().into_iter().map(|f| f.url).collect();
    assert_eq!(urls, vec!["a", "b", "b2", "c"]);
    cache.save_feed(&feed("a", "A", Vec::new()), 9, 1_000).unwrap();
    let urls: Vec<String> = cache.load_all_feeds().unwrap().into_iter().map(|f| f.url).collect();
    assert_eq!(urls, vec!["b", "b2", "c", "a"]);
}

#[test]
fn all_feeds_list_their_entries_newest_first() {
    let mut cache = FeedCache::new();
    cache
        .save_feed(
            &feed(
                "a",
                "A",
                vec![entry("undated", None, ""), entry("jan", Some("2024-01-01"), ""), entry("jun", Some("2024-06-01"), "")],
            ),
            0,
            1_000,
        )
        .unwrap();
    let feeds = cache.load_all_feeds().unwrap();
    let titles: Vec<&str> = feeds[0].entries.iter().map(|e| e.title.as_str()).collect();
    assert_eq!(titles, vec!["jun", "jan", "undated"]);
}

#[test]
fn has_delete_and_clear() {
    let mut cache = FeedCache::new();
    cache.save_feed(&feed("a", "A", vec![entry("x", None, "")]), 0, 1_000).unwrap();
    cache.save_feed(&feed("b", "B", Vec::new()), 1, 1_000).unwrap();
    assert_eq!(cache.has_feed("a"), Ok(true));
    assert_eq!(cache.delete_feed("a"), Ok(()));
    assert_eq!(cache.has_feed("a"), Ok(false));
    assert!(cache.load_feed("a").unwrap().is_none());
    assert_eq!(cache.has_feed("b"), Ok(true));
    assert_eq!(cache.delete_feed("a"), Ok(()));
    assert_eq!(cache.clear_all(), Ok(()));
    assert_eq!(cache.has_feed("b"), Ok(false));
    assert!(cache.rows().is_empty());
}

#[test]
fn last_fetch_is_the_time_of_the_save() {
    let mut cache = FeedCache::new();
    cache.save_feed(&feed("a", "A", Vec::new()), 0, 1_700_000_000).unwrap();
    assert_eq!(cache.get_last_fetch("a"), Ok(Some(1_700_000_000)));
    cache.save_feed(&feed("a", "A", Vec::new()), 0, 1_700_000_600).unwrap();
    assert_eq!(cache.get_last_fetch("a"), Ok(Some(1_700_000_600)));
    cache.save_feed(&feed("b", "B", Vec::new()), 1, -5).unwrap();
    assert_eq!(cache.get_last_fetch("b"), Ok(Some(-5)));
    assert_eq!(cache.get_last_fetch("a"), Ok(Some(1_700_000_600)));
}

#[test]
fn rows_hold_lists_as_json() {
    let mut cache = FeedCache::new();
    let mut f = feed("a", "A", vec![entry("x", None, "")]);
    f.tags = Some(vec!["t".to_string()]);
    cache.save_feed(&f, 4, 10).unwrap();
    let rows = cache.rows();
    assert_eq!(rows.len(), 1);
    assert_eq!(rows[0].id, 1);
    assert_eq!(rows[0].position, 4);
    assert_eq!(rows[0].last_fetched, 10);
    assert_eq!(rows[0].tags.as_deref(), Some("[\"t\"]"));
    assert_eq!(rows[0].entries[0].links, "[\"https://example.org/x\"]");
    assert!(!rows[0].entries[0].read);
}

#[test]
fn rows_that_cannot_be_read_count_as_empty() {
    let row = FeedRow {
        id: 5,
        url: "a".to_string(),
        title: "A".to_string(),
        last_fetched: 0,
        tags: Some("not json".to_string()),
        position: 0,
        entries: vec![EntryRow {
            title: "x".to_string(),
            published: None,
            text: String::new(),
            links: "{}".to_string(),
            media: String::new(),
            read: true,
        }],
    };
    let cache = FeedCache::restore(vec![row]).unwrap();
    let loaded = cache.load_feed("a").unwrap().unwrap();
    assert_eq!(loaded.tags, None);
    assert!(loaded.entries[0].links.is_empty());
    assert!(loaded.entries[0].read);
}

fn row(id: i64, url: &str, entries: Vec<EntryRow>) -> FeedRow {
    FeedRow {
        id,
        url: url.to_string(),
        title: url.to_string(),
        last_fetched: 0,
        tags: None,
        position: 0,
        entries,
    }
}

fn entry_row(title: &str, published: Option<&str>) -> EntryRow {
    EntryRow {
        title: title.to_string(),
        published: published.map(|d| d.to_string()),
        text: String::new(),
        links: "[]".to_string(),
        media: String::new(),
        read: false,
    }
}

#[test]
fn restore_takes_what_rows_gave() {
    let mut cache = FeedCache::new();
    cache.save_feed(&feed("a", "A", vec![entry("x", None, "body")]), 0, 1_000).unwrap();
    cache.save_feed(&feed("b", "B", Vec::new()), 1, 1_000).unwrap();
    cache.mark_entry_read("a", "x", None).unwrap();
    let restored = FeedCache::restore(cache.rows()).unwrap();
    assert_eq!(format!("{:?}", restored.rows()), format!("{:?}", cache.rows()));
    assert_eq!(read_flag(&restored, "a", "x", None), Some(true));
}

#[test]
fn restore_refuses_rows_that_break_the_rules() {
    assert!(FeedCache::restore(Vec::new()).is_ok());
    assert!(FeedCache::restore(vec![row(1, "a", Vec::new()), row(2, "b", Vec::new())]).is_ok());
    let broken = vec![
        vec![row(1, "a", Vec::new()), row(2, "a", Vec::new())],
        vec![row(1, "a", Vec::new()), row(1, "b", Vec::new())],
        vec![row(0, "a", Vec::new())],
        vec![row(-3, "a", Vec::new())],
        vec![row(1, "a", vec![entry_row("t", None), entry_row("t", None)])],
        vec![row(1, "a", vec![entry_row("t", None), entry_row("u", None), entry_row("t", Some(""))])],
    ];
    for rows in broken {
        match FeedCache::restore(rows) {
            Err(e) => assert_eq!(e, CacheError::Constraint),
            Ok(_) => panic!("rows were taken"),
        }
    }
    assert!(FeedCache::restore(vec![row(
        1,
        "a",
        vec![entry_row("t", None), entry_row("t", Some("2024")), entry_row("u", None)]
    )])
    .is_ok());
}

#[test]
fn a_new_feed_fails_when_no_identifier_is_left() {
    let mut cache = FeedCache::restore(vec![row(i64::MAX, "last", Vec::new())]).unwrap();
    let before = format!("{:?}", cache.rows());
    assert_eq!(cache.save_feed(&feed("new", "New", vec![entry("x", None, "")]), 0, 1_000), Err(CacheError::Full));
    assert_eq!(format!("{:?}", cache.rows()), before);
    assert_eq!(cache.save_feed(&feed("last", "Still", vec![entry("x", None, "")]), 0, 1_000), Ok(()));
    assert_eq!(cache.load_feed("last").unwrap().unwrap().title, "Still");
    assert_eq!(CacheError::Full.message(), "no identifier is left for a new feed");
    assert_eq!(CacheError::Constraint.message(), "the rows break a rule of the cache");
}

#[test]
fn a_new_feed_gets_the_identifier_above_the_largest() {
    let mut cache = FeedCache::restore(vec![row(7, "a", Vec::new()), row(3, "b", Vec::new())]).unwrap();
    cache.save_feed(&feed("c", "C", Vec::new()), 0, 1_000).unwrap();
    assert_eq!(id_of(&cache, "c"), Some(8));
    cache.delete_feed("c").unwrap();
    cache.delete_feed("a").unwrap();
    cache.save_feed(&feed("d", "D", Vec::new()), 0, 1_000).unwrap();
    assert_eq!(id_of(&cache, "d"), Some(4));
}
