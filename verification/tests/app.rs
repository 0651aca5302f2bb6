use shinbun::app::{command_for, App, AppState, Command, Key};
use shinbun::cache::FeedCache;
use shinbun::config::{Feeds, QueryFeed, UiConfig};
use shinbun::display::{build_display_feeds, DisplayFeed};
use shinbun::feeds::{Feed, FeedEntry};
use shinbun::fetch::FeedUpdate;

fn entry(title: &str, published: Option<&str>) -> FeedEntry {
    FeedEntry {
        title: title.to_string(),
        published: published.map(|d| d.to_string()),
        text: format!("text of {}", title),
        links: Vec::new(),
        media: String::new(),
        feed_title: None,
        read: false,
    }
}

fn feed(url: &str, title: &str, tags: &[&str], entries: Vec<FeedEntry>) -> Feed {
    Feed {
        url: url.to_string(),
        title: title.to_string(),
        entries,
        tags: Some(tags.iter().map(|t| t.to_string()).collect()),
    }
}

fn batch() -> Vec<Feed> {
    vec![
        feed(
            "https://a",
            "Alpha",
            &["blog"],
            vec![entry("a-old", Some("2024-01-01")), entry("a-new", Some("2024-05-01"))],
        ),
        feed("https://b", "Beta", &["news"], vec![entry("b-one", Some("2024-03-01")), entry("b-undated", None)]),
    ]
}

fn queries() -> Vec<QueryFeed> {
    vec![
        QueryFeed { name: "Everything".to_string(), query: "*".to_string() },
        QueryFeed { name: "Blogs".to_string(), query: "tags:blog".to_string() },
    ]
}

fn configs() -> Vec<Feeds> {
    vec![
        Feeds { link: "https://a".to_string(), name: None, tags: Some(vec!["blog".to_string()]) },
        Feeds { link: "https://b".to_string(), name: Some("Beta".to_string()), tags: None },
    ]
}

fn ui() -> UiConfig {
    UiConfig { split_view: true, show_borders: true }
}

/// An application that has taken in `batch()`.
fn app() -> App {
    let mut app = App::new(Vec::new(), ui(), configs(), queries(), FeedCache::new());
    app.handle_feed_update(FeedUpdate::Replace(batch()), 100);
    app.handle_feed_update(FeedUpdate::FetchComplete, 1_000);
    app
}

fn titles(shown: &DisplayFeed) -> Vec<(String, bool)> {
    shown.entries().iter().map(|e| (e.title.clone(), e.read)).collect()
}

fn read_in(app: &App, shown: usize, title: &str) -> bool {
    app.display_feeds()[shown].entries().iter().find(|e| e.title == title).unwrap().read
}

fn go_to(app: &mut App, shown: usize, entry: usize) {
    while app.state() != AppState::BrowsingFeeds {
        app.handle_back();
    }
    while app.feed_index() > shown {
        app.handle_up();
    }
    while app.feed_index() < shown {
        app.handle_down();
    }
    app.handle_enter();
    for _ in 0..entry {
        app.handle_down();
    }
    assert_eq!(app.feed_index(), shown);
    assert_eq!(app.entry_selected(), Some(entry));
}

#[test]
fn a_new_application_waits_for_feeds() {
    let app = App::new(Vec::new(), ui(), configs(), queries(), FeedCache::new());
    assert!(app.loading_state().is_loading);
    assert!(!app.should_exit());
    assert_eq!(app.state(), AppState::BrowsingFeeds);
    assert_eq!(app.feed_index(), 0);
    assert_eq!(app.feed_selected(), Some(0));
    assert_eq!(app.entry_selected(), None);
    assert_eq!(app.display_feeds().len(), 2);
    assert!(app.display_feeds().iter().all(|d| d.is_query() && d.entries().is_empty()));
    assert_eq!(app.ui_config(), ui());
    assert_eq!(app.current_feed(), None);
    assert!(app.feed_errors().is_empty());
    assert!(!app.show_error_popup());
}

#[test]
fn a_new_application_over_feeds_does_not_load() {
    let app = App::new(batch(), ui(), configs(), queries(), FeedCache::new());
    assert!(!app.loading_state().is_loading);
    assert_eq!(app.feeds().len(), 2);
    assert_eq!(app.display_feeds().len(), 4);
}

#[test]
fn what_is_shown_is_queries_then_feeds() {
    let shown = build_display_feeds(&batch(), &queries());
    let names: Vec<&str> = shown.iter().map(|d| d.title()).collect();
    assert_eq!(names, vec!["Everything", "Blogs", "Alpha", "Beta"]);
    assert_eq!(
        shown.iter().map(|d| d.is_query()).collect::<Vec<bool>>(),
        vec![true, true, false, false]
    );
    let all: Vec<String> = shown[0].entries().iter().map(|e| e.title.clone()).collect();
    assert_eq!(all, vec!["a-new", "b-one", "a-old", "b-undated"]);
    let blogs: Vec<String> = shown[1].entries().iter().map(|e| e.title.clone()).collect();
    assert_eq!(blogs, vec!["a-new", "a-old"]);
    assert!(shown[0].entries().iter().all(|e| e.feed_title.is_some()));
    let alpha: Vec<String> = shown[2].entries().iter().map(|e| e.title.clone()).collect();
    assert_eq!(alpha, vec!["a-old", "a-new"]);
    assert!(shown[2].entries().iter().all(|e| e.feed_title.is_none()));
}

#[test]
fn a_batch_is_saved_and_read_back_from_the_cache() {
    let app = app();
    assert!(!app.loading_state().is_loading);
    assert_eq!(app.feeds().len(), 2);
    let alpha: Vec<&str> = app.feeds()[0].entries.iter().map(|e| e.title.as_str()).collect();
    assert_eq!(alpha, vec!["a-new", "a-old"]);
    assert_eq!(app.cache().has_feed("https://a"), Ok(true));
    assert_eq!(app.cache().get_last_fetch("https://b"), Ok(Some(100)));
    assert_eq!(app.display_feeds().len(), 4);
}

#[test]
fn marking_in_a_query_shows_under_the_feed() {
    let mut app = app();
    go_to(&mut app, 0, 1);
    assert_eq!(app.display_feeds()[0].entries()[1].title, "b-one");
    app.handle_enter();
    assert_eq!(app.state(), AppState::ViewingEntry);
    assert!(read_in(&app, 0, "b-one"));
    assert!(read_in(&app, 3, "b-one"));
    assert!(!read_in(&app, 3, "b-undated"));
    assert!(app.feeds()[1].entries.iter().find(|e| e.title == "b-one").unwrap().read);
    let held = app.cache().load_feed("https://b").unwrap().unwrap();
    assert!(held.entries.iter().find(|e| e.title == "b-one").unwrap().read);
    assert!(titles(&app.display_feeds()[1]).iter().all(|(_, read)| !read));
}

#[test]
fn marking_under_the_feed_shows_in_every_query() {
    let mut app = app();
    go_to(&mut app, 2, 0);
    assert_eq!(app.display_feeds()[2].entries()[0].title, "a-new");
    app.handle_enter();
    assert!(read_in(&app, 2, "a-new"));
    assert!(read_in(&app, 0, "a-new"));
    assert!(read_in(&app, 1, "a-new"));
    assert!(!read_in(&app, 0, "a-old"));
    assert!(!read_in(&app, 1, "a-old"));
    assert!(!read_in(&app, 0, "b-one"));
}

#[test]
fn what_was_marked_is_what_a_rebuild_shows() {
    let mut app = app();
    go_to(&mut app, 0, 3);
    app.handle_enter();
    go_to(&mut app, 2, 1);
    app.handle_enter();
    let rebuilt = build_display_feeds(app.feeds(), &queries());
    assert_eq!(rebuilt.len(), app.display_feeds().len());
    for (a, b) in rebuilt.iter().zip(app.display_feeds().iter()) {
        assert_eq!(a.title(), b.title());
        assert_eq!(titles(a), titles(b));
    }
    assert!(read_in(&app, 3, "b-undated"));
    assert!(read_in(&app, 0, "a-old"));
}

#[test]
fn marking_read_twice_is_marking_once() {
    let mut app = app();
    go_to(&mut app, 0, 0);
    app.mark_selected_entry_read(0);
    let shown: Vec<Vec<(String, bool)>> = app.display_feeds().iter().map(titles).collect();
    let rows = format!("{:?}", app.cache().rows());
    let feeds = format!("{:?}", app.feeds());
    app.mark_selected_entry_read(0);
    assert_eq!(app.display_feeds().iter().map(titles).collect::<Vec<_>>(), shown);
    assert_eq!(format!("{:?}", app.cache().rows()), rows);
    assert_eq!(format!("{:?}", app.feeds()), feeds);
    assert!(read_in(&app, 0, "a-new"));
}

#[test]
fn marking_where_there_is_no_entry_changes_nothing() {
    let mut app = app();
    let rows = format!("{:?}", app.cache().rows());
    app.mark_selected_entry_read(99);
    app.toggle_selected_entry_read(99);
    assert_eq!(format!("{:?}", app.cache().rows()), rows);
    assert!(app.display_feeds().iter().all(|d| d.entries().iter().all(|e| !e.read)));
}

#[test]
fn toggling_changes_the_flag_there_and_back() {
    let mut app = app();
    go_to(&mut app, 1, 1);
    assert!(app.handle_key(Key::Char('m')).is_none());
    assert!(read_in(&app, 1, "a-old"));
    assert!(read_in(&app, 2, "a-old"));
    assert!(read_in(&app, 0, "a-old"));
    assert!(app.handle_key(Key::Char('M')).is_none());
    assert!(!read_in(&app, 1, "a-old"));
    assert!(!read_in(&app, 2, "a-old"));
    assert!(!read_in(&app, 0, "a-old"));
    let held = app.cache().load_feed("https://a").unwrap().unwrap();
    assert!(held.entries.iter().all(|e| !e.read));
}

#[test]
fn read_flags_outlive_the_next_batch() {
    let mut app = app();
    go_to(&mut app, 3, 0);
    app.handle_enter();
    assert!(read_in(&app, 3, "b-one"));
    let mut next = batch();
    next[1].entries.remove(1);
    next[1].entries.push(entry("b-two", Some("2024-06-01")));
    app.handle_feed_update(FeedUpdate::Replace(next), 200);
    assert!(read_in(&app, 3, "b-one"));
    assert!(read_in(&app, 0, "b-one"));
    let beta: Vec<(String, bool)> = titles(&app.display_feeds()[3]);
    assert_eq!(
        beta,
        vec![("b-two".to_string(), false), ("b-one".to_string(), true), ("b-undated".to_string(), false)]
    );
}

#[test]
fn a_batch_without_a_feed_keeps_the_feed_from_the_cache() {
    let mut app = app();
    let mut next = batch();
    next.remove(0);
    app.handle_feed_update(FeedUpdate::Replace(next), 200);
    let urls: Vec<&str> = app.feeds().iter().map(|f| f.url.as_str()).collect();
    assert_eq!(urls, vec!["https://a", "https://b"]);
    assert_eq!(app.feeds()[0].entries.len(), 2);
    let places: Vec<usize> = app.cache().rows().iter().map(|r| r.position).collect();
    assert_eq!(places, vec![0, 0]);
}

#[test]
fn one_feed_fetched_again_takes_its_place() {
    let mut app = app();
    go_to(&mut app, 2, 0);
    app.handle_enter();
    let again = feed("https://a", "Alpha!", &["blog"], vec![entry("a-newest", Some("2024-07-01"))]);
    app.handle_feed_update(FeedUpdate::UpdateFeed(0, again), 300);
    assert_eq!(app.feeds()[0].title, "Alpha!");
    let alpha = titles(&app.display_feeds()[2]);
    assert_eq!(
        alpha,
        vec![("a-newest".to_string(), false), ("a-new".to_string(), true), ("a-old".to_string(), false)]
    );
    assert_eq!(titles(&app.display_feeds()[1]), alpha);
    assert_eq!(app.cache().get_last_fetch("https://a"), Ok(Some(300)));
    assert_eq!(app.cache().get_last_fetch("https://b"), Ok(Some(100)));
}

#[test]
fn one_feed_that_is_not_among_the_feeds_is_only_saved() {
    let mut app = app();
    let other = feed("https://c", "Gamma", &[], vec![entry("c-one", None)]);
    app.handle_feed_update(FeedUpdate::UpdateFeed(5, other), 300);
    assert_eq!(app.feeds().len(), 2);
    assert_eq!(app.display_feeds().len(), 4);
    assert_eq!(app.cache().has_feed("https://c"), Ok(true));
    let rows = app.cache().rows();
    assert_eq!(rows[2].position, 2);
}

#[test]
fn progress_and_errors_are_kept_to_be_shown() {
    let mut app = App::new(Vec::new(), ui(), configs(), queries(), FeedCache::new());
    app.handle_feed_update(FeedUpdate::FetchingFeed("Alpha".to_string()), 1_000);
    assert_eq!(app.current_feed(), Some("Alpha"));
    app.handle_feed_update(FeedUpdate::FeedError { name: "Beta".to_string(), error: "down".to_string() }, 1_000);
    assert_eq!(app.feed_errors().len(), 1);
    assert_eq!(app.feed_errors()[0].name, "Beta");
    assert_eq!(app.feed_errors()[0].error, "down");
    assert!(app.loading_state().is_loading);
    app.handle_feed_update(FeedUpdate::FetchComplete, 1_000);
    assert!(!app.loading_state().is_loading);
    assert_eq!(app.current_feed(), None);
    assert_eq!(app.feed_errors().len(), 1);
}

#[test]
fn a_refresh_does_not_start_while_one_runs() {
    let mut app = App::new(Vec::new(), ui(), configs(), queries(), FeedCache::new());
    app.handle_feed_update(FeedUpdate::FeedError { name: "Beta".to_string(), error: "down".to_string() }, 1_000);
    assert!(app.refresh_feeds().is_none());
    assert_eq!(app.feed_errors().len(), 1);
    app.handle_feed_update(FeedUpdate::FetchComplete, 1_000);
    let to_fetch = app.refresh_feeds().unwrap();
    assert_eq!(to_fetch.len(), 2);
    assert_eq!(to_fetch[0].link, "https://a");
    assert_eq!(to_fetch[1].name.as_deref(), Some("Beta"));
    assert!(app.loading_state().is_loading);
    assert!(app.feed_errors().is_empty());
    assert!(!app.show_error_popup());
    assert!(app.refresh_feeds().is_none());
    assert!(app.handle_key(Key::Char('r')).is_none());
}

#[test]
fn keys_ask_for_commands() {
    assert_eq!(command_for(Key::Char('q'), false), Command::Quit);
    assert_eq!(command_for(Key::Char('Q'), false), Command::Quit);
    assert_eq!(command_for(Key::Char('r'), false), Command::Refresh);
    assert_eq!(command_for(Key::Char('R'), false), Command::Refresh);
    assert_eq!(command_for(Key::Char('e'), false), Command::ToggleErrors);
    assert_eq!(command_for(Key::Char('m'), false), Command::ToggleRead);
    assert_eq!(command_for(Key::Up, false), Command::Up);
    assert_eq!(command_for(Key::Char('k'), false), Command::Up);
    assert_eq!(command_for(Key::Char('K'), false), Command::Nothing);
    assert_eq!(command_for(Key::Down, false), Command::Down);
    assert_eq!(command_for(Key::Char('j'), false), Command::Down);
    assert_eq!(command_for(Key::Right, false), Command::Enter);
    assert_eq!(command_for(Key::Char('l'), false), Command::Enter);
    assert_eq!(command_for(Key::Enter, false), Command::Enter);
    assert_eq!(command_for(Key::Left, false), Command::Back);
    assert_eq!(command_for(Key::Char('h'), false), Command::Back);
    assert_eq!(command_for(Key::Backspace, false), Command::Back);
    assert_eq!(command_for(Key::Esc, false), Command::Nothing);
    assert_eq!(command_for(Key::Other, false), Command::Nothing);
    assert_eq!(command_for(Key::Esc, true), Command::CloseErrors);
    assert_eq!(command_for(Key::Enter, true), Command::CloseErrors);
    assert_eq!(command_for(Key::Char('e'), true), Command::CloseErrors);
    assert_eq!(command_for(Key::Char('E'), true), Command::CloseErrors);
    assert_eq!(command_for(Key::Char('q'), true), Command::Nothing);
    assert_eq!(command_for(Key::Down, true), Command::Nothing);
}

#[test]
fn the_list_of_errors_opens_only_when_there_are_errors() {
    let mut app = app();
    app.handle_key(Key::Char('e'));
    assert!(!app.show_error_popup());
    app.handle_feed_update(FeedUpdate::FeedError { name: "Beta".to_string(), error: "down".to_string() }, 1_000);
    app.handle_key(Key::Char('e'));
    assert!(app.show_error_popup());
    app.handle_key(Key::Char('q'));
    assert!(!app.should_exit());
    assert!(app.show_error_popup());
    app.handle_key(Key::Esc);
    assert!(!app.show_error_popup());
    app.handle_key(Key::Char('q'));
    assert!(app.should_exit());
}

#[test]
fn a_key_starts_a_refresh() {
    let mut app = app();
    let to_fetch = app.handle_key(Key::Char('R')).unwrap();
    assert_eq!(to_fetch.len(), 2);
    assert!(app.loading_state().is_loading);
}

#[test]
fn steps_through_feeds_and_entries() {
    let mut app = app();
    app.handle_key(Key::Up);
    assert_eq!(app.feed_index(), 0);
    for _ in 0..10 {
        app.handle_key(Key::Down);
    }
    assert_eq!(app.feed_index(), 3);
    assert_eq!(app.feed_selected(), Some(3));
    app.handle_key(Key::Char('k'));
    assert_eq!(app.feed_index(), 2);
    app.handle_key(Key::Enter);
    assert_eq!(app.state(), AppState::BrowsingEntries);
    assert_eq!(app.entry_selected(), Some(0));
    app.handle_key(Key::Up);
    assert_eq!(app.entry_selected(), Some(0));
    app.handle_key(Key::Down);
    app.handle_key(Key::Down);
    assert_eq!(app.entry_selected(), Some(1));
    assert_eq!(app.feed_index(), 2);
    app.handle_key(Key::Right);
    assert_eq!(app.state(), AppState::ViewingEntry);
    assert_eq!(app.entry_scroll(), 0);
    assert!(read_in(&app, 2, "a-old"));
    app.handle_key(Key::Up);
    assert_eq!(app.entry_scroll(), 0);
    app.handle_key(Key::Down);
    app.handle_key(Key::Down);
    app.handle_key(Key::Down);
    assert_eq!(app.entry_scroll(), 3);
    app.limit_entry_scroll(5);
    assert_eq!(app.entry_scroll(), 3);
    app.limit_entry_scroll(1);
    assert_eq!(app.entry_scroll(), 1);
    app.handle_key(Key::Enter);
    assert_eq!(app.state(), AppState::ViewingEntry);
    app.handle_key(Key::Left);
    assert_eq!(app.state(), AppState::BrowsingEntries);
    app.handle_key(Key::Backspace);
    assert_eq!(app.state(), AppState::BrowsingFeeds);
    app.handle_key(Key::Char('h'));
    assert_eq!(app.state(), AppState::BrowsingFeeds);
    app.handle_key(Key::Char('m'));
    assert!(app.display_feeds().iter().all(|d| d.entries().iter().filter(|e| e.read).count() <= 1));
}

#[test]
fn sync_sets_the_flag_everywhere_and_nowhere_else() {
    let mut app = app();
    app.sync_read_state("https://b", "b-undated", None, true);
    assert!(read_in(&app, 0, "b-undated"));
    assert!(read_in(&app, 3, "b-undated"));
    assert!(app.feeds()[1].entries.iter().find(|e| e.title == "b-undated").unwrap().read);
    app.sync_read_state("https://b", "b-one", None, true);
    app.sync_read_state("https://nowhere", "b-one", Some("2024-03-01"), true);
    app.sync_read_state("https://a", "b-one", Some("2024-03-01"), true);
    assert!(!read_in(&app, 0, "b-one"));
    assert!(!read_in(&app, 3, "b-one"));
    app.sync_read_state("https://b", "b-undated", None, false);
    assert!(app.display_feeds().iter().all(|d| d.entries().iter().all(|e| !e.read)));
}

#[test]
fn feeds_that_the_cache_lacks_are_still_to_fetch() {
    let fresh = App::new(Vec::new(), ui(), configs(), queries(), FeedCache::new());
    let links: Vec<String> = fresh.uncached_feeds().into_iter().map(|f| f.link).collect();
    assert_eq!(links, vec!["https://a", "https://b"]);
    let mut app = app();
    assert!(app.uncached_feeds().is_empty());
    let other = feed("https://b", "Beta", &[], Vec::new());
    let mut cache = FeedCache::new();
    cache.save_feed(&other, 0, 1_000).unwrap();
    app = App::new(vec![other], ui(), configs(), queries(), cache);
    let links: Vec<String> = app.uncached_feeds().into_iter().map(|f| f.link).collect();
    assert_eq!(links, vec!["https://a"]);
}

#[test]
fn messages_that_save_nothing_leave_the_cache_alone() {
    let mut app = app();
    let rows = app.cache().rows();
    app.handle_feed_update(FeedUpdate::FetchingFeed("Alpha".to_string()), 9_999);
    app.handle_feed_update(
        FeedUpdate::FeedError { name: "Beta".to_string(), error: "down".to_string() },
        9_999,
    );
    app.handle_feed_update(FeedUpdate::FetchComplete, 9_999);
    assert_eq!(app.cache().rows(), rows);
    assert_eq!(app.cache().get_last_fetch("https://a"), Ok(Some(100)));
}
