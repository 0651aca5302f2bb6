//! The application: the feeds, what is shown of them, where the user is, and the cache
//! behind it all. Every change of a read flag goes through here: it is written to the
//! cache and carried to the feeds and to all that is shown.

use crate::cache::{CacheView, FeedCache};
use crate::config::{Feeds, FeedsView, QueryFeed, QueryFeedView, UiConfig};
use crate::display::{
    build_display_feeds, display_of, displays_marked, distinct_feeds, distinct_urls, entry_at,
    feed_by_title, feed_by_url, feeds_marked, find_by_title, find_by_url,
    lemma_displays_marked_twice, lemma_entry_at_found, lemma_feed_by_title_found,
    lemma_feed_by_url, lemma_feed_by_url_found, lemma_feed_found_same, lemma_feeds_marked_twice,
    lemma_marked_is_rebuilt, mark_in_display, mark_in_feeds, owner_url, source_title, DisplayFeed,
    DisplayView,
};
use crate::feeds::{clone_optional_string, EntryView, Feed, FeedView};
use crate::fetch::{FeedError, FeedErrorView, FeedUpdate, UpdateView};
use crate::history::lemma_mark_twice;
use crate::loading::LoadingState;
use vstd::prelude::*;

verus! {

/// Where the user is.
#[derive(Debug, Clone, Copy, PartialEq, Eq, Structural)]
pub enum AppState {
    BrowsingFeeds,
    BrowsingEntries,
    ViewingEntry,
}

/// A key that the user pressed.
#[derive(Debug, Clone, Copy, PartialEq, Eq, Structural)]
pub enum Key {
    Char(char),
    Up,
    Down,
    Left,
    Right,
    Enter,
    Backspace,
    Esc,
    Other,
}

/// What a key asks for.
#[derive(Debug, Clone, Copy, PartialEq, Eq, Structural)]
pub enum Command {
    /// Close the list of errors.
    CloseErrors,
    Quit,
    Refresh,
    /// Show the list of errors, or hide it.
    ToggleErrors,
    /// Change the read flag of the selected entry.
    ToggleRead,
    Up,
    Down,
    Enter,
    Back,
    Nothing,
}

/// The application.
pub struct App {
    feeds: Vec<Feed>,
    display_feeds: Vec<DisplayFeed>,
    feed_config: Vec<Feeds>,
    query_config: Vec<QueryFeed>,
    feed_index: usize,
    feed_selected: Option<usize>,
    entry_selected: Option<usize>,
    state: AppState,
    entry_scroll: usize,
    ui_config: UiConfig,
    exit: bool,
    loading_state: LoadingState,
    current_feed: Option<String>,
    feed_errors: Vec<FeedError>,
    show_error_popup: bool,
    cache: FeedCache,
}

/// The value of an [`App`].
pub struct AppView {
    /// The feeds, as they were last read from the cache.
    pub feeds: Seq<FeedView>,
    /// What is shown: the query feeds, then the feeds.
    pub display_feeds: Seq<DisplayView>,
    pub feed_config: Seq<FeedsView>,
    pub query_config: Seq<QueryFeedView>,
    /// The index, in what is shown, of the feed that the user is at.
    pub feed_index: usize,
    /// The feed that is marked in the list of feeds.
    pub feed_selected: Option<usize>,
    /// The entry that is marked in the list of entries.
    pub entry_selected: Option<usize>,
    pub state: AppState,
    /// How far the entry that is viewed is scrolled.
    pub entry_scroll: usize,
    pub ui_config: UiConfig,
    pub exit: bool,
    pub loading_state: LoadingState,
    /// The name of the feed that is being fetched.
    pub current_feed: Option<Seq<char>>,
    /// The feeds that failed in the last refresh.
    pub feed_errors: Seq<FeedErrorView>,
    pub show_error_popup: bool,
    pub cache: CacheView,
}

/// What `key` asks for while the list of errors is open, or closed.
pub open spec fn command_of(key: Key, errors_open: bool) -> Command {
    if errors_open {
        match key {
            Key::Esc | Key::Enter => Command::CloseErrors,
            Key::Char(c) => if c == 'e' || c == 'E' {
                Command::CloseErrors
            } else {
                Command::Nothing
            },
            _ => Command::Nothing,
        }
    } else {
        match key {
            Key::Char(c) => if c == 'q' || c == 'Q' {
                Command::Quit
            } else if c == 'r' || c == 'R' {
                Command::Refresh
            } else if c == 'e' || c == 'E' {
                Command::ToggleErrors
            } else if c == 'm' || c == 'M' {
                Command::ToggleRead
            } else if c == 'k' {
                Command::Up
            } else if c == 'j' {
                Command::Down
            } else if c == 'l' {
                Command::Enter
            } else if c == 'h' {
                Command::Back
            } else {
                Command::Nothing
            },
            Key::Up => Command::Up,
            Key::Down => Command::Down,
            Key::Right | Key::Enter => Command::Enter,
            Key::Left | Key::Backspace => Command::Back,
            _ => Command::Nothing,
        }
    }
}

/// The cache after the feeds of a batch were saved in turn at the time `now`, each at
/// its place in the batch, from the place `from` on. A feed that cannot be saved is
/// passed over.
pub open spec fn batch_saved(cache: CacheView, batch: Seq<FeedView>, from: int, now: int)
    -> CacheView
    decreases batch.len() - from,
{
    if from < 0 || from >= batch.len() {
        cache
    } else {
        batch_saved(cache.try_saved(batch[from], from, now), batch, from + 1, now)
    }
}

/// Whether a change of the read flag of the entry known by `title` and `published` of the
/// feed at `url` changes the entry at `j` of the shown feed at `d`: under a feed at the
/// address, the first entry of the title and date; in the result of a query, an entry of
/// the title and date that names the first feed at the address as its source.
pub open spec fn changes_at(
    app: AppView,
    url: Seq<char>,
    title: Seq<char>,
    published: Option<Seq<char>>,
    d: int,
    j: int,
) -> bool {
    let entries = app.display_feeds[d].entries();
    match app.display_feeds[d] {
        DisplayView::Regular(feed) => feed.url == url && j == entry_at(entries, title, published),
        DisplayView::Query { .. } => source_title(app.feeds, url) is Some && entries[j].feed_title
            == source_title(app.feeds, url) && entries[j].is(title, published),
    }
}

/// The feeds among `configs` that `cache` does not hold, in the order of `configs`.
pub open spec fn uncached(configs: Seq<FeedsView>, cache: CacheView) -> Seq<FeedsView>
    decreases configs.len(),
{
    if configs.len() == 0 {
        Seq::empty()
    } else if cache.has(configs.last().link) {
        uncached(configs.drop_last(), cache)
    } else {
        uncached(configs.drop_last(), cache).push(configs.last())
    }
}

impl AppView {
    /// The rules of the application: those of its cache.
    pub open spec fn wf(self) -> bool {
        self.cache.wf()
    }

    /// The feed that the user is at, if there is one.
    pub open spec fn shown_feed(self) -> Option<DisplayView> {
        if self.feed_index < self.display_feeds.len() {
            Some(self.display_feeds[self.feed_index as int])
        } else {
            None
        }
    }

    /// The entry at `index` of the feed that the user is at, if there is one.
    pub open spec fn shown_entry(self, index: usize) -> Option<EntryView> {
        match self.shown_feed() {
            Some(feed) => if index < feed.entries().len() {
                Some(feed.entries()[index as int])
            } else {
                None
            },
            None => None,
        }
    }

    /// The address of the feed that owns `entry`, an entry of the feed that the user is
    /// at: the address of that feed, or for a query feed the address of the first feed
    /// with the title that the entry names as its source.
    pub open spec fn owner_of(self, entry: EntryView) -> Option<Seq<char>> {
        match self.shown_feed() {
            Some(DisplayView::Regular(feed)) => Some(feed.url),
            Some(DisplayView::Query { .. }) => match entry.feed_title {
                Some(title) => owner_url(self.feeds, title),
                None => None,
            },
            None => None,
        }
    }

    /// The application after the read flag of an entry was set in the feeds and in all
    /// that is shown.
    pub open spec fn synced(
        self,
        url: Seq<char>,
        title: Seq<char>,
        published: Option<Seq<char>>,
        read: bool,
    ) -> AppView {
        AppView {
            feeds: feeds_marked(self.feeds, url, title, published, read),
            display_feeds: displays_marked(
                self.display_feeds,
                url,
                source_title(self.feeds, url),
                title,
                published,
                read,
            ),
            ..self
        }
    }

    /// The application after `entry`, an entry of the feed that the user is at, got the
    /// read flag `read`: in the cache, in the feeds and in all that is shown. Nothing
    /// changes where no feed owns the entry.
    pub open spec fn flagged(self, entry: EntryView, read: bool) -> AppView {
        match self.owner_of(entry) {
            Some(url) => AppView {
                cache: self.cache.marked(url, entry.title, entry.published, read),
                ..self.synced(url, entry.title, entry.published, read)
            },
            None => self,
        }
    }

    /// The application after the entry at `index` was marked as read. Nothing changes
    /// where there is no such entry or it is read already.
    pub open spec fn marked_read(self, index: usize) -> AppView {
        match self.shown_entry(index) {
            Some(entry) => if entry.read {
                self
            } else {
                self.flagged(entry, true)
            },
            None => self,
        }
    }

    /// The application after the read flag of the entry at `index` was changed to what
    /// it was not.
    pub open spec fn toggled(self, index: usize) -> AppView {
        match self.shown_entry(index) {
            Some(entry) => self.flagged(entry, !entry.read),
            None => self,
        }
    }

    /// The application with the feeds `feeds`, and what is shown built anew from them.
    pub open spec fn with_feeds(self, feeds: Seq<FeedView>) -> AppView {
        AppView { feeds, display_feeds: display_of(feeds, self.query_config), ..self }
    }

    /// The application after a batch of feeds came in at the time `now`: every feed of
    /// the batch is saved to the cache at its place in the batch, and the feeds are what
    /// the cache then holds, so that what was read stays read.
    pub open spec fn replaced(self, batch: Seq<FeedView>, now: int) -> AppView {
        let cache = batch_saved(self.cache, batch, 0, now);
        AppView { cache, ..self }.with_feeds(cache.loaded_all())
    }

    /// The application after one feed came in at the time `now`: the feed is saved to the
    /// cache, at its place among the feeds or behind them, and takes the place of the feed
    /// at its address, as the cache then holds it. Where no feed is at its address only
    /// the cache changes.
    pub open spec fn updated(self, feed: FeedView, now: int) -> AppView {
        let place = feed_by_url(self.feeds, feed.url);
        let cache = self.cache.try_saved(feed, place, now);
        let fresh = match cache.loaded(feed.url) {
            Some(held) => held,
            None => feed,
        };
        let at = feed_by_url(self.feeds, fresh.url);
        if 0 <= at < self.feeds.len() {
            AppView { cache, ..self }.with_feeds(self.feeds.update(at, fresh))
        } else {
            AppView { cache, ..self }
        }
    }

    /// The application after the message `update` came in at the time `now`, but for the
    /// state of the fetch.
    pub open spec fn received(self, update: UpdateView, now: int) -> AppView {
        match update {
            UpdateView::Replace(batch) => self.replaced(batch, now),
            UpdateView::UpdateFeed(_, feed) => self.updated(feed, now),
            UpdateView::FetchingFeed(name) => AppView { current_feed: Some(name), ..self },
            UpdateView::FeedError { name, error } => AppView {
                feed_errors: self.feed_errors.push(FeedErrorView { name, error }),
                ..self
            },
            UpdateView::FetchComplete => AppView { current_feed: None, ..self },
        }
    }

    /// The application after a step up: to the feed or entry before, or a line up in the
    /// entry that is viewed.
    pub open spec fn moved_up(self) -> AppView {
        match self.state {
            AppState::BrowsingFeeds => if self.feed_index > 0 {
                AppView {
                    feed_index: (self.feed_index - 1) as usize,
                    feed_selected: Some((self.feed_index - 1) as usize),
                    ..self
                }
            } else {
                self
            },
            AppState::BrowsingEntries => match self.entry_selected {
                Some(at) => if at > 0 {
                    AppView { entry_selected: Some((at - 1) as usize), ..self }
                } else {
                    self
                },
                None => self,
            },
            AppState::ViewingEntry => AppView {
                entry_scroll: if self.entry_scroll > 0 {
                    (self.entry_scroll - 1) as usize
                } else {
                    0
                },
                ..self
            },
        }
    }

    /// The application after a step down: to the next feed or entry, if there is one, or
    /// a line down in the entry that is viewed.
    pub open spec fn moved_down(self) -> AppView {
        match self.state {
            AppState::BrowsingFeeds => if self.feed_index + 1 < self.display_feeds.len() {
                AppView {
                    feed_index: (self.feed_index + 1) as usize,
                    feed_selected: Some((self.feed_index + 1) as usize),
                    ..self
                }
            } else {
                self
            },
            AppState::BrowsingEntries => match (self.entry_selected, self.shown_feed()) {
                (Some(at), Some(feed)) => if at + 1 < feed.entries().len() {
                    AppView { entry_selected: Some((at + 1) as usize), ..self }
                } else {
                    self
                },
                _ => self,
            },
            AppState::ViewingEntry => AppView {
                entry_scroll: if self.entry_scroll < usize::MAX {
                    (self.entry_scroll + 1) as usize
                } else {
                    usize::MAX
                },
                ..self
            },
        }
    }

    /// The application after a step in: from the feeds to the entries of the feed, the
    /// first of them marked; from the entries to the marked entry, which is marked as
    /// read.
    pub open spec fn entered(self) -> AppView {
        match self.state {
            AppState::BrowsingFeeds => AppView {
                state: AppState::BrowsingEntries,
                entry_selected: Some(0),
                ..self
            },
            AppState::BrowsingEntries => {
                let marked = match self.entry_selected {
                    Some(at) => self.marked_read(at),
                    None => self,
                };
                AppView { state: AppState::ViewingEntry, entry_scroll: 0, ..marked }
            },
            AppState::ViewingEntry => self,
        }
    }

    /// The application after a step back: from the entry to the entries, from the
    /// entries to the feeds.
    pub open spec fn backed(self) -> AppView {
        match self.state {
            AppState::ViewingEntry => AppView { state: AppState::BrowsingEntries, ..self },
            AppState::BrowsingEntries => AppView { state: AppState::BrowsingFeeds, ..self },
            AppState::BrowsingFeeds => self,
        }
    }

    /// The application after `command`, but for a refresh, which also depends on the
    /// clock.
    pub open spec fn obeyed(self, command: Command) -> AppView {
        match command {
            Command::CloseErrors => AppView { show_error_popup: false, ..self },
            Command::Quit => AppView { exit: true, ..self },
            Command::ToggleErrors => if self.feed_errors.len() > 0 {
                AppView { show_error_popup: !self.show_error_popup, ..self }
            } else {
                self
            },
            Command::ToggleRead => match (self.state, self.entry_selected) {
                (AppState::BrowsingEntries, Some(at)) => self.toggled(at),
                (AppState::ViewingEntry, Some(at)) => self.toggled(at),
                _ => self,
            },
            Command::Up => self.moved_up(),
            Command::Down => self.moved_down(),
            Command::Enter => self.entered(),
            Command::Back => self.backed(),
            Command::Refresh | Command::Nothing => self,
        }
    }
}

/// The time matters to what is saved only: a message that is neither a batch nor a
/// single feed is taken in the same at any time.
pub proof fn lemma_received_at_any_time(app: AppView, update: UpdateView, a: int, b: int)
    requires
        !(update is Replace || update is UpdateFeed),
    ensures
        app.received(update, a) == app.received(update, b),
{
}

/// A read flag that is set through one place shows in every other. After `entry`, shown
/// under its feed or in the result of a query, got the flag `read`, the entry has that
/// flag in the cache, under every shown feed at the address of its owner, and in the
/// result of every query that lists it as coming from that feed.
pub proof fn lemma_flag_shows_everywhere(app: AppView, entry: EntryView, read: bool, k: int, j: int)
    requires
        app.owner_of(entry) is Some,
        0 <= k < app.display_feeds.len(),
        0 <= j < app.display_feeds[k].entries().len(),
    ensures
        ({
            let url = app.owner_of(entry)->0;
            let after = app.flagged(entry, read);
            let was = app.display_feeds[k].entries()[j];
            let is_first = j == entry_at(
                app.display_feeds[k].entries(),
                entry.title,
                entry.published,
            );
            &&& after.cache == app.cache.marked(url, entry.title, entry.published, read)
            &&& after.feeds == feeds_marked(app.feeds, url, entry.title, entry.published, read)
            &&& after.display_feeds.len() == app.display_feeds.len()
            &&& after.display_feeds[k].entries().len() == app.display_feeds[k].entries().len()
            &&& match app.display_feeds[k] {
                DisplayView::Regular(feed) => after.display_feeds[k].entries()[j] == if feed.url
                    == url && is_first {
                    was.with_read(read)
                } else {
                    was
                },
                DisplayView::Query { .. } => after.display_feeds[k].entries()[j] == if was.is(
                    entry.title,
                    entry.published,
                ) && source_title(app.feeds, url) is Some && was.feed_title == source_title(
                    app.feeds,
                    url,
                ) {
                    was.with_read(read)
                } else {
                    was
                },
            }
        }),
{
    lemma_entry_at_found(app.display_feeds[k].entries(), entry.title, entry.published);
}

/// What is shown stays what the feeds give. Where what is shown was built from the
/// feeds, no two feeds have the same address or title, and no feed lists an entry twice,
/// what is shown after a change of a read flag is what would be built from the feeds as
/// they are then.
pub proof fn lemma_flag_keeps_display(app: AppView, entry: EntryView, read: bool)
    requires
        app.display_feeds == display_of(app.feeds, app.query_config),
        distinct_feeds(app.feeds),
    ensures
        app.flagged(entry, read).display_feeds == display_of(
            app.flagged(entry, read).feeds,
            app.query_config,
        ),
{
    if let Some(url) = app.owner_of(entry) {
        lemma_marked_is_rebuilt(
            app.feeds,
            app.query_config,
            url,
            entry.title,
            entry.published,
            read,
        );
    }
}

/// A read flag set through the result of a query shows under the feed. Say the user is
/// at a query feed, at an unread entry that names a feed among the feeds as its source,
/// no two feeds have the same address, and the feed holds an entry of the title and
/// date. Once the entry is marked as read, the cache was told so under the address of
/// that feed, and the entry is read in the feed, under every shown feed at that address
/// that holds it, and at the place where the user is.
pub proof fn lemma_mark_through_query(app: AppView, index: usize, shown: int)
    requires
        app.shown_feed() is Some && app.shown_feed()->0 is Query,
        app.shown_entry(index) is Some,
        !app.shown_entry(index)->0.read,
        app.shown_entry(index)->0.feed_title is Some,
        feed_by_title(app.feeds, app.shown_entry(index)->0.feed_title->0) < app.feeds.len(),
        distinct_urls(app.feeds),
        0 <= shown < app.display_feeds.len(),
    ensures
        ({
            let entry = app.shown_entry(index)->0;
            let k = feed_by_title(app.feeds, entry.feed_title->0);
            let owner = app.feeds[k];
            let j = entry_at(owner.entries, entry.title, entry.published);
            let after = app.marked_read(index);
            &&& after.cache == app.cache.marked(owner.url, entry.title, entry.published, true)
            &&& after.feeds.len() == app.feeds.len()
            &&& after.feeds[k].entries.len() == owner.entries.len()
            &&& j < owner.entries.len() ==> after.feeds[k].entries[j] == owner.entries[j].with_read(
                true,
            )
            &&& after.display_feeds.len() == app.display_feeds.len()
            &&& after.shown_entry(index) == Some(entry.with_read(true))
            &&& app.display_feeds[shown] matches DisplayView::Regular(feed) ==> {
                let at = entry_at(feed.entries, entry.title, entry.published);
                &&& after.display_feeds[shown].entries().len() == feed.entries.len()
                &&& feed.url == owner.url && at < feed.entries.len()
                    ==> after.display_feeds[shown].entries()[at] == feed.entries[at].with_read(
                    true,
                )
            }
        }),
{
    let entry = app.shown_entry(index)->0;
    let k = feed_by_title(app.feeds, entry.feed_title->0);
    let owner = app.feeds[k];
    lemma_feed_by_title_found(app.feeds, entry.feed_title->0);
    assert forall|i: int| 0 <= i < k implies (#[trigger] app.feeds[i]).url != owner.url by {}
    lemma_feed_by_url(app.feeds, owner.url, k);
    lemma_entry_at_found(owner.entries, entry.title, entry.published);
    if let DisplayView::Regular(feed) = app.display_feeds[shown] {
        lemma_entry_at_found(feed.entries, entry.title, entry.published);
    }
}

/// A read flag set under the feed shows in the result of every query. Say the user is
/// at a feed that is among the feeds under its address and title, at an unread entry
/// that is the first of its title and date there. Once the entry is marked as read, the
/// cache was told so under the address of the feed, and the entry is read in the feed,
/// at the place where the user is, and in the result of every query wherever an entry
/// of the title and date names the feed as its source.
pub proof fn lemma_mark_through_feed(app: AppView, index: usize, shown: int, at: int)
    requires
        app.shown_feed() is Some && app.shown_feed()->0 is Regular,
        app.shown_entry(index) is Some,
        !app.shown_entry(index)->0.read,
        index == entry_at(
            app.shown_feed()->0.entries(),
            app.shown_entry(index)->0.title,
            app.shown_entry(index)->0.published,
        ),
        feed_by_url(app.feeds, app.shown_feed()->0->Regular_0.url) < app.feeds.len(),
        app.feeds[feed_by_url(app.feeds, app.shown_feed()->0->Regular_0.url)].title
            == app.shown_feed()->0.title(),
        0 <= shown < app.display_feeds.len(),
        0 <= at < app.display_feeds[shown].entries().len(),
    ensures
        ({
            let entry = app.shown_entry(index)->0;
            let feed = app.shown_feed()->0->Regular_0;
            let k = feed_by_url(app.feeds, feed.url);
            let j = entry_at(app.feeds[k].entries, entry.title, entry.published);
            let was = app.display_feeds[shown].entries()[at];
            let after = app.marked_read(index);
            &&& after.cache == app.cache.marked(feed.url, entry.title, entry.published, true)
            &&& after.feeds.len() == app.feeds.len()
            &&& after.feeds[k].entries.len() == app.feeds[k].entries.len()
            &&& j < app.feeds[k].entries.len() ==> after.feeds[k].entries[j]
                == app.feeds[k].entries[j].with_read(true)
            &&& after.display_feeds.len() == app.display_feeds.len()
            &&& after.shown_entry(index) == Some(entry.with_read(true))
            &&& after.display_feeds[shown].entries().len()
                == app.display_feeds[shown].entries().len()
            &&& app.display_feeds[shown] is Query && was.feed_title == Some(feed.title) && was.is(
                entry.title,
                entry.published,
            ) ==> after.display_feeds[shown].entries()[at] == was.with_read(true)
        }),
{
    let entry = app.shown_entry(index)->0;
    let feed = app.shown_feed()->0->Regular_0;
    let k = feed_by_url(app.feeds, feed.url);
    lemma_feed_by_url_found(app.feeds, feed.url);
    lemma_entry_at_found(app.feeds[k].entries, entry.title, entry.published);
    lemma_entry_at_found(feed.entries, entry.title, entry.published);
}

/// What a change of a read flag changes, and what it leaves. After the flag of the entry
/// known by `title` and `published` of the feed at `url` was set, every list is as long
/// as it was, and every entry is as it was but these, which have the flag: in the first
/// feed at the address, and under every shown feed at the address, the first entry of
/// the title and date; in the result of every query, each entry of the title and date
/// that names the feed as its source.
pub proof fn lemma_sync_changes_one(
    app: AppView,
    url: Seq<char>,
    title: Seq<char>,
    published: Option<Seq<char>>,
    read: bool,
)
    ensures
        ({
            let after = app.synced(url, title, published, read);
            &&& after.feeds.len() == app.feeds.len()
            &&& after.display_feeds.len() == app.display_feeds.len()
            &&& after.cache == app.cache
            &&& forall|k: int|
                0 <= k < app.feeds.len() ==> (#[trigger] after.feeds[k]).entries.len()
                    == app.feeds[k].entries.len() && after.feeds[k].url == app.feeds[k].url
                    && after.feeds[k].title == app.feeds[k].title && after.feeds[k].tags
                    == app.feeds[k].tags
            &&& forall|k: int, j: int|
                0 <= k < app.feeds.len() && 0 <= j < app.feeds[k].entries.len()
                    ==> #[trigger] after.feeds[k].entries[j] == if k == feed_by_url(app.feeds, url)
                    && j == entry_at(app.feeds[k].entries, title, published) {
                    app.feeds[k].entries[j].with_read(read)
                } else {
                    app.feeds[k].entries[j]
                }
            &&& forall|d: int|
                0 <= d < app.display_feeds.len() ==> (
                #[trigger] after.display_feeds[d]).entries().len()
                    == app.display_feeds[d].entries().len() && after.display_feeds[d].title()
                    == app.display_feeds[d].title() && (after.display_feeds[d] is Query
                    <==> app.display_feeds[d] is Query)
            &&& forall|d: int, j: int|
                0 <= d < app.display_feeds.len() && 0 <= j < app.display_feeds[d].entries().len()
                    ==> #[trigger] after.display_feeds[d].entries()[j] == if changes_at(
                    app,
                    url,
                    title,
                    published,
                    d,
                    j,
                ) {
                    app.display_feeds[d].entries()[j].with_read(read)
                } else {
                    app.display_feeds[d].entries()[j]
                }
        }),
{
    let after = app.synced(url, title, published, read);
    lemma_feed_by_url_found(app.feeds, url);
    let i = feed_by_url(app.feeds, url);
    if i < app.feeds.len() {
        lemma_entry_at_found(app.feeds[i].entries, title, published);
    }
    assert forall|d: int, j: int|
        0 <= d < app.display_feeds.len() && 0 <= j < app.display_feeds[d].entries().len()
        implies #[trigger] after.display_feeds[d].entries()[j] == if changes_at(
        app,
        url,
        title,
        published,
        d,
        j,
    ) {
        app.display_feeds[d].entries()[j].with_read(read)
    } else {
        app.display_feeds[d].entries()[j]
    } by {
        lemma_entry_at_found(app.display_feeds[d].entries(), title, published);
    }
    assert forall|d: int| 0 <= d < app.display_feeds.len() implies (
    #[trigger] after.display_feeds[d]).entries().len() == app.display_feeds[d].entries().len()
        && after.display_feeds[d].title() == app.display_feeds[d].title() && (
    after.display_feeds[d] is Query <==> app.display_feeds[d] is Query) by {
        lemma_entry_at_found(app.display_feeds[d].entries(), title, published);
    }
}

/// What is shown stays what the feeds give. Where what is shown was built from the
/// feeds, no two feeds have the same address or title, and no feed lists an entry twice,
/// what is shown after the flag of an entry was set in every place is what would be
/// built from the feeds as they are then.
pub proof fn lemma_sync_keeps_display(
    app: AppView,
    url: Seq<char>,
    title: Seq<char>,
    published: Option<Seq<char>>,
    read: bool,
)
    requires
        app.display_feeds == display_of(app.feeds, app.query_config),
        distinct_feeds(app.feeds),
    ensures
        app.synced(url, title, published, read).display_feeds == display_of(
            app.synced(url, title, published, read).feeds,
            app.synced(url, title, published, read).query_config,
        ),
{
    lemma_marked_is_rebuilt(app.feeds, app.query_config, url, title, published, read);
}

/// To mark an entry as read a second time changes nothing: what the application holds
/// after the second time is what it held after the first.
pub proof fn lemma_marked_read_twice(app: AppView, index: usize)
    ensures
        app.marked_read(index).marked_read(index) == app.marked_read(index),
{
    let once = app.marked_read(index);
    if let Some(entry) = app.shown_entry(index) {
        if !entry.read {
            if let Some(url) = app.owner_of(entry) {
                let title = entry.title;
                let published = entry.published;
                let source = source_title(app.feeds, url);
                lemma_feeds_marked_twice(app.feeds, url, title, published, true);
                lemma_displays_marked_twice(app.display_feeds, url, source, title, published, true);
                lemma_mark_twice(app.cache, url, title, published, true);
                lemma_feed_found_same(app.feeds, once.feeds, url);
                let again = once.shown_entry(index)->0;
                assert(again.title == title && again.published == published && again.feed_title
                    == entry.feed_title);
                if let Some(from) = entry.feed_title {
                    lemma_feed_found_same(app.feeds, once.feeds, from);
                }
                assert(once.owner_of(again) == Some(url));
                assert(once.flagged(again, true) == once);
            }
        }
    }
}

impl View for App {
    type V = AppView;

    closed spec fn view(&self) -> AppView {
        AppView {
            feeds: self.feeds.deep_view(),
            display_feeds: self.display_feeds.deep_view(),
            feed_config: self.feed_config.deep_view(),
            query_config: self.query_config.deep_view(),
            feed_index: self.feed_index,
            feed_selected: self.feed_selected,
            entry_selected: self.entry_selected,
            state: self.state,
            entry_scroll: self.entry_scroll,
            ui_config: self.ui_config,
            exit: self.exit,
            loading_state: self.loading_state,
            current_feed: self.current_feed.deep_view(),
            feed_errors: self.feed_errors.deep_view(),
            show_error_popup: self.show_error_popup,
            cache: self.cache@,
        }
    }
}

/// What `key` asks for while the list of errors is open, or closed.
pub fn command_for(key: Key, errors_open: bool) -> (r: Command)
    ensures
        r == command_of(key, errors_open),
{
    if errors_open {
        match key {
            Key::Esc | Key::Enter => Command::CloseErrors,
            Key::Char(c) => if c == 'e' || c == 'E' {
                Command::CloseErrors
            } else {
                Command::Nothing
            },
            _ => Command::Nothing,
        }
    } else {
        match key {
            Key::Char(c) => if c == 'q' || c == 'Q' {
                Command::Quit
            } else if c == 'r' || c == 'R' {
                Command::Refresh
            } else if c == 'e' || c == 'E' {
                Command::ToggleErrors
            } else if c == 'm' || c == 'M' {
                Command::ToggleRead
            } else if c == 'k' {
                Command::Up
            } else if c == 'j' {
                Command::Down
            } else if c == 'l' {
                Command::Enter
            } else if c == 'h' {
                Command::Back
            } else {
                Command::Nothing
            },
            Key::Up => Command::Up,
            Key::Down => Command::Down,
            Key::Right | Key::Enter => Command::Enter,
            Key::Left | Key::Backspace => Command::Back,
            _ => Command::Nothing,
        }
    }
}

/// A copy of `v`.
fn clone_configs(v: &Vec<Feeds>) -> (r: Vec<Feeds>)
    ensures
        r.deep_view() == v.deep_view(),
{
    let mut r: Vec<Feeds> = Vec::new();
    let mut i: usize = 0;
    while i < v.len()
        invariant
            i <= v.len(),
            r.deep_view() == v.deep_view().take(i as int),
        decreases v.len() - i,
    {
        let ghost before = r.deep_view();
        let item = v[i].clone();
        r.push(item);
        assert(r.deep_view() =~= before.push(item@));
        assert(r.deep_view() =~= v.deep_view().take(i + 1));
        i += 1;
    }
    assert(r.deep_view() =~= v.deep_view());
    r
}

/// The text of `s`, borrowed.
fn as_text(s: &Option<String>) -> (r: Option<&str>)
    ensures
        r.deep_view() == s.deep_view(),
{
    match s {
        Some(text) => Some(text.as_str()),
        None => None,
    }
}

/// An entry that is shown, as far as a change of its read flag needs it.
struct Target {
    /// The address of the feed that owns the entry, if one does.
    url: Option<String>,
    title: String,
    published: Option<String>,
    read: bool,
}

impl App {
    /// The application over `feeds` as they were read from `cache`, the user at the first
    /// feed. A fetch is taken to run where there are no feeds yet.
    pub fn new(
        feeds: Vec<Feed>,
        ui_config: UiConfig,
        feed_config: Vec<Feeds>,
        query_config: Vec<QueryFeed>,
        cache: FeedCache,
    ) -> (r: Self)
        requires
            cache@.wf(),
        ensures
            r@.wf(),
            r@ == (AppView {
                feeds: feeds.deep_view(),
                display_feeds: display_of(feeds.deep_view(), query_config.deep_view()),
                feed_config: feed_config.deep_view(),
                query_config: query_config.deep_view(),
                feed_index: 0,
                feed_selected: Some(0usize),
                entry_selected: None,
                state: AppState::BrowsingFeeds,
                entry_scroll: 0,
                ui_config,
                exit: false,
                loading_state: r@.loading_state,
                current_feed: None,
                feed_errors: Seq::empty(),
                show_error_popup: false,
                cache: cache@,
            }),
            r@.loading_state.is_loading == (feeds.len() == 0),
    {
        let is_loading = feeds.len() == 0;
        let display_feeds = build_display_feeds(feeds.as_slice(), query_config.as_slice());
        let mut loading_state = LoadingState::new();
        if !is_loading {
            loading_state.stop();
        }
        let r = App {
            feeds,
            display_feeds,
            feed_config,
            query_config,
            feed_index: 0,
            feed_selected: Some(0),
            entry_selected: None,
            state: AppState::BrowsingFeeds,
            entry_scroll: 0,
            ui_config,
            exit: false,
            loading_state,
            current_feed: None,
            feed_errors: Vec::new(),
            show_error_popup: false,
            cache,
        };
        assert(r.feed_errors.deep_view() =~= Seq::empty());
        r
    }

    /// Whether the user has asked to leave.
    pub fn should_exit(&self) -> (r: bool)
        ensures
            r == self@.exit,
    {
        self.exit
    }

    /// What is shown anew, after the feeds have changed.
    fn rebuild_display_feeds(&mut self)
        ensures
            final(self)@ == old(self)@.with_feeds(old(self)@.feeds),
    {
        self.display_feeds = build_display_feeds(
            self.feeds.as_slice(),
            self.query_config.as_slice(),
        );
    }

    /// Sets the read flag `read` on the entry known by `title` and `published` of the feed
    /// at `feed_url`, in the feeds and in all that is shown: under the feed itself, and
    /// in the result of every query that lists the entry.
    pub fn sync_read_state(
        &mut self,
        feed_url: &str,
        title: &str,
        published: Option<&str>,
        read: bool,
    )
        ensures
            final(self)@ == old(self)@.synced(feed_url@, title@, published.deep_view(), read),
    {
        let source = mark_in_feeds(&mut self.feeds, feed_url, title, published, read);
        mark_in_display(&mut self.display_feeds, feed_url, &source, title, published, read);
    }

    /// The entry at `entry_idx` of the feed that the user is at, and the feed that owns
    /// it.
    fn target(&self, entry_idx: usize) -> (r: Option<Target>)
        ensures
            match r {
                Some(target) => self@.shown_entry(entry_idx) matches Some(entry) && target.title@
                    == entry.title && target.published.deep_view() == entry.published
                    && target.read == entry.read && target.url.deep_view() == self@.owner_of(
                    entry,
                ),
                None => self@.shown_entry(entry_idx) is None,
            },
    {
        if self.feed_index >= self.display_feeds.len() {
            return None;
        }
        let shown = &self.display_feeds[self.feed_index];
        assert(self.display_feeds.deep_view()[self.feed_index as int] == shown@);
        let entries = shown.entries();
        if entry_idx >= entries.len() {
            return None;
        }
        let entry = &entries[entry_idx];
        assert(entries.deep_view()[entry_idx as int] == entry@);
        let url = match shown {
            DisplayFeed::Regular(feed) => Some(feed.url.clone()),
            DisplayFeed::Query { .. } => match &entry.feed_title {
                Some(source) => {
                    let i = find_by_title(&self.feeds, source.as_str());
                    if i < self.feeds.len() {
                        assert(self.feeds.deep_view()[i as int] == self.feeds[i as int]@);
                        Some(self.feeds[i].url.clone())
                    } else {
                        None
                    }
                },
                None => None,
            },
        };
        Some(
            Target {
                url,
                title: entry.title.clone(),
                published: clone_optional_string(&entry.published),
                read: entry.read,
            },
        )
    }

    /// Writes the read flag `read` for `target` to the cache and carries it to the feeds
    /// and to all that is shown.
    fn flag(&mut self, target: Target, read: bool)
        requires
            old(self)@.wf(),
        ensures
            final(self)@.wf(),
            final(self)@ == match target.url.deep_view() {
                Some(url) => AppView {
                    cache: old(self)@.cache.marked(
                        url,
                        target.title@,
                        target.published.deep_view(),
                        read,
                    ),
                    ..old(self)@.synced(url, target.title@, target.published.deep_view(), read)
                },
                None => old(self)@,
            },
    {
        let url = match target.url {
            Some(url) => url,
            None => {
                return ;
            },
        };
        let published = as_text(&target.published);
        // What is shown follows the flag whether or not the cache took it
        let _ = self.cache.mark_entry(url.as_str(), target.title.as_str(), published, read);
        self.sync_read_state(url.as_str(), target.title.as_str(), published, read);
    }

    /// Changes the read flag of the entry at `entry_idx` of the feed that the user is at
    /// to what it was not: in the cache, in the feeds and in all that is shown.
    pub fn toggle_selected_entry_read(&mut self, entry_idx: usize)
        requires
            old(self)@.wf(),
        ensures
            final(self)@.wf(),
            final(self)@ == old(self)@.toggled(entry_idx),
    {
        match self.target(entry_idx) {
            Some(target) => {
                let read = !target.read;
                self.flag(target, read);
            },
            None => {},
        }
    }

    /// Marks the entry at `entry_idx` of the feed that the user is at as read: in the
    /// cache, in the feeds and in all that is shown. An entry that is read already is
    /// left alone, and nothing is written.
    pub fn mark_selected_entry_read(&mut self, entry_idx: usize)
        requires
            old(self)@.wf(),
        ensures
            final(self)@.wf(),
            final(self)@ == old(self)@.marked_read(entry_idx),
    {
        match self.target(entry_idx) {
            Some(target) => {
                if !target.read {
                    self.flag(target, true);
                }
            },
            None => {},
        }
    }

    /// Saves the feeds of `batch` to the cache at the time `now`, each at its place in
    /// the batch. A feed that cannot be saved is passed over.
    fn save_batch(&mut self, batch: &Vec<Feed>, now: i64)
        requires
            old(self)@.wf(),
        ensures
            final(self)@.wf(),
            final(self)@ == (AppView {
                cache: batch_saved(old(self)@.cache, batch.deep_view(), 0, now as int),
                ..old(self)@
            }),
    {
        let ghost start = self@;
        let mut i: usize = 0;
        while i < batch.len()
            invariant
                i <= batch.len(),
                self@.wf(),
                self@ == (AppView { cache: self@.cache, ..start }),
                batch_saved(self@.cache, batch.deep_view(), i as int, now as int) == batch_saved(
                    start.cache,
                    batch.deep_view(),
                    0,
                    now as int,
                ),
            decreases batch.len() - i,
        {
            assert(batch.deep_view()[i as int] == batch[i as int]@);
            let _ = self.cache.save_feed(&batch[i], i, now);
            i += 1;
        }
    }

    /// Takes in the message `update` of a refresh, at the time `now` in seconds since the
    /// Unix epoch. The time is what a batch and a single feed are saved under; the other
    /// messages have no use for it.
    ///
    /// A batch of feeds is saved to the cache, and the feeds are then read from the
    /// cache, so that the read flags that the cache holds are kept; what is shown is
    /// built anew. A single feed is saved and takes the place of the feed at its
    /// address. The notice that a feed is fetched is kept to be shown, a failure is put
    /// on the list of errors, and at the end of the refresh the fetch is over.
    pub fn handle_feed_update(&mut self, update: FeedUpdate, now: i64)
        requires
            old(self)@.wf(),
        ensures
            final(self)@.wf(),
            final(self)@ == (AppView {
                loading_state: final(self)@.loading_state,
                ..old(self)@.received(update@, now as int)
            }),
            update is FetchComplete ==> {
                &&& !final(self)@.loading_state.is_loading
                &&& final(self)@.loading_state.finish_time is Some
                &&& final(self)@.loading_state.start_time == old(self)@.loading_state.start_time
            },
            !(update is FetchComplete) ==> final(self)@.loading_state == old(self)@.loading_state,
    {
        match update {
            FeedUpdate::Replace(new_feeds) => {
                self.save_batch(&new_feeds, now);
                self.feeds = match self.cache.load_all_feeds() {
                    Ok(feeds) => feeds,
                    Err(_) => new_feeds,
                };
                self.rebuild_display_feeds();
            },
            FeedUpdate::UpdateFeed(_, feed) => {
                let position = find_by_url(&self.feeds, feed.url.as_str());
                let _ = self.cache.save_feed(&feed, position, now);
                let reloaded = match self.cache.load_feed(feed.url.as_str()) {
                    Ok(Some(held)) => held,
                    _ => feed,
                };
                let at = find_by_url(&self.feeds, reloaded.url.as_str());
                if at < self.feeds.len() {
                    let ghost before = self.feeds.deep_view();
                    self.feeds[at] = reloaded;
                    assert(self.feeds.deep_view() =~= before.update(at as int, reloaded@));
                    self.rebuild_display_feeds();
                }
            },
            FeedUpdate::FetchingFeed(name) => {
                self.current_feed = Some(name);
            },
            FeedUpdate::FeedError { name, error } => {
                let ghost before = self.feed_errors.deep_view();
                let failure = FeedError { name, error };
                self.feed_errors.push(failure);
                assert(self.feed_errors.deep_view() =~= before.push(failure@));
            },
            FeedUpdate::FetchComplete => {
                self.loading_state.stop();
                self.current_feed = None;
            },
        }
    }

    /// Starts a refresh, unless one is running: then nothing happens. Returns the feeds
    /// to fetch where a refresh starts; the list of errors is then emptied and closed.
    pub fn refresh_feeds(&mut self) -> (r: Option<Vec<Feeds>>)
        ensures
            old(self)@.loading_state.is_loading ==> r is None && final(self)@ == old(self)@,
            !old(self)@.loading_state.is_loading ==> r.deep_view() == Some(old(self)@.feed_config)
                && final(self)@ == (AppView {
                feed_errors: Seq::empty(),
                show_error_popup: false,
                loading_state: final(self)@.loading_state,
                ..old(self)@
            }) && final(self)@.loading_state.is_loading && final(self)@.loading_state.finish_time
                is None,
    {
        if self.loading_state.is_loading {
            return None;
        }
        self.loading_state.start();
        self.feed_errors.clear();
        assert(self.feed_errors.deep_view() =~= Seq::empty());
        self.show_error_popup = false;
        Some(clone_configs(&self.feed_config))
    }

    /// A step up: to the feed or entry before, or a line up in the entry that is viewed.
    pub fn handle_up(&mut self)
        ensures
            final(self)@ == old(self)@.moved_up(),
    {
        match self.state {
            AppState::BrowsingFeeds => {
                if self.feed_index > 0 {
                    self.feed_index -= 1;
                    self.feed_selected = Some(self.feed_index);
                }
            },
            AppState::BrowsingEntries => {
                if let Some(selected) = self.entry_selected {
                    if selected > 0 {
                        self.entry_selected = Some(selected - 1);
                    }
                }
            },
            AppState::ViewingEntry => {
                self.entry_scroll = self.entry_scroll.saturating_sub(1);
            },
        }
    }

    /// A step down: to the next feed or entry, if there is one, or a line down in the
    /// entry that is viewed.
    pub fn handle_down(&mut self)
        ensures
            final(self)@ == old(self)@.moved_down(),
    {
        match self.state {
            AppState::BrowsingFeeds => {
                if self.feed_index < self.display_feeds.len() && self.feed_index + 1
                    < self.display_feeds.len() {
                    self.feed_index += 1;
                    self.feed_selected = Some(self.feed_index);
                }
            },
            AppState::BrowsingEntries => {
                if let Some(selected) = self.entry_selected {
                    if self.feed_index < self.display_feeds.len() {
                        let shown = &self.display_feeds[self.feed_index];
                        assert(self.display_feeds.deep_view()[self.feed_index as int] == shown@);
                        let count = shown.entries().len();
                        if selected < count && selected + 1 < count {
                            self.entry_selected = Some(selected + 1);
                        }
                    }
                }
            },
            AppState::ViewingEntry => {
                self.entry_scroll = self.entry_scroll.saturating_add(1);
            },
        }
    }

    /// A step in: from the feeds to the entries of the feed, the first of them marked;
    /// from the entries to the marked entry, which is marked as read.
    pub fn handle_enter(&mut self)
        requires
            old(self)@.wf(),
        ensures
            final(self)@.wf(),
            final(self)@ == old(self)@.entered(),
    {
        match self.state {
            AppState::BrowsingFeeds => {
                self.state = AppState::BrowsingEntries;
                self.entry_selected = Some(0);
            },
            AppState::BrowsingEntries => {
                if let Some(entry_idx) = self.entry_selected {
                    self.mark_selected_entry_read(entry_idx);
                }
                self.state = AppState::ViewingEntry;
                self.entry_scroll = 0;
            },
            AppState::ViewingEntry => {},
        }
    }

    /// A step back: from the entry to the entries, from the entries to the feeds.
    pub fn handle_back(&mut self)
        ensures
            final(self)@ == old(self)@.backed(),
    {
        match self.state {
            AppState::ViewingEntry => {
                self.state = AppState::BrowsingEntries;
            },
            AppState::BrowsingEntries => {
                self.state = AppState::BrowsingFeeds;
            },
            AppState::BrowsingFeeds => {},
        }
    }

    /// Does what `key` asks for. While the list of errors is open a key closes it or does
    /// nothing. Returns the feeds to fetch where the key started a refresh.
    pub fn handle_key(&mut self, key: Key) -> (r: Option<Vec<Feeds>>)
        requires
            old(self)@.wf(),
        ensures
            final(self)@.wf(),
            ({
                let before = old(self)@;
                let command = command_of(key, before.show_error_popup);
                if command == Command::Refresh {
                    if before.loading_state.is_loading {
                        r is None && final(self)@ == before
                    } else {
                        &&& r.deep_view() == Some(before.feed_config)
                        &&& final(self)@ == (AppView {
                            feed_errors: Seq::empty(),
                            show_error_popup: false,
                            loading_state: final(self)@.loading_state,
                            ..before
                        })
                        &&& final(self)@.loading_state.is_loading
                    }
                } else {
                    r is None && final(self)@ == before.obeyed(command)
                }
            }),
    {
        match command_for(key, self.show_error_popup) {
            Command::CloseErrors => {
                self.show_error_popup = false;
                None
            },
            Command::Quit => {
                self.exit = true;
                None
            },
            Command::Refresh => self.refresh_feeds(),
            Command::ToggleErrors => {
                if self.feed_errors.len() > 0 {
                    self.show_error_popup = !self.show_error_popup;
                }
                None
            },
            Command::ToggleRead => {
                match self.state {
                    AppState::BrowsingEntries | AppState::ViewingEntry => {
                        if let Some(entry_idx) = self.entry_selected {
                            self.toggle_selected_entry_read(entry_idx);
                        }
                    },
                    AppState::BrowsingFeeds => {},
                }
                None
            },
            Command::Up => {
                self.handle_up();
                None
            },
            Command::Down => {
                self.handle_down();
                None
            },
            Command::Enter => {
                self.handle_enter();
                None
            },
            Command::Back => {
                self.handle_back();
                None
            },
            Command::Nothing => None,
        }
    }
}

impl App {
    /// The configured feeds that the cache does not hold yet, in the order of the
    /// configuration: the feeds that are still to be fetched for the first time.
    pub fn uncached_feeds(&self) -> (r: Vec<Feeds>)
        ensures
            r.deep_view() == uncached(self@.feed_config, self@.cache),
    {
        let ghost all = self.feed_config.deep_view();
        let mut r: Vec<Feeds> = Vec::new();
        assert(r.deep_view() =~= uncached(all.take(0), self@.cache));
        let mut i: usize = 0;
        while i < self.feed_config.len()
            invariant
                i <= self.feed_config.len(),
                all == self.feed_config.deep_view(),
                r.deep_view() == uncached(all.take(i as int), self@.cache),
            decreases self.feed_config.len() - i,
        {
            let ghost before = r.deep_view();
            proof {
                assert(all.take(i + 1).drop_last() =~= all.take(i as int));
                assert(all.take(i + 1).last() == self.feed_config[i as int]@);
            }
            let held = match self.cache.has_feed(self.feed_config[i].link.as_str()) {
                Ok(held) => held,
                Err(_) => false,
            };
            if !held {
                let config = self.feed_config[i].clone();
                r.push(config);
                assert(r.deep_view() =~= before.push(config@));
            }
            i += 1;
        }
        assert(all.take(all.len() as int) =~= all);
        r
    }

    /// The feeds, as they were last read from the cache.
    pub fn feeds(&self) -> (r: &Vec<Feed>)
        ensures
            r.deep_view() == self@.feeds,
    {
        &self.feeds
    }

    /// What is shown: the query feeds, then the feeds.
    pub fn display_feeds(&self) -> (r: &Vec<DisplayFeed>)
        ensures
            r.deep_view() == self@.display_feeds,
    {
        &self.display_feeds
    }

    /// The index, in what is shown, of the feed that the user is at.
    pub fn feed_index(&self) -> (r: usize)
        ensures
            r == self@.feed_index,
    {
        self.feed_index
    }

    /// The feed that is marked in the list of feeds.
    pub fn feed_selected(&self) -> (r: Option<usize>)
        ensures
            r == self@.feed_selected,
    {
        self.feed_selected
    }

    /// The entry that is marked in the list of entries.
    pub fn entry_selected(&self) -> (r: Option<usize>)
        ensures
            r == self@.entry_selected,
    {
        self.entry_selected
    }

    /// Where the user is.
    pub fn state(&self) -> (r: AppState)
        ensures
            r == self@.state,
    {
        self.state
    }

    /// How far the entry that is viewed is scrolled.
    pub fn entry_scroll(&self) -> (r: usize)
        ensures
            r == self@.entry_scroll,
    {
        self.entry_scroll
    }

    /// Scrolls the entry that is viewed back to `limit` where it is scrolled beyond.
    pub fn limit_entry_scroll(&mut self, limit: usize)
        ensures
            final(self)@ == (AppView {
                entry_scroll: if old(self)@.entry_scroll < limit {
                    old(self)@.entry_scroll
                } else {
                    limit
                },
                ..old(self)@
            }),
    {
        if self.entry_scroll > limit {
            self.entry_scroll = limit;
        }
    }

    /// How the lists are laid out.
    pub fn ui_config(&self) -> (r: UiConfig)
        ensures
            r == self@.ui_config,
    {
        self.ui_config
    }

    /// The state of the fetch.
    pub fn loading_state(&self) -> (r: LoadingState)
        ensures
            r == self@.loading_state,
    {
        self.loading_state
    }

    /// The name of the feed that is being fetched.
    pub fn current_feed(&self) -> (r: Option<&str>)
        ensures
            r.deep_view() == self@.current_feed,
    {
        as_text(&self.current_feed)
    }

    /// The feeds that failed in the last refresh.
    pub fn feed_errors(&self) -> (r: &Vec<FeedError>)
        ensures
            r.deep_view() == self@.feed_errors,
    {
        &self.feed_errors
    }

    /// Whether the list of errors is open.
    pub fn show_error_popup(&self) -> (r: bool)
        ensures
            r == self@.show_error_popup,
    {
        self.show_error_popup
    }

    /// The cache.
    pub fn cache(&self) -> (r: &FeedCache)
        ensures
            r@ == self@.cache,
    {
        &self.cache
    }
}

} // verus!
