//! What is shown: the query feeds, each with the result of its query, and after them the
//! feeds themselves. An entry can so be shown in several places, and a change of its read
//! flag is carried to each of them.

use crate::config::{QueryFeed, QueryFeedView};
use crate::feeds::{clone_entries, newer, EntryView, Feed, FeedEntry, FeedView};
use crate::order::lemma_stable_sort_map;
use crate::query::{apply_query, query_result, selected, selects, stamped, FilterView};
use crate::rows::same_date;
use crate::text::text_eq;
use vstd::prelude::*;

verus! {

/// A feed as it is shown: one of the feeds, or the result of a query over them.
#[derive(Debug, PartialEq, Eq)]
pub enum DisplayFeed {
    /// One of the feeds.
    Regular(Feed),
    /// A query feed: its name and the entries that its query selects.
    Query { name: String, entries: Vec<FeedEntry> },
}

/// The value of a [`DisplayFeed`].
pub enum DisplayView {
    Regular(FeedView),
    Query { name: Seq<char>, entries: Seq<EntryView> },
}

impl View for DisplayFeed {
    type V = DisplayView;

    open spec fn view(&self) -> DisplayView {
        match self {
            DisplayFeed::Regular(feed) => DisplayView::Regular(feed@),
            DisplayFeed::Query { name, entries } => DisplayView::Query {
                name: name@,
                entries: entries.deep_view(),
            },
        }
    }
}

impl DeepView for DisplayFeed {
    type V = DisplayView;

    open spec fn deep_view(&self) -> DisplayView {
        self@
    }
}

impl DisplayView {
    /// The title that the feed is shown under.
    pub open spec fn title(self) -> Seq<char> {
        match self {
            DisplayView::Regular(feed) => feed.title,
            DisplayView::Query { name, .. } => name,
        }
    }

    /// The entries that the feed shows.
    pub open spec fn entries(self) -> Seq<EntryView> {
        match self {
            DisplayView::Regular(feed) => feed.entries,
            DisplayView::Query { entries, .. } => entries,
        }
    }
}

/// The index of the first of `entries` known by `title` and `published`, or the length
/// of `entries` where there is none.
pub open spec fn entry_at(entries: Seq<EntryView>, title: Seq<char>, published: Option<Seq<char>>)
    -> int
    decreases entries.len(),
{
    if entries.len() == 0 || entries[0].is(title, published) {
        0
    } else {
        1 + entry_at(entries.drop_first(), title, published)
    }
}

/// The index of the first of `feeds` at the address `url`, or the length of `feeds`.
pub open spec fn feed_by_url(feeds: Seq<FeedView>, url: Seq<char>) -> int
    decreases feeds.len(),
{
    if feeds.len() == 0 || feeds[0].url == url {
        0
    } else {
        1 + feed_by_url(feeds.drop_first(), url)
    }
}

/// The index of the first of `feeds` with the title `title`, or the length of `feeds`.
pub open spec fn feed_by_title(feeds: Seq<FeedView>, title: Seq<char>) -> int
    decreases feeds.len(),
{
    if feeds.len() == 0 || feeds[0].title == title {
        0
    } else {
        1 + feed_by_title(feeds.drop_first(), title)
    }
}

/// `entries` with the read flag of the first entry known by `title` and `published` set
/// to `read`.
pub open spec fn entries_marked(
    entries: Seq<EntryView>,
    title: Seq<char>,
    published: Option<Seq<char>>,
    read: bool,
) -> Seq<EntryView> {
    let j = entry_at(entries, title, published);
    if 0 <= j < entries.len() {
        entries.update(j, entries[j].with_read(read))
    } else {
        entries
    }
}

/// `feeds` with the read flag set in the first feed at the address `url`.
pub open spec fn feeds_marked(
    feeds: Seq<FeedView>,
    url: Seq<char>,
    title: Seq<char>,
    published: Option<Seq<char>>,
    read: bool,
) -> Seq<FeedView> {
    let i = feed_by_url(feeds, url);
    if 0 <= i < feeds.len() {
        feeds.update(
            i,
            FeedView {
                entries: entries_marked(feeds[i].entries, title, published, read),
                ..feeds[i]
            },
        )
    } else {
        feeds
    }
}

/// The title of the first of `feeds` at the address `url`.
pub open spec fn source_title(feeds: Seq<FeedView>, url: Seq<char>) -> Option<Seq<char>> {
    let i = feed_by_url(feeds, url);
    if 0 <= i < feeds.len() {
        Some(feeds[i].title)
    } else {
        None
    }
}

/// The address of the first of `feeds` with the title `title`.
pub open spec fn owner_url(feeds: Seq<FeedView>, title: Seq<char>) -> Option<Seq<char>> {
    let i = feed_by_title(feeds, title);
    if 0 <= i < feeds.len() {
        Some(feeds[i].url)
    } else {
        None
    }
}

/// What a change of a read flag does to an entry in the result of a query: the entry
/// takes the flag where it comes from the feed titled `source` and is known by `title`
/// and `published`.
pub open spec fn read_patch(
    source: Option<Seq<char>>,
    title: Seq<char>,
    published: Option<Seq<char>>,
    read: bool,
) -> spec_fn(EntryView) -> EntryView {
    |e: EntryView|
        if source is Some && e.feed_title == source && e.is(title, published) {
            e.with_read(read)
        } else {
            e
        }
}

/// A shown feed after the change of a read flag: a feed at `url` has the flag set on its
/// first entry of that title and date, a query feed on every such entry that comes from
/// the feed titled `source`.
pub open spec fn display_marked(
    shown: DisplayView,
    url: Seq<char>,
    source: Option<Seq<char>>,
    title: Seq<char>,
    published: Option<Seq<char>>,
    read: bool,
) -> DisplayView {
    match shown {
        DisplayView::Regular(feed) => if feed.url == url {
            DisplayView::Regular(
                FeedView { entries: entries_marked(feed.entries, title, published, read), ..feed },
            )
        } else {
            shown
        },
        DisplayView::Query { name, entries } => DisplayView::Query {
            name,
            entries: entries.map_values(read_patch(source, title, published, read)),
        },
    }
}

/// All that is shown after the change of a read flag.
pub open spec fn displays_marked(
    shown: Seq<DisplayView>,
    url: Seq<char>,
    source: Option<Seq<char>>,
    title: Seq<char>,
    published: Option<Seq<char>>,
    read: bool,
) -> Seq<DisplayView> {
    Seq::new(shown.len(), |k: int| display_marked(shown[k], url, source, title, published, read))
}

/// What is shown for `feeds` and `queries`: the query feeds first, each with the result
/// of its query over `feeds`, then the feeds.
pub open spec fn display_of(feeds: Seq<FeedView>, queries: Seq<QueryFeedView>) -> Seq<DisplayView> {
    Seq::new(
        queries.len(),
        |k: int|
            DisplayView::Query {
                name: queries[k].name,
                entries: query_result(feeds, queries[k].query),
            },
    ) + Seq::new(feeds.len(), |k: int| DisplayView::Regular(feeds[k]))
}

/// No two of `feeds` have the same address.
pub open spec fn distinct_urls(feeds: Seq<FeedView>) -> bool {
    forall|i: int, j: int|
        0 <= i < j < feeds.len() ==> (#[trigger] feeds[i]).url != (#[trigger] feeds[j]).url
}

/// No two of `feeds` have the same title.
pub open spec fn distinct_titles(feeds: Seq<FeedView>) -> bool {
    forall|i: int, j: int|
        0 <= i < j < feeds.len() ==> (#[trigger] feeds[i]).title != (#[trigger] feeds[j]).title
}

/// No two of `entries` have the same title and date.
pub open spec fn distinct_entries(entries: Seq<EntryView>) -> bool {
    forall|i: int, j: int|
        0 <= i < j < entries.len() ==> !(#[trigger] entries[i]).is(
            (#[trigger] entries[j]).title,
            entries[j].published,
        )
}

/// No two of `feeds` have the same address or the same title, and no feed lists two
/// entries of the same title and date.
pub open spec fn distinct_feeds(feeds: Seq<FeedView>) -> bool {
    &&& distinct_urls(feeds)
    &&& distinct_titles(feeds)
    &&& forall|k: int| 0 <= k < feeds.len() ==> distinct_entries((#[trigger] feeds[k]).entries)
}

/// `entry_at` is `n` where no entry before `n` is the one sought and the entry at `n`
/// is, or the entries end there.
pub proof fn lemma_entry_at(
    entries: Seq<EntryView>,
    title: Seq<char>,
    published: Option<Seq<char>>,
    n: int,
)
    requires
        0 <= n <= entries.len(),
        forall|k: int| 0 <= k < n ==> !(#[trigger] entries[k]).is(title, published),
        n == entries.len() || entries[n].is(title, published),
    ensures
        entry_at(entries, title, published) == n,
    decreases n,
{
    if n > 0 {
        lemma_entry_at(entries.drop_first(), title, published, n - 1);
    }
}

/// What `entry_at` returns: an index up to the length, no entry before it is the one
/// sought, and the entry there is.
pub proof fn lemma_entry_at_found(
    entries: Seq<EntryView>,
    title: Seq<char>,
    published: Option<Seq<char>>,
)
    ensures
        0 <= entry_at(entries, title, published) <= entries.len(),
        forall|k: int|
            0 <= k < entry_at(entries, title, published) ==> !(#[trigger] entries[k]).is(
                title,
                published,
            ),
        entry_at(entries, title, published) < entries.len() ==> entries[entry_at(
            entries,
            title,
            published,
        )].is(title, published),
    decreases entries.len(),
{
    if !(entries.len() == 0 || entries[0].is(title, published)) {
        lemma_entry_at_found(entries.drop_first(), title, published);
        assert forall|k: int| 0 <= k < entry_at(entries, title, published) implies !(
        #[trigger] entries[k]).is(title, published) by {
            if k > 0 {
                assert(entries[k] == entries.drop_first()[k - 1]);
            }
        }
    }
}

/// `feed_by_url` is `n` where no feed before `n` is at the address and the feed at `n`
/// is, or the feeds end there.
pub proof fn lemma_feed_by_url(feeds: Seq<FeedView>, url: Seq<char>, n: int)
    requires
        0 <= n <= feeds.len(),
        forall|k: int| 0 <= k < n ==> (#[trigger] feeds[k]).url != url,
        n == feeds.len() || feeds[n].url == url,
    ensures
        feed_by_url(feeds, url) == n,
    decreases n,
{
    if n > 0 {
        lemma_feed_by_url(feeds.drop_first(), url, n - 1);
    }
}

/// What `feed_by_url` returns: an index up to the length, no feed before it is at the
/// address, and the feed there is.
pub proof fn lemma_feed_by_url_found(feeds: Seq<FeedView>, url: Seq<char>)
    ensures
        0 <= feed_by_url(feeds, url) <= feeds.len(),
        forall|k: int| 0 <= k < feed_by_url(feeds, url) ==> (#[trigger] feeds[k]).url != url,
        feed_by_url(feeds, url) < feeds.len() ==> feeds[feed_by_url(feeds, url)].url == url,
    decreases feeds.len(),
{
    if !(feeds.len() == 0 || feeds[0].url == url) {
        lemma_feed_by_url_found(feeds.drop_first(), url);
        assert forall|k: int| 0 <= k < feed_by_url(feeds, url) implies (#[trigger] feeds[k]).url
            != url by {
            if k > 0 {
                assert(feeds[k] == feeds.drop_first()[k - 1]);
            }
        }
    }
}

/// `feed_by_title` is `n` where no feed before `n` has the title and the feed at `n`
/// has it, or the feeds end there.
pub proof fn lemma_feed_by_title(feeds: Seq<FeedView>, title: Seq<char>, n: int)
    requires
        0 <= n <= feeds.len(),
        forall|k: int| 0 <= k < n ==> (#[trigger] feeds[k]).title != title,
        n == feeds.len() || feeds[n].title == title,
    ensures
        feed_by_title(feeds, title) == n,
    decreases n,
{
    if n > 0 {
        lemma_feed_by_title(feeds.drop_first(), title, n - 1);
    }
}

/// What `feed_by_title` returns: an index up to the length, no feed before it has the
/// title, and the feed there has it.
pub proof fn lemma_feed_by_title_found(feeds: Seq<FeedView>, title: Seq<char>)
    ensures
        0 <= feed_by_title(feeds, title) <= feeds.len(),
        forall|k: int|
            0 <= k < feed_by_title(feeds, title) ==> (#[trigger] feeds[k]).title != title,
        feed_by_title(feeds, title) < feeds.len() ==> feeds[feed_by_title(feeds, title)].title
            == title,
    decreases feeds.len(),
{
    if !(feeds.len() == 0 || feeds[0].title == title) {
        lemma_feed_by_title_found(feeds.drop_first(), title);
        assert forall|k: int| 0 <= k < feed_by_title(feeds, title) implies (
        #[trigger] feeds[k]).title != title by {
            if k > 0 {
                assert(feeds[k] == feeds.drop_first()[k - 1]);
            }
        }
    }
}

/// The entries of a feed as a query shows them, after the change of a read flag in the
/// feeds, are those it showed before with the change made in them.
pub proof fn lemma_stamped_marked(
    feeds: Seq<FeedView>,
    k: int,
    url: Seq<char>,
    title: Seq<char>,
    published: Option<Seq<char>>,
    read: bool,
)
    requires
        distinct_feeds(feeds),
        0 <= k < feeds.len(),
    ensures
        feeds_marked(feeds, url, title, published, read).len() == feeds.len(),
        feeds_marked(feeds, url, title, published, read)[k].tags == feeds[k].tags,
        stamped(feeds_marked(feeds, url, title, published, read)[k]) == stamped(
            feeds[k],
        ).map_values(read_patch(source_title(feeds, url), title, published, read)),
{
    let after = feeds_marked(feeds, url, title, published, read);
    let source = source_title(feeds, url);
    let patch = read_patch(source, title, published, read);
    let i = feed_by_url(feeds, url);
    lemma_feed_by_url_found(feeds, url);
    let entries = feeds[k].entries;
    if i < feeds.len() && k == i {
        let j = entry_at(entries, title, published);
        lemma_entry_at_found(entries, title, published);
        assert forall|n: int| 0 <= n < entries.len() implies (#[trigger] stamped(after[k])[n])
            == patch(stamped(feeds[k])[n]) by {
            if n != j && entries[n].is(title, published) {
                if n < j {
                    assert(!entries[n].is(title, published));
                } else {
                    assert(!entries[j].is(entries[n].title, entries[n].published));
                }
            }
        }
        assert(stamped(after[k]) =~= stamped(feeds[k]).map_values(patch));
    } else {
        if i < feeds.len() {
            assert(feeds[k].title != feeds[i].title) by {
                if k < i {
                    assert(feeds[k].title != feeds[i].title);
                } else {
                    assert(feeds[i].title != feeds[k].title);
                }
            }
        }
        assert(stamped(after[k]) =~= stamped(feeds[k]).map_values(patch));
    }
}

/// The entries that a filter selects, after the change of a read flag in the feeds, are
/// those it selected before with the change made in them.
pub proof fn lemma_selected_marked(
    feeds: Seq<FeedView>,
    filter: FilterView,
    n: int,
    url: Seq<char>,
    title: Seq<char>,
    published: Option<Seq<char>>,
    read: bool,
)
    requires
        distinct_feeds(feeds),
        0 <= n <= feeds.len(),
    ensures
        selected(feeds_marked(feeds, url, title, published, read).take(n), filter) == selected(
            feeds.take(n),
            filter,
        ).map_values(read_patch(source_title(feeds, url), title, published, read)),
    decreases n,
{
    let after = feeds_marked(feeds, url, title, published, read);
    let patch = read_patch(source_title(feeds, url), title, published, read);
    lemma_feed_by_url_found(feeds, url);
    if n > 0 {
        lemma_selected_marked(feeds, filter, n - 1, url, title, published, read);
        lemma_stamped_marked(feeds, n - 1, url, title, published, read);
        assert(after.take(n).drop_last() =~= after.take(n - 1));
        assert(feeds.take(n).drop_last() =~= feeds.take(n - 1));
        assert(after.take(n).last() == after[n - 1]);
        assert(feeds.take(n).last() == feeds[n - 1]);
        assert(selects(filter, after[n - 1]) == selects(filter, feeds[n - 1]));
        let head = selected(feeds.take(n - 1), filter);
        let tail = stamped(feeds[n - 1]);
        assert((head + tail).map_values(patch) =~= head.map_values(patch) + tail.map_values(
            patch,
        ));
    } else {
        assert(selected(feeds.take(0), filter).map_values(patch) =~= Seq::empty());
    }
}

/// A change of a read flag reaches every place where the entry is shown. Where no two
/// feeds have the same address or title and no feed lists an entry twice, what is shown
/// after the flag was set in each place is what would be shown were everything built
/// anew from the feeds with the flag set: the entry reads the same under its feed and in
/// the result of every query.
pub proof fn lemma_marked_is_rebuilt(
    feeds: Seq<FeedView>,
    queries: Seq<QueryFeedView>,
    url: Seq<char>,
    title: Seq<char>,
    published: Option<Seq<char>>,
    read: bool,
)
    requires
        distinct_feeds(feeds),
    ensures
        displays_marked(
            display_of(feeds, queries),
            url,
            source_title(feeds, url),
            title,
            published,
            read,
        ) == display_of(feeds_marked(feeds, url, title, published, read), queries),
{
    let source = source_title(feeds, url);
    let patch = read_patch(source, title, published, read);
    let after = feeds_marked(feeds, url, title, published, read);
    let patched = displays_marked(display_of(feeds, queries), url, source, title, published, read);
    let rebuilt = display_of(after, queries);
    lemma_feed_by_url_found(feeds, url);
    let i = feed_by_url(feeds, url);
    assert forall|a: EntryView, b: EntryView| #[trigger]
        (newer())(patch(a), patch(b)) == (newer())(a, b) by {}
    assert forall|k: int| 0 <= k < patched.len() implies #[trigger] patched[k] == rebuilt[k] by {
        if k < queries.len() {
            let filter = crate::query::filter_of(queries[k].query);
            lemma_selected_marked(feeds, filter, feeds.len() as int, url, title, published, read);
            assert(after.take(feeds.len() as int) =~= after);
            assert(feeds.take(feeds.len() as int) =~= feeds);
            lemma_stable_sort_map(selected(feeds, filter), newer(), patch);
        } else {
            let n = k - queries.len();
            if feeds[n].url == url && n != i {
                if n < i {
                    assert(feeds[n].url != url);
                } else {
                    assert(feeds[i].url != feeds[n].url);
                }
            }
        }
    }
    assert(patched =~= rebuilt);
}

/// Where an entry is found depends on the titles and dates of the entries alone.
pub proof fn lemma_entry_at_same(
    a: Seq<EntryView>,
    b: Seq<EntryView>,
    title: Seq<char>,
    published: Option<Seq<char>>,
)
    requires
        a.len() == b.len(),
        forall|k: int|
            0 <= k < a.len() ==> (#[trigger] a[k]).title == b[k].title && a[k].published
                == b[k].published,
    ensures
        entry_at(a, title, published) == entry_at(b, title, published),
{
    lemma_entry_at_found(a, title, published);
    let n = entry_at(a, title, published);
    assert forall|k: int| 0 <= k < n implies !(#[trigger] b[k]).is(title, published) by {
        assert(!a[k].is(title, published));
    }
    lemma_entry_at(b, title, published, n);
}

/// Where a feed is found depends on the addresses of the feeds alone, and on their
/// titles alone.
pub proof fn lemma_feed_found_same(a: Seq<FeedView>, b: Seq<FeedView>, text: Seq<char>)
    requires
        a.len() == b.len(),
        forall|k: int|
            0 <= k < a.len() ==> (#[trigger] a[k]).url == b[k].url && a[k].title == b[k].title,
    ensures
        feed_by_url(a, text) == feed_by_url(b, text),
        feed_by_title(a, text) == feed_by_title(b, text),
        source_title(a, text) == source_title(b, text),
        owner_url(a, text) == owner_url(b, text),
{
    lemma_feed_by_url_found(a, text);
    let n = feed_by_url(a, text);
    assert forall|k: int| 0 <= k < n implies (#[trigger] b[k]).url != text by {
        assert(a[k].url != text);
    }
    lemma_feed_by_url(b, text, n);
    lemma_feed_by_title_found(a, text);
    let m = feed_by_title(a, text);
    assert forall|k: int| 0 <= k < m implies (#[trigger] b[k]).title != text by {
        assert(a[k].title != text);
    }
    lemma_feed_by_title(b, text, m);
}

/// To set a read flag among entries a second time changes nothing.
pub proof fn lemma_entries_marked_twice(
    entries: Seq<EntryView>,
    title: Seq<char>,
    published: Option<Seq<char>>,
    read: bool,
)
    ensures
        entries_marked(entries_marked(entries, title, published, read), title, published, read)
            == entries_marked(entries, title, published, read),
{
    let once = entries_marked(entries, title, published, read);
    lemma_entry_at_found(entries, title, published);
    lemma_entry_at_same(entries, once, title, published);
    assert(entries_marked(once, title, published, read) =~= once);
}

/// To set a read flag among feeds leaves every feed its address and title, and to set it
/// a second time changes nothing.
pub proof fn lemma_feeds_marked_twice(
    feeds: Seq<FeedView>,
    url: Seq<char>,
    title: Seq<char>,
    published: Option<Seq<char>>,
    read: bool,
)
    ensures
        feeds_marked(feeds, url, title, published, read).len() == feeds.len(),
        forall|k: int|
            0 <= k < feeds.len() ==> (#[trigger] feeds_marked(
                feeds,
                url,
                title,
                published,
                read,
            )[k]).url == feeds[k].url && feeds_marked(feeds, url, title, published, read)[k].title
                == feeds[k].title,
        feeds_marked(feeds_marked(feeds, url, title, published, read), url, title, published, read)
            == feeds_marked(feeds, url, title, published, read),
{
    let once = feeds_marked(feeds, url, title, published, read);
    lemma_feed_by_url_found(feeds, url);
    let i = feed_by_url(feeds, url);
    lemma_feed_found_same(feeds, once, url);
    if i < feeds.len() {
        lemma_entries_marked_twice(feeds[i].entries, title, published, read);
        assert(feeds_marked(once, url, title, published, read) =~= once);
    }
}

/// To carry a change of a read flag to all that is shown a second time changes nothing.
pub proof fn lemma_displays_marked_twice(
    shown: Seq<DisplayView>,
    url: Seq<char>,
    source: Option<Seq<char>>,
    title: Seq<char>,
    published: Option<Seq<char>>,
    read: bool,
)
    ensures
        displays_marked(
            displays_marked(shown, url, source, title, published, read),
            url,
            source,
            title,
            published,
            read,
        ) == displays_marked(shown, url, source, title, published, read),
{
    let once = displays_marked(shown, url, source, title, published, read);
    let twice = displays_marked(once, url, source, title, published, read);
    let patch = read_patch(source, title, published, read);
    assert forall|k: int| 0 <= k < once.len() implies #[trigger] twice[k] == once[k] by {
        match shown[k] {
            DisplayView::Regular(feed) => {
                lemma_entries_marked_twice(feed.entries, title, published, read);
            },
            DisplayView::Query { name, entries } => {
                assert(entries.map_values(patch).map_values(patch) =~= entries.map_values(patch));
            },
        }
    }
    assert(twice =~= once);
}

impl Clone for DisplayFeed {
    fn clone(&self) -> (r: Self)
        ensures
            r@ == self@,
    {
        match self {
            DisplayFeed::Regular(feed) => DisplayFeed::Regular(feed.clone()),
            DisplayFeed::Query { name, entries } => DisplayFeed::Query {
                name: name.clone(),
                entries: clone_entries(entries),
            },
        }
    }
}

impl DisplayFeed {
    /// The title that the feed is shown under.
    pub fn title(&self) -> (r: &str)
        ensures
            r@ == self@.title(),
    {
        match self {
            DisplayFeed::Regular(feed) => feed.title.as_str(),
            DisplayFeed::Query { name, .. } => name.as_str(),
        }
    }

    /// The entries that the feed shows.
    pub fn entries(&self) -> (r: &[FeedEntry])
        ensures
            r.deep_view() == self@.entries(),
    {
        match self {
            DisplayFeed::Regular(feed) => {
                let r = feed.entries.as_slice();
                assert(r.deep_view() =~= feed.entries.deep_view());
                r
            },
            DisplayFeed::Query { entries, .. } => {
                let r = entries.as_slice();
                assert(r.deep_view() =~= entries.deep_view());
                r
            },
        }
    }

    /// Whether this is a query feed.
    pub fn is_query(&self) -> (r: bool)
        ensures
            r == (self@ is Query),
    {
        match self {
            DisplayFeed::Regular(_) => false,
            DisplayFeed::Query { .. } => true,
        }
    }
}

/// The index of the first of `feeds` at the address `url`, or their number.
pub fn find_by_url(feeds: &Vec<Feed>, url: &str) -> (i: usize)
    ensures
        i == feed_by_url(feeds.deep_view(), url@),
        i <= feeds.len(),
{
    let mut i: usize = 0;
    while i < feeds.len() && !text_eq(feeds[i].url.as_str(), url)
        invariant
            i <= feeds.len(),
            forall|k: int| 0 <= k < i ==> (#[trigger] feeds.deep_view()[k]).url != url@,
        decreases feeds.len() - i,
    {
        i += 1;
    }
    proof {
        lemma_feed_by_url(feeds.deep_view(), url@, i as int);
    }
    i
}

/// The index of the first of `feeds` with the title `title`, or their number.
pub fn find_by_title(feeds: &Vec<Feed>, title: &str) -> (i: usize)
    ensures
        i == feed_by_title(feeds.deep_view(), title@),
        i <= feeds.len(),
{
    let mut i: usize = 0;
    while i < feeds.len() && !text_eq(feeds[i].title.as_str(), title)
        invariant
            i <= feeds.len(),
            forall|k: int| 0 <= k < i ==> (#[trigger] feeds.deep_view()[k]).title != title@,
        decreases feeds.len() - i,
    {
        i += 1;
    }
    proof {
        lemma_feed_by_title(feeds.deep_view(), title@, i as int);
    }
    i
}

/// Sets the read flag of the first of `entries` known by `title` and `published`.
pub fn mark_first(entries: &mut Vec<FeedEntry>, title: &str, published: Option<&str>, read: bool)
    ensures
        final(entries).deep_view() == entries_marked(
            old(entries).deep_view(),
            title@,
            published.deep_view(),
            read,
        ),
{
    let ghost before = entries.deep_view();
    let mut j: usize = 0;
    while j < entries.len() && !(text_eq(entries[j].title.as_str(), title) && same_date(
        &entries[j].published,
        published,
    ))
        invariant
            j <= entries.len(),
            entries.deep_view() == before,
            forall|k: int|
                0 <= k < j ==> !(#[trigger] before[k]).is(title@, published.deep_view()),
        decreases entries.len() - j,
    {
        j += 1;
    }
    proof {
        lemma_entry_at(before, title@, published.deep_view(), j as int);
    }
    if j < entries.len() {
        entries[j].read = read;
        assert(entries.deep_view() =~= before.update(j as int, before[j as int].with_read(read)));
    }
}

/// Sets the read flag of each of `entries` that comes from the feed titled `source` and
/// is known by `title` and `published`.
pub fn mark_from_source(
    entries: &mut Vec<FeedEntry>,
    source: &Option<String>,
    title: &str,
    published: Option<&str>,
    read: bool,
)
    ensures
        final(entries).deep_view() == old(entries).deep_view().map_values(
            read_patch(source.deep_view(), title@, published.deep_view(), read),
        ),
{
    let ghost before = entries.deep_view();
    let ghost patch = read_patch(source.deep_view(), title@, published.deep_view(), read);
    let mut i: usize = 0;
    while i < entries.len()
        invariant
            i <= entries.len(),
            entries.deep_view().len() == before.len(),
            patch == read_patch(source.deep_view(), title@, published.deep_view(), read),
            forall|k: int| 0 <= k < i ==> (#[trigger] entries.deep_view()[k]) == patch(before[k]),
            forall|k: int|
                i <= k < before.len() ==> (#[trigger] entries.deep_view()[k]) == before[k],
        decreases entries.len() - i,
    {
        let ghost current = entries.deep_view();
        let same_source = match source {
            Some(from) => match &entries[i].feed_title {
                Some(stamp) => *stamp == *from,
                None => false,
            },
            None => false,
        };
        if same_source && text_eq(entries[i].title.as_str(), title) && same_date(
            &entries[i].published,
            published,
        ) {
            entries[i].read = read;
            assert(entries.deep_view() =~= current.update(
                i as int,
                current[i as int].with_read(read),
            ));
        }
        assert forall|k: int| 0 <= k < i + 1 implies (#[trigger] entries.deep_view()[k]) == patch(
            before[k],
        ) by {
            assert(current[k] == entries.deep_view()[k] || k == i);
        }
        i += 1;
    }
    assert(entries.deep_view() =~= before.map_values(patch));
}

/// What is shown for `feeds` and `query_config`: the query feeds first, each with the
/// result of its query over `feeds`, then the feeds.
pub fn build_display_feeds(feeds: &[Feed], query_config: &[QueryFeed]) -> (r: Vec<DisplayFeed>)
    ensures
        r.deep_view() == display_of(feeds.deep_view(), query_config.deep_view()),
{
    let ghost shown = display_of(feeds.deep_view(), query_config.deep_view());
    let mut r: Vec<DisplayFeed> = Vec::new();
    let mut q: usize = 0;
    while q < query_config.len()
        invariant
            q <= query_config.len(),
            shown == display_of(feeds.deep_view(), query_config.deep_view()),
            r.deep_view() == shown.take(q as int),
        decreases query_config.len() - q,
    {
        let ghost before = r.deep_view();
        let item = DisplayFeed::Query {
            name: query_config[q].name.clone(),
            entries: apply_query(feeds, query_config[q].query.as_str()),
        };
        r.push(item);
        assert(r.deep_view() =~= before.push(item@));
        assert(query_config.deep_view()[q as int] == query_config[q as int]@);
        assert(r.deep_view() =~= shown.take(q + 1));
        q += 1;
    }
    let mut i: usize = 0;
    while i < feeds.len()
        invariant
            i <= feeds.len(),
            shown == display_of(feeds.deep_view(), query_config.deep_view()),
            r.deep_view() == shown.take(query_config.len() + i),
        decreases feeds.len() - i,
    {
        let ghost before = r.deep_view();
        let item = DisplayFeed::Regular(feeds[i].clone());
        r.push(item);
        assert(r.deep_view() =~= before.push(item@));
        assert(feeds.deep_view()[i as int] == feeds[i as int]@);
        assert(r.deep_view() =~= shown.take(query_config.len() + i + 1));
        i += 1;
    }
    assert(shown.take(shown.len() as int) =~= shown);
    r
}

/// Sets the read flag of the entry known by `title` and `published` in the first of
/// `feeds` at the address `url`, and returns the title of that feed.
pub fn mark_in_feeds(
    feeds: &mut Vec<Feed>,
    url: &str,
    title: &str,
    published: Option<&str>,
    read: bool,
) -> (source: Option<String>)
    ensures
        final(feeds).deep_view() == feeds_marked(
            old(feeds).deep_view(),
            url@,
            title@,
            published.deep_view(),
            read,
        ),
        source.deep_view() == source_title(old(feeds).deep_view(), url@),
{
    let ghost before = feeds.deep_view();
    let i = find_by_url(feeds, url);
    if i < feeds.len() {
        mark_first(&mut feeds[i].entries, title, published, read);
        assert(feeds.deep_view() =~= feeds_marked(
            before,
            url@,
            title@,
            published.deep_view(),
            read,
        ));
        Some(feeds[i].title.clone())
    } else {
        None
    }
}

/// Carries the change of a read flag to all that is shown: a feed at `url` has the flag
/// set on its first entry known by `title` and `published`, a query feed on every such
/// entry that comes from the feed titled `source`.
pub fn mark_in_display(
    shown: &mut Vec<DisplayFeed>,
    url: &str,
    source: &Option<String>,
    title: &str,
    published: Option<&str>,
    read: bool,
)
    ensures
        final(shown).deep_view() == displays_marked(
            old(shown).deep_view(),
            url@,
            source.deep_view(),
            title@,
            published.deep_view(),
            read,
        ),
{
    let ghost before = shown.deep_view();
    let ghost after = displays_marked(
        before,
        url@,
        source.deep_view(),
        title@,
        published.deep_view(),
        read,
    );
    let mut k: usize = 0;
    while k < shown.len()
        invariant
            k <= shown.len(),
            shown.deep_view().len() == before.len(),
            after == displays_marked(
                before,
                url@,
                source.deep_view(),
                title@,
                published.deep_view(),
                read,
            ),
            forall|n: int| 0 <= n < k ==> (#[trigger] shown.deep_view()[n]) == after[n],
            forall|n: int| k <= n < before.len() ==> (#[trigger] shown.deep_view()[n]) == before[n],
        decreases shown.len() - k,
    {
        let ghost current = shown.deep_view();
        let ghost old_items = shown@;
        match &mut shown[k] {
            DisplayFeed::Regular(feed) => {
                if text_eq(feed.url.as_str(), url) {
                    mark_first(&mut feed.entries, title, published, read);
                }
            },
            DisplayFeed::Query { entries, .. } => {
                mark_from_source(entries, source, title, published, read);
            },
        }
        proof {
            let was = old_items[k as int];
            let now = shown@[k as int];
            assert(current[k as int] == was@);
            assert forall|n: int| 0 <= n < current.len() && n != k implies (
            #[trigger] shown.deep_view()[n]) == current[n] by {
                assert(shown@[n] == old_items[n]);
            }
            if was is Regular {
                assert(now->Regular_0.url == was->Regular_0.url);
                assert(now->Regular_0.title == was->Regular_0.title);
                assert(now->Regular_0.tags == was->Regular_0.tags);
            } else {
                assert(now->Query_name == was->Query_name);
            }
            assert(now@ == after[k as int]);
        }
        k += 1;
    }
    assert(shown.deep_view() =~= after);
}

} // verus!
