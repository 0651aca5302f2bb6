//! The cache of feeds: what was fetched, kept over refreshes together with what the
//! user has read.
//!
//! Saving a feed never takes a row away. The row of the feed is updated where it stands,
//! under the identifier it has; the entries that come with it are saved one by one, each
//! to the row of its title and date, and only a new row starts unread.

use crate::feeds::{newest_first, sort_newest_first, Feed, FeedView};
use crate::order::{
    lemma_insert_point_is, lemma_stable_sort_len, lemma_stable_sort_permutes,
    lemma_stable_sort_sorted, sorted, stable_sort, strict_weak_order,
};
use crate::rows::{
    distinct_keys, encode_tags, encoded_tags, entries_of, has_distinct_keys,
    lemma_with_entries_distinct,
    lemma_with_read_distinct, put_entries, set_read, with_entries, with_read, EntryRow, FeedRow,
    FeedRowView,
};
use crate::text::text_eq;
use vstd::prelude::*;

verus! {

/// Why the cache could not do what it was asked.
#[derive(Debug, Clone, Copy, PartialEq, Eq, Structural)]
pub enum CacheError {
    /// No identifier is left for a new feed.
    Full,
    /// Rows that were handed over break a rule of the cache: two feeds of one address or
    /// identifier, an identifier out of range, or two entries of one title and date.
    Constraint,
}

/// The cache: a row for each feed, in the order in which the feeds were first saved.
pub struct FeedCache {
    feeds: Vec<FeedRow>,
}

/// The value of a [`FeedCache`].
pub struct CacheView {
    pub feeds: Seq<FeedRowView>,
}

/// The index of the first row of `feeds` with the address `url`, or the length of
/// `feeds` where there is none.
pub open spec fn feed_at(feeds: Seq<FeedRowView>, url: Seq<char>) -> int
    decreases feeds.len(),
{
    if feeds.len() == 0 || feeds[0].url == url {
        0
    } else {
        1 + feed_at(feeds.drop_first(), url)
    }
}

/// The largest identifier in `feeds`, 0 where there is no row.
pub open spec fn max_id(feeds: Seq<FeedRowView>) -> int
    decreases feeds.len(),
{
    if feeds.len() == 0 {
        0
    } else if feeds.last().id > max_id(feeds.drop_last()) {
        feeds.last().id
    } else {
        max_id(feeds.drop_last())
    }
}

/// The order in which all the feeds are listed: by their configured place.
pub open spec fn by_position() -> spec_fn(FeedRowView, FeedRowView) -> bool {
    |a: FeedRowView, b: FeedRowView| a.position < b.position
}

/// The feed that is read from `row`: what the row holds, its entries the newest first.
pub open spec fn listed(row: FeedRowView) -> FeedView {
    FeedView { entries: newest_first(entries_of(row.entries)), ..row.feed() }
}

impl CacheView {
    /// The rules of the cache: no two feeds of one address or of one identifier, every
    /// identifier positive and below the largest number of its type, and within a feed
    /// no two entries of one title and date.
    pub open spec fn wf(self) -> bool {
        &&& forall|i: int, j: int|
            0 <= i < j < self.feeds.len() ==> (#[trigger] self.feeds[i]).url
                != (#[trigger] self.feeds[j]).url
        &&& forall|i: int, j: int|
            0 <= i < j < self.feeds.len() ==> (#[trigger] self.feeds[i]).id
                != (#[trigger] self.feeds[j]).id
        &&& forall|i: int|
            0 <= i < self.feeds.len() ==> 1 <= (#[trigger] self.feeds[i]).id <= i64::MAX
        &&& forall|i: int|
            0 <= i < self.feeds.len() ==> distinct_keys((#[trigger] self.feeds[i]).entries)
    }

    /// Whether the cache holds the feed at `url`.
    pub open spec fn has(self, url: Seq<char>) -> bool {
        feed_at(self.feeds, url) < self.feeds.len()
    }

    /// The row of the feed at `url`, where the cache holds that feed.
    pub open spec fn row(self, url: Seq<char>) -> FeedRowView {
        self.feeds[feed_at(self.feeds, url)]
    }

    /// The identifier of the row of the feed at `url`.
    pub open spec fn id_of(self, url: Seq<char>) -> Option<int> {
        if self.has(url) {
            Some(self.row(url).id)
        } else {
            None
        }
    }

    /// Whether the feed at `url` can be saved: it has a row, or an identifier is left.
    pub open spec fn can_save(self, url: Seq<char>) -> bool {
        self.has(url) || max_id(self.feeds) < i64::MAX
    }

    /// The cache after `feed` was saved at the time `now`. The row of the feed keeps its
    /// place, its identifier and its entries, and takes title, time, tags and position;
    /// a feed without a row gets one at the end, under the next identifier. Then the
    /// entries of `feed` are saved to the row one after the other.
    pub open spec fn saved(self, feed: FeedView, position: int, now: int) -> CacheView {
        let i = feed_at(self.feeds, feed.url);
        if 0 <= i < self.feeds.len() {
            CacheView {
                feeds: self.feeds.update(
                    i,
                    FeedRowView {
                        title: feed.title,
                        last_fetched: now,
                        tags: encoded_tags(feed.tags),
                        position,
                        entries: with_entries(self.feeds[i].entries, feed.entries),
                        ..self.feeds[i]
                    },
                ),
            }
        } else {
            CacheView {
                feeds: self.feeds.push(
                    FeedRowView {
                        id: max_id(self.feeds) + 1,
                        url: feed.url,
                        title: feed.title,
                        last_fetched: now,
                        tags: encoded_tags(feed.tags),
                        position,
                        entries: with_entries(Seq::empty(), feed.entries),
                    },
                ),
            }
        }
    }

    /// The cache after an attempt to save `feed`: as `saved` where the feed can be saved,
    /// and unchanged where it cannot.
    pub open spec fn try_saved(self, feed: FeedView, position: int, now: int) -> CacheView {
        if self.can_save(feed.url) {
            self.saved(feed, position, now)
        } else {
            self
        }
    }

    /// The feed at `url` as it is read from the cache, its entries the newest first.
    pub open spec fn loaded(self, url: Seq<char>) -> Option<FeedView> {
        if self.has(url) {
            Some(listed(self.row(url)))
        } else {
            None
        }
    }

    /// All the feeds as they are read from the cache: in the order of their configured
    /// places, feeds of one place in the order in which they were first saved.
    pub open spec fn loaded_all(self) -> Seq<FeedView> {
        let rows = stable_sort(self.feeds, by_position());
        Seq::new(rows.len(), |i: int| listed(rows[i]))
    }

    /// The cache after the entry of the feed at `url` that is known by `title` and
    /// `published` got the read flag `read`. Nothing changes where there is no such feed
    /// or entry.
    pub open spec fn marked(
        self,
        url: Seq<char>,
        title: Seq<char>,
        published: Option<Seq<char>>,
        read: bool,
    ) -> CacheView {
        let i = feed_at(self.feeds, url);
        if 0 <= i < self.feeds.len() {
            CacheView {
                feeds: self.feeds.update(
                    i,
                    FeedRowView {
                        entries: with_read(self.feeds[i].entries, title, published, read),
                        ..self.feeds[i]
                    },
                ),
            }
        } else {
            self
        }
    }

    /// The cache without the feed at `url` and its entries.
    pub open spec fn without(self, url: Seq<char>) -> CacheView {
        let i = feed_at(self.feeds, url);
        if 0 <= i < self.feeds.len() {
            CacheView { feeds: self.feeds.remove(i) }
        } else {
            self
        }
    }

    /// When the feed at `url` was last saved.
    pub open spec fn last_fetch(self, url: Seq<char>) -> Option<int> {
        if self.has(url) {
            Some(self.row(url).last_fetched)
        } else {
            None
        }
    }
}

/// `feed_at` is `n` where no row before `n` has the address and the row at `n` has it,
/// or the rows end there.
pub proof fn lemma_feed_at(feeds: Seq<FeedRowView>, url: Seq<char>, n: int)
    requires
        0 <= n <= feeds.len(),
        forall|k: int| 0 <= k < n ==> (#[trigger] feeds[k]).url != url,
        n == feeds.len() || feeds[n].url == url,
    ensures
        feed_at(feeds, url) == n,
    decreases n,
{
    if n > 0 {
        lemma_feed_at(feeds.drop_first(), url, n - 1);
    }
}

/// What `feed_at` returns: an index up to the length, no row before it has the address,
/// and the row there has it.
pub proof fn lemma_feed_at_found(feeds: Seq<FeedRowView>, url: Seq<char>)
    ensures
        0 <= feed_at(feeds, url) <= feeds.len(),
        forall|k: int| 0 <= k < feed_at(feeds, url) ==> (#[trigger] feeds[k]).url != url,
        feed_at(feeds, url) < feeds.len() ==> feeds[feed_at(feeds, url)].url == url,
    decreases feeds.len(),
{
    if !(feeds.len() == 0 || feeds[0].url == url) {
        lemma_feed_at_found(feeds.drop_first(), url);
        assert forall|k: int| 0 <= k < feed_at(feeds, url) implies (#[trigger] feeds[k]).url
            != url by {
            if k > 0 {
                assert(feeds[k] == feeds.drop_first()[k - 1]);
            }
        }
    }
}

/// No identifier in `feeds` is above `max_id`, which is 0 at least.
pub proof fn lemma_max_id(feeds: Seq<FeedRowView>)
    ensures
        forall|k: int| 0 <= k < feeds.len() ==> (#[trigger] feeds[k]).id <= max_id(feeds),
        max_id(feeds) >= 0,
    decreases feeds.len(),
{
    if feeds.len() > 0 {
        lemma_max_id(feeds.drop_last());
        assert forall|k: int| 0 <= k < feeds.len() implies (#[trigger] feeds[k]).id <= max_id(
            feeds,
        ) by {
            if k < feeds.len() - 1 {
                assert(feeds[k] == feeds.drop_last()[k]);
            }
        }
    }
}

/// Saving a feed keeps the rules of the cache.
pub proof fn lemma_saved_wf(cache: CacheView, feed: FeedView, position: int, now: int)
    requires
        cache.wf(),
        cache.can_save(feed.url),
    ensures
        cache.saved(feed, position, now).wf(),
{
    let i = feed_at(cache.feeds, feed.url);
    let after = cache.saved(feed, position, now).feeds;
    lemma_feed_at_found(cache.feeds, feed.url);
    lemma_max_id(cache.feeds);
    if i < cache.feeds.len() {
        lemma_with_entries_distinct(cache.feeds[i].entries, feed.entries);
        assert forall|k: int| 0 <= k < after.len() implies distinct_keys(
            (#[trigger] after[k]).entries,
        ) by {
            if k != i {
                assert(after[k] == cache.feeds[k]);
            }
        }
    } else {
        lemma_with_entries_distinct(Seq::empty(), feed.entries);
        assert forall|k: int| 0 <= k < after.len() implies distinct_keys(
            (#[trigger] after[k]).entries,
        ) by {
            if k < cache.feeds.len() {
                assert(after[k] == cache.feeds[k]);
            }
        }
    }
}

/// Setting a read flag keeps the rules of the cache.
pub proof fn lemma_marked_wf(
    cache: CacheView,
    url: Seq<char>,
    title: Seq<char>,
    published: Option<Seq<char>>,
    read: bool,
)
    requires
        cache.wf(),
    ensures
        cache.marked(url, title, published, read).wf(),
{
    let i = feed_at(cache.feeds, url);
    let after = cache.marked(url, title, published, read).feeds;
    lemma_feed_at_found(cache.feeds, url);
    if i < cache.feeds.len() {
        lemma_with_read_distinct(cache.feeds[i].entries, title, published, read);
        assert forall|k: int| 0 <= k < after.len() implies distinct_keys(
            (#[trigger] after[k]).entries,
        ) by {
            if k != i {
                assert(after[k] == cache.feeds[k]);
            }
        }
    }
}

/// The order of the feeds is a strict weak order, so that sorting by it is well defined.
pub proof fn lemma_by_position_is_order()
    ensures
        strict_weak_order(by_position()),
{
}

/// What is read of all the feeds holds every feed of the cache once, in the order of the
/// places: no feed stands behind one of a later place.
pub proof fn lemma_loaded_all_in_order(cache: CacheView)
    ensures
        cache.loaded_all().len() == cache.feeds.len(),
        sorted(stable_sort(cache.feeds, by_position()), by_position()),
        stable_sort(cache.feeds, by_position()).to_multiset() == cache.feeds.to_multiset(),
{
    lemma_by_position_is_order();
    lemma_stable_sort_sorted(cache.feeds, by_position());
    lemma_stable_sort_len(cache.feeds, by_position());
    lemma_stable_sort_permutes(cache.feeds, by_position());
}

impl View for FeedCache {
    type V = CacheView;

    closed spec fn view(&self) -> CacheView {
        CacheView { feeds: self.feeds.deep_view() }
    }
}

impl FeedCache {
    /// An empty cache.
    pub fn new() -> (r: Self)
        ensures
            r@.feeds.len() == 0,
            r@.wf(),
    {
        let r = FeedCache { feeds: Vec::new() };
        assert(r.feeds.deep_view() =~= Seq::empty());
        r
    }

    /// The index of the row of the feed at `url`, or the number of rows.
    fn find(&self, url: &str) -> (i: usize)
        ensures
            i == feed_at(self@.feeds, url@),
            i <= self.feeds.len(),
    {
        let mut i: usize = 0;
        while i < self.feeds.len() && !text_eq(self.feeds[i].url.as_str(), url)
            invariant
                i <= self.feeds.len(),
                forall|k: int| 0 <= k < i ==> (#[trigger] self.feeds.deep_view()[k]).url != url@,
            decreases self.feeds.len() - i,
        {
            i += 1;
        }
        proof {
            lemma_feed_at(self.feeds.deep_view(), url@, i as int);
        }
        i
    }

    /// Whether the cache holds the feed at `url`.
    pub fn has_feed(&self, url: &str) -> (r: Result<bool, CacheError>)
        ensures
            r == Ok::<bool, CacheError>(self@.has(url@)),
    {
        Ok(self.find(url) < self.feeds.len())
    }

    /// When the feed at `url` was last saved, in seconds since the Unix epoch.
    pub fn get_last_fetch(&self, url: &str) -> (r: Result<Option<i64>, CacheError>)
        ensures
            r matches Ok(at) && self@.last_fetch(url@) == match at {
                Some(t) => Some(t as int),
                None => None,
            },
    {
        let i = self.find(url);
        if i < self.feeds.len() {
            Ok(Some(self.feeds[i].last_fetched))
        } else {
            Ok(None)
        }
    }

    /// Takes the feed at `url` out of the cache, with its entries. The other feeds stay
    /// as they are.
    pub fn delete_feed(&mut self, url: &str) -> (r: Result<(), CacheError>)
        requires
            old(self)@.wf(),
        ensures
            r is Ok,
            final(self)@ == old(self)@.without(url@),
            final(self)@.wf(),
    {
        let i = self.find(url);
        if i < self.feeds.len() {
            let ghost before = self.feeds.deep_view();
            self.feeds.remove(i);
            assert(self.feeds.deep_view() =~= before.remove(i as int));
        }
        Ok(())
    }

    /// Empties the cache.
    pub fn clear_all(&mut self) -> (r: Result<(), CacheError>)
        ensures
            r is Ok,
            final(self)@.feeds.len() == 0,
            final(self)@.wf(),
    {
        self.feeds.clear();
        assert(self.feeds.deep_view() =~= Seq::empty());
        Ok(())
    }
}

impl FeedRow {
    /// The feed that is read from the row: what the row holds, its entries the newest
    /// first.
    pub fn listed(&self) -> (r: Feed)
        ensures
            r@ == listed(self@),
    {
        Feed {
            url: self.url.clone(),
            title: self.title.clone(),
            entries: sort_newest_first(self.entries()),
            tags: self.tags(),
        }
    }
}

impl FeedCache {
    /// The identifier for a new row: one above the largest in use, `None` where that is
    /// the largest number there is.
    fn next_id(&self) -> (r: Option<i64>)
        ensures
            match r {
                Some(id) => id == max_id(self@.feeds) + 1,
                None => max_id(self@.feeds) >= i64::MAX,
            },
    {
        let mut largest: i64 = 0;
        let mut i: usize = 0;
        while i < self.feeds.len()
            invariant
                i <= self.feeds.len(),
                largest == max_id(self.feeds.deep_view().take(i as int)),
            decreases self.feeds.len() - i,
        {
            proof {
                let next = self.feeds.deep_view().take(i + 1);
                assert(next.drop_last() =~= self.feeds.deep_view().take(i as int));
                assert(next.last() == self.feeds[i as int]@);
            }
            if self.feeds[i].id > largest {
                largest = self.feeds[i].id;
            }
            i += 1;
        }
        assert(self.feeds.deep_view().take(self.feeds.len() as int) =~= self.feeds.deep_view());
        if largest < i64::MAX {
            Some(largest + 1)
        } else {
            None
        }
    }

    /// Saves `feed` as fetched at the time `now`, in seconds since the Unix epoch.
    ///
    /// A feed that the cache holds keeps its row and the identifier of the row: title,
    /// time, tags and position are written into it. A feed that it does not hold gets a
    /// new row. Every entry of `feed` is then saved: into the row of its title and date,
    /// which takes text, links and media and keeps its read flag, or as a new row,
    /// unread. No row of an entry is taken away. Fails, and changes nothing, where the
    /// feed needs a new row and no identifier is left.
    pub fn save_feed(&mut self, feed: &Feed, position: usize, now: i64) -> (r: Result<
        (),
        CacheError,
    >)
        requires
            old(self)@.wf(),
        ensures
            final(self)@.wf(),
            final(self)@ == old(self)@.try_saved(feed@, position as int, now as int),
            r == if old(self)@.can_save(feed@.url) {
                Ok::<(), CacheError>(())
            } else {
                Err::<(), CacheError>(CacheError::Full)
            },
    {
        let ghost before = self.feeds.deep_view();
        let i = self.find(feed.url.as_str());
        proof {
            lemma_feed_at_found(before, feed@.url);
        }
        if i < self.feeds.len() {
            self.feeds[i].title = feed.title.clone();
            self.feeds[i].last_fetched = now;
            self.feeds[i].tags = encode_tags(&feed.tags);
            self.feeds[i].position = position;
            put_entries(&mut self.feeds[i].entries, &feed.entries);
            proof {
                assert(self.feeds.deep_view() =~= (CacheView { feeds: before }).saved(
                    feed@,
                    position as int,
                    now as int,
                ).feeds);
                lemma_saved_wf(CacheView { feeds: before }, feed@, position as int, now as int);
            }
            Ok(())
        } else {
            match self.next_id() {
                None => Err(CacheError::Full),
                Some(id) => {
                    let mut entries: Vec<EntryRow> = Vec::new();
                    assert(entries.deep_view() =~= Seq::empty());
                    put_entries(&mut entries, &feed.entries);
                    let row = FeedRow {
                        id,
                        url: feed.url.clone(),
                        title: feed.title.clone(),
                        last_fetched: now,
                        tags: encode_tags(&feed.tags),
                        position,
                        entries,
                    };
                    self.feeds.push(row);
                    proof {
                        assert(self.feeds.deep_view() =~= before.push(row@));
                        lemma_saved_wf(
                            CacheView { feeds: before },
                            feed@,
                            position as int,
                            now as int,
                        );
                    }
                    Ok(())
                },
            }
        }
    }

    /// Gives the entry of the feed at `feed_url` that is known by `entry_title` and
    /// `published` the read flag `read`. An entry without a date is known by no date
    /// only. Nothing changes where the cache holds no such feed or entry.
    pub fn mark_entry(
        &mut self,
        feed_url: &str,
        entry_title: &str,
        published: Option<&str>,
        read: bool,
    ) -> (r: Result<(), CacheError>)
        requires
            old(self)@.wf(),
        ensures
            r is Ok,
            final(self)@ == old(self)@.marked(
                feed_url@,
                entry_title@,
                published.deep_view(),
                read,
            ),
            final(self)@.wf(),
    {
        let ghost before = self.feeds.deep_view();
        let i = self.find(feed_url);
        if i < self.feeds.len() {
            set_read(&mut self.feeds[i].entries, entry_title, published, read);
            assert(self.feeds.deep_view() =~= (CacheView { feeds: before }).marked(
                feed_url@,
                entry_title@,
                published.deep_view(),
                read,
            ).feeds);
        }
        proof {
            lemma_marked_wf(
                CacheView { feeds: before },
                feed_url@,
                entry_title@,
                published.deep_view(),
                read,
            );
        }
        Ok(())
    }

    /// Marks the entry of the feed at `feed_url` that is known by `entry_title` and
    /// `published` as read.
    pub fn mark_entry_read(&mut self, feed_url: &str, entry_title: &str, published: Option<&str>)
        -> (r: Result<(), CacheError>)
        requires
            old(self)@.wf(),
        ensures
            r is Ok,
            final(self)@ == old(self)@.marked(
                feed_url@,
                entry_title@,
                published.deep_view(),
                true,
            ),
            final(self)@.wf(),
    {
        self.mark_entry(feed_url, entry_title, published, true)
    }

    /// Marks the entry of the feed at `feed_url` that is known by `entry_title` and
    /// `published` as unread.
    pub fn mark_entry_unread(
        &mut self,
        feed_url: &str,
        entry_title: &str,
        published: Option<&str>,
    ) -> (r: Result<(), CacheError>)
        requires
            old(self)@.wf(),
        ensures
            r is Ok,
            final(self)@ == old(self)@.marked(
                feed_url@,
                entry_title@,
                published.deep_view(),
                false,
            ),
            final(self)@.wf(),
    {
        self.mark_entry(feed_url, entry_title, published, false)
    }

    /// The feed at `url` as the cache holds it, its entries the newest first; `None`
    /// where the cache does not hold it.
    pub fn load_feed(&self, url: &str) -> (r: Result<Option<Feed>, CacheError>)
        ensures
            r matches Ok(feed) && feed.deep_view() == self@.loaded(url@),
    {
        let i = self.find(url);
        if i < self.feeds.len() {
            Ok(Some(self.feeds[i].listed()))
        } else {
            Ok(None)
        }
    }

    /// All the feeds that the cache holds, in the order of their configured places, the
    /// entries of each the newest first.
    pub fn load_all_feeds(&self) -> (r: Result<Vec<Feed>, CacheError>)
        ensures
            r matches Ok(feeds) && feeds.deep_view() == self@.loaded_all(),
    {
        let ghost rows = self.feeds.deep_view();
        let mut feeds: Vec<Feed> = Vec::new();
        let mut places: Vec<usize> = Vec::new();
        let ghost mut ordered: Seq<FeedRowView> = Seq::empty();
        let mut i: usize = 0;
        while i < self.feeds.len()
            invariant
                i <= self.feeds.len(),
                rows == self.feeds.deep_view(),
                ordered == stable_sort(rows.take(i as int), by_position()),
                feeds.len() == ordered.len(),
                places.len() == ordered.len(),
                forall|k: int|
                    0 <= k < ordered.len() ==> (#[trigger] feeds[k])@ == listed(ordered[k]),
                forall|k: int|
                    0 <= k < ordered.len() ==> (#[trigger] places[k]) == ordered[k].position,
            decreases self.feeds.len() - i,
        {
            let row = &self.feeds[i];
            let mut j: usize = places.len();
            while j > 0 && row.position < places[j - 1]
                invariant
                    j <= places.len(),
                    places.len() == ordered.len(),
                    forall|k: int|
                        0 <= k < ordered.len() ==> (#[trigger] places[k]) == ordered[k].position,
                    forall|k: int|
                        j <= k < ordered.len() ==> (by_position())(row@, #[trigger] ordered[k]),
                decreases j,
            {
                j -= 1;
            }
            proof {
                lemma_insert_point_is(ordered, row@, by_position(), j as int);
                let next = rows.take(i + 1);
                assert(next.drop_last() =~= rows.take(i as int));
                assert(next.last() == row@);
            }
            let feed = row.listed();
            feeds.insert(j, feed);
            places.insert(j, row.position);
            proof {
                ordered = ordered.insert(j as int, row@);
            }
            i += 1;
        }
        proof {
            assert(rows.take(rows.len() as int) =~= rows);
            assert(feeds.deep_view() =~= self@.loaded_all());
        }
        Ok(feeds)
    }
}

/// Whether `rows` keep the rules of the cache.
fn rows_valid(rows: &Vec<FeedRow>) -> (r: bool)
    ensures
        r == (CacheView { feeds: rows.deep_view() }).wf(),
{
    let ghost all = rows.deep_view();
    let mut j: usize = 0;
    while j < rows.len()
        invariant
            j <= rows.len(),
            all == rows.deep_view(),
            forall|a: int, b: int|
                0 <= a < b < j ==> (#[trigger] all[a]).url != (#[trigger] all[b]).url,
            forall|a: int, b: int|
                0 <= a < b < j ==> (#[trigger] all[a]).id != (#[trigger] all[b]).id,
            forall|a: int| 0 <= a < j ==> 1 <= (#[trigger] all[a]).id <= i64::MAX,
            forall|a: int| 0 <= a < j ==> distinct_keys((#[trigger] all[a]).entries),
        decreases rows.len() - j,
    {
        assert(all[j as int] == rows[j as int]@);
        if rows[j].id < 1 || !has_distinct_keys(&rows[j].entries) {
            return false;
        }
        let mut i: usize = 0;
        while i < j
            invariant
                i <= j < rows.len(),
                all == rows.deep_view(),
                forall|a: int| 0 <= a < i ==> (#[trigger] all[a]).url != all[j as int].url,
                forall|a: int| 0 <= a < i ==> (#[trigger] all[a]).id != all[j as int].id,
            decreases j - i,
        {
            assert(all[i as int] == rows[i as int]@);
            assert(all[j as int] == rows[j as int]@);
            if rows[i].url == rows[j].url || rows[i].id == rows[j].id {
                return false;
            }
            i += 1;
        }
        j += 1;
    }
    true
}

impl FeedCache {
    /// The cache that holds `rows`, as they were written out from a cache before. Fails
    /// where the rows break a rule of the cache: two feeds of one address or identifier,
    /// an identifier below 1, or two entries of one title and date in a feed.
    pub fn restore(rows: Vec<FeedRow>) -> (r: Result<FeedCache, CacheError>)
        ensures
            match r {
                Ok(cache) => cache@.feeds == rows.deep_view() && cache@.wf(),
                Err(e) => e == CacheError::Constraint && !(CacheView {
                    feeds: rows.deep_view(),
                }).wf(),
            },
    {
        if rows_valid(&rows) {
            Ok(FeedCache { feeds: rows })
        } else {
            Err(CacheError::Constraint)
        }
    }

    /// The rows of the cache, to be written out.
    pub fn rows(&self) -> (r: Vec<FeedRow>)
        ensures
            r.deep_view() == self@.feeds,
    {
        let mut r: Vec<FeedRow> = Vec::new();
        let mut i: usize = 0;
        while i < self.feeds.len()
            invariant
                i <= self.feeds.len(),
                r.deep_view() == self.feeds.deep_view().take(i as int),
            decreases self.feeds.len() - i,
        {
            let ghost before = r.deep_view();
            let row = self.feeds[i].clone();
            r.push(row);
            assert(r.deep_view() =~= before.push(row@));
            assert(r.deep_view() =~= self.feeds.deep_view().take(i + 1));
            i += 1;
        }
        assert(r.deep_view() =~= self.feeds.deep_view());
        r
    }
}

impl CacheError {
    /// What went wrong, in words.
    pub fn message(&self) -> (r: &'static str)
        ensures
            r@ == match self {
                CacheError::Full => "no identifier is left for a new feed"@,
                CacheError::Constraint => "the rows break a rule of the cache"@,
            },
    {
        match self {
            CacheError::Full => "no identifier is left for a new feed",
            CacheError::Constraint => "the rows break a rule of the cache",
        }
    }
}

} // verus!
