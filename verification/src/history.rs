//! What the cache keeps and what it takes in: entries and read flags over saves, the
//! identifier of a feed, what a save stores, and which entries a read flag is set on.

use crate::cache::{
    by_position, feed_at, lemma_feed_at, lemma_feed_at_found, listed, CacheView,
};
use crate::display::{distinct_entries, distinct_feeds, distinct_titles, distinct_urls};
use crate::feeds::{newer, EntryView, FeedView};
use crate::json::encoded_strings;
use crate::order::{lemma_stable_sort_contains, lemma_stable_sort_pairwise, stable_sort};
use crate::rows::{
    distinct_keys, encoded_tags, entries_of, lemma_row_at_found, row_at, share_row, with_entries,
    with_entry, with_read, EntryRowView, FeedRowView,
};
use vstd::prelude::*;

verus! {

/// Saving an entry leaves every row where it is, with its title, date and read flag.
pub proof fn lemma_with_entry_keeps(rows: Seq<EntryRowView>, fresh: EntryView, j: int)
    requires
        0 <= j < rows.len(),
    ensures
        j < with_entry(rows, fresh).len(),
        with_entry(rows, fresh)[j].title == rows[j].title,
        with_entry(rows, fresh)[j].published == rows[j].published,
        with_entry(rows, fresh)[j].read == rows[j].read,
{
    lemma_row_at_found(rows, fresh.title, fresh.published);
}

/// Saving entries leaves every row where it is, with its title, date and read flag.
pub proof fn lemma_with_entries_keeps(rows: Seq<EntryRowView>, fresh: Seq<EntryView>, j: int)
    requires
        0 <= j < rows.len(),
    ensures
        j < with_entries(rows, fresh).len(),
        with_entries(rows, fresh)[j].title == rows[j].title,
        with_entries(rows, fresh)[j].published == rows[j].published,
        with_entries(rows, fresh)[j].read == rows[j].read,
    decreases fresh.len(),
{
    if fresh.len() > 0 {
        lemma_with_entries_keeps(rows, fresh.drop_last(), j);
        lemma_with_entry_keeps(with_entries(rows, fresh.drop_last()), fresh.last(), j);
    }
}

/// Saving an entry leaves the rows of other titles and dates as they are.
pub proof fn lemma_with_entry_leaves(rows: Seq<EntryRowView>, fresh: EntryView, j: int)
    requires
        0 <= j < rows.len(),
        !rows[j].has_key(fresh.title, fresh.published),
    ensures
        j < with_entry(rows, fresh).len(),
        with_entry(rows, fresh)[j] == rows[j],
{
    lemma_row_at_found(rows, fresh.title, fresh.published);
}

/// Saving an entry stores it: afterwards the row of its title and date holds its text,
/// links and media. Where the row is new, it is unread and has the date of the entry.
pub proof fn lemma_with_entry_stores(rows: Seq<EntryRowView>, fresh: EntryView)
    ensures
        ({
            let j = row_at(rows, fresh.title, fresh.published);
            let after = with_entry(rows, fresh);
            &&& 0 <= j < after.len()
            &&& after[j].has_key(fresh.title, fresh.published)
            &&& after[j].text == fresh.text
            &&& after[j].links == encoded_strings(fresh.links)
            &&& after[j].media == fresh.media
            &&& j == rows.len() ==> !after[j].read && after[j].published == fresh.published
        }),
{
    lemma_row_at_found(rows, fresh.title, fresh.published);
}

/// Saving entries stores each of them: afterwards a row of the title and date of the
/// entry holds its text, links and media. Of two entries of one title and date the later
/// is the one stored.
pub proof fn lemma_with_entries_stores(rows: Seq<EntryRowView>, fresh: Seq<EntryView>, k: int)
    requires
        0 <= k < fresh.len(),
        forall|m: int| k < m < fresh.len() ==> !share_row(fresh[k], #[trigger] fresh[m]),
    ensures
        exists|j: int|
            0 <= j < with_entries(rows, fresh).len() && (#[trigger] with_entries(
                rows,
                fresh,
            )[j]).has_key(fresh[k].title, fresh[k].published) && with_entries(rows, fresh)[j].text
                == fresh[k].text && with_entries(rows, fresh)[j].links == encoded_strings(
                fresh[k].links,
            ) && with_entries(rows, fresh)[j].media == fresh[k].media,
    decreases fresh.len(),
{
    let before = with_entries(rows, fresh.drop_last());
    let after = with_entries(rows, fresh);
    if k == fresh.len() - 1 {
        lemma_with_entry_stores(before, fresh.last());
        let j = row_at(before, fresh.last().title, fresh.last().published);
        assert(after[j].has_key(fresh[k].title, fresh[k].published));
    } else {
        assert forall|m: int| k < m < fresh.drop_last().len() implies !share_row(
            fresh.drop_last()[k],
            #[trigger] fresh.drop_last()[m],
        ) by {
            assert(fresh.drop_last()[m] == fresh[m]);
        }
        lemma_with_entries_stores(rows, fresh.drop_last(), k);
        let j = choose|j: int|
            0 <= j < before.len() && (#[trigger] before[j]).has_key(
                fresh[k].title,
                fresh[k].published,
            ) && before[j].text == fresh[k].text && before[j].links == encoded_strings(
                fresh[k].links,
            ) && before[j].media == fresh[k].media;
        assert(!share_row(fresh[k], fresh.last())) by {
            assert(fresh[fresh.len() - 1] == fresh.last());
        }
        lemma_with_entry_leaves(before, fresh.last(), j);
        assert(after[j] == before[j]);
    }
}

/// Saving a feed stores what was fetched: afterwards the cache holds the feed, under the
/// title, tags and position given, and for each of its entries a row of the title and
/// date of the entry with its text, links and media. Of two entries of one title and
/// date the later is the one stored.
pub proof fn lemma_save_stores(cache: CacheView, feed: FeedView, position: int, now: int, k: int)
    requires
        0 <= k < feed.entries.len(),
        forall|m: int|
            k < m < feed.entries.len() ==> !share_row(feed.entries[k], #[trigger] feed.entries[m]),
    ensures
        ({
            let after = cache.saved(feed, position, now);
            let row = after.row(feed.url);
            &&& after.has(feed.url)
            &&& row.url == feed.url
            &&& row.title == feed.title
            &&& row.tags == encoded_tags(feed.tags)
            &&& row.position == position
            &&& row.last_fetched == now
            &&& exists|j: int|
                0 <= j < row.entries.len() && (#[trigger] row.entries[j]).has_key(
                    feed.entries[k].title,
                    feed.entries[k].published,
                ) && row.entries[j].text == feed.entries[k].text && row.entries[j].links
                    == encoded_strings(feed.entries[k].links) && row.entries[j].media
                    == feed.entries[k].media
        }),
{
    let after = cache.saved(feed, position, now);
    let n = feed_at(cache.feeds, feed.url);
    lemma_feed_at_found(cache.feeds, feed.url);
    assert forall|i: int| 0 <= i < n implies (#[trigger] after.feeds[i]).url != feed.url by {
        assert(after.feeds[i].url == cache.feeds[i].url);
    }
    lemma_feed_at(after.feeds, feed.url, n);
    let rows_before = if n < cache.feeds.len() {
        cache.feeds[n].entries
    } else {
        Seq::empty()
    };
    lemma_with_entries_stores(rows_before, feed.entries, k);
    let stored = with_entries(rows_before, feed.entries);
    let j = choose|j: int|
        0 <= j < stored.len() && (#[trigger] stored[j]).has_key(
            feed.entries[k].title,
            feed.entries[k].published,
        ) && stored[j].text == feed.entries[k].text && stored[j].links == encoded_strings(
            feed.entries[k].links,
        ) && stored[j].media == feed.entries[k].media;
    assert(after.row(feed.url) == after.feeds[n]);
    assert(after.feeds[n].entries == stored);
    assert(after.row(feed.url).entries[j].has_key(
        feed.entries[k].title,
        feed.entries[k].published,
    ));
}

/// Saving a feed leaves every feed that the cache holds at its place among the rows.
pub proof fn lemma_saved_keeps_place(
    cache: CacheView,
    feed: FeedView,
    position: int,
    now: int,
    url: Seq<char>,
)
    requires
        cache.has(url),
    ensures
        feed_at(cache.saved(feed, position, now).feeds, url) == feed_at(cache.feeds, url),
        cache.saved(feed, position, now).has(url),
{
    let after = cache.saved(feed, position, now).feeds;
    let n = feed_at(cache.feeds, url);
    lemma_feed_at_found(cache.feeds, url);
    lemma_feed_at_found(cache.feeds, feed.url);
    assert forall|k: int| 0 <= k < n implies (#[trigger] after[k]).url != url by {
        assert(after[k].url == cache.feeds[k].url);
    }
    assert(after[n].url == cache.feeds[n].url);
    lemma_feed_at(after, url, n);
}

/// A feed keeps the identifier of its row when a feed is saved, be it that feed or
/// another.
pub proof fn lemma_save_keeps_id(
    cache: CacheView,
    feed: FeedView,
    position: int,
    now: int,
    url: Seq<char>,
)
    requires
        cache.has(url),
    ensures
        cache.saved(feed, position, now).id_of(url) == cache.id_of(url),
{
    lemma_saved_keeps_place(cache, feed, position, now, url);
    lemma_feed_at_found(cache.feeds, feed.url);
    lemma_feed_at_found(cache.feeds, url);
    let n = feed_at(cache.feeds, url);
    assert(cache.saved(feed, position, now).feeds[n].id == cache.feeds[n].id);
}

/// One save: the feed, its configured place, and the time.
pub struct Save {
    pub feed: FeedView,
    pub position: int,
    pub now: int,
}

/// The cache after the saves `saves`, one after the other.
pub open spec fn saved_all(cache: CacheView, saves: Seq<Save>) -> CacheView
    decreases saves.len(),
{
    if saves.len() == 0 {
        cache
    } else {
        saved_all(cache, saves.drop_last()).saved(
            saves.last().feed,
            saves.last().position,
            saves.last().now,
        )
    }
}

/// A feed keeps the identifier of its row over any number of saves, of any feeds.
pub proof fn lemma_saves_keep_id(cache: CacheView, saves: Seq<Save>, url: Seq<char>)
    requires
        cache.has(url),
    ensures
        saved_all(cache, saves).has(url),
        saved_all(cache, saves).id_of(url) == cache.id_of(url),
    decreases saves.len(),
{
    if saves.len() > 0 {
        let s = saves.last();
        lemma_saves_keep_id(cache, saves.drop_last(), url);
        let before = saved_all(cache, saves.drop_last());
        lemma_saved_keeps_place(before, s.feed, s.position, s.now, url);
        lemma_save_keeps_id(before, s.feed, s.position, s.now, url);
    }
}

/// What is read from a row lists an entry exactly where the row holds it.
pub proof fn lemma_listed_holds(
    row: FeedRowView,
    title: Seq<char>,
    published: Option<Seq<char>>,
    read: bool,
)
    ensures
        listed(row).holds(title, published, read) <==> exists|j: int|
            0 <= j < row.entries.len() && (#[trigger] row.entries[j]).is(title, published)
                && row.entries[j].read == read,
{
    let plain = entries_of(row.entries);
    let sorted = listed(row).entries;
    if listed(row).holds(title, published, read) {
        let k = choose|k: int|
            0 <= k < sorted.len() && (#[trigger] sorted[k]).is(title, published) && sorted[k].read
                == read;
        lemma_stable_sort_contains(plain, newer(), sorted[k]);
        assert(sorted.contains(sorted[k]));
        let j = choose|j: int| 0 <= j < plain.len() && plain[j] == sorted[k];
        assert(row.entries[j].is(title, published) && row.entries[j].read == read);
    }
    if exists|j: int|
        0 <= j < row.entries.len() && (#[trigger] row.entries[j]).is(title, published)
            && row.entries[j].read == read {
        let j = choose|j: int|
            0 <= j < row.entries.len() && (#[trigger] row.entries[j]).is(title, published)
                && row.entries[j].read == read;
        lemma_stable_sort_contains(plain, newer(), plain[j]);
        assert(plain.contains(plain[j]));
        let k = choose|k: int| 0 <= k < sorted.len() && sorted[k] == plain[j];
        assert(sorted[k].is(title, published) && sorted[k].read == read);
    }
}

/// Saving a feed loses no entry and no read flag. An entry that the cache holds for a
/// feed, read or unread, is still read from the cache as it was after any feed was
/// saved: after the same feed was saved again with the entry, which then stays read
/// where it was read, and after it was saved without the entry, which then stays.
pub proof fn lemma_save_keeps_entries(
    cache: CacheView,
    feed: FeedView,
    position: int,
    now: int,
    url: Seq<char>,
    title: Seq<char>,
    published: Option<Seq<char>>,
    read: bool,
)
    requires
        cache.loaded(url) matches Some(held) && held.holds(title, published, read),
    ensures
        cache.saved(feed, position, now).loaded(url) matches Some(held) && held.holds(
            title,
            published,
            read,
        ),
{
    let after = cache.saved(feed, position, now);
    let n = feed_at(cache.feeds, url);
    lemma_saved_keeps_place(cache, feed, position, now, url);
    lemma_feed_at_found(cache.feeds, url);
    lemma_feed_at_found(cache.feeds, feed.url);
    let row_before = cache.feeds[n];
    let row_after = after.feeds[n];
    lemma_listed_holds(row_before, title, published, read);
    lemma_listed_holds(row_after, title, published, read);
    let j = choose|j: int|
        0 <= j < row_before.entries.len() && (#[trigger] row_before.entries[j]).is(title, published)
            && row_before.entries[j].read == read;
    if feed_at(cache.feeds, feed.url) == n {
        lemma_with_entries_keeps(row_before.entries, feed.entries, j);
    }
    assert(row_after.entries[j].is(title, published) && row_after.entries[j].read == read);
}

/// What is read from a row of the cache lists no entry twice: no two of its entries have
/// the same title and date.
pub proof fn lemma_listed_distinct(row: FeedRowView)
    requires
        distinct_keys(row.entries),
    ensures
        distinct_entries(listed(row).entries),
{
    let plain = entries_of(row.entries);
    let apart = |a: EntryView, b: EntryView| !a.is(b.title, b.published);
    assert forall|i: int, j: int|
        0 <= i < plain.len() && 0 <= j < plain.len() && i != j implies apart(
        #[trigger] plain[i],
        #[trigger] plain[j],
    ) by {
        if i < j {
            assert(!row.entries[i].has_key(row.entries[j].title, row.entries[j].published));
        } else {
            assert(!row.entries[j].has_key(row.entries[i].title, row.entries[i].published));
        }
    }
    lemma_stable_sort_pairwise(plain, newer(), apart);
    let sorted = listed(row).entries;
    assert forall|i: int, j: int| 0 <= i < j < sorted.len() implies !(#[trigger] sorted[i]).is(
        (#[trigger] sorted[j]).title,
        sorted[j].published,
    ) by {
        assert(apart(sorted[i], sorted[j]));
    }
}

/// What is read of all the feeds of the cache holds no address twice, and lists no entry
/// of a feed twice. So a change of a read flag reaches every place as if all were built
/// anew wherever no two feeds have the same title.
pub proof fn lemma_loaded_all_distinct(cache: CacheView)
    requires
        cache.wf(),
    ensures
        distinct_urls(cache.loaded_all()),
        forall|k: int|
            0 <= k < cache.loaded_all().len() ==> distinct_entries(
                (#[trigger] cache.loaded_all()[k]).entries,
            ),
        distinct_titles(cache.loaded_all()) ==> distinct_feeds(cache.loaded_all()),
{
    let rows = stable_sort(cache.feeds, by_position());
    let feeds = cache.loaded_all();
    let apart = |a: FeedRowView, b: FeedRowView| a.url != b.url;
    assert forall|i: int, j: int|
        0 <= i < cache.feeds.len() && 0 <= j < cache.feeds.len() && i != j implies apart(
        #[trigger] cache.feeds[i],
        #[trigger] cache.feeds[j],
    ) by {
        if i < j {
            assert(cache.feeds[i].url != cache.feeds[j].url);
        } else {
            assert(cache.feeds[j].url != cache.feeds[i].url);
        }
    }
    lemma_stable_sort_pairwise(cache.feeds, by_position(), apart);
    assert forall|i: int, j: int| 0 <= i < j < feeds.len() implies (#[trigger] feeds[i]).url != (
    #[trigger] feeds[j]).url by {
        assert(apart(rows[i], rows[j]));
    }
    assert forall|k: int| 0 <= k < feeds.len() implies distinct_entries(
        (#[trigger] feeds[k]).entries,
    ) by {
        lemma_stable_sort_contains(cache.feeds, by_position(), rows[k]);
        assert(rows.contains(rows[k]));
        let m = choose|m: int| 0 <= m < cache.feeds.len() && cache.feeds[m] == rows[k];
        assert(distinct_keys(cache.feeds[m].entries));
        lemma_listed_distinct(rows[k]);
    }
}

/// A read flag is set on the entries of the title that have the date given, and on no
/// other: with no date given, on the entry without a date, and on none that has a date.
pub proof fn lemma_mark_matches(
    cache: CacheView,
    url: Seq<char>,
    title: Seq<char>,
    published: Option<Seq<char>>,
    read: bool,
    k: int,
)
    requires
        cache.has(url),
        0 <= k < cache.row(url).entries.len(),
    ensures
        cache.marked(url, title, published, read).has(url),
        cache.marked(url, title, published, read).row(url).entries.len() == cache.row(
            url,
        ).entries.len(),
        ({
            let before = cache.row(url).entries[k];
            let after = cache.marked(url, title, published, read).row(url).entries[k];
            if before.title == title && before.published == published {
                after == before.with_read(read)
            } else {
                after == before
            }
        }),
{
    let n = feed_at(cache.feeds, url);
    let after = cache.marked(url, title, published, read).feeds;
    lemma_feed_at_found(cache.feeds, url);
    assert forall|i: int| 0 <= i < n implies (#[trigger] after[i]).url != url by {
        assert(after[i].url == cache.feeds[i].url);
    }
    lemma_feed_at(after, url, n);
}

/// Setting a read flag a second time changes nothing.
pub proof fn lemma_mark_twice(
    cache: CacheView,
    url: Seq<char>,
    title: Seq<char>,
    published: Option<Seq<char>>,
    read: bool,
)
    ensures
        cache.marked(url, title, published, read).marked(url, title, published, read)
            == cache.marked(url, title, published, read),
{
    let once = cache.marked(url, title, published, read);
    let twice = once.marked(url, title, published, read);
    let n = feed_at(cache.feeds, url);
    lemma_feed_at_found(cache.feeds, url);
    if n < cache.feeds.len() {
        assert forall|i: int| 0 <= i < n implies (#[trigger] once.feeds[i]).url != url by {
            assert(once.feeds[i].url == cache.feeds[i].url);
        }
        lemma_feed_at(once.feeds, url, n);
        let rows = cache.feeds[n].entries;
        assert(with_read(with_read(rows, title, published, read), title, published, read)
            =~= with_read(rows, title, published, read));
        assert(twice.feeds =~= once.feeds);
    }
}

} // verus!
