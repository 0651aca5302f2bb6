//! Queries over the feeds: a query selects feeds by their tags, and its result lists the
//! entries of the feeds it selects, the newest first.

use crate::feeds::{newest_first, sort_newest_first, EntryView, Feed, FeedEntry, FeedView};
use crate::text::{chars_of, trim_bounds, trimmed};
use vstd::prelude::*;
use vstd::string::StrSliceExecFns;

verus! {

/// What a query selects.
#[derive(Debug, PartialEq, Eq)]
pub enum QueryFilter {
    /// The feeds that have one of these tags at least.
    Tags(Vec<String>),
    /// Every feed.
    All,
}

/// The value of a [`QueryFilter`].
pub enum FilterView {
    Tags(Seq<Seq<char>>),
    All,
}

impl View for QueryFilter {
    type V = FilterView;

    open spec fn view(&self) -> FilterView {
        match self {
            QueryFilter::Tags(tags) => FilterView::Tags(tags.deep_view()),
            QueryFilter::All => FilterView::All,
        }
    }
}

impl Clone for QueryFilter {
    fn clone(&self) -> (r: Self)
        ensures
            r@ == self@,
    {
        match self {
            QueryFilter::Tags(tags) => QueryFilter::Tags(crate::feeds::clone_strings(tags)),
            QueryFilter::All => QueryFilter::All,
        }
    }
}

/// The text that a query for tags begins with.
pub open spec fn tags_prefix() -> Seq<char> {
    seq!['t', 'a', 'g', 's', ':']
}

/// The index of the first comma in `s`, or the length of `s` where it has none.
pub open spec fn comma_at(s: Seq<char>) -> int
    decreases s.len(),
{
    if s.len() == 0 || s[0] == ',' {
        0
    } else {
        1 + comma_at(s.drop_first())
    }
}

/// The tags that `s` lists: the pieces of `s` between its commas, each trimmed, those
/// left out that are empty.
pub open spec fn tag_list(s: Seq<char>) -> Seq<Seq<char>>
    decreases s.len(),
{
    let i = comma_at(s);
    let head = trimmed(s.take(i));
    let rest = if 0 <= i < s.len() {
        tag_list(s.skip(i + 1))
    } else {
        Seq::empty()
    };
    if head.len() > 0 {
        seq![head] + rest
    } else {
        rest
    }
}

/// What the query `q` selects. Empty and `*` select every feed; `tags:` with a list of
/// tags selects by those; anything else selects by no tag, and so nothing.
pub open spec fn filter_of(q: Seq<char>) -> FilterView {
    let t = trimmed(q);
    if t.len() == 0 || t == seq!['*'] {
        FilterView::All
    } else if t.len() >= 5 && t.take(5) == tags_prefix() {
        FilterView::Tags(tag_list(t.skip(5)))
    } else {
        FilterView::Tags(Seq::empty())
    }
}

/// Whether a feed with the tags `tags` has one of the tags `wanted`.
pub open spec fn shares_tag(tags: Option<Seq<Seq<char>>>, wanted: Seq<Seq<char>>) -> bool {
    match tags {
        Some(own) => exists|i: int| 0 <= i < wanted.len() && own.contains(#[trigger] wanted[i]),
        None => false,
    }
}

/// Whether `filter` selects `feed`.
pub open spec fn selects(filter: FilterView, feed: FeedView) -> bool {
    match filter {
        FilterView::All => true,
        FilterView::Tags(wanted) => shares_tag(feed.tags, wanted),
    }
}

/// The entries of `feed`, each with the title of `feed` as its source.
pub open spec fn stamped(feed: FeedView) -> Seq<EntryView> {
    Seq::new(feed.entries.len(), |i: int| feed.entries[i].from_feed(feed.title))
}

/// The entries of the feeds that `filter` selects, feed after feed, each with the title
/// of its feed as its source.
pub open spec fn selected(feeds: Seq<FeedView>, filter: FilterView) -> Seq<EntryView>
    decreases feeds.len(),
{
    if feeds.len() == 0 {
        Seq::empty()
    } else if selects(filter, feeds.last()) {
        selected(feeds.drop_last(), filter) + stamped(feeds.last())
    } else {
        selected(feeds.drop_last(), filter)
    }
}

/// The result of the query `q` over `feeds`.
pub open spec fn query_result(feeds: Seq<FeedView>, q: Seq<char>) -> Seq<EntryView> {
    newest_first(selected(feeds, filter_of(q)))
}

/// `comma_at(s)` is `n` where no comma stands before `n` and one stands at `n`, or `s`
/// ends there.
pub proof fn lemma_comma_at(s: Seq<char>, n: int)
    requires
        0 <= n <= s.len(),
        forall|k: int| 0 <= k < n ==> s[k] != ',',
        n == s.len() || s[n] == ',',
    ensures
        comma_at(s) == n,
    decreases n,
{
    if n > 0 {
        lemma_comma_at(s.drop_first(), n - 1);
    }
}

/// A filter without tags selects no entry, whatever the feeds.
pub proof fn lemma_no_tags_select_nothing(feeds: Seq<FeedView>)
    ensures
        selected(feeds, FilterView::Tags(Seq::empty())) == Seq::<EntryView>::empty(),
    decreases feeds.len(),
{
    if feeds.len() > 0 {
        lemma_no_tags_select_nothing(feeds.drop_last());
    }
}

/// A query fails closed: one that is neither empty, nor `*`, nor begins with `tags:`,
/// white space around it aside, has an empty result over any feeds; and so has one
/// that lists no tag.
pub proof fn lemma_query_fails_closed(feeds: Seq<FeedView>, q: Seq<char>)
    requires
        ({
            let t = trimmed(q);
            &&& t.len() > 0
            &&& t != seq!['*']
            &&& t.len() >= 5 && t.take(5) == tags_prefix() ==> tag_list(t.skip(5)).len() == 0
        }),
    ensures
        query_result(feeds, q) == Seq::<EntryView>::empty(),
{
    let t = trimmed(q);
    if t.len() >= 5 && t.take(5) == tags_prefix() {
        assert(tag_list(t.skip(5)) =~= Seq::empty());
    }
    lemma_no_tags_select_nothing(feeds);
}

/// Every entry that a filter selects comes from one of the feeds that it selects: it is
/// an entry of that feed, and names the title of that feed as its source.
pub proof fn lemma_selected_has_owner(feeds: Seq<FeedView>, filter: FilterView, j: int)
    requires
        0 <= j < selected(feeds, filter).len(),
    ensures
        exists|k: int, i: int|
            0 <= k < feeds.len() && 0 <= i < feeds[k].entries.len() && selects(filter, feeds[k])
                && selected(feeds, filter)[j] == (#[trigger] feeds[k].entries[i]).from_feed(
                feeds[k].title,
            ),
    decreases feeds.len(),
{
    let head = selected(feeds.drop_last(), filter);
    if selects(filter, feeds.last()) && j >= head.len() {
        let k = feeds.len() - 1;
        let i = j - head.len();
        assert(selected(feeds, filter)[j] == feeds[k].entries[i].from_feed(feeds[k].title));
    } else {
        lemma_selected_has_owner(feeds.drop_last(), filter, j);
        let (k, i) = choose|k: int, i: int|
            0 <= k < feeds.drop_last().len() && 0 <= i < feeds.drop_last()[k].entries.len()
                && selects(filter, feeds.drop_last()[k]) && head[j] == (
            #[trigger] feeds.drop_last()[k].entries[i]).from_feed(feeds.drop_last()[k].title);
        assert(feeds[k] == feeds.drop_last()[k]);
        assert(selected(feeds, filter)[j] == feeds[k].entries[i].from_feed(feeds[k].title));
    }
}

/// Every entry in the result of a query comes from one of the feeds: it is an entry of a
/// feed that the query selects, and names the title of that feed as its source.
pub proof fn lemma_result_has_owner(feeds: Seq<FeedView>, q: Seq<char>, j: int)
    requires
        0 <= j < query_result(feeds, q).len(),
    ensures
        exists|k: int, i: int|
            0 <= k < feeds.len() && 0 <= i < feeds[k].entries.len() && selects(
                filter_of(q),
                feeds[k],
            ) && query_result(feeds, q)[j] == (#[trigger] feeds[k].entries[i]).from_feed(
                feeds[k].title,
            ),
{
    let filter = filter_of(q);
    let plain = selected(feeds, filter);
    let entry = query_result(feeds, q)[j];
    crate::order::lemma_stable_sort_contains(plain, crate::feeds::newer(), entry);
    assert(query_result(feeds, q).contains(entry));
    let n = choose|n: int| 0 <= n < plain.len() && plain[n] == entry;
    lemma_selected_has_owner(feeds, filter, n);
}

/// The tags that `chars[lo..hi]` lists, where `chars` are the characters of `query`.
fn parse_tags(query: &str, chars: &Vec<char>, lo: usize, hi: usize) -> (tags: Vec<String>)
    requires
        chars@ == query@,
        lo <= hi <= chars.len(),
    ensures
        tags.deep_view() == tag_list(chars@.subrange(lo as int, hi as int)),
{
    let ghost whole = tag_list(chars@.subrange(lo as int, hi as int));
    let mut tags: Vec<String> = Vec::new();
    let mut start: usize = lo;
    let mut done = false;
    while !done
        invariant
            chars@ == query@,
            lo <= start <= hi <= chars.len(),
            !done ==> tags.deep_view() + tag_list(chars@.subrange(start as int, hi as int))
                == whole,
            done ==> tags.deep_view() == whole,
        decreases hi - start + (if done { 0int } else { 1int }),
    {
        let ghost rest = chars@.subrange(start as int, hi as int);
        let ghost found = tags.deep_view();
        let mut end: usize = start;
        while end < hi && chars[end] != ','
            invariant
                start <= end <= hi <= chars.len(),
                forall|k: int| start <= k < end ==> chars@[k] != ',',
            decreases hi - end,
        {
            end += 1;
        }
        proof {
            lemma_comma_at(rest, end - start);
            assert(rest.take(end - start) =~= chars@.subrange(start as int, end as int));
        }
        let (a, b) = trim_bounds(chars, start, end);
        if a < b {
            let tag = query.substring_char(a, b).to_owned();
            tags.push(tag);
            assert(tags.deep_view() =~= found.push(tag@));
        }
        if end < hi {
            proof {
                assert(rest.skip(end - start + 1) =~= chars@.subrange(end + 1, hi as int));
                let next = tag_list(chars@.subrange(end + 1, hi as int));
                assert(tags.deep_view() + next =~= found + tag_list(rest));
            }
            start = end + 1;
        } else {
            proof {
                assert(tags.deep_view() =~= found + tag_list(rest));
            }
            done = true;
        }
    }
    tags
}

/// Reads a query. Empty and `*` select every feed; `tags:a,b` selects the feeds tagged
/// `a` or `b`; anything else selects nothing.
pub fn parse_query(query: &str) -> (r: QueryFilter)
    ensures
        r@ == filter_of(query@),
{
    let chars = chars_of(query);
    assert(chars@.subrange(0, chars@.len() as int) =~= query@);
    let (lo, hi) = trim_bounds(&chars, 0, chars.len());
    let ghost t = trimmed(query@);
    assert(t == chars@.subrange(lo as int, hi as int));
    if lo == hi {
        return QueryFilter::All;
    }
    if hi - lo == 1 && chars[lo] == '*' {
        assert(t =~= seq!['*']);
        return QueryFilter::All;
    }
    assert(t != seq!['*']) by {
        if t == seq!['*'] {
            assert(t.len() == 1);
            assert(t[0] == '*');
        }
    }
    if hi - lo >= 5 && chars[lo] == 't' && chars[lo + 1] == 'a' && chars[lo + 2] == 'g' && chars[lo
        + 3] == 's' && chars[lo + 4] == ':' {
        assert(t.take(5) =~= tags_prefix());
        assert(t.skip(5) =~= chars@.subrange(lo + 5, hi as int));
        return QueryFilter::Tags(parse_tags(query, &chars, lo + 5, hi));
    }
    assert(!(t.len() >= 5 && t.take(5) == tags_prefix())) by {
        if t.len() >= 5 && t.take(5) == tags_prefix() {
            assert(t.take(5)[0] == 't');
            assert(t.take(5)[1] == 'a');
            assert(t.take(5)[2] == 'g');
            assert(t.take(5)[3] == 's');
            assert(t.take(5)[4] == ':');
        }
    }
    let none: Vec<String> = Vec::new();
    assert(none.deep_view() =~= Seq::empty());
    QueryFilter::Tags(none)
}

/// Whether `tags` holds `tag`.
fn has_tag(tags: &Vec<String>, tag: &String) -> (r: bool)
    ensures
        r == tags.deep_view().contains(tag@),
{
    let mut j: usize = 0;
    while j < tags.len()
        invariant
            j <= tags.len(),
            forall|k: int| 0 <= k < j ==> tag@ != #[trigger] tags.deep_view()[k],
        decreases tags.len() - j,
    {
        if tags[j] == *tag {
            assert(tags.deep_view()[j as int] == tag@);
            return true;
        }
        j += 1;
    }
    false
}

/// Whether `filter` selects `feed`: always, or where `feed` has one of its tags.
pub fn feed_matches(feed: &Feed, filter: &QueryFilter) -> (r: bool)
    ensures
        r == selects(filter@, feed@),
{
    match filter {
        QueryFilter::All => true,
        QueryFilter::Tags(wanted) => {
            match &feed.tags {
                None => false,
                Some(own) => {
                    let mut i: usize = 0;
                    while i < wanted.len()
                        invariant
                            i <= wanted.len(),
                            feed@.tags == Some(own.deep_view()),
                            filter@ == FilterView::Tags(wanted.deep_view()),
                            forall|a: int|
                                0 <= a < i ==> !own.deep_view().contains(
                                    #[trigger] wanted.deep_view()[a],
                                ),
                        decreases wanted.len() - i,
                    {
                        assert(wanted.deep_view()[i as int] == wanted[i as int]@);
                        if has_tag(own, &wanted[i]) {
                            return true;
                        }
                        i += 1;
                    }
                    false
                },
            }
        },
    }
}

/// The entries of `feed`, copied, each with the title of `feed` as its source.
fn stamp_entries(feed: &Feed, into: &mut Vec<FeedEntry>)
    ensures
        final(into).deep_view() == old(into).deep_view() + stamped(feed@),
{
    let ghost start = into.deep_view();
    let mut i: usize = 0;
    while i < feed.entries.len()
        invariant
            i <= feed.entries.len(),
            into.deep_view() == start + stamped(feed@).take(i as int),
        decreases feed.entries.len() - i,
    {
        let ghost so_far = into.deep_view();
        let mut entry = feed.entries[i].clone();
        entry.feed_title = Some(feed.title.clone());
        into.push(entry);
        assert(into.deep_view() =~= so_far.push(entry@));
        assert(entry@ == stamped(feed@)[i as int]);
        assert(into.deep_view() =~= start + stamped(feed@).take(i + 1));
        i += 1;
    }
    assert(stamped(feed@).take(feed.entries.len() as int) =~= stamped(feed@));
}

/// The result of `query` over `feeds`: the entries of the feeds it selects, each with the
/// title of its feed as its source, the newest first and the undated last. Entries of one
/// date, and the undated among themselves, stand feed after feed as in `feeds`, and within
/// a feed as the feed lists them.
pub fn apply_query(feeds: &[Feed], query: &str) -> (r: Vec<FeedEntry>)
    ensures
        r.deep_view() == query_result(feeds.deep_view(), query@),
{
    let filter = parse_query(query);
    let mut entries: Vec<FeedEntry> = Vec::new();
    assert(entries.deep_view() =~= Seq::empty());
    let mut i: usize = 0;
    while i < feeds.len()
        invariant
            i <= feeds.len(),
            entries.deep_view() == selected(feeds.deep_view().take(i as int), filter@),
        decreases feeds.len() - i,
    {
        proof {
            let now = feeds.deep_view().take(i + 1);
            assert(now.drop_last() =~= feeds.deep_view().take(i as int));
            assert(now.last() == feeds[i as int]@);
        }
        if feed_matches(&feeds[i], &filter) {
            stamp_entries(&feeds[i], &mut entries);
        }
        i += 1;
    }
    assert(feeds.deep_view().take(feeds.len() as int) =~= feeds.deep_view());
    sort_newest_first(entries)
}

} // verus!
