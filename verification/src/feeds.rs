//! Feeds and their entries.

use crate::order::{
    insert_point, lemma_insert_point_is, lemma_stable_sort_len, lemma_stable_sort_permutes,
    lemma_stable_sort_sorted, lemma_stable_sort_stable, sorted, stable_sort, strict_weak_order,
    tied,
};
use crate::text::{
    lemma_text_less_irreflexive, lemma_text_less_total, lemma_text_less_transitive, text_less,
    text_lt,
};
use vstd::prelude::*;

verus! {

/// One item of a feed. Within its feed it is known by its title and publication date.
#[derive(Debug, PartialEq, Eq)]
pub struct FeedEntry {
    pub title: String,
    pub published: Option<String>,
    pub text: String,
    pub links: Vec<String>,
    pub media: String,
    /// The title of the feed that the entry comes from; set in the result of a query only.
    pub feed_title: Option<String>,
    pub read: bool,
}

/// A feed as it was fetched, or as the cache holds it. It is known by its address.
#[derive(Debug, PartialEq, Eq)]
pub struct Feed {
    pub url: String,
    pub title: String,
    pub entries: Vec<FeedEntry>,
    pub tags: Option<Vec<String>>,
}

/// The value of a [`FeedEntry`].
pub struct EntryView {
    pub title: Seq<char>,
    pub published: Option<Seq<char>>,
    pub text: Seq<char>,
    pub links: Seq<Seq<char>>,
    pub media: Seq<char>,
    pub feed_title: Option<Seq<char>>,
    pub read: bool,
}

/// The value of a [`Feed`].
pub struct FeedView {
    pub url: Seq<char>,
    pub title: Seq<char>,
    pub entries: Seq<EntryView>,
    pub tags: Option<Seq<Seq<char>>>,
}

impl View for FeedEntry {
    type V = EntryView;

    open spec fn view(&self) -> EntryView {
        EntryView {
            title: self.title@,
            published: self.published.deep_view(),
            text: self.text@,
            links: self.links.deep_view(),
            media: self.media@,
            feed_title: self.feed_title.deep_view(),
            read: self.read,
        }
    }
}

impl DeepView for FeedEntry {
    type V = EntryView;

    open spec fn deep_view(&self) -> EntryView {
        self@
    }
}

impl View for Feed {
    type V = FeedView;

    open spec fn view(&self) -> FeedView {
        FeedView {
            url: self.url@,
            title: self.title@,
            entries: self.entries.deep_view(),
            tags: self.tags.deep_view(),
        }
    }
}

impl DeepView for Feed {
    type V = FeedView;

    open spec fn deep_view(&self) -> FeedView {
        self@
    }
}

impl FeedView {
    /// Whether the feed lists an entry known by `title` and `published` with the read
    /// flag `read`.
    pub open spec fn holds(self, title: Seq<char>, published: Option<Seq<char>>, read: bool)
        -> bool {
        exists|k: int|
            0 <= k < self.entries.len() && (#[trigger] self.entries[k]).is(title, published)
                && self.entries[k].read == read
    }
}

impl EntryView {
    /// Whether the entry is the one known by `title` and `published`.
    pub open spec fn is(self, title: Seq<char>, published: Option<Seq<char>>) -> bool {
        self.title == title && self.published == published
    }

    /// The entry with its read flag set to `read`.
    pub open spec fn with_read(self, read: bool) -> EntryView {
        EntryView { read, ..self }
    }

    /// The entry as the result of a query shows it: with the title of its feed.
    pub open spec fn from_feed(self, feed_title: Seq<char>) -> EntryView {
        EntryView { feed_title: Some(feed_title), ..self }
    }
}

/// Whether an entry published at `a` is listed in front of one published at `b`: the later
/// date first, and any date before none.
pub open spec fn published_after(a: Option<Seq<char>>, b: Option<Seq<char>>) -> bool {
    match (a, b) {
        (Some(x), Some(y)) => text_less(y, x),
        (Some(_), None) => true,
        _ => false,
    }
}

/// The order in which entries are listed: by `published_after`.
pub open spec fn newer() -> spec_fn(EntryView, EntryView) -> bool {
    |a: EntryView, b: EntryView| published_after(a.published, b.published)
}

/// `entries` with the newest first and the undated last; entries of one date, and the
/// undated among themselves, keep their order.
pub open spec fn newest_first(entries: Seq<EntryView>) -> Seq<EntryView> {
    stable_sort(entries, newer())
}

/// The order of entries is a strict weak order, so that sorting by it is well defined.
pub proof fn lemma_newer_is_order()
    ensures
        strict_weak_order(newer()),
{
    let before = newer();
    assert forall|a: EntryView| !#[trigger] before(a, a) by {
        if let Some(x) = a.published {
            lemma_text_less_irreflexive(x);
        }
    }
    assert forall|a: EntryView, b: EntryView, c: EntryView|
        #![trigger before(a, b), before(b, c)]
        before(a, b) && before(b, c) implies before(a, c) by {
        if let (Some(x), Some(y), Some(z)) = (a.published, b.published, c.published) {
            lemma_text_less_transitive(z, y, x);
        }
    }
    assert forall|a: EntryView, b: EntryView, c: EntryView|
        #![trigger before(a, c), before(a, b)]
        #![trigger before(a, c), before(b, c)]
        before(a, c) implies before(a, b) || before(b, c) by {
        if let (Some(x), Some(y), Some(z)) = (a.published, b.published, c.published) {
            lemma_text_less_total(y, x);
            if text_less(x, y) {
                lemma_text_less_transitive(z, x, y);
            }
        }
    }
}

/// Listing the newest first puts no entry behind one that it is listed in front of.
pub proof fn lemma_newest_first_sorted(entries: Seq<EntryView>)
    ensures
        sorted(newest_first(entries), newer()),
{
    lemma_newer_is_order();
    lemma_stable_sort_sorted(entries, newer());
}

/// Listing the newest first rearranges: it holds every entry as often as it was given.
pub proof fn lemma_newest_first_permutes(entries: Seq<EntryView>)
    ensures
        newest_first(entries).to_multiset() == entries.to_multiset(),
        newest_first(entries).len() == entries.len(),
{
    lemma_stable_sort_permutes(entries, newer());
    lemma_stable_sort_len(entries, newer());
}

/// Listing the newest first keeps the order of ties: the entries of one date, and the
/// undated among themselves, stand as they were given. Here these are the entries that
/// neither come before `of` nor after it.
pub proof fn lemma_newest_first_stable(entries: Seq<EntryView>, of: EntryView)
    ensures
        newest_first(entries).filter(|e: EntryView| tied(of, e, newer())) == entries.filter(
            |e: EntryView| tied(of, e, newer()),
        ),
{
    lemma_newer_is_order();
    lemma_stable_sort_stable(entries, newer(), of);
}

/// A copy of `v`.
pub fn clone_strings(v: &Vec<String>) -> (r: Vec<String>)
    ensures
        r.deep_view() == v.deep_view(),
{
    let r = v.clone();
    assert(r.deep_view() =~= v.deep_view());
    r
}

/// A copy of `v`.
pub fn clone_optional_string(v: &Option<String>) -> (r: Option<String>)
    ensures
        r.deep_view() == v.deep_view(),
{
    match v {
        Some(s) => Some(s.clone()),
        None => None,
    }
}

/// A copy of `v`.
pub fn clone_optional_strings(v: &Option<Vec<String>>) -> (r: Option<Vec<String>>)
    ensures
        r.deep_view() == v.deep_view(),
{
    match v {
        Some(s) => Some(clone_strings(s)),
        None => None,
    }
}

/// A copy of `v`.
pub fn clone_entries(v: &Vec<FeedEntry>) -> (r: Vec<FeedEntry>)
    ensures
        r.deep_view() == v.deep_view(),
{
    let mut r: Vec<FeedEntry> = Vec::new();
    let mut i: usize = 0;
    while i < v.len()
        invariant
            i <= v.len(),
            r.deep_view() == v.deep_view().take(i as int),
        decreases v.len() - i,
    {
        let ghost before = r.deep_view();
        let e = v[i].clone();
        r.push(e);
        assert(r.deep_view() =~= before.push(e@));
        assert(r.deep_view() =~= v.deep_view().take(i + 1));
        i += 1;
    }
    assert(r.deep_view() =~= v.deep_view());
    r
}

/// A copy of `v`.
pub fn clone_feeds(v: &Vec<Feed>) -> (r: Vec<Feed>)
    ensures
        r.deep_view() == v.deep_view(),
{
    let mut r: Vec<Feed> = Vec::new();
    let mut i: usize = 0;
    while i < v.len()
        invariant
            i <= v.len(),
            r.deep_view() == v.deep_view().take(i as int),
        decreases v.len() - i,
    {
        let ghost before = r.deep_view();
        let e = v[i].clone();
        r.push(e);
        assert(r.deep_view() =~= before.push(e@));
        assert(r.deep_view() =~= v.deep_view().take(i + 1));
        i += 1;
    }
    assert(r.deep_view() =~= v.deep_view());
    r
}

impl Clone for FeedEntry {
    fn clone(&self) -> (r: Self)
        ensures
            r@ == self@,
    {
        FeedEntry {
            title: self.title.clone(),
            published: clone_optional_string(&self.published),
            text: self.text.clone(),
            links: clone_strings(&self.links),
            media: self.media.clone(),
            feed_title: clone_optional_string(&self.feed_title),
            read: self.read,
        }
    }
}

impl Clone for Feed {
    fn clone(&self) -> (r: Self)
        ensures
            r@ == self@,
    {
        Feed {
            url: self.url.clone(),
            title: self.title.clone(),
            entries: clone_entries(&self.entries),
            tags: clone_optional_strings(&self.tags),
        }
    }
}

/// Whether an entry published at `a` is listed in front of one published at `b`.
pub fn is_published_after(a: &Option<String>, b: &Option<String>) -> (r: bool)
    ensures
        r == published_after(a.deep_view(), b.deep_view()),
{
    match (a, b) {
        (Some(x), Some(y)) => text_lt(y.as_str(), x.as_str()),
        (Some(_), None) => true,
        _ => false,
    }
}

/// Where `entry` goes into `sorted`, which is in order: behind the entries that are not
/// listed behind it, found by halving.
fn place_of(sorted: &Vec<FeedEntry>, entry: &FeedEntry) -> (j: usize)
    requires
        crate::order::sorted(sorted.deep_view(), newer()),
    ensures
        j == insert_point(sorted.deep_view(), entry@, newer()),
        j <= sorted.len(),
{
    let ghost before = newer();
    let ghost s = sorted.deep_view();
    proof {
        lemma_newer_is_order();
    }
    let mut lo: usize = 0;
    let mut hi: usize = sorted.len();
    while lo < hi
        invariant
            lo <= hi <= sorted.len(),
            s == sorted.deep_view(),
            before == newer(),
            strict_weak_order(before),
            crate::order::sorted(s, before),
            forall|k: int| 0 <= k < lo ==> !before(entry@, #[trigger] s[k]),
            forall|k: int| hi <= k < s.len() ==> before(entry@, #[trigger] s[k]),
        decreases hi - lo,
    {
        let mid = lo + (hi - lo) / 2;
        assert(s[mid as int] == sorted[mid as int]@);
        if is_published_after(&entry.published, &sorted[mid].published) {
            assert forall|k: int| mid <= k < s.len() implies before(entry@, #[trigger] s[k]) by {
                if k > mid {
                    assert(!before(s[k], s[mid as int]));
                    assert(before(entry@, s[mid as int]));
                    assert(before(entry@, s[k]) || before(s[k], s[mid as int]));
                }
            }
            hi = mid;
        } else {
            assert forall|k: int| 0 <= k < mid + 1 implies !before(entry@, #[trigger] s[k]) by {
                if k < mid && before(entry@, s[k]) {
                    assert(!before(s[mid as int], s[k]));
                    assert(before(entry@, s[mid as int]) || before(s[mid as int], s[k]));
                }
            }
            lo = mid + 1;
        }
    }
    proof {
        lemma_insert_point_is(s, entry@, before, lo as int);
    }
    lo
}

/// Sorts `entries`: the newest first and the undated last, entries of one date, and the
/// undated among themselves, in the order they came in.
pub fn sort_newest_first(entries: Vec<FeedEntry>) -> (r: Vec<FeedEntry>)
    ensures
        r.deep_view() == newest_first(entries.deep_view()),
{
    let ghost all = entries.deep_view();
    let mut out: Vec<FeedEntry> = Vec::new();
    for e in it: entries
        invariant
            it.seq().len() == all.len(),
            forall|k: int| 0 <= k < all.len() ==> (#[trigger] it.seq()[k])@ == all[k],
            out.deep_view() == newest_first(all.take(it.index() as int)),
    {
        let ghost so_far = out.deep_view();
        proof {
            lemma_newest_first_sorted(all.take(it.index() as int));
        }
        let j = place_of(&out, &e);
        proof {
            let n = it.index() as int;
            assert(all.take(n + 1).drop_last() =~= all.take(n));
            assert(all.take(n + 1).last() == e@);
        }
        out.insert(j, e);
        assert(out.deep_view() =~= so_far.insert(j as int, e@));
    }
    assert(all.take(all.len() as int) =~= all);
    out
}

} // verus!
