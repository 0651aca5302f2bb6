//! The rows of the cache: one per feed, each with the rows of its entries.
//!
//! A row holds text: the tags of a feed and the links of an entry stand in it as JSON.

use crate::feeds::{clone_optional_string, EntryView, FeedEntry, FeedView};
use crate::json::{decode_strings, encode_strings, encoded_strings, strings_of_json};
use crate::text::text_eq;
use vstd::prelude::*;

verus! {

/// The row of an entry.
#[derive(Debug, PartialEq, Eq)]
pub struct EntryRow {
    pub title: String,
    pub published: Option<String>,
    pub text: String,
    /// The links, as a JSON list.
    pub links: String,
    pub media: String,
    pub read: bool,
}

/// The row of a feed, with the rows of its entries in the order they were first saved.
#[derive(Debug, PartialEq, Eq)]
pub struct FeedRow {
    /// The identifier of the row, which it keeps as long as it exists.
    pub id: i64,
    pub url: String,
    pub title: String,
    /// When the feed was last saved, in seconds since the Unix epoch.
    pub last_fetched: i64,
    /// The tags, as a JSON list.
    pub tags: Option<String>,
    /// The place of the feed among the configured feeds.
    pub position: usize,
    pub entries: Vec<EntryRow>,
}

/// The value of an [`EntryRow`].
pub struct EntryRowView {
    pub title: Seq<char>,
    pub published: Option<Seq<char>>,
    pub text: Seq<char>,
    pub links: Seq<char>,
    pub media: Seq<char>,
    pub read: bool,
}

/// The value of a [`FeedRow`].
pub struct FeedRowView {
    pub id: int,
    pub url: Seq<char>,
    pub title: Seq<char>,
    pub last_fetched: int,
    pub tags: Option<Seq<char>>,
    pub position: int,
    pub entries: Seq<EntryRowView>,
}

impl View for EntryRow {
    type V = EntryRowView;

    open spec fn view(&self) -> EntryRowView {
        EntryRowView {
            title: self.title@,
            published: self.published.deep_view(),
            text: self.text@,
            links: self.links@,
            media: self.media@,
            read: self.read,
        }
    }
}

impl DeepView for EntryRow {
    type V = EntryRowView;

    open spec fn deep_view(&self) -> EntryRowView {
        self@
    }
}

impl View for FeedRow {
    type V = FeedRowView;

    open spec fn view(&self) -> FeedRowView {
        FeedRowView {
            id: self.id as int,
            url: self.url@,
            title: self.title@,
            last_fetched: self.last_fetched as int,
            tags: self.tags.deep_view(),
            position: self.position as int,
            entries: self.entries.deep_view(),
        }
    }
}

impl DeepView for FeedRow {
    type V = FeedRowView;

    open spec fn deep_view(&self) -> FeedRowView {
        self@
    }
}

/// The date under which an entry is kept apart from the others of its title: its
/// publication date, and the empty text where it has none.
pub open spec fn key_date(published: Option<Seq<char>>) -> Seq<char> {
    match published {
        Some(date) => date,
        None => Seq::empty(),
    }
}

impl EntryRowView {
    /// Whether the row is the one that an entry of this title and date is saved to.
    pub open spec fn has_key(self, title: Seq<char>, published: Option<Seq<char>>) -> bool {
        self.title == title && key_date(self.published) == key_date(published)
    }

    /// Whether the row is the one known by `title` and `published`: a row without a date
    /// is known by no date only.
    pub open spec fn is(self, title: Seq<char>, published: Option<Seq<char>>) -> bool {
        self.title == title && self.published == published
    }

    /// The row with the content of `fresh` and what else it had: title, date, read flag.
    pub open spec fn refreshed(self, fresh: EntryView) -> EntryRowView {
        EntryRowView {
            text: fresh.text,
            links: encoded_strings(fresh.links),
            media: fresh.media,
            ..self
        }
    }

    /// The row with its read flag set to `read`.
    pub open spec fn with_read(self, read: bool) -> EntryRowView {
        EntryRowView { read, ..self }
    }

    /// The entry that the row holds. Links that cannot be read count as none.
    pub open spec fn entry(self) -> EntryView {
        EntryView {
            title: self.title,
            published: self.published,
            text: self.text,
            links: match strings_of_json(self.links) {
                Some(links) => links,
                None => Seq::empty(),
            },
            media: self.media,
            feed_title: None,
            read: self.read,
        }
    }
}

/// Whether two entries are saved to one row: whether they have the same title and the
/// same date, no date counting as the empty one.
pub open spec fn share_row(a: EntryView, b: EntryView) -> bool {
    a.title == b.title && key_date(a.published) == key_date(b.published)
}

/// The row that a new entry is saved as: unread.
pub open spec fn new_row(fresh: EntryView) -> EntryRowView {
    EntryRowView {
        title: fresh.title,
        published: fresh.published,
        text: fresh.text,
        links: encoded_strings(fresh.links),
        media: fresh.media,
        read: false,
    }
}

/// The index of the first row in `rows` that an entry of this title and date is saved
/// to, or the length of `rows` where there is none.
pub open spec fn row_at(rows: Seq<EntryRowView>, title: Seq<char>, published: Option<Seq<char>>)
    -> int
    decreases rows.len(),
{
    if rows.len() == 0 || rows[0].has_key(title, published) {
        0
    } else {
        1 + row_at(rows.drop_first(), title, published)
    }
}

/// `rows` after `fresh` was saved: the row it is saved to has its content, and where
/// there was none a new row stands at the end.
pub open spec fn with_entry(rows: Seq<EntryRowView>, fresh: EntryView) -> Seq<EntryRowView> {
    let j = row_at(rows, fresh.title, fresh.published);
    if 0 <= j < rows.len() {
        rows.update(j, rows[j].refreshed(fresh))
    } else {
        rows.push(new_row(fresh))
    }
}

/// `rows` after the entries `fresh` were saved one after the other.
pub open spec fn with_entries(rows: Seq<EntryRowView>, fresh: Seq<EntryView>) -> Seq<EntryRowView>
    decreases fresh.len(),
{
    if fresh.len() == 0 {
        rows
    } else {
        with_entry(with_entries(rows, fresh.drop_last()), fresh.last())
    }
}

/// `rows` with the read flag of the rows known by `title` and `published` set to `read`.
pub open spec fn with_read(
    rows: Seq<EntryRowView>,
    title: Seq<char>,
    published: Option<Seq<char>>,
    read: bool,
) -> Seq<EntryRowView> {
    Seq::new(
        rows.len(),
        |i: int|
            if rows[i].is(title, published) {
                rows[i].with_read(read)
            } else {
                rows[i]
            },
    )
}

/// No two of `rows` are rows that the same entry would be saved to.
pub open spec fn distinct_keys(rows: Seq<EntryRowView>) -> bool {
    forall|i: int, j: int|
        0 <= i < j < rows.len() ==> !(#[trigger] rows[i]).has_key(
            (#[trigger] rows[j]).title,
            rows[j].published,
        )
}

/// The entries that `rows` hold, in the order of the rows.
pub open spec fn entries_of(rows: Seq<EntryRowView>) -> Seq<EntryView> {
    Seq::new(rows.len(), |i: int| rows[i].entry())
}

impl FeedRowView {
    /// The feed that the row holds, its entries in the order of their rows. Tags that
    /// cannot be read count as absent.
    pub open spec fn feed(self) -> FeedView {
        FeedView {
            url: self.url,
            title: self.title,
            entries: entries_of(self.entries),
            tags: match self.tags {
                Some(text) => strings_of_json(text),
                None => None,
            },
        }
    }
}

/// The tags of a feed as a row holds them.
pub open spec fn encoded_tags(tags: Option<Seq<Seq<char>>>) -> Option<Seq<char>> {
    match tags {
        Some(list) => Some(encoded_strings(list)),
        None => None,
    }
}

/// `row_at` is `n` where no row before `n` has the key and the row at `n` has it, or
/// the rows end there.
pub proof fn lemma_row_at(
    rows: Seq<EntryRowView>,
    title: Seq<char>,
    published: Option<Seq<char>>,
    n: int,
)
    requires
        0 <= n <= rows.len(),
        forall|k: int| 0 <= k < n ==> !(#[trigger] rows[k]).has_key(title, published),
        n == rows.len() || rows[n].has_key(title, published),
    ensures
        row_at(rows, title, published) == n,
    decreases n,
{
    if n > 0 {
        lemma_row_at(rows.drop_first(), title, published, n - 1);
    }
}

/// What `row_at` returns: an index up to the length, no row before it has the key, and
/// the row there has it.
pub proof fn lemma_row_at_found(
    rows: Seq<EntryRowView>,
    title: Seq<char>,
    published: Option<Seq<char>>,
)
    ensures
        0 <= row_at(rows, title, published) <= rows.len(),
        forall|k: int|
            0 <= k < row_at(rows, title, published) ==> !(#[trigger] rows[k]).has_key(
                title,
                published,
            ),
        row_at(rows, title, published) < rows.len() ==> rows[row_at(
            rows,
            title,
            published,
        )].has_key(title, published),
    decreases rows.len(),
{
    if !(rows.len() == 0 || rows[0].has_key(title, published)) {
        lemma_row_at_found(rows.drop_first(), title, published);
        let n = row_at(rows, title, published);
        assert forall|k: int| 0 <= k < n implies !(#[trigger] rows[k]).has_key(
            title,
            published,
        ) by {
            if k > 0 {
                assert(rows[k] == rows.drop_first()[k - 1]);
            }
        }
    }
}

/// Saving an entry keeps the rows apart: no two rows for one title and date.
pub proof fn lemma_with_entry_distinct(rows: Seq<EntryRowView>, fresh: EntryView)
    requires
        distinct_keys(rows),
    ensures
        distinct_keys(with_entry(rows, fresh)),
{
    lemma_row_at_found(rows, fresh.title, fresh.published);
    let j = row_at(rows, fresh.title, fresh.published);
    let after = with_entry(rows, fresh);
    assert forall|a: int, b: int| 0 <= a < b < after.len() implies !(#[trigger] after[a]).has_key(
        (#[trigger] after[b]).title,
        after[b].published,
    ) by {
        if j < rows.len() {
            assert(after[a].title == rows[a].title && after[a].published == rows[a].published);
            assert(after[b].title == rows[b].title && after[b].published == rows[b].published);
            assert(!rows[a].has_key(rows[b].title, rows[b].published));
        } else if b < rows.len() {
            assert(!rows[a].has_key(rows[b].title, rows[b].published));
        } else {
            assert(!rows[a].has_key(fresh.title, fresh.published));
        }
    }
}

/// Saving entries keeps the rows apart: no two rows for one title and date.
pub proof fn lemma_with_entries_distinct(rows: Seq<EntryRowView>, fresh: Seq<EntryView>)
    requires
        distinct_keys(rows),
    ensures
        distinct_keys(with_entries(rows, fresh)),
    decreases fresh.len(),
{
    if fresh.len() > 0 {
        lemma_with_entries_distinct(rows, fresh.drop_last());
        lemma_with_entry_distinct(with_entries(rows, fresh.drop_last()), fresh.last());
    }
}

/// Setting read flags keeps the rows apart: no two rows for one title and date.
pub proof fn lemma_with_read_distinct(
    rows: Seq<EntryRowView>,
    title: Seq<char>,
    published: Option<Seq<char>>,
    read: bool,
)
    requires
        distinct_keys(rows),
    ensures
        distinct_keys(with_read(rows, title, published, read)),
{
    let after = with_read(rows, title, published, read);
    assert forall|a: int, b: int| 0 <= a < b < after.len() implies !(#[trigger] after[a]).has_key(
        (#[trigger] after[b]).title,
        after[b].published,
    ) by {
        assert(!rows[a].has_key(rows[b].title, rows[b].published));
    }
}

impl Clone for EntryRow {
    fn clone(&self) -> (r: Self)
        ensures
            r@ == self@,
    {
        EntryRow {
            title: self.title.clone(),
            published: clone_optional_string(&self.published),
            text: self.text.clone(),
            links: self.links.clone(),
            media: self.media.clone(),
            read: self.read,
        }
    }
}

/// A copy of `rows`.
pub fn clone_entry_rows(rows: &Vec<EntryRow>) -> (r: Vec<EntryRow>)
    ensures
        r.deep_view() == rows.deep_view(),
{
    let mut r: Vec<EntryRow> = Vec::new();
    let mut i: usize = 0;
    while i < rows.len()
        invariant
            i <= rows.len(),
            r.deep_view() == rows.deep_view().take(i as int),
        decreases rows.len() - i,
    {
        let ghost before = r.deep_view();
        let row = rows[i].clone();
        r.push(row);
        assert(r.deep_view() =~= before.push(row@));
        assert(r.deep_view() =~= rows.deep_view().take(i + 1));
        i += 1;
    }
    assert(r.deep_view() =~= rows.deep_view());
    r
}

impl Clone for FeedRow {
    fn clone(&self) -> (r: Self)
        ensures
            r@ == self@,
    {
        FeedRow {
            id: self.id,
            url: self.url.clone(),
            title: self.title.clone(),
            last_fetched: self.last_fetched,
            tags: clone_optional_string(&self.tags),
            position: self.position,
            entries: clone_entry_rows(&self.entries),
        }
    }
}

impl EntryRow {
    /// The row that a new entry is saved as: unread, its links as JSON.
    pub fn new(fresh: &FeedEntry) -> (r: EntryRow)
        ensures
            r@ == new_row(fresh@),
    {
        EntryRow {
            title: fresh.title.clone(),
            published: clone_optional_string(&fresh.published),
            text: fresh.text.clone(),
            links: encode_strings(&fresh.links),
            media: fresh.media.clone(),
            read: false,
        }
    }

    /// The entry that the row holds. Links that cannot be read count as none.
    pub fn entry(&self) -> (r: FeedEntry)
        ensures
            r@ == self@.entry(),
    {
        let links = match decode_strings(self.links.as_str()) {
            Some(links) => links,
            None => {
                let none: Vec<String> = Vec::new();
                assert(none.deep_view() =~= Seq::empty());
                none
            },
        };
        FeedEntry {
            title: self.title.clone(),
            published: clone_optional_string(&self.published),
            text: self.text.clone(),
            links,
            media: self.media.clone(),
            feed_title: None,
            read: self.read,
        }
    }
}

/// The tags of a feed as a row holds them: a JSON list.
pub fn encode_tags(tags: &Option<Vec<String>>) -> (r: Option<String>)
    ensures
        r.deep_view() == encoded_tags(tags.deep_view()),
{
    match tags {
        Some(list) => Some(encode_strings(list)),
        None => None,
    }
}

impl FeedRow {
    /// The entries that the row holds, in the order of their rows.
    pub fn entries(&self) -> (r: Vec<FeedEntry>)
        ensures
            r.deep_view() == entries_of(self@.entries),
    {
        let mut r: Vec<FeedEntry> = Vec::new();
        let mut i: usize = 0;
        while i < self.entries.len()
            invariant
                i <= self.entries.len(),
                r.deep_view() == entries_of(self@.entries).take(i as int),
            decreases self.entries.len() - i,
        {
            let ghost before = r.deep_view();
            let entry = self.entries[i].entry();
            r.push(entry);
            assert(r.deep_view() =~= before.push(entry@));
            assert(r.deep_view() =~= entries_of(self@.entries).take(i + 1));
            i += 1;
        }
        assert(r.deep_view() =~= entries_of(self@.entries));
        r
    }

    /// The tags that the row holds. Tags that cannot be read count as absent.
    pub fn tags(&self) -> (r: Option<Vec<String>>)
        ensures
            r.deep_view() == self@.feed().tags,
    {
        match &self.tags {
            Some(text) => decode_strings(text.as_str()),
            None => None,
        }
    }
}

/// Whether two entries of one title, published at `a` and at `b`, are saved to one row:
/// whether the dates are the same, no date counting as the empty one.
pub fn same_key_date(a: &Option<String>, b: &Option<String>) -> (r: bool)
    ensures
        r == (key_date(a.deep_view()) == key_date(b.deep_view())),
{
    match (a, b) {
        (Some(x), Some(y)) => *x == *y,
        (Some(x), None) => {
            assert(x@.len() == 0 <==> x@ =~= Seq::<char>::empty());
            x.as_str().is_empty()
        },
        (None, Some(y)) => {
            assert(y@.len() == 0 <==> y@ =~= Seq::<char>::empty());
            y.as_str().is_empty()
        },
        (None, None) => true,
    }
}

/// Whether an entry published at `a` is the one known by the date `b`: whether the dates
/// are the same, no date being the same as no date only.
pub fn same_date(a: &Option<String>, b: Option<&str>) -> (r: bool)
    ensures
        r == (a.deep_view() == b.deep_view()),
{
    match (a, b) {
        (Some(x), Some(y)) => text_eq(x.as_str(), y),
        (None, None) => true,
        _ => false,
    }
}

/// Saves `fresh` to `rows`: the row of its title and date takes its content and keeps
/// its read flag; where there is no such row, a new one, unread, is put at the end.
pub fn put_entry(rows: &mut Vec<EntryRow>, fresh: &FeedEntry)
    ensures
        final(rows).deep_view() == with_entry(old(rows).deep_view(), fresh@),
{
    let ghost before = rows.deep_view();
    let mut j: usize = 0;
    while j < rows.len() && !(rows[j].title == fresh.title && same_key_date(
        &rows[j].published,
        &fresh.published,
    ))
        invariant
            j <= rows.len(),
            rows.deep_view() == before,
            forall|k: int|
                0 <= k < j ==> !(#[trigger] before[k]).has_key(fresh@.title, fresh@.published),
        decreases rows.len() - j,
    {
        j += 1;
    }
    proof {
        lemma_row_at(before, fresh@.title, fresh@.published, j as int);
    }
    if j < rows.len() {
        rows[j].text = fresh.text.clone();
        rows[j].links = encode_strings(&fresh.links);
        rows[j].media = fresh.media.clone();
        assert(rows.deep_view() =~= before.update(j as int, before[j as int].refreshed(fresh@)));
    } else {
        let row = EntryRow::new(fresh);
        rows.push(row);
        assert(rows.deep_view() =~= before.push(row@));
    }
}

/// Saves the entries `fresh` to `rows`, one after the other.
pub fn put_entries(rows: &mut Vec<EntryRow>, fresh: &Vec<FeedEntry>)
    ensures
        final(rows).deep_view() == with_entries(old(rows).deep_view(), fresh.deep_view()),
{
    let ghost before = rows.deep_view();
    let mut i: usize = 0;
    while i < fresh.len()
        invariant
            i <= fresh.len(),
            rows.deep_view() == with_entries(before, fresh.deep_view().take(i as int)),
        decreases fresh.len() - i,
    {
        proof {
            let next = fresh.deep_view().take(i + 1);
            assert(next.drop_last() =~= fresh.deep_view().take(i as int));
            assert(next.last() == fresh[i as int]@);
        }
        put_entry(rows, &fresh[i]);
        i += 1;
    }
    assert(fresh.deep_view().take(fresh.len() as int) =~= fresh.deep_view());
}

/// Gives the rows known by `title` and `published` the read flag `read`.
pub fn set_read(rows: &mut Vec<EntryRow>, title: &str, published: Option<&str>, read: bool)
    ensures
        final(rows).deep_view() == with_read(
            old(rows).deep_view(),
            title@,
            published.deep_view(),
            read,
        ),
{
    let ghost before = rows.deep_view();
    let ghost after = with_read(before, title@, published.deep_view(), read);
    let mut i: usize = 0;
    while i < rows.len()
        invariant
            i <= rows.len(),
            rows.deep_view().len() == before.len(),
            after == with_read(before, title@, published.deep_view(), read),
            forall|k: int| 0 <= k < i ==> (#[trigger] rows.deep_view()[k]) == after[k],
            forall|k: int| i <= k < before.len() ==> (#[trigger] rows.deep_view()[k]) == before[k],
        decreases rows.len() - i,
    {
        let ghost current = rows.deep_view();
        if text_eq(rows[i].title.as_str(), title) && same_date(&rows[i].published, published) {
            rows[i].read = read;
            assert(rows.deep_view() =~= current.update(
                i as int,
                current[i as int].with_read(read),
            ));
        }
        assert forall|k: int| 0 <= k < i + 1 implies (#[trigger] rows.deep_view()[k])
            == after[k] by {
            assert(current[k] == rows.deep_view()[k] || k == i);
        }
        i += 1;
    }
    assert(rows.deep_view() =~= after);
}

/// Whether no two of `rows` are rows that the same entry would be saved to.
pub fn has_distinct_keys(rows: &Vec<EntryRow>) -> (r: bool)
    ensures
        r == distinct_keys(rows.deep_view()),
{
    let ghost all = rows.deep_view();
    let mut j: usize = 0;
    while j < rows.len()
        invariant
            j <= rows.len(),
            all == rows.deep_view(),
            forall|a: int, b: int|
                0 <= a < b < j ==> !(#[trigger] all[a]).has_key(
                    (#[trigger] all[b]).title,
                    all[b].published,
                ),
        decreases rows.len() - j,
    {
        let mut i: usize = 0;
        while i < j
            invariant
                i <= j < rows.len(),
                all == rows.deep_view(),
                forall|a: int|
                    0 <= a < i ==> !(#[trigger] all[a]).has_key(
                        all[j as int].title,
                        all[j as int].published,
                    ),
            decreases j - i,
        {
            if rows[i].title == rows[j].title && same_key_date(
                &rows[i].published,
                &rows[j].published,
            ) {
                assert(all[i as int].has_key(all[j as int].title, all[j as int].published));
                return false;
            }
            i += 1;
        }
        j += 1;
    }
    true
}

} // verus!
