//! The document of a feed, once it is read, and the feed that is made of it.
//!
//! Of a document the library takes the title of the feed and, of each entry, title, date,
//! content, summary, links and media. Who fetches a document reads it and hands it over
//! as a [`RawFeed`], or hands over nothing where it cannot be read.

use crate::config::{Feeds, FeedsView};
use crate::feeds::{EntryView, Feed, FeedEntry, FeedView};
use crate::fetch::{build_feed, built, Outcome, OutcomeView, Parsed, ParsedView};
use vstd::prelude::*;

verus! {

/// An entry as it stands in the document of a feed.
#[derive(Debug, PartialEq, Eq)]
pub struct RawEntry {
    pub title: Option<String>,
    /// When the entry was published, as RFC 3339.
    pub published: Option<String>,
    pub content: Option<String>,
    pub summary: Option<String>,
    pub links: Vec<String>,
    /// The address of each piece of media, where it has one.
    pub media: Vec<Option<String>>,
}

/// The document of a feed.
#[derive(Debug, PartialEq, Eq)]
pub struct RawFeed {
    pub title: Option<String>,
    pub entries: Vec<RawEntry>,
}

/// The value of a [`RawEntry`].
pub struct RawEntryView {
    pub title: Option<Seq<char>>,
    pub published: Option<Seq<char>>,
    pub content: Option<Seq<char>>,
    pub summary: Option<Seq<char>>,
    pub links: Seq<Seq<char>>,
    pub media: Seq<Option<Seq<char>>>,
}

/// The value of a [`RawFeed`].
pub struct RawFeedView {
    pub title: Option<Seq<char>>,
    pub entries: Seq<RawEntryView>,
}

impl View for RawEntry {
    type V = RawEntryView;

    open spec fn view(&self) -> RawEntryView {
        RawEntryView {
            title: self.title.deep_view(),
            published: self.published.deep_view(),
            content: self.content.deep_view(),
            summary: self.summary.deep_view(),
            links: self.links.deep_view(),
            media: self.media.deep_view(),
        }
    }
}

impl DeepView for RawEntry {
    type V = RawEntryView;

    open spec fn deep_view(&self) -> RawEntryView {
        self@
    }
}

impl View for RawFeed {
    type V = RawFeedView;

    open spec fn view(&self) -> RawFeedView {
        RawFeedView { title: self.title.deep_view(), entries: self.entries.deep_view() }
    }
}

impl DeepView for RawFeed {
    type V = RawFeedView;

    open spec fn deep_view(&self) -> RawFeedView {
        self@
    }
}

/// `a`, and `b` where `a` is absent.
pub open spec fn or_else(a: Option<Seq<char>>, b: Option<Seq<char>>) -> Option<Seq<char>> {
    match a {
        Some(_) => a,
        None => b,
    }
}

/// `a`, and the empty text where `a` is absent.
pub open spec fn or_empty(a: Option<Seq<char>>) -> Seq<char> {
    match a {
        Some(text) => text,
        None => Seq::empty(),
    }
}

/// The first address among `media`, and the empty text where there is none.
pub open spec fn first_media(media: Seq<Option<Seq<char>>>) -> Seq<char>
    decreases media.len(),
{
    if media.len() == 0 {
        Seq::empty()
    } else {
        match media[0] {
            Some(address) => address,
            None => first_media(media.drop_first()),
        }
    }
}

/// The entry made of `raw`: unread, with its content or else its summary as text, and
/// its first piece of media.
pub open spec fn entry_of(raw: RawEntryView) -> EntryView {
    EntryView {
        title: or_empty(raw.title),
        published: raw.published,
        text: or_empty(or_else(raw.content, raw.summary)),
        links: raw.links,
        media: first_media(raw.media),
        feed_title: None,
        read: false,
    }
}

/// What is read of a document: its title and the entries made of its entries.
pub open spec fn parsed_of(raw: RawFeedView) -> ParsedView {
    ParsedView {
        title: raw.title,
        entries: Seq::new(raw.entries.len(), |i: int| entry_of(raw.entries[i])),
    }
}

/// What is said of a document that could not be read.
pub open spec fn unread_text() -> Seq<char> {
    "The document could not be read"@
}

/// What is said of a feed that has neither a configured name nor a title of its own.
pub open spec fn untitled_text() -> Seq<char> {
    "The feed has no title"@
}

/// The feed made of `document` for the feed `config`, where the document was read and
/// the feed has a title.
pub open spec fn feed_from(config: FeedsView, document: Option<RawFeedView>) -> Option<FeedView> {
    match document {
        Some(raw) => built(config, parsed_of(raw)),
        None => None,
    }
}

/// How the fetch of the feed `config` ends once its document `document` is there: with
/// the feed made of the document, or in failure where the document could not be read or
/// the feed has no title.
pub open spec fn outcome_is(config: FeedsView, document: Option<RawFeedView>, outcome: OutcomeView)
    -> bool {
    match feed_from(config, document) {
        Some(feed) => outcome == OutcomeView::Fetched(feed),
        None => outcome == OutcomeView::Failed(
            if document is Some {
                untitled_text()
            } else {
                unread_text()
            },
        ),
    }
}

/// The feeds made of `documents`, each for the configured feed of its place, as far as
/// there are configured feeds. A document that could not be read, or gives a feed
/// without a title, gives no feed.
pub open spec fn feeds_of(documents: Seq<Option<RawFeedView>>, configs: Seq<FeedsView>) -> Seq<
    FeedView,
>
    decreases documents.len(),
{
    if documents.len() == 0 {
        Seq::empty()
    } else {
        let before = feeds_of(documents.drop_last(), configs);
        let feed = if documents.len() <= configs.len() {
            feed_from(configs[documents.len() - 1], documents.last())
        } else {
            None
        };
        match feed {
            Some(feed) => before.push(feed),
            None => before,
        }
    }
}

/// `a`, and `b` where `a` is absent.
fn first_of(a: Option<String>, b: Option<String>) -> (r: Option<String>)
    ensures
        r.deep_view() == or_else(a.deep_view(), b.deep_view()),
{
    match a {
        Some(text) => Some(text),
        None => b,
    }
}

/// `a`, and the empty text where `a` is absent.
fn text_or_empty(a: Option<String>) -> (r: String)
    ensures
        r@ == or_empty(a.deep_view()),
{
    match a {
        Some(text) => text,
        None => String::new(),
    }
}

/// The first address among `media`, and the empty text where there is none.
fn pick_media(media: &Vec<Option<String>>) -> (r: String)
    ensures
        r@ == first_media(media.deep_view()),
{
    let ghost all = media.deep_view();
    let mut i: usize = 0;
    assert(all.skip(0) =~= all);
    while i < media.len()
        invariant
            i <= media.len(),
            all == media.deep_view(),
            first_media(all) == first_media(all.skip(i as int)),
        decreases media.len() - i,
    {
        assert(all.skip(i as int)[0] == media[i as int].deep_view());
        if let Some(address) = &media[i] {
            return address.clone();
        }
        assert(all.skip(i as int).drop_first() =~= all.skip(i + 1));
        i += 1;
    }
    String::new()
}

/// The entry made of `raw`: unread, with its content or else its summary as text, and
/// its first piece of media.
pub fn make_entry(raw: RawEntry) -> (r: FeedEntry)
    ensures
        r@ == entry_of(raw@),
{
    let media = pick_media(&raw.media);
    FeedEntry {
        title: text_or_empty(raw.title),
        published: raw.published,
        text: text_or_empty(first_of(raw.content, raw.summary)),
        links: raw.links,
        media,
        feed_title: None,
        read: false,
    }
}

/// What is read of the document `raw`: its title and the entries made of its entries.
pub fn make_parsed(raw: RawFeed) -> (r: Parsed)
    ensures
        r@ == parsed_of(raw@),
{
    let ghost all = raw.entries.deep_view();
    let ghost target = parsed_of(raw@).entries;
    let mut entries: Vec<FeedEntry> = Vec::new();
    for item in it: raw.entries
        invariant
            it.seq().len() == all.len(),
            forall|k: int| 0 <= k < all.len() ==> (#[trigger] it.seq()[k])@ == all[k],
            target == Seq::new(all.len(), |i: int| entry_of(all[i])),
            entries.deep_view() == target.take(it.index() as int),
    {
        let ghost before = entries.deep_view();
        let entry = make_entry(item);
        entries.push(entry);
        assert(entries.deep_view() =~= before.push(entry@));
        assert(entries.deep_view() =~= target.take(it.index() + 1));
    }
    assert(target.take(all.len() as int) =~= target);
    Parsed { title: raw.title, entries }
}

/// How the fetch of the feed `config` ends once its document is there: with the feed
/// made of `document`, or in failure where there is no document, because it could not be
/// read, and where the feed has neither a configured name nor a title of its own.
pub fn feed_of(config: &Feeds, document: Option<RawFeed>) -> (r: Outcome)
    ensures
        outcome_is(config@, document.deep_view(), r@),
{
    match document {
        Some(raw) => match build_feed(config, make_parsed(raw)) {
            Some(feed) => Outcome::Fetched(feed),
            None => Outcome::Failed("The feed has no title".to_owned()),
        },
        None => Outcome::Failed("The document could not be read".to_owned()),
    }
}

/// The feeds made of `documents`, each for the configured feed of its place, as far as
/// there are configured feeds. A document that could not be read, or gives a feed
/// without a title, gives no feed.
pub fn parse_feed(documents: Vec<Option<RawFeed>>, feeds: Vec<Feeds>) -> (r: Vec<Feed>)
    ensures
        r.deep_view() == feeds_of(documents.deep_view(), feeds.deep_view()),
{
    let ghost all = documents.deep_view();
    let mut r: Vec<Feed> = Vec::new();
    assert(r.deep_view() =~= feeds_of(all.take(0), feeds.deep_view()));
    assert(all.len() == documents.len());
    let mut i: usize = 0;
    for document in it: documents
        invariant
            it.seq().len() == all.len(),
            forall|k: int| 0 <= k < all.len() ==> (#[trigger] it.seq()[k]).deep_view() == all[k],
            i == it.index(),
            all.len() <= usize::MAX,
            r.deep_view() == feeds_of(all.take(i as int), feeds.deep_view()),
    {
        let ghost before = r.deep_view();
        proof {
            assert(all.take(i + 1).drop_last() =~= all.take(i as int));
            assert(all.take(i + 1).last() == document.deep_view());
        }
        if i < feeds.len() {
            assert(feeds.deep_view()[i as int] == feeds[i as int]@);
            match feed_of(&feeds[i], document) {
                Outcome::Fetched(feed) => {
                    r.push(feed);
                    assert(r.deep_view() =~= before.push(feed@));
                },
                Outcome::Failed(_) => {},
            }
        }
        i += 1;
    }
    assert(all.take(all.len() as int) =~= all);
    r
}

} // verus!
