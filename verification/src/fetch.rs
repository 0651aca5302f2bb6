//! A refresh: what is said of it while it runs, and the batch of feeds that it ends with.
//!
//! Every configured feed is fetched and read on its own. Before a feed is fetched its
//! name is announced; a feed that fails is reported and left out of the batch, which
//! holds the others in the order of the configuration; the batch is followed by the
//! notice that the refresh is complete.

use crate::config::{Feeds, FeedsView};
use crate::feeds::{clone_optional_strings, EntryView, Feed, FeedEntry, FeedView};
use vstd::prelude::*;

verus! {

/// What a refresh tells the application.
#[derive(Debug, PartialEq, Eq)]
pub enum FeedUpdate {
    /// These are the feeds now.
    Replace(Vec<Feed>),
    /// This feed was fetched again.
    UpdateFeed(usize, Feed),
    /// The feed of this name is being fetched.
    FetchingFeed(String),
    /// The feed of this name could not be fetched or read.
    FeedError { name: String, error: String },
    /// Every feed was dealt with.
    FetchComplete,
}

/// A feed that could not be fetched or read, and why.
#[derive(Debug, PartialEq, Eq)]
pub struct FeedError {
    pub name: String,
    pub error: String,
}

/// What was read from the document of a feed: its title, if it has one, and its entries.
#[derive(Debug, PartialEq, Eq)]
pub struct Parsed {
    pub title: Option<String>,
    pub entries: Vec<FeedEntry>,
}

/// How the fetch of one feed ended.
#[derive(Debug, PartialEq, Eq)]
pub enum Outcome {
    Fetched(Feed),
    Failed(String),
}

/// The value of a [`FeedUpdate`].
pub enum UpdateView {
    Replace(Seq<FeedView>),
    UpdateFeed(int, FeedView),
    FetchingFeed(Seq<char>),
    FeedError { name: Seq<char>, error: Seq<char> },
    FetchComplete,
}

/// The value of a [`FeedError`].
pub struct FeedErrorView {
    pub name: Seq<char>,
    pub error: Seq<char>,
}

/// The value of a [`Parsed`].
pub struct ParsedView {
    pub title: Option<Seq<char>>,
    pub entries: Seq<EntryView>,
}

/// The value of an [`Outcome`].
pub enum OutcomeView {
    Fetched(FeedView),
    Failed(Seq<char>),
}

impl View for FeedUpdate {
    type V = UpdateView;

    open spec fn view(&self) -> UpdateView {
        match self {
            FeedUpdate::Replace(feeds) => UpdateView::Replace(feeds.deep_view()),
            FeedUpdate::UpdateFeed(index, feed) => UpdateView::UpdateFeed(*index as int, feed@),
            FeedUpdate::FetchingFeed(name) => UpdateView::FetchingFeed(name@),
            FeedUpdate::FeedError { name, error } => UpdateView::FeedError {
                name: name@,
                error: error@,
            },
            FeedUpdate::FetchComplete => UpdateView::FetchComplete,
        }
    }
}

impl DeepView for FeedUpdate {
    type V = UpdateView;

    open spec fn deep_view(&self) -> UpdateView {
        self@
    }
}

impl View for FeedError {
    type V = FeedErrorView;

    open spec fn view(&self) -> FeedErrorView {
        FeedErrorView { name: self.name@, error: self.error@ }
    }
}

impl DeepView for FeedError {
    type V = FeedErrorView;

    open spec fn deep_view(&self) -> FeedErrorView {
        self@
    }
}

impl View for Parsed {
    type V = ParsedView;

    open spec fn view(&self) -> ParsedView {
        ParsedView { title: self.title.deep_view(), entries: self.entries.deep_view() }
    }
}

impl DeepView for Parsed {
    type V = ParsedView;

    open spec fn deep_view(&self) -> ParsedView {
        self@
    }
}

impl View for Outcome {
    type V = OutcomeView;

    open spec fn view(&self) -> OutcomeView {
        match self {
            Outcome::Fetched(feed) => OutcomeView::Fetched(feed@),
            Outcome::Failed(error) => OutcomeView::Failed(error@),
        }
    }
}

impl DeepView for Outcome {
    type V = OutcomeView;

    open spec fn deep_view(&self) -> OutcomeView {
        self@
    }
}

/// The title of a feed: the name that the configuration gives it, else the title of its
/// document.
pub open spec fn titled(config: FeedsView, parsed: ParsedView) -> Option<Seq<char>> {
    match config.name {
        Some(name) => Some(name),
        None => parsed.title,
    }
}

/// The feed made of what was read for `config`: at the configured address, with the
/// configured tags. There is none where the feed has no title.
pub open spec fn built(config: FeedsView, parsed: ParsedView) -> Option<FeedView> {
    match titled(config, parsed) {
        Some(title) => Some(
            FeedView { url: config.link, title, entries: parsed.entries, tags: config.tags },
        ),
        None => None,
    }
}

/// The feeds that were fetched, in the order of their outcomes.
pub open spec fn fetched(outcomes: Seq<OutcomeView>) -> Seq<FeedView>
    decreases outcomes.len(),
{
    if outcomes.len() == 0 {
        Seq::empty()
    } else {
        match outcomes.last() {
            OutcomeView::Fetched(feed) => fetched(outcomes.drop_last()).push(feed),
            OutcomeView::Failed(_) => fetched(outcomes.drop_last()),
        }
    }
}

/// How many fetches failed.
pub open spec fn failures(outcomes: Seq<OutcomeView>) -> nat
    decreases outcomes.len(),
{
    if outcomes.len() == 0 {
        0
    } else {
        match outcomes.last() {
            OutcomeView::Fetched(_) => failures(outcomes.drop_last()),
            OutcomeView::Failed(_) => failures(outcomes.drop_last()) + 1,
        }
    }
}

/// What is said of the fetch of one feed: that it is fetched, and then, where it failed,
/// that it failed and why.
pub open spec fn said_of(config: FeedsView, outcome: OutcomeView) -> Seq<UpdateView> {
    match outcome {
        OutcomeView::Fetched(_) => seq![UpdateView::FetchingFeed(config.display_name())],
        OutcomeView::Failed(error) => seq![
            UpdateView::FetchingFeed(config.display_name()),
            UpdateView::FeedError { name: config.display_name(), error },
        ],
    }
}

/// How the fetches ended, without the feeds that they were for.
pub open spec fn outcomes_of(done: Seq<(FeedsView, OutcomeView)>) -> Seq<OutcomeView> {
    Seq::new(done.len(), |i: int| done[i].1)
}

/// What is said of the first `n` of the fetches `done`, feed after feed.
pub open spec fn said_of_first(done: Seq<(FeedsView, OutcomeView)>, n: int) -> Seq<UpdateView>
    decreases n,
{
    if n <= 0 {
        Seq::empty()
    } else {
        said_of_first(done, n - 1) + said_of(done[n - 1].0, done[n - 1].1)
    }
}

/// What a refresh ends with: the batch of the feeds that were fetched, and the notice
/// that the refresh is complete.
pub open spec fn conclusion(outcomes: Seq<OutcomeView>) -> Seq<UpdateView> {
    seq![UpdateView::Replace(fetched(outcomes)), UpdateView::FetchComplete]
}

/// All that a refresh says where the feeds are dealt with one after the other: `done`
/// holds each feed with how its fetch ended.
pub open spec fn refresh_messages(done: Seq<(FeedsView, OutcomeView)>) -> Seq<UpdateView> {
    said_of_first(done, done.len() as int) + conclusion(outcomes_of(done))
}

/// How many of `messages` report a failed feed.
pub open spec fn errors_in(messages: Seq<UpdateView>) -> nat
    decreases messages.len(),
{
    if messages.len() == 0 {
        0
    } else if messages.last() is FeedError {
        errors_in(messages.drop_last()) + 1
    } else {
        errors_in(messages.drop_last())
    }
}

/// Every feed is in the batch or has failed: the batch holds as many feeds as fetches
/// did not fail.
pub proof fn lemma_batch_size(outcomes: Seq<OutcomeView>)
    ensures
        fetched(outcomes).len() + failures(outcomes) == outcomes.len(),
    decreases outcomes.len(),
{
    if outcomes.len() > 0 {
        lemma_batch_size(outcomes.drop_last());
    }
}

/// Counting the reports of failure goes piece by piece.
pub proof fn lemma_errors_in_concat(a: Seq<UpdateView>, b: Seq<UpdateView>)
    ensures
        errors_in(a + b) == errors_in(a) + errors_in(b),
    decreases b.len(),
{
    if b.len() == 0 {
        assert(a + b =~= a);
    } else {
        lemma_errors_in_concat(a, b.drop_last());
        assert((a + b).drop_last() =~= a + b.drop_last());
        assert((a + b).last() == b.last());
    }
}

/// What is said of the first `n` feeds reports as many failures as there were among them.
pub proof fn lemma_errors_said(done: Seq<(FeedsView, OutcomeView)>, n: int)
    requires
        0 <= n <= done.len(),
    ensures
        errors_in(said_of_first(done, n)) == failures(outcomes_of(done).take(n)),
    decreases n,
{
    let outcomes = outcomes_of(done);
    if n > 0 {
        lemma_errors_said(done, n - 1);
        let head = said_of_first(done, n - 1);
        let tail = said_of(done[n - 1].0, done[n - 1].1);
        lemma_errors_in_concat(head, tail);
        assert(outcomes.take(n).drop_last() =~= outcomes.take(n - 1));
        assert(outcomes.take(n).last() == done[n - 1].1);
        reveal_with_fuel(errors_in, 3);
        match done[n - 1].1 {
            OutcomeView::Fetched(_) => {
                assert(tail.drop_last() =~= Seq::<UpdateView>::empty());
            },
            OutcomeView::Failed(_) => {
                assert(tail.drop_last().drop_last() =~= Seq::<UpdateView>::empty());
            },
        }
    } else {
        assert(outcomes.take(0) =~= Seq::<OutcomeView>::empty());
    }
}

/// A refresh where some feeds fail still ends well: its messages end with the batch of
/// all the feeds that were fetched, in the order of the configuration, followed by the
/// notice that the refresh is complete; and before the batch they report as many
/// failures as there were, so that the feeds in the batch and the failures reported are
/// as many as the feeds configured.
pub proof fn lemma_refresh_with_failures(done: Seq<(FeedsView, OutcomeView)>)
    ensures
        ({
            let messages = refresh_messages(done);
            let outcomes = outcomes_of(done);
            let n = messages.len();
            &&& n >= 2
            &&& messages[n - 1] == UpdateView::FetchComplete
            &&& messages[n - 2] == UpdateView::Replace(fetched(outcomes))
            &&& errors_in(messages.take(n - 2)) == failures(outcomes)
            &&& fetched(outcomes).len() + failures(outcomes) == done.len()
        }),
{
    let outcomes = outcomes_of(done);
    let said = said_of_first(done, done.len() as int);
    let messages = refresh_messages(done);
    lemma_errors_said(done, done.len() as int);
    lemma_batch_size(outcomes);
    assert(outcomes.take(done.len() as int) =~= outcomes);
    assert(messages.take(messages.len() - 2) =~= said);
}

impl Clone for FeedError {
    fn clone(&self) -> (r: Self)
        ensures
            r@ == self@,
    {
        FeedError { name: self.name.clone(), error: self.error.clone() }
    }
}

impl Clone for FeedUpdate {
    fn clone(&self) -> (r: Self)
        ensures
            r@ == self@,
    {
        match self {
            FeedUpdate::Replace(feeds) => FeedUpdate::Replace(crate::feeds::clone_feeds(feeds)),
            FeedUpdate::UpdateFeed(index, feed) => FeedUpdate::UpdateFeed(*index, feed.clone()),
            FeedUpdate::FetchingFeed(name) => FeedUpdate::FetchingFeed(name.clone()),
            FeedUpdate::FeedError { name, error } => FeedUpdate::FeedError {
                name: name.clone(),
                error: error.clone(),
            },
            FeedUpdate::FetchComplete => FeedUpdate::FetchComplete,
        }
    }
}

/// The feed made of what was read for `config`: at the configured address, with the
/// configured tags, and under the configured name or else the title of its document.
/// `None` where the feed has neither.
pub fn build_feed(config: &Feeds, parsed: Parsed) -> (r: Option<Feed>)
    ensures
        r.deep_view() == built(config@, parsed@),
{
    let title = match &config.name {
        Some(name) => Some(name.clone()),
        None => parsed.title,
    };
    match title {
        Some(title) => Some(
            Feed {
                url: config.link.clone(),
                title,
                entries: parsed.entries,
                tags: clone_optional_strings(&config.tags),
            },
        ),
        None => None,
    }
}

impl FeedUpdate {
    /// Whether taking the message in saves feeds to the cache, and so needs the time: a
    /// batch does, and a single feed.
    pub fn saves(&self) -> (r: bool)
        ensures
            r == (self@ is Replace || self@ is UpdateFeed),
    {
        match self {
            FeedUpdate::Replace(_) => true,
            FeedUpdate::UpdateFeed(_, _) => true,
            _ => false,
        }
    }
}

/// The notice that the feed `config` is being fetched.
pub fn announce(config: &Feeds) -> (r: FeedUpdate)
    ensures
        r@ == UpdateView::FetchingFeed(config@.display_name()),
{
    FeedUpdate::FetchingFeed(config.display_name())
}

/// The report of how the fetch of `config` ended: none where it went well.
pub fn report(config: &Feeds, outcome: &Outcome) -> (r: Option<FeedUpdate>)
    ensures
        r.deep_view() == match outcome@ {
            OutcomeView::Fetched(_) => None,
            OutcomeView::Failed(error) => Some(
                UpdateView::FeedError { name: config@.display_name(), error },
            ),
        },
{
    match outcome {
        Outcome::Fetched(_) => None,
        Outcome::Failed(error) => Some(
            FeedUpdate::FeedError { name: config.display_name(), error: error.clone() },
        ),
    }
}

/// The feeds that were fetched, in the order of their outcomes.
pub fn batch(outcomes: Vec<Outcome>) -> (r: Vec<Feed>)
    ensures
        r.deep_view() == fetched(outcomes.deep_view()),
{
    let ghost all = outcomes.deep_view();
    let mut r: Vec<Feed> = Vec::new();
    assert(r.deep_view() =~= fetched(all.take(0)));
    for outcome in it: outcomes
        invariant
            it.seq().len() == all.len(),
            forall|k: int| 0 <= k < all.len() ==> (#[trigger] it.seq()[k])@ == all[k],
            r.deep_view() == fetched(all.take(it.index() as int)),
    {
        let ghost before = r.deep_view();
        let ghost n = it.index() as int;
        proof {
            assert(all.take(n + 1).drop_last() =~= all.take(n));
            assert(all.take(n + 1).last() == outcome@);
        }
        match outcome {
            Outcome::Fetched(feed) => {
                r.push(feed);
                assert(r.deep_view() =~= before.push(feed@));
            },
            Outcome::Failed(_) => {},
        }
    }
    assert(all.take(all.len() as int) =~= all);
    r
}

/// What a refresh ends with: the batch of the feeds that were fetched, and the notice
/// that the refresh is complete.
pub fn conclude(outcomes: Vec<Outcome>) -> (r: Vec<FeedUpdate>)
    ensures
        r.deep_view() == conclusion(outcomes.deep_view()),
{
    let mut r: Vec<FeedUpdate> = Vec::new();
    r.push(FeedUpdate::Replace(batch(outcomes)));
    r.push(FeedUpdate::FetchComplete);
    assert(r.deep_view() =~= conclusion(outcomes.deep_view()));
    r
}

/// All that a refresh says where the feeds are dealt with one after the other, `done`
/// holding each feed with how its fetch ended: for each feed that it is fetched and, where
/// it failed, the failure; then the batch of the feeds that were fetched and the notice
/// that the refresh is complete.
pub fn refresh(done: Vec<(Feeds, Outcome)>) -> (r: Vec<FeedUpdate>)
    ensures
        r.deep_view() == refresh_messages(done.deep_view()),
{
    let ghost all = done.deep_view();
    let mut r: Vec<FeedUpdate> = Vec::new();
    assert(r.deep_view() =~= Seq::empty());
    let mut i: usize = 0;
    while i < done.len()
        invariant
            i <= done.len(),
            all == done.deep_view(),
            r.deep_view() == said_of_first(all, i as int),
        decreases done.len() - i,
    {
        let ghost before = r.deep_view();
        assert(all[i as int] == (done[i as int].0@, done[i as int].1@));
        let notice = announce(&done[i].0);
        r.push(notice);
        assert(r.deep_view() =~= before.push(notice@));
        match report(&done[i].0, &done[i].1) {
            Some(failure) => {
                r.push(failure);
                assert(r.deep_view() =~= before.push(notice@).push(failure@));
                assert(r.deep_view() =~= before + said_of(all[i as int].0, all[i as int].1));
            },
            None => {
                assert(r.deep_view() =~= before + said_of(all[i as int].0, all[i as int].1));
            },
        }
        i += 1;
    }
    let ghost said = r.deep_view();
    let mut outcomes: Vec<Outcome> = Vec::new();
    for pair in it: done
        invariant
            it.seq().len() == all.len(),
            forall|k: int|
                0 <= k < all.len() ==> (#[trigger] it.seq()[k]).deep_view() == all[k],
            outcomes.deep_view() == outcomes_of(all).take(it.index() as int),
    {
        let ghost so_far = outcomes.deep_view();
        let outcome = pair.1;
        outcomes.push(outcome);
        assert(outcomes.deep_view() =~= so_far.push(outcome@));
        assert(outcomes.deep_view() =~= outcomes_of(all).take(it.index() + 1));
    }
    assert(outcomes_of(all).take(all.len() as int) =~= outcomes_of(all));
    let mut end = conclude(outcomes);
    let ghost tail = end.deep_view();
    r.append(&mut end);
    assert(r.deep_view() =~= said + tail);
    r
}

} // verus!
