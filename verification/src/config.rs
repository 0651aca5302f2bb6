//! What the configuration names: the feeds to fetch and the queries over them.

use crate::feeds::{clone_optional_string, clone_optional_strings};
use vstd::prelude::*;

verus! {

/// A configured feed: its address, and optionally the name to show it under and its tags.
#[derive(Debug, PartialEq, Eq)]
pub struct Feeds {
    pub link: String,
    pub name: Option<String>,
    pub tags: Option<Vec<String>>,
}

/// A configured query feed: a name and the query that selects its entries.
#[derive(Debug, PartialEq, Eq)]
pub struct QueryFeed {
    pub name: String,
    pub query: String,
}

/// How the lists are laid out.
#[derive(Debug, Clone, Copy, PartialEq, Eq, Structural)]
pub struct UiConfig {
    pub split_view: bool,
    pub show_borders: bool,
}

/// The value of a [`Feeds`].
pub struct FeedsView {
    pub link: Seq<char>,
    pub name: Option<Seq<char>>,
    pub tags: Option<Seq<Seq<char>>>,
}

/// The value of a [`QueryFeed`].
pub struct QueryFeedView {
    pub name: Seq<char>,
    pub query: Seq<char>,
}

impl View for Feeds {
    type V = FeedsView;

    open spec fn view(&self) -> FeedsView {
        FeedsView { link: self.link@, name: self.name.deep_view(), tags: self.tags.deep_view() }
    }
}

impl DeepView for Feeds {
    type V = FeedsView;

    open spec fn deep_view(&self) -> FeedsView {
        self@
    }
}

impl View for QueryFeed {
    type V = QueryFeedView;

    open spec fn view(&self) -> QueryFeedView {
        QueryFeedView { name: self.name@, query: self.query@ }
    }
}

impl DeepView for QueryFeed {
    type V = QueryFeedView;

    open spec fn deep_view(&self) -> QueryFeedView {
        self@
    }
}

impl FeedsView {
    /// The name that the feed is shown under: the configured one, else its address.
    pub open spec fn display_name(self) -> Seq<char> {
        match self.name {
            Some(name) => name,
            None => self.link,
        }
    }
}

impl Default for Feeds {
    fn default() -> (r: Self)
        ensures
            r@ == (FeedsView { link: Seq::empty(), name: None, tags: None }),
    {
        Feeds { link: String::new(), name: None, tags: None }
    }
}

impl Clone for Feeds {
    fn clone(&self) -> (r: Self)
        ensures
            r@ == self@,
    {
        Feeds {
            link: self.link.clone(),
            name: clone_optional_string(&self.name),
            tags: clone_optional_strings(&self.tags),
        }
    }
}

impl Clone for QueryFeed {
    fn clone(&self) -> (r: Self)
        ensures
            r@ == self@,
    {
        QueryFeed { name: self.name.clone(), query: self.query.clone() }
    }
}

impl Feeds {
    /// The name that the feed is shown under: the configured one, else its address.
    pub fn display_name(&self) -> (r: String)
        ensures
            r@ == self@.display_name(),
    {
        match &self.name {
            Some(name) => name.clone(),
            None => self.link.clone(),
        }
    }
}

} // verus!
