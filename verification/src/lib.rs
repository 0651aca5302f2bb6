//! A reader of feeds: the feeds that are fetched, the cache that keeps them together with
//! what the user has read, the queries that list entries over several feeds, and the
//! application that shows them and carries every change of a read flag to each place
//! where the entry is shown.

pub mod app;
pub mod cache;
pub mod changes;
pub mod clock;
pub mod config;
pub mod dates;
pub mod display;
pub mod documents;
pub mod feeds;
pub mod fetch;
pub mod history;
pub mod json;
pub mod layout;
pub mod loading;
pub mod order;
pub mod query;
pub mod rows;
pub mod text;
