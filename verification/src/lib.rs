//! Feed cache and conditional-fetch core of a feed aggregator ("planet").
//!
//! The crate holds the decisions of the aggregator as verified functions on
//! plain values: where a feed is kept, whether a fetched feed differs from the
//! stored one, which files a store operation writes, and how the entries of
//! all feeds are merged into one bounded, recency-ordered list. Reading and
//! writing files, talking to the network and parsing feed documents is left
//! to the caller, who hands in what was read, received and parsed.

pub mod aggregate;
pub mod authors;
pub mod change;
pub mod durable;
pub mod error;
pub mod feed_map;
pub mod feed_store;
pub mod feed_url;
pub mod fetch_data;
pub mod file_name;
pub mod fetcher;
pub mod model;
pub mod simple_entry;
