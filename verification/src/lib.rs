//! Verified core of a podcast episode library.
//!
//! Two components: a field resolver that extracts a stream URL and a
//! duration from a feed item through an ordered fallback chain, and an
//! episode store that persists resolved episodes in a named partition of
//! an embedded key-value database, addressed by an 8-byte derived key.

pub mod duration;
pub mod engine;
pub mod episode;
pub mod error;
pub mod feed;
pub mod interface;
pub mod key;
pub mod resolve;
pub mod store;
