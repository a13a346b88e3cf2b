//! A small client library for searching and reading an online encyclopedia
//! from a terminal: a content-addressed, session-scoped cache index, a
//! non-blocking load slot for background fetches, and a normalizer that turns
//! markup text into an ordered sequence of tagged display spans.

pub mod cache;
pub mod fetch;
pub mod parse;
pub mod prune;
pub mod slot;
pub mod snippet;
pub mod span;
pub mod state;
pub mod util;
