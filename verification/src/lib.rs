//! A verified core for a single-site web mirror.
//!
//! The crate holds the crawl engine of the mirror: the frontier queue with
//! its deduplicating visited set, the include/exclude scope policy, the
//! URL-to-local-path mapping, the fetch-or-reuse decision, the content-type
//! gate, and the `href` link extractor.  All I/O (network, disk, serving)
//! stays outside; the library computes every decision from plain values and
//! states each one in a contract.

pub mod chars;
pub mod crawler;
pub mod extract;
pub mod frontier;
pub mod pathmap;
pub mod percent;
pub mod scope;
pub mod store;
pub mod outside;
