//! A multi-source content-crawl engine.
//!
//! The engine aggregates content items from several independent platforms
//! into one normalized record stream. It covers per-source pagination
//! (a numeric page counter or an opaque continuation token), cross-source
//! record normalization (timestamps, authorship, identifiers), and the
//! incremental-diff algorithm that decides which records are new since the
//! last sync. All network and storage I/O stays outside this crate: callers
//! fetch pages and hand the decoded values in, so every rule in here is
//! checked by the verifier.

pub mod article;
pub mod differ;
pub mod error;
pub mod orchestrator;
pub mod pager;
pub mod qiita;
pub mod timestamp;
pub mod twitter;
pub mod youtube;

use vstd::prelude::*;

verus! {

/// Page size used by the flat counter-paginated source.
pub const QIITA_PAGE_SIZE: u64 = 20;

} // verus!
