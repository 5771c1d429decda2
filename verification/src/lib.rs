//! Incremental content indexer for paginated discussion sources.
//!
//! The library mirrors remote, independently paginated sources (discussion
//! forums and issue trackers) into a local store and a search index.  Its
//! core is the per-instance worker pipeline: a dedup queue that guarantees at
//! most one in-flight request per work key, a staleness decision that says
//! whether a remote object is worth re-fetching, a worker step that walks
//! pagination chains, a backfill walker for first encounters, and a scheduler
//! aligned to round-clock boundaries.  All decision logic lives here and is
//! verified; the surrounding I/O (HTTP, database, search engine) is driven by
//! an unverified shell that feeds plain values in and carries actions out.

pub mod admin;
pub mod backfill;
pub mod blog;
pub mod dedup;
pub mod discourse;
pub mod fetch;
pub mod github;
pub mod html;
pub mod numfmt;
pub mod scheduler;
pub mod search;
pub mod server;
pub mod staleness;
pub mod worker;
pub mod workshop;

pub use dedup::DedupQueue;
pub use dedup::WorkKey;
