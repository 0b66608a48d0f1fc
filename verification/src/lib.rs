//! A bounded-concurrency breadth-first site crawler core.
//!
//! The crawl is a pool of workers over three shared collections: the set of
//! claimed URLs (`visited`), the frontier of discovered URLs (`frontier`) and
//! the list of per-page outcomes (`results`). Every operation on the shared
//! state is one atomic step of one worker (`pool`), defined as a transition
//! system over mathematical values (`protocol`); the properties of a crawl
//! are invariants of those steps (`laws`), so they hold of every
//! interleaving of the workers. `crawler` runs a pool to completion against
//! a fetcher and a link extractor, and `links` is a plain link extractor.
//!
//! `client` holds the plain records of the desktop client that hosts the
//! crawler.

pub mod client;
pub mod crawler;
pub mod frontier;
pub mod laws;
pub mod links;
pub mod page;
pub mod pool;
pub mod protocol;
pub mod results;
pub mod visited;
pub mod worker;
