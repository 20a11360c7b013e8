//! A verified core for a multi-stage track-acquisition pipeline.
//!
//! Tracks move through four stages — search, judge, download, persist —
//! driven by a single event loop. This crate holds the pipeline's logic:
//! the event types, the retry policy, the search dedup session, the
//! download classification, the judge selection, the coordinator
//! dispatcher, the persistence row mapping and the configuration parser.
//! All I/O (the peer network, the database, HTTP, the async runtime)
//! lives outside, and hands this crate plain values.

pub mod config;
pub mod coordinator;
pub mod download;
pub mod events;
pub mod items;
pub mod judge;
pub mod playlist;
pub mod retry;
pub mod search;
pub mod store;

pub use retry::capped_backoff;
