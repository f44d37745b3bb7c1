//! Verified core of the onemorebeer catalogue synchroniser: text handling,
//! beer records built from shop listings, cache paths and the decision
//! logic of the HTTP cache and the rating fetcher.

pub mod text;
pub mod pattern;
pub mod beer;
pub mod onemorebeer;
pub mod header;
pub mod cache;
pub mod config;
pub mod database;
pub mod mode;
pub mod batch;
pub mod untappd;
pub mod middleware;
