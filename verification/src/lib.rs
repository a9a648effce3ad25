//! Verified core of a feed poller and reader service.

pub mod text;
pub mod time;
pub mod cookies;
pub mod sorted;
pub mod model;
pub mod metrics;
pub mod entries;
pub mod feed;
pub mod fetcher;
pub mod hashing;
pub mod http;
pub mod schemas;
pub mod scheduler;
pub mod server;
pub mod config;
