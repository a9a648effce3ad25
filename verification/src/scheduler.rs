//! The poller's decisions around a request: whether a fetched body changed,
//! what a watched page yields, and when a feed is marked as failing.

pub mod html;
pub mod watch;
pub mod actions;
pub mod orchestrator;
