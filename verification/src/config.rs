//! Source configuration: feed and watch defaults, their merging and
//! application, the parsing of watch options, category and source
//! resolution, and path helpers.

pub mod error;
pub mod raw;
pub mod categories;
pub mod defaults;
pub mod feeds;
pub mod sources;
pub mod loader;
pub mod paths;
