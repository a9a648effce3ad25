//! The reader service: its configuration, errors, authentication helpers,
//! SQL text helpers, request checks and API shapes.

pub mod errors;
pub mod auth;
pub mod config;
pub mod db;
pub mod models;
pub mod requests;
pub mod queries;
pub mod flows;
