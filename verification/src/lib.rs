//! Verified core of a paste-sharing service: the identifier-chunk allocator,
//! decimal and token parsing, request validation and the decisions that the
//! HTTP handlers take around their database and queue calls.

pub mod api;
pub mod chunks;
pub mod config;
pub mod decimal;
pub mod helpers;
pub mod handlers;
pub mod ids;
pub mod models;
pub mod schema;
pub mod view_model;
