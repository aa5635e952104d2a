//! Bodies of requests and answers of the earlier paste API.
pub mod models;
