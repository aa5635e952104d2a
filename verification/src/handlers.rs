//! Decisions of the paste server's request handlers.
pub mod paste_handlers;
