//! Paste requests and answers.
use uuid::Uuid;
use vstd::prelude::*;

verus! {

/// A request to store a paste.
#[derive(Clone, Debug)]
pub struct CreatePasteRequest {
    pub title: String,
    pub signature: String,
    pub content: String,
    pub syntax: Option<String>,
    pub expire: Option<i32>,
    pub burn: Option<bool>,
}

/// The answer to a stored paste: its id.
#[derive(Clone, Copy, Debug)]
pub struct CreatedPasteResponse {
    pub id: Uuid,
}

/// A paste as it is shown: `expire` is how many seconds it has left, and
/// `views` how often it was read.
#[derive(Clone, Debug)]
pub struct PasteResponse {
    pub title: String,
    pub content: String,
    pub signature: String,
    pub syntax: Option<String>,
    pub expire: Option<i64>,
    pub views: i64,
}

} // verus!
