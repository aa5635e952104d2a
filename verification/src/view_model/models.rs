//! Requests and answers of the earlier paste API.
use crate::ids::{make_uuid, uuid_from_u128};
use uuid::Uuid;
use vstd::prelude::*;

verus! {

/// A request to store a paste, possibly behind a password.
#[derive(Clone, Debug)]
pub struct CreatePasteRequest {
    pub title: String,
    pub content: String,
    pub syntax: Option<String>,
    pub password: bool,
    pub expire: Option<i32>,
    pub burn: Option<bool>,
}

/// A login with a user's numeric id.
#[derive(Clone, Copy, Debug, PartialEq, Eq, Structural)]
pub struct UserLoginRequest {
    pub user_id: u128,
}

impl UserLoginRequest {
    /// The UUID under which the user is stored.
    pub fn user_uuid(&self) -> (r: Uuid)
        ensures
            r == uuid_from_u128(self.user_id),
    {
        make_uuid(self.user_id)
    }
}

/// The answer to a stored paste: its id.
#[derive(Clone, Copy, Debug)]
pub struct CreatePasteResponse {
    pub paste_id: Uuid,
}

} // verus!
