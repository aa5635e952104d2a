//! User requests and answers.
use uuid::Uuid;
use vstd::prelude::*;

verus! {

/// A login with a user's numeric id.
#[derive(Clone, Copy, Debug, PartialEq, Eq, Structural)]
pub struct UserLoginRequest {
    pub id: u128,
}

/// The answer to a new user: the user's id.
#[derive(Clone, Copy, Debug)]
pub struct CreatedUserResponse {
    pub id: Uuid,
}

/// The answer to a login: the user's new token.
#[derive(Clone, Debug)]
pub struct UserLoginResponse {
    pub token: String,
}

} // verus!
