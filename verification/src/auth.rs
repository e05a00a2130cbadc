//! The credential store's data shapes. Registration, login and password
//! hashing live with the credential service; the protocol only carries
//! these values around.

use vstd::prelude::*;

verus! {

/// A registered user as the credential store keeps it.
#[derive(Debug, Clone)]
pub struct User {
    /// The unique username.
    pub username: String,
    /// The user's base64 salt, assigned at registration.
    pub salt: String,
    /// The salted hash of the user's password.
    pub password_hash: String,
}

/// What a client submits to register or log in.
pub struct AuthInput {
    /// The claimed username.
    pub username: String,
    /// The password, in the clear, for hashing or verification.
    pub password: String,
}

/// What the credential service answers.
pub struct AuthResponse {
    status: bool,
    message: String,
}

impl AuthResponse {
    /// Whether the request succeeded.
    pub closed spec fn status_spec(&self) -> bool {
        self.status
    }

    /// The human-readable outcome.
    pub closed spec fn message_spec(&self) -> Seq<char> {
        self.message@
    }

    /// Answer a request.
    pub fn new(status: bool, message: String) -> (r: AuthResponse)
        ensures
            r.status_spec() == status,
            r.message_spec() == message@,
    {
        AuthResponse { status, message }
    }

    /// Whether the request succeeded.
    pub fn status(&self) -> (r: bool)
        ensures
            r == self.status_spec(),
    {
        self.status
    }

    /// The human-readable outcome.
    pub fn message(&self) -> (r: &String)
        ensures
            r@ == self.message_spec(),
    {
        &self.message
    }
}

} // verus!
