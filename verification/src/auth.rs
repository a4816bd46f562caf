//! Authentication of clients against the server's token.
use vstd::prelude::*;
use crate::state::AppState;
use crate::text::owned;

verus! {

/// Whether `token` is the server's token.
pub fn validate_token(state: &AppState, token: &str) -> (r: bool)
    ensures
        r == (token@ == state.auth_token@),
{
    state.validate_token(token)
}

/// The outcome of an authentication attempt, with a message for the client.
pub struct AuthResult {
    pub success: bool,
    pub message: Option<String>,
}

impl AuthResult {
    /// A successful attempt.
    pub fn success() -> (r: AuthResult)
        ensures
            r.success,
            r.message matches Some(m) && m@ == "Authentication successful"@,
    {
        AuthResult { success: true, message: Some(owned("Authentication successful")) }
    }

    /// A failed attempt, with `message` as the reason.
    pub fn failure(message: String) -> (r: AuthResult)
        ensures
            !r.success,
            r.message == Some(message),
    {
        AuthResult { success: false, message: Some(message) }
    }
}

} // verus!
