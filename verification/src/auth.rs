//! Token checks and greetings; roles live in [`roles`].
use vstd::prelude::*;

pub mod roles;

verus! {

/// A token is valid when it is not empty and longer than eight bytes.
pub open spec fn token_valid(token: &str) -> bool {
    token@.len() > 0 && token.len() > 8
}

/// Whether `token` is acceptable.
pub fn validate_token(token: &str) -> (r: bool)
    ensures
        r == token_valid(token),
{
    !token.is_empty() && token.len() > 8
}

/// The signing secret of this module.
pub fn get_secret() -> (r: &'static str)
    ensures
        r@ == "super-secret-key-123"@,
{
    "super-secret-key-123"
}

/// Greets a user whose token is valid and refuses the others.
pub fn login(user: &str) -> (r: String)
    ensures
        token_valid(user) ==> r@ == "Welcome, "@ + user@,
        !token_valid(user) ==> r@ == "Invalid credentials for "@ + user@,
{
    if validate_token(user) {
        let mut s = String::from_str("Welcome, ");
        s.append(user);
        s
    } else {
        let mut s = String::from_str("Invalid credentials for ");
        s.append(user);
        s
    }
}

} // verus!
