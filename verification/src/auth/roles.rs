//! User roles.
use vstd::prelude::*;
use crate::text::str_eq;

verus! {

/// Whether `user` is the administrator.
pub fn is_admin(user: &str) -> (r: bool)
    ensures
        r == (user@ == "admin"@),
{
    str_eq(user, "admin")
}

/// The role of a user that has been given none.
pub fn default_role() -> (r: &'static str)
    ensures
        r@ == "viewer"@,
{
    "viewer"
}

} // verus!
