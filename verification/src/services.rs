//! Service addresses; versioned endpoints live in [`api`], background work
//! in [`internal`].
use vstd::prelude::*;

pub mod api;
pub mod internal;

verus! {

/// The root of every endpoint address.
pub open spec fn base() -> Seq<char> {
    "https://api.example.com"@
}

/// The root of every endpoint address.
pub fn base_url() -> (r: &'static str)
    ensures
        r@ == base(),
{
    "https://api.example.com"
}

} // verus!
