//! The first version of the data endpoint; the second is in [`v2`].
use vstd::prelude::*;
use crate::services::{base, base_url};

pub mod v2;

verus! {

/// The address of the version 1 data endpoint.
pub fn endpoint() -> (r: String)
    ensures
        r@ == base() + "/v1/data"@,
{
    let mut s = base_url().to_owned();
    s.append("/v1/data");
    s
}

} // verus!
