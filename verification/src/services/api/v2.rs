//! The second version of the data endpoint.
use vstd::prelude::*;
use crate::services::{base, base_url};

verus! {

/// The address of the version 2 data endpoint.
pub fn endpoint() -> (r: String)
    ensures
        r@ == base() + "/v2/data"@,
{
    let mut s = base_url().to_owned();
    s.append("/v2/data");
    s
}

} // verus!
