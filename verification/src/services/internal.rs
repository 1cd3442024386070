//! Background work.
use vstd::prelude::*;

verus! {

fn helper() -> (r: &'static str)
    ensures
        r@ == "internal helper"@,
{
    "internal helper"
}

/// Reports the work done with the internal helper.
pub fn do_work() -> (r: String)
    ensures
        r@ == "Working with "@ + "internal helper"@,
{
    let h = self::helper();
    let mut s = String::from_str("Working with ");
    s.append(h);
    s
}

} // verus!
