//! Patterns in parameters and slices.
use vstd::prelude::*;

verus! {

/// The sum of a pair; it must fit in an `i32`.
pub fn sum_pair(pair: (i32, i32)) -> (r: i32)
    requires
        i32::MIN <= pair.0 + pair.1 <= i32::MAX,
    ensures
        r == pair.0 + pair.1,
{
    let (a, b) = pair;
    a + b
}

/// The first element and the rest, or `None` for an empty slice.
pub fn first_and_rest(slice: &[i32]) -> (r: Option<(i32, &[i32])>)
    ensures
        slice@.len() == 0 ==> r is None,
        slice@.len() > 0 ==> (r matches Some(p) && p.0 == slice@[0] && p.1@ == slice@.drop_first()),
{
    if slice.len() == 0 {
        None
    } else {
        let rest = vstd::slice::slice_subrange(slice, 1, slice.len());
        assert(rest@ =~= slice@.drop_first());
        Some((slice[0], rest))
    }
}

} // verus!
