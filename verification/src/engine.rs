//! Processing of text records.
use vstd::prelude::*;

verus! {

/// Marks `data` as processed.
pub fn process(data: &str) -> (r: String)
    ensures
        r@ == "processed: "@ + data@,
{
    let mut s = String::from_str("processed: ");
    s.append(data);
    s
}

/// A record is valid when it is not empty.
pub fn validate(data: &str) -> (r: bool)
    ensures
        r == (data@.len() > 0),
{
    !data.is_empty()
}

} // verus!
