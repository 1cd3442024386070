//! Connecting to a network address; name resolution lives in [`dns`].
use vstd::prelude::*;

pub mod dns;

verus! {

/// The link check that runs before each connection; it always passes.
fn internal_check() -> (r: bool)
    ensures
        r,
{
    true
}

/// Connects to `addr` and reports it.
pub fn connect(addr: &str) -> (r: String)
    ensures
        r@ == "Connected to "@ + addr@,
{
    if internal_check() {
        let mut s = String::from_str("Connected to ");
        s.append(addr);
        s
    } else {
        let mut s = String::from_str("Failed to connect to ");
        s.append(addr);
        s
    }
}

/// Reports a disconnection.
pub fn disconnect() -> (r: String)
    ensures
        r@ == "Disconnected"@,
{
    String::from_str("Disconnected")
}

} // verus!
