//! Reading the caller's identity from a request.
use vstd::prelude::*;

verus! {

/// What an access token says: whose it is and when it expires (seconds
/// since the Unix epoch).
#[derive(Debug, Clone, PartialEq, Eq)]
pub struct Claims {
    pub sub: String,
    pub exp: usize,
}

/// How long an access token lives, in seconds.
pub const ACCESS_TOKEN_SECONDS: usize = 900;

/// The claims of an access token issued at `now` for `user_id`; it expires
/// fifteen minutes later.
pub fn access_claims(user_id: &str, now: usize) -> (r: Claims)
    requires
        now + ACCESS_TOKEN_SECONDS <= usize::MAX,
    ensures
        r.sub@ == user_id@,
        r.exp == now + ACCESS_TOKEN_SECONDS,
{
    Claims { sub: user_id.to_owned(), exp: now + ACCESS_TOKEN_SECONDS }
}

/// The token of an `Authorization` header value of the form
/// `Bearer <token>`, or `None` for any other value.
pub fn bearer_token(header: &str) -> (r: Option<&str>)
    ensures
        header@.len() >= 7 && header@.take(7) == "Bearer "@ ==> (r matches Some(t) && t@
            == header@.skip(7)),
        !(header@.len() >= 7 && header@.take(7) == "Bearer "@) ==> r is None,
{
    let prefix = "Bearer ";
    proof {
        reveal_strlit("Bearer ");
    }
    let n = header.unicode_len();
    if n < 7 {
        return None;
    }
    let mut i: usize = 0;
    while i < 7
        invariant
            n == header@.len(),
            n >= 7,
            i <= 7,
            prefix@ == "Bearer "@,
            prefix@.len() == 7,
            forall|j: int| 0 <= j < i ==> header@[j] == prefix@[j],
        decreases 7 - i,
    {
        if header.get_char(i) != prefix.get_char(i) {
            assert(header@.take(7)[i as int] != "Bearer "@[i as int]);
            return None;
        }
        i = i + 1;
    }
    assert(header@.take(7) =~= "Bearer "@);
    Some(header.substring_char(7, n))
}

} // verus!
