//! Registration, login and token refresh: the checks between the lookups
//! that the caller performs.
use vstd::prelude::*;
use vstd::string::StringSliceAdditionalSpecFns;
use crate::web::dto::UserRecord;
use crate::web::error::AppError;
use argon2::password_hash::{PasswordHasher, PasswordVerifier};

verus! {

/// Where hashing a password can fail.
#[derive(Debug, Clone, Copy, PartialEq, Eq)]
pub enum HashFailure {
    /// The salt bytes could not be encoded.
    Salt,
    /// Argon2 refused to hash.
    Hash,
}

/// The PHC string that Argon2 (default parameters) produces for a password
/// and salt bytes, or the step at which it fails.
pub uninterp spec fn argon2_phc(password: Seq<u8>, salt: Seq<u8>) -> Result<Seq<char>, HashFailure>;

/// Whether a PHC hash string parses and Argon2 accepts the password for it.
pub uninterp spec fn argon2_accepts(password: Seq<u8>, phc: Seq<char>) -> bool;

/// `SaltString::encode_b64` then `Argon2::default().hash_password`, shown
/// as a PHC string; named [`argon2_phc`]. As the crate documents, the
/// verifier accepts the password for the hash it produced. A salt under
/// three bytes encodes to fewer than the four characters that `Salt`
/// demands, and `hash_password` then panics on the crate's invariant check.
/// With the default parameters hashing succeeds whenever the salt has 8 to
/// 48 bytes (Argon2's minimum salt length; 48 bytes encode to the 64
/// characters a `Salt` holds at most) and the password at most
/// `0xFFFF_FFFF` bytes.
#[verifier::external_body]
fn argon2_hash(password: &[u8], salt: &[u8]) -> (r: Result<String, HashFailure>)
    requires
        salt@.len() >= 3,
    ensures
        (match r {
            Ok(s) => Ok(s@),
            Err(f) => Err(f),
        }) == argon2_phc(password@, salt@),
        r matches Ok(s) ==> argon2_accepts(password@, s@),
        8 <= salt@.len() <= 48 && password@.len() <= 0xFFFF_FFFF ==> r is Ok,
{
    let salt = match argon2::password_hash::SaltString::encode_b64(salt) {
        Ok(s) => s,
        Err(_) => return Err(HashFailure::Salt),
    };
    match argon2::Argon2::default().hash_password(password, &salt) {
        Ok(h) => Ok(h.to_string()),
        Err(_) => Err(HashFailure::Hash),
    }
}

/// `PasswordHash::new` then `Argon2::default().verify_password`; false
/// when the hash does not parse. Named [`argon2_accepts`].
#[verifier::external_body]
fn argon2_verify(password: &[u8], phc: &str) -> (r: bool)
    ensures
        r == argon2_accepts(password@, phc@),
{
    match argon2::password_hash::PasswordHash::new(phc) {
        Ok(h) => argon2::Argon2::default().verify_password(password, &h).is_ok(),
        Err(_) => false,
    }
}

/// The stored form of a password: its Argon2 PHC string for the given salt
/// (16 random bytes chosen by the caller; at least three, as shorter salts
/// make the hashing crate panic). It succeeds for salts of 8 to 48 bytes.
pub fn hash_password(password: &str, salt: &[u8]) -> (r: Result<String, AppError>)
    requires
        salt@.len() >= 3,
    ensures
        argon2_phc(password.spec_bytes(), salt@) matches Ok(phc) ==> (r matches Ok(s) && s@ == phc),
        argon2_phc(password.spec_bytes(), salt@) == Err::<Seq<char>, HashFailure>(HashFailure::Salt)
            ==> (r matches Err(AppError::Internal(m)) && m@ == "salt error"@),
        argon2_phc(password.spec_bytes(), salt@) == Err::<Seq<char>, HashFailure>(HashFailure::Hash)
            ==> (r matches Err(AppError::Internal(m)) && m@ == "password hash error"@),
        r matches Ok(s) ==> argon2_accepts(password.spec_bytes(), s@),
        8 <= salt@.len() <= 48 && password.spec_bytes().len() <= 0xFFFF_FFFF ==> r is Ok,
{
    match argon2_hash(password.as_bytes(), salt) {
        Ok(s) => Ok(s),
        Err(HashFailure::Salt) => Err(AppError::Internal(String::from_str("salt error"))),
        Err(HashFailure::Hash) => Err(AppError::Internal(String::from_str("password hash error"))),
    }
}

/// Whether `password` matches the stored hash (false for a hash that does
/// not parse).
pub fn verify_password(password: &str, hash: &str) -> (r: bool)
    ensures
        r == argon2_accepts(password.spec_bytes(), hash@),
{
    argon2_verify(password.as_bytes(), hash)
}

/// Registration goes on only when no user has the name yet.
pub fn check_username_free(username: &str, taken: bool) -> (r: Result<(), AppError>)
    ensures
        !taken ==> r is Ok,
        taken ==> (r matches Err(AppError::Conflict(m)) && m@ == "username '"@ + username@
            + "' already taken"@),
{
    if taken {
        let mut m = String::from_str("username '");
        m.append(username);
        m.append("' already taken");
        return Err(AppError::Conflict(m));
    }
    Ok(())
}

/// The login check: the user must exist and the password must match the
/// stored hash. On success the user's id, for whom tokens are issued.
pub fn authenticate(user: Option<UserRecord>, password: &str) -> (r: Result<String, AppError>)
    ensures
        (user matches Some(u) && argon2_accepts(password.spec_bytes(), u.password_hash@)) ==> (
        r matches Ok(id) && id == user->0.id),
        !(user matches Some(u) && argon2_accepts(password.spec_bytes(), u.password_hash@)) ==> (
        r matches Err(AppError::Unauthorized(m)) && m@ == "invalid credentials"@),
{
    match user {
        None => Err(AppError::Unauthorized(String::from_str("invalid credentials"))),
        Some(u) => {
            if !verify_password(password, u.password_hash.as_str()) {
                return Err(AppError::Unauthorized(String::from_str("invalid credentials")));
            }
            Ok(u.id)
        },
    }
}

/// A moment as seconds since the Unix epoch and nanoseconds within the
/// second, as RFC 3339 text denotes it.
pub uninterp spec fn rfc3339_instant(text: Seq<char>) -> Option<(i64, u32)>;

/// `chrono::DateTime::parse_from_rfc3339`, as the instant's timestamp and
/// sub-second nanoseconds; named [`rfc3339_instant`].
#[verifier::external_body]
fn parse_rfc3339(text: &str) -> (r: Option<(i64, u32)>)
    ensures
        r == rfc3339_instant(text@),
{
    match chrono::DateTime::parse_from_rfc3339(text) {
        Ok(t) => Some((t.timestamp(), t.timestamp_subsec_nanos())),
        Err(_) => None,
    }
}

/// Whether instant `a` comes before instant `b`.
pub open spec fn before(a: (i64, u32), b: (i64, u32)) -> bool {
    a.0 < b.0 || (a.0 == b.0 && a.1 < b.1)
}

/// `before` is the order of time: a later second is never before an earlier
/// one, whatever the nanoseconds; within one second the nanoseconds decide;
/// and on instants whose nanoseconds are below one second it is the order
/// of their distance from the epoch in nanoseconds.
pub proof fn before_is_chronological(a: (i64, u32), b: (i64, u32))
    ensures
        a.0 < b.0 ==> before(a, b),
        a.0 > b.0 ==> !before(a, b),
        a.0 == b.0 ==> (before(a, b) <==> a.1 < b.1),
        !(before(a, b) && before(b, a)),
        a.1 < 1_000_000_000 && b.1 < 1_000_000_000 ==> (before(a, b) <==> a.0 * 1_000_000_000
            + a.1 < b.0 * 1_000_000_000 + b.1),
{
    if a.1 < 1_000_000_000 && b.1 < 1_000_000_000 {
        if a.0 < b.0 {
            assert(a.0 * 1_000_000_000 + 1_000_000_000 <= b.0 * 1_000_000_000) by (nonlinear_arith)
                requires
                    a.0 < b.0,
            ;
        } else if a.0 > b.0 {
            assert(b.0 * 1_000_000_000 + 1_000_000_000 <= a.0 * 1_000_000_000) by (nonlinear_arith)
                requires
                    a.0 > b.0,
            ;
        }
    }
}

/// `before` is a strict order: never reflexive, and transitive.
pub proof fn before_is_strict_order(a: (i64, u32), b: (i64, u32), c: (i64, u32))
    ensures
        !before(a, a),
        before(a, b) && before(b, c) ==> before(a, c),
{
}

/// What a refresh request leads to.
#[derive(Debug, Clone, PartialEq, Eq)]
pub enum RefreshStep {
    /// Issue a new access token for this user.
    IssueAccessToken(String),
    /// Delete the expired refresh token, then refuse.
    DeleteExpired,
}

/// The refusal that follows [`RefreshStep::DeleteExpired`].
pub fn refresh_expired_error() -> (r: AppError)
    ensures
        r matches AppError::Unauthorized(m) && m@ == "refresh token expired"@,
{
    AppError::Unauthorized(String::from_str("refresh token expired"))
}

/// The refresh decision, given the stored refresh token (its user id and
/// RFC 3339 expiry) if one was found, and the current instant.
pub fn refresh_step(stored: Option<(String, String)>, now: (i64, u32)) -> (r: Result<
    RefreshStep,
    AppError,
>)
    ensures
        stored is None ==> (r matches Err(AppError::Unauthorized(m)) && m@
            == "invalid refresh token"@),
        stored matches Some(t) ==> match rfc3339_instant(t.1@) {
            None => r matches Err(AppError::Internal(m)) && m@ == "bad expires_at in db"@,
            Some(expires) => if before(expires, now) {
                r == Ok::<RefreshStep, AppError>(RefreshStep::DeleteExpired)
            } else {
                r == Ok::<RefreshStep, AppError>(RefreshStep::IssueAccessToken(t.0))
            },
        },
        stored matches Some(t) ==> (rfc3339_instant(t.1@) matches Some(expires) ==> (expires.0
            > now.0 ==> r == Ok::<RefreshStep, AppError>(RefreshStep::IssueAccessToken(t.0)))),
        stored matches Some(t) ==> (rfc3339_instant(t.1@) matches Some(expires) ==> (expires.0
            < now.0 ==> r == Ok::<RefreshStep, AppError>(RefreshStep::DeleteExpired))),
{
    match stored {
        None => Err(AppError::Unauthorized(String::from_str("invalid refresh token"))),
        Some((user_id, expires_at)) => {
            match parse_rfc3339(expires_at.as_str()) {
                None => Err(AppError::Internal(String::from_str("bad expires_at in db"))),
                Some(expires) => {
                    if expires.0 < now.0 || (expires.0 == now.0 && expires.1 < now.1) {
                        Ok(RefreshStep::DeleteExpired)
                    } else {
                        Ok(RefreshStep::IssueAccessToken(user_id))
                    }
                },
            }
        },
    }
}

} // verus!
