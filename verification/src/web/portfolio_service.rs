//! The rules of the portfolio endpoints: one portfolio per user, one
//! asset per symbol.
use vstd::prelude::*;
use crate::web::error::AppError;

verus! {

/// A user may create a portfolio only while having none.
pub fn check_no_portfolio(exists: bool) -> (r: Result<(), AppError>)
    ensures
        !exists ==> r is Ok,
        exists ==> (r matches Err(AppError::Conflict(m)) && m@ == "portfolio already exists"@),
{
    if exists {
        return Err(AppError::Conflict(String::from_str("portfolio already exists")));
    }
    Ok(())
}

/// The user's portfolio, which must exist.
pub fn require_portfolio<T>(found: Option<T>) -> (r: Result<T, AppError>)
    ensures
        found matches Some(p) ==> r == Ok::<T, AppError>(p),
        found is None ==> (r matches Err(AppError::NotFound(m)) && m@ == "portfolio not found"@),
{
    match found {
        Some(p) => Ok(p),
        None => Err(AppError::NotFound(String::from_str("portfolio not found"))),
    }
}

/// An asset may be added only when the portfolio has none with its symbol.
pub fn check_asset_absent(symbol: &str, exists: bool) -> (r: Result<(), AppError>)
    ensures
        !exists ==> r is Ok,
        exists ==> (r matches Err(AppError::Conflict(m)) && m@ == "asset '"@ + symbol@
            + "' already exists in portfolio"@),
{
    if exists {
        let mut m = String::from_str("asset '");
        m.append(symbol);
        m.append("' already exists in portfolio");
        return Err(AppError::Conflict(m));
    }
    Ok(())
}

/// Deleting an asset succeeds only when a stored asset was removed.
pub fn check_asset_deleted(symbol: &str, deleted: bool) -> (r: Result<(), AppError>)
    ensures
        deleted ==> r is Ok,
        !deleted ==> (r matches Err(AppError::NotFound(m)) && m@ == "asset '"@ + symbol@
            + "' not found"@),
{
    if !deleted {
        let mut m = String::from_str("asset '");
        m.append(symbol);
        m.append("' not found");
        return Err(AppError::NotFound(m));
    }
    Ok(())
}

} // verus!
