//! Addresses and answers of the price lookup.
use vstd::prelude::*;
use crate::text::{lowercase, to_lowercase};
use crate::web::error::AppError;
use crate::portfolio::{first_named, reply_value, reply_view};

verus! {

/// The list of all coins the price service knows.
pub fn coins_list_url() -> (r: &'static str)
    ensures
        r@ == "https://api.coingecko.com/api/v3/coins/list"@,
{
    "https://api.coingecko.com/api/v3/coins/list"
}

/// The address of the US-dollar price of a coin, named by its lowercased
/// symbol.
pub fn price_url(symbol: &str) -> (r: String)
    ensures
        r@ == "https://api.coingecko.com/api/v3/simple/price?ids="@ + lowercase(symbol@)
            + "&vs_currencies=usd"@,
{
    let id = to_lowercase(symbol);
    let mut s = String::from_str("https://api.coingecko.com/api/v3/simple/price?ids=");
    s.append(id.as_str());
    s.append("&vs_currencies=usd");
    s
}

/// The answer for a coin the price service does not know.
pub fn coin_not_found(symbol: &str) -> (r: AppError)
    ensures
        r matches AppError::NotFound(m) && m@ == "Coin '"@ + symbol@ + "' not found"@,
{
    let mut m = String::from_str("Coin '");
    m.append(symbol);
    m.append("' not found");
    AppError::NotFound(m)
}

/// The US-dollar price of `symbol` read from the price service's reply
/// (the row of its lowercased symbol, the `usd` field), or the not-found
/// answer when the reply has none.
pub fn price_in_reply<V: Copy>(reply: &[(String, Vec<(String, V)>)], symbol: &str) -> (r: Result<V, AppError>)
    ensures
        (match first_named(reply_view(reply@), lowercase(symbol@)) {
            Some(row) => first_named(row, "usd"@),
            None => None,
        }) matches Some(v) ==> r == Ok::<V, AppError>(v),
        (match first_named(reply_view(reply@), lowercase(symbol@)) {
            Some(row) => first_named(row, "usd"@),
            None => None,
        }) is None ==> (r matches Err(AppError::NotFound(m)) && m@ == "Coin '"@ + symbol@ + "' not found"@),
{
    let id = to_lowercase(symbol);
    match reply_value(reply, id.as_str(), "usd") {
        Some(v) => Ok(v),
        None => Err(coin_not_found(symbol)),
    }
}

} // verus!
