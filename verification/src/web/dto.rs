//! Records exchanged with clients and stored by the service.
use vstd::prelude::*;

verus! {

/// A coin as the price service lists it.
#[derive(Debug, Clone, PartialEq, Eq)]
pub struct CoinInfo {
    pub id: String,
    pub symbol: String,
    pub name: String,
}

/// The body of an error answer.
#[derive(Debug, Clone, PartialEq, Eq)]
pub struct ErrorResponse {
    pub error: String,
}

/// The body of a request that creates a portfolio.
#[derive(Debug, Clone, PartialEq, Eq)]
pub struct CreatePortfolioRequest {
    pub name: String,
}

/// How a portfolio asset relates to other stored records.
#[derive(Debug, Clone, Copy, PartialEq, Eq)]
pub enum Relation {
    /// An asset belongs to one portfolio.
    Portfolio,
}

/// A stored user.
#[derive(Debug, Clone, PartialEq, Eq)]
pub struct UserRecord {
    pub id: String,
    pub username: String,
    pub password_hash: String,
}

} // verus!
