//! The decisions of a small portfolio web service: error answers, request
//! and response records, password and token checks, and the rules of the
//! portfolio endpoints. Storage, HTTP and clocks stay with the caller,
//! which hands the results of its lookups to these functions.
use vstd::prelude::*;

pub mod auth_service;
pub mod dto;
pub mod error;
pub mod middleware;
pub mod portfolio_service;
pub mod prices;
