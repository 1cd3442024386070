//! Small verified building blocks: arithmetic helpers, text formatting,
//! collection algorithms, and the decision logic of a portfolio service.
use vstd::prelude::*;

pub mod auth;
pub mod closures;
pub mod collections;
pub mod config;
pub mod crypto;
pub mod data_types;
pub mod engine;
pub mod generics;
pub mod network;
pub mod oop;
pub mod ownership;
pub mod patterns;
pub mod portfolio;
pub mod services;
pub mod smart_pointers;
pub mod strategy;
pub mod testing;
pub mod text;
pub mod traits;
pub mod web;
