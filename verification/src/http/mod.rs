//! What the HTTP interface answers.

pub mod checkout;
pub mod create_order;
pub mod public;

use vstd::prelude::*;

verus! {

/// Why a request was refused.
#[derive(Debug)]
pub enum ApiError {
    NotFound,
    Forbidden(String),
    BadRequest(String),
    Internal(String),
}

/// What a request says of the site that it comes from.
#[derive(Debug)]
pub enum Origin {
    /// It has no origin at all, as requests have that no browser sends.
    Absent,
    /// It names this site.
    Text(String),
    /// It has an origin that is no text, and so names no site.
    NotText,
}

/// A Monero network.
#[derive(Debug, Clone, Copy, PartialEq, Eq, Structural)]
pub enum Network {
    Mainnet,
    Stagenet,
    Testnet,
}

} // verus!
