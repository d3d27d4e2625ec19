//! Core of a Chaumian-ecash mint: quote state machine, keyset cache,
//! blind-signing key manager, and the issuance pipeline that turns a paid
//! quote into a batch of blind signatures exactly once.

use vstd::prelude::*;

pub mod errors;
pub mod keys_manager;
pub mod keyset_cache;
pub mod logic;
pub mod memory_db;
pub mod nut00;
pub mod nut01;
pub mod nut04;
pub mod nut05;
pub mod nut06;

verus! {

/// Lifecycle state of a mint quote.
///
/// A quote is created `Unpaid`, becomes `Paid` once the payment is confirmed,
/// and is moved to `Issued` by the issuance pipeline when signatures have been
/// handed out. `Failed` is terminal and never leads to signing.
#[derive(Clone, Copy, Debug, PartialEq, Eq, Structural)]
pub enum QuoteState {
    Unpaid,
    Paid,
    Issued,
    Failed,
}

} // verus!
