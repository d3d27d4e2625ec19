//! Error taxonomy of the issuance core.
//!
//! Every validation failure is reported through one of these kinds, each with
//! a distinct trigger, so a wallet can tell "already redeemed" from "not yet
//! paid" from "malformed request". All of them are raised before any state
//! mutation: a request that fails leaves the quote and the signature table
//! untouched.

use vstd::prelude::*;

verus! {

/// One error kind per distinct failure of a mint request.
#[derive(Clone, Copy, Debug, PartialEq, Eq, Structural)]
pub enum MintError {
    /// The quote has not been paid yet.
    UnpaidQuote,
    /// The quote has already been redeemed for signatures.
    IssuedQuote,
    /// The quote is in the terminal `Failed` state; signing is never allowed.
    /// Kept distinct from `UnpaidQuote` so callers can tell a dead quote from
    /// one that may still be paid.
    FailedQuote,
    /// No quote with the requested id exists.
    QuoteNotFound,
    /// The outputs sum to the first amount while the quote expects the second.
    UnbalancedAmounts(u64, u64),
    /// The request carried no outputs at all.
    EmptyOutputSet,
    /// The outputs resolve to more than one distinct unit.
    MultipleUnits,
    /// An output references a keyset id the mint does not know.
    UnknownKeyset,
    /// An output references a keyset that exists but is no longer signing.
    InactiveKeyset,
    /// An output's amount is not among its keyset's denominations.
    UnsupportedAmount,
    /// Accumulating the output amounts exceeded the representable range.
    AmountOverflow,
}

impl MintError {
    /// Stable human-readable tag for this error kind.
    pub fn as_text(&self) -> (r: &'static str)
        ensures
            r@ == self.spec_text(),
    {
        match self {
            MintError::UnpaidQuote => "unpaid quote",
            MintError::IssuedQuote => "issued quote",
            MintError::FailedQuote => "failed quote",
            MintError::QuoteNotFound => "quote not found",
            MintError::UnbalancedAmounts(_, _) => "unbalanced amounts",
            MintError::EmptyOutputSet => "empty output set",
            MintError::MultipleUnits => "multiple units",
            MintError::UnknownKeyset => "unknown keyset",
            MintError::InactiveKeyset => "inactive keyset",
            MintError::UnsupportedAmount => "unsupported amount",
            MintError::AmountOverflow => "amount overflow",
        }
    }

    /// The tag `as_text` returns for each kind.
    pub open spec fn spec_text(&self) -> Seq<char> {
        match self {
            MintError::UnpaidQuote => "unpaid quote"@,
            MintError::IssuedQuote => "issued quote"@,
            MintError::FailedQuote => "failed quote"@,
            MintError::QuoteNotFound => "quote not found"@,
            MintError::UnbalancedAmounts(_, _) => "unbalanced amounts"@,
            MintError::EmptyOutputSet => "empty output set"@,
            MintError::MultipleUnits => "multiple units"@,
            MintError::UnknownKeyset => "unknown keyset"@,
            MintError::InactiveKeyset => "inactive keyset"@,
            MintError::UnsupportedAmount => "unsupported amount"@,
            MintError::AmountOverflow => "amount overflow"@,
        }
    }
}

} // verus!
