//! Minting: the mint request/response pair and the advertised settings for
//! the mint operation, parameterized over pluggable payment-method and unit
//! identifiers so the core is reusable across payment rails.

use vstd::prelude::*;

use crate::nut00::{BlindSignature, BlindedMessage};

verus! {

/// Advertised bounds and flags of one (method, unit) minting pair.
#[derive(Clone, Debug, PartialEq)]
pub struct MintMethodSettings<M, U> {
    /// Payment method the pair applies to.
    pub method: M,
    /// Unit the pair applies to.
    pub unit: U,
    /// Smallest amount the mint will quote, if bounded.
    pub min_amount: Option<u64>,
    /// Largest amount the mint will quote, if bounded.
    pub max_amount: Option<u64>,
    /// Whether a quote request may carry a description.
    pub description: bool,
}

/// Advertised settings of the mint operation.
#[derive(Clone, Debug, PartialEq)]
pub struct Settings<M, U> {
    /// The supported (method, unit) pairs.
    pub methods: Vec<MintMethodSettings<M, U>>,
    /// Whether minting is disabled altogether.
    pub disabled: bool,
}

/// A wallet's request to redeem a quote for blind signatures.
#[derive(Clone, Debug, PartialEq)]
pub struct MintRequest<Q> {
    /// Id of the quote being redeemed.
    pub quote: Q,
    /// Blinded outputs to sign; their amounts must sum to the quoted amount.
    pub outputs: Vec<BlindedMessage>,
}

/// The signatures returned for an accepted mint request, positionally
/// aligned with the request's outputs.
#[derive(Clone, Debug, PartialEq)]
pub struct MintResponse {
    /// One signature per requested output, in request order.
    pub signatures: Vec<BlindSignature>,
}

} // verus!
