//! Melting: the advertised settings for the redemption operation. Only the
//! settings live here; the melt flow itself is outside the issuance core.

use vstd::prelude::*;

verus! {

/// Advertised bounds of one (method, unit) melting pair.
#[derive(Clone, Debug, PartialEq)]
pub struct MeltMethodSettings<M, U> {
    /// Payment method the pair applies to.
    pub method: M,
    /// Unit the pair applies to.
    pub unit: U,
    /// Smallest amount the mint will melt, if bounded.
    pub min_amount: Option<u64>,
    /// Largest amount the mint will melt, if bounded.
    pub max_amount: Option<u64>,
}

/// Advertised settings of the melt operation.
#[derive(Clone, Debug, PartialEq)]
pub struct Settings<M, U> {
    /// The supported (method, unit) pairs.
    pub methods: Vec<MeltMethodSettings<M, U>>,
    /// Whether melting is disabled altogether.
    pub disabled: bool,
}

} // verus!
