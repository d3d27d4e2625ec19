//! Blinded messages and blind signatures: the request-scoped values a wallet
//! submits for signing and the signed values the mint returns.

use vstd::prelude::*;

verus! {

/// A wallet-blinded value submitted for signing, together with the
/// denomination it claims and the keyset the mint must sign it with.
/// The blinded secret is opaque to the mint; it never learns the token.
#[derive(Clone, Copy, Debug, PartialEq, Eq, Structural)]
pub struct BlindedMessage {
    /// Claimed denomination of the future token.
    pub amount: u64,
    /// Keyset whose per-denomination key must be used.
    pub keyset_id: u64,
    /// Opaque blinded public value supplied by the wallet.
    pub blinded_secret: u64,
}

/// The mint's signature over one blinded message. The wallet unblinds it
/// client-side to obtain a spendable token.
#[derive(Clone, Copy, Debug, PartialEq, Eq, Structural)]
pub struct BlindSignature {
    /// Denomination the signature is valid for.
    pub amount: u64,
    /// Keyset whose key produced the signature.
    pub keyset_id: u64,
    /// Opaque signed blinded value returned to the wallet.
    pub blinded_signature: u64,
}

} // verus!
