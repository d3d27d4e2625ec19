//! Public keys as advertised to wallets: an opaque byte string.

use vstd::prelude::*;

verus! {

/// A mint public key, carried as opaque bytes.
#[derive(Clone, Debug, PartialEq)]
pub struct PublicKey {
    /// Serialized form of the key.
    pub bytes: Vec<u8>,
}

impl PublicKey {
    /// Wrap a serialized key.
    pub fn new(bytes: Vec<u8>) -> (r: PublicKey)
        ensures
            r.bytes == bytes,
    {
        PublicKey { bytes }
    }
}

} // verus!
