//! Holder of the private signing scalars and the blind-signing primitive.
//!
//! The manager owns one private scalar per `(keyset_id, amount)` pair and
//! performs the signing step of the blind Diffie–Hellman-style scheme: the
//! wallet's blinded secret is combined with the scalar, and only the combined
//! value ever leaves this component. Key material is immutable after
//! construction, so concurrent signing needs no locking, and signing is
//! deterministic: identical inputs and key material give identical output.

use vstd::prelude::*;

use crate::errors::MintError;
use crate::nut00::BlindSignature;

verus! {

/// One private scalar, addressed by keyset and denomination.
#[derive(Clone, Copy, Debug, PartialEq, Eq, Structural)]
pub struct SigningKey {
    /// Keyset the scalar belongs to.
    pub keyset_id: u64,
    /// Denomination the scalar signs for.
    pub amount: u64,
    /// The private scalar itself.
    pub scalar: u64,
}

/// The deterministic combination of a private scalar with a wallet's blinded
/// secret: the signature value the wallet later unblinds.
pub open spec fn blind_sig_value(scalar: u64, blinded_secret: u64) -> u64 {
    scalar ^ blinded_secret
}

/// Position of the first key for the pair at or after index `i`.
pub open spec fn key_index_at(keys: Seq<SigningKey>, keyset_id: u64, amount: u64, i: int) -> Option<
    int,
>
    decreases keys.len() - i,
{
    if i < 0 || i >= keys.len() {
        None
    } else if keys[i].keyset_id == keyset_id && keys[i].amount == amount {
        Some(i)
    } else {
        key_index_at(keys, keyset_id, amount, i + 1)
    }
}

/// The scalar a key list holds for the pair, if any.
pub open spec fn scalar_in(keys: Seq<SigningKey>, keyset_id: u64, amount: u64) -> Option<u64> {
    match key_index_at(keys, keyset_id, amount, 0) {
        Some(i) => Some(keys[i].scalar),
        None => None,
    }
}

/// Whether a key list holds any scalar at all for this keyset.
pub open spec fn keyset_known_in(keys: Seq<SigningKey>, keyset_id: u64) -> bool {
    exists|j: int| 0 <= j < keys.len() && keys[j].keyset_id == keyset_id
}

/// Holds the mint's private scalars and signs blinded messages with them.
/// The scalars are private to this type: callers only ever receive the
/// signature output.
pub struct KeysManager {
    keys: Vec<SigningKey>,
}

impl KeysManager {
    /// The scalar held for a `(keyset_id, amount)` pair, if any.
    /// Ghost-level accessor only; no executable path hands a scalar out.
    pub closed spec fn scalar_for(self, keyset_id: u64, amount: u64) -> Option<u64> {
        scalar_in(self.keys@, keyset_id, amount)
    }

    /// Whether any scalar at all exists for this keyset.
    pub closed spec fn knows_keyset(self, keyset_id: u64) -> bool {
        keyset_known_in(self.keys@, keyset_id)
    }

    /// What `sign` returns. A missing pair is reported as `UnknownKeyset`
    /// when the whole keyset is absent and `UnsupportedAmount` when only the
    /// denomination is; on success the signature carries the requested amount
    /// and keyset and the combined signature value.
    pub open spec fn sign_spec(self, keyset_id: u64, amount: u64, blinded_secret: u64) -> Result<
        BlindSignature,
        MintError,
    > {
        match self.scalar_for(keyset_id, amount) {
            Some(s) => Ok(
                BlindSignature {
                    amount,
                    keyset_id,
                    blinded_signature: blind_sig_value(s, blinded_secret),
                },
            ),
            None => if self.knows_keyset(keyset_id) {
                Err(MintError::UnsupportedAmount)
            } else {
                Err(MintError::UnknownKeyset)
            },
        }
    }

    /// Take ownership of the private key material.
    pub fn new(keys: Vec<SigningKey>) -> (r: KeysManager)
        ensures
            forall|id: u64, a: u64| #[trigger]
                r.scalar_for(id, a) == scalar_in(keys@, id, a),
            forall|id: u64| #[trigger] r.knows_keyset(id) == keyset_known_in(keys@, id),
    {
        KeysManager { keys }
    }

    /// Blind-sign one output: combine the private scalar for the pair with
    /// the wallet's blinded secret. Pure and deterministic; fails exactly
    /// when no scalar exists for the pair.
    pub fn sign(&self, keyset_id: u64, amount: u64, blinded_secret: u64) -> (r: Result<
        BlindSignature,
        MintError,
    >)
        ensures
            r == self.sign_spec(keyset_id, amount, blinded_secret),
    {
        let n = self.keys.len();
        let mut known = false;
        let mut i: usize = 0;
        while i < n
            invariant
                0 <= i <= n,
                n == self.keys@.len(),
                key_index_at(self.keys@, keyset_id, amount, 0) == key_index_at(
                    self.keys@,
                    keyset_id,
                    amount,
                    i as int,
                ),
                known == exists|j: int| 0 <= j < i && self.keys@[j].keyset_id == keyset_id,
            decreases n - i,
        {
            let k = self.keys[i];
            if k.keyset_id == keyset_id {
                if k.amount == amount {
                    proof {
                        assert(key_index_at(self.keys@, keyset_id, amount, i as int) == Some(
                            i as int,
                        ));
                        assert(self.scalar_for(keyset_id, amount) == Some(k.scalar));
                    }
                    return Ok(
                        BlindSignature {
                            amount,
                            keyset_id,
                            blinded_signature: k.scalar ^ blinded_secret,
                        },
                    );
                }
                known = true;
                proof {
                    assert(0 <= i < n && self.keys@[i as int].keyset_id == keyset_id);
                }
            }
            i = i + 1;
        }
        if known {
            Err(MintError::UnsupportedAmount)
        } else {
            Err(MintError::UnknownKeyset)
        }
    }
}

} // verus!
