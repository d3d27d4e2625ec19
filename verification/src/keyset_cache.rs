//! Snapshot cache of active keysets' public parameters.
//!
//! The cache resolves a `(keyset_id, amount)` pair to the unit and
//! per-denomination public key the mint would sign with, and rejects pairs
//! the mint cannot or will not sign. A cache value is an immutable snapshot:
//! concurrent readers share it freely, and the rare refresh (population on a
//! miss, or a rotation flipping the `active` flag) builds an updated snapshot
//! with `insert` and swaps it in whole, so no reader ever observes a
//! half-updated entry.

use vstd::prelude::*;

use crate::errors::MintError;

verus! {

/// One supported denomination of a keyset and its public key.
#[derive(Clone, Copy, Debug, PartialEq, Eq, Structural)]
pub struct Denomination {
    /// The amount this entry signs for.
    pub amount: u64,
    /// Public key the wallet verifies signatures of this amount against.
    pub pubkey: u64,
}

/// Public parameters of one keyset: its unit, whether it still signs, and
/// the denominations it supports. Immutable once published except for the
/// `active` flag; rotation publishes a new keyset rather than editing one.
#[derive(Clone, Debug, PartialEq)]
pub struct Keyset {
    /// Stable identifier.
    pub id: u64,
    /// Currency/asset unit every denomination of this keyset is expressed in.
    pub unit: u32,
    /// Inactive keysets may still verify old signatures but never sign anew.
    pub active: bool,
    /// Supported amounts, each with its public key.
    pub denominations: Vec<Denomination>,
}

/// What a successful resolution hands back: the keyset's unit and the public
/// key for the requested amount.
#[derive(Clone, Copy, Debug, PartialEq, Eq, Structural)]
pub struct KeyRef {
    /// Unit of the keyset the output resolved to.
    pub unit: u32,
    /// Public key for the requested denomination.
    pub pubkey: u64,
}

/// Position of the first keyset with the given id at or after index `i`.
pub open spec fn keyset_index_at(keysets: Seq<Keyset>, id: u64, i: int) -> Option<int>
    decreases keysets.len() - i,
{
    if i < 0 || i >= keysets.len() {
        None
    } else if keysets[i].id == id {
        Some(i)
    } else {
        keyset_index_at(keysets, id, i + 1)
    }
}

/// The first keyset with the given id, if any.
pub open spec fn find_keyset(keysets: Seq<Keyset>, id: u64) -> Option<Keyset> {
    match keyset_index_at(keysets, id, 0) {
        Some(i) => Some(keysets[i]),
        None => None,
    }
}

/// A found index lies in range, carries the id, and no earlier slot does.
pub proof fn lemma_keyset_index_at(keysets: Seq<Keyset>, id: u64, i: int)
    requires
        0 <= i <= keysets.len(),
    ensures
        match keyset_index_at(keysets, id, i) {
            Some(j) => i <= j < keysets.len() && keysets[j].id == id && (forall|k: int|
                i <= k < j ==> keysets[k].id != id),
            None => forall|k: int| i <= k < keysets.len() ==> keysets[k].id != id,
        },
    decreases keysets.len() - i,
{
    if i < keysets.len() && keysets[i].id != id {
        lemma_keyset_index_at(keysets, id, i + 1);
    }
}

/// Two catalogs with the same ids slot for slot find any id at the same place.
pub proof fn lemma_keyset_index_same_ids(ks1: Seq<Keyset>, ks2: Seq<Keyset>, id: u64, i: int)
    requires
        ks1.len() == ks2.len(),
        forall|k: int| 0 <= k < ks1.len() ==> ks1[k].id == ks2[k].id,
    ensures
        keyset_index_at(ks1, id, i) == keyset_index_at(ks2, id, i),
    decreases ks1.len() - i,
{
    if 0 <= i < ks1.len() && ks1[i].id != id {
        lemma_keyset_index_same_ids(ks1, ks2, id, i + 1);
    }
}

/// Appending a keyset leaves every earlier find alone and is found itself
/// exactly when nothing before it matched.
pub proof fn lemma_keyset_index_push(ks: Seq<Keyset>, v: Keyset, id: u64, i: int)
    requires
        0 <= i <= ks.len(),
    ensures
        keyset_index_at(ks.push(v), id, i) == match keyset_index_at(ks, id, i) {
            Some(j) => Some(j),
            None => if v.id == id {
                Some(ks.len() as int)
            } else {
                None
            },
        },
    decreases ks.len() - i,
{
    let ks2 = ks.push(v);
    if i >= ks.len() {
        assert(keyset_index_at(ks, id, i) is None);
        assert(ks2[i] == v);
        if v.id == id {
            assert(keyset_index_at(ks2, id, i) == Some(i));
        } else {
            assert(keyset_index_at(ks2, id, i) == keyset_index_at(ks2, id, i + 1));
            assert(keyset_index_at(ks2, id, i + 1) is None);
        }
    } else {
        assert(ks2[i] == ks[i]);
        if ks2[i].id != id {
            lemma_keyset_index_push(ks, v, id, i + 1);
        }
    }
}

/// Read-only snapshot of the keyset catalog the mint currently signs from.
#[derive(Clone, Debug, PartialEq)]
pub struct KeysetCache {
    /// Cached keysets; at most one entry per keyset id.
    pub keysets: Vec<Keyset>,
}

impl KeysetCache {
    /// At most one cached entry per keyset id.
    pub open spec fn wf(self) -> bool {
        forall|i: int, j: int|
            0 <= i < j < self.keysets@.len() ==> self.keysets@[i].id != self.keysets@[j].id
    }

    /// What `resolve` returns: the keyset must be known, active, and support
    /// the amount; each failure has its own error kind.
    pub open spec fn resolve_spec(self, keyset_id: u64, amount: u64) -> Result<
        KeyRef,
        MintError,
    > {
        match find_keyset(self.keysets@, keyset_id) {
            None => Err(MintError::UnknownKeyset),
            Some(ks) => if !ks.active {
                Err(MintError::InactiveKeyset)
            } else {
                match keyset_denom(ks, amount) {
                    None => Err(MintError::UnsupportedAmount),
                    Some(d) => Ok(KeyRef { unit: ks.unit, pubkey: d.pubkey }),
                }
            },
        }
    }

    /// What `unit_of` returns.
    pub open spec fn unit_of_spec(self, keyset_id: u64) -> Result<u32, MintError> {
        match find_keyset(self.keysets@, keyset_id) {
            None => Err(MintError::UnknownKeyset),
            Some(ks) => Ok(ks.unit),
        }
    }

    /// An empty cache; population happens through `insert`.
    pub fn new() -> (r: KeysetCache)
        ensures
            r.keysets@ =~= Seq::<Keyset>::empty(),
            r.wf(),
    {
        KeysetCache { keysets: Vec::new() }
    }

    /// Index of the cached keyset with this id, if any.
    fn index_of(&self, keyset_id: u64) -> (r: Option<usize>)
        ensures
            match r {
                Some(i) => keyset_index_at(self.keysets@, keyset_id, 0) == Some(i as int),
                None => keyset_index_at(self.keysets@, keyset_id, 0) is None,
            },
    {
        let n = self.keysets.len();
        let mut i: usize = 0;
        while i < n
            invariant
                0 <= i <= n,
                n == self.keysets@.len(),
                keyset_index_at(self.keysets@, keyset_id, 0) == keyset_index_at(
                    self.keysets@,
                    keyset_id,
                    i as int,
                ),
            decreases n - i,
        {
            if self.keysets[i].id == keyset_id {
                return Some(i);
            }
            i = i + 1;
        }
        None
    }

    /// The cached keyset with this id, if any.
    fn lookup(&self, keyset_id: u64) -> (r: Option<&Keyset>)
        ensures
            match r {
                Some(ks) => find_keyset(self.keysets@, keyset_id) == Some(*ks),
                None => find_keyset(self.keysets@, keyset_id) is None,
            },
    {
        let n = self.keysets.len();
        let mut i: usize = 0;
        while i < n
            invariant
                0 <= i <= n,
                n == self.keysets@.len(),
                keyset_index_at(self.keysets@, keyset_id, 0) == keyset_index_at(
                    self.keysets@,
                    keyset_id,
                    i as int,
                ),
            decreases n - i,
        {
            if self.keysets[i].id == keyset_id {
                return Some(&self.keysets[i]);
            }
            i = i + 1;
        }
        None
    }

    /// Whether a keyset with this id is cached; a miss is the caller's cue to
    /// load the keyset from the persistent catalog and `insert` it.
    pub fn contains(&self, keyset_id: u64) -> (r: bool)
        ensures
            r == (find_keyset(self.keysets@, keyset_id) is Some),
    {
        self.lookup(keyset_id).is_some()
    }

    /// Resolve a `(keyset_id, amount)` pair to the key that would sign it.
    ///
    /// Fails with `UnknownKeyset` if no such keyset is cached,
    /// `InactiveKeyset` if it no longer signs, and `UnsupportedAmount` if the
    /// amount is not among its denominations.
    pub fn resolve(&self, keyset_id: u64, amount: u64) -> (r: Result<KeyRef, MintError>)
        ensures
            r == self.resolve_spec(keyset_id, amount),
    {
        let ks = match self.lookup(keyset_id) {
            Some(ks) => ks,
            None => { return Err(MintError::UnknownKeyset) },
        };
        if !ks.active {
            return Err(MintError::InactiveKeyset);
        }
        let n = ks.denominations.len();
        let mut i: usize = 0;
        while i < n
            invariant
                0 <= i <= n,
                n == ks.denominations@.len(),
                find_keyset(self.keysets@, keyset_id) == Some(*ks),
                ks.active,
                denom_index_at(ks.denominations@, amount, 0) == denom_index_at(
                    ks.denominations@,
                    amount,
                    i as int,
                ),
            decreases n - i,
        {
            if ks.denominations[i].amount == amount {
                proof {
                    assert(denom_index_at(ks.denominations@, amount, i as int) == Some(i as int));
                    assert(keyset_denom(*ks, amount) == Some(ks.denominations@[i as int]));
                }
                return Ok(KeyRef { unit: ks.unit, pubkey: ks.denominations[i].pubkey });
            }
            i = i + 1;
        }
        Err(MintError::UnsupportedAmount)
    }

    /// Unit of the keyset with this id; `UnknownKeyset` if none is cached.
    pub fn unit_of(&self, keyset_id: u64) -> (r: Result<u32, MintError>)
        ensures
            r == self.unit_of_spec(keyset_id),
    {
        match self.lookup(keyset_id) {
            Some(ks) => Ok(ks.unit),
            None => Err(MintError::UnknownKeyset),
        }
    }

    /// Add a keyset loaded from the catalog, or replace the cached entry with
    /// the same id (how a rotation's flipped `active` flag reaches readers).
    pub fn insert(&mut self, keyset: Keyset)
        requires
            old(self).wf(),
        ensures
            final(self).wf(),
            match keyset_index_at(old(self).keysets@, keyset.id, 0) {
                Some(i) => final(self).keysets@ == old(self).keysets@.update(i, keyset),
                None => final(self).keysets@ == old(self).keysets@.push(keyset),
            },
            find_keyset(final(self).keysets@, keyset.id) == Some(keyset),
    {
        let ghost ks0 = self.keysets@;
        match self.index_of(keyset.id) {
            Some(i) => {
                proof {
                    lemma_keyset_index_at(ks0, keyset.id, 0);
                }
                self.keysets.set(i, keyset);
                proof {
                    assert(self.keysets@ == ks0.update(i as int, keyset));
                    assert(ks0[i as int].id == keyset.id);
                    assert forall|k: int| 0 <= k < ks0.len() implies ks0[k].id
                        == self.keysets@[k].id by {}
                    lemma_keyset_index_same_ids(self.keysets@, ks0, keyset.id, 0);
                    assert forall|p: int, q: int|
                        0 <= p < q < self.keysets@.len() implies self.keysets@[p].id
                        != self.keysets@[q].id by {
                        assert(ks0[p].id != ks0[q].id);
                    }
                }
            },
            None => {
                proof {
                    lemma_keyset_index_at(ks0, keyset.id, 0);
                    lemma_keyset_index_push(ks0, keyset, keyset.id, 0);
                }
                self.keysets.push(keyset);
                proof {
                    assert(self.keysets@ == ks0.push(keyset));
                    assert forall|p: int, q: int|
                        0 <= p < q < self.keysets@.len() implies self.keysets@[p].id
                        != self.keysets@[q].id by {
                        if q < ks0.len() {
                            assert(ks0[p].id != ks0[q].id);
                        } else {
                            assert(ks0[p].id != keyset.id);
                        }
                    }
                }
            },
        }
    }
}

/// Position of the first denomination with the given amount at or after `i`.
pub open spec fn denom_index_at(denoms: Seq<Denomination>, amount: u64, i: int) -> Option<int>
    decreases denoms.len() - i,
{
    if i < 0 || i >= denoms.len() {
        None
    } else if denoms[i].amount == amount {
        Some(i)
    } else {
        denom_index_at(denoms, amount, i + 1)
    }
}

/// The keyset's entry for this amount, if it supports it.
pub open spec fn keyset_denom(ks: Keyset, amount: u64) -> Option<Denomination> {
    match denom_index_at(ks.denominations@, amount, 0) {
        Some(i) => Some(ks.denominations@[i]),
        None => None,
    }
}

} // verus!
