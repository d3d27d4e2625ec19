//! Request-scoped view of the persistent quote store.
//!
//! `MintStore` models the two tables the issuance core touches: quote records
//! and persisted blind signatures. A `&mut MintStore` plays the role of the
//! exclusive serializable transaction of the deployment's store: the pipeline
//! reads the quote, validates, and writes the Issued transition together with
//! the signature batch through the same exclusive handle, so the
//! read-then-write pair can never interleave with another request's.

use vstd::prelude::*;

use crate::errors::MintError;
use crate::nut00::BlindSignature;
use crate::QuoteState;

verus! {

/// The slice of a quote the issuance core reads and writes.
#[derive(Clone, Copy, Debug, PartialEq, Eq, Structural)]
pub struct Quote {
    /// Amount the wallet's outputs must sum to, in `unit`.
    pub expected_amount: u64,
    /// Unit the quote is denominated in.
    pub unit: u32,
    /// Lifecycle state; only `Paid` quotes may be redeemed.
    pub state: QuoteState,
}

/// A stored quote, keyed by its mint-generated id.
#[derive(Clone, Copy, Debug, PartialEq, Eq, Structural)]
pub struct QuoteRecord {
    /// Opaque correlation token, unique per quote.
    pub id: u128,
    /// The quote itself.
    pub quote: Quote,
}

/// A persisted blind signature together with the quote it was issued for.
#[derive(Clone, Copy, Debug, PartialEq, Eq, Structural)]
pub struct SignatureRecord {
    /// Quote the signature batch belongs to.
    pub quote_id: u128,
    /// The signature handed to the wallet.
    pub signature: BlindSignature,
}

/// Position of the first quote record with the given id at or after `i`.
pub open spec fn quote_index_at(quotes: Seq<QuoteRecord>, id: u128, i: int) -> Option<int>
    decreases quotes.len() - i,
{
    if i < 0 || i >= quotes.len() {
        None
    } else if quotes[i].id == id {
        Some(i)
    } else {
        quote_index_at(quotes, id, i + 1)
    }
}

/// The stored quote with the given id, if any.
pub open spec fn find_quote(quotes: Seq<QuoteRecord>, id: u128) -> Option<Quote> {
    match quote_index_at(quotes, id, 0) {
        Some(i) => Some(quotes[i].quote),
        None => None,
    }
}

/// A found index lies in range, carries the id, and no earlier slot does.
pub proof fn lemma_quote_index_at(quotes: Seq<QuoteRecord>, id: u128, i: int)
    requires
        0 <= i <= quotes.len(),
    ensures
        match quote_index_at(quotes, id, i) {
            Some(j) => i <= j < quotes.len() && quotes[j].id == id && (forall|k: int|
                i <= k < j ==> quotes[k].id != id),
            None => forall|k: int| i <= k < quotes.len() ==> quotes[k].id != id,
        },
    decreases quotes.len() - i,
{
    if i < quotes.len() && quotes[i].id != id {
        lemma_quote_index_at(quotes, id, i + 1);
    }
}

/// The quote table after the quote with the given id moved to `Issued`;
/// every other record is untouched.
pub open spec fn issue_quote(quotes: Seq<QuoteRecord>, id: u128) -> Seq<QuoteRecord> {
    Seq::new(
        quotes.len(),
        |i: int|
            if quotes[i].id == id {
                QuoteRecord {
                    id: quotes[i].id,
                    quote: Quote { state: QuoteState::Issued, ..quotes[i].quote },
                }
            } else {
                quotes[i]
            },
    )
}

/// Issuing one quote moves any find for any id to the same slot.
pub proof fn lemma_issue_quote_index(quotes: Seq<QuoteRecord>, id: u128, id2: u128, i: int)
    requires
        0 <= i,
    ensures
        quote_index_at(issue_quote(quotes, id), id2, i) == quote_index_at(quotes, id2, i),
    decreases quotes.len() - i,
{
    if i < quotes.len() && quotes[i].id != id2 {
        lemma_issue_quote_index(quotes, id, id2, i + 1);
    }
}

/// After issuing a quote, a find of the same id sees it `Issued` and a find
/// of any other id is unchanged.
pub proof fn lemma_find_quote_after_issue(quotes: Seq<QuoteRecord>, id: u128, id2: u128)
    ensures
        find_quote(issue_quote(quotes, id), id2) == match find_quote(quotes, id2) {
            None => None::<Quote>,
            Some(q) => Some(
                if id2 == id {
                    Quote { state: QuoteState::Issued, ..q }
                } else {
                    q
                },
            ),
        },
{
    lemma_issue_quote_index(quotes, id, id2, 0);
    lemma_quote_index_at(quotes, id2, 0);
}

/// The signature records a batch of signatures for one quote turns into.
pub open spec fn tag_signatures(quote_id: u128, sigs: Seq<BlindSignature>) -> Seq<SignatureRecord> {
    Seq::new(sigs.len(), |i: int| SignatureRecord { quote_id, signature: sigs[i] })
}

/// The signatures persisted for one quote, in insertion order.
pub open spec fn signatures_for(sigs: Seq<SignatureRecord>, quote_id: u128) -> Seq<BlindSignature> {
    sigs.filter(|r: SignatureRecord| r.quote_id == quote_id).map_values(
        |r: SignatureRecord| r.signature,
    )
}

/// In-memory quote store: the state one serializable transaction owns.
#[derive(Clone, Debug, PartialEq)]
pub struct MintStore {
    /// Quote records; at most one per id.
    pub quotes: Vec<QuoteRecord>,
    /// Every blind signature ever issued, in insertion order.
    pub signatures: Vec<SignatureRecord>,
}

impl MintStore {
    /// At most one quote record per id.
    pub open spec fn wf(self) -> bool {
        forall|i: int, j: int|
            0 <= i < j < self.quotes@.len() ==> self.quotes@[i].id != self.quotes@[j].id
    }

    /// An empty store.
    pub fn new() -> (r: MintStore)
        ensures
            r.quotes@ =~= Seq::<QuoteRecord>::empty(),
            r.signatures@ =~= Seq::<SignatureRecord>::empty(),
            r.wf(),
    {
        MintStore { quotes: Vec::new(), signatures: Vec::new() }
    }

    /// Record a freshly created quote. Fails if the id is already taken, so
    /// ids stay unique.
    pub fn add_quote(&mut self, id: u128, quote: Quote) -> (r: bool)
        requires
            old(self).wf(),
        ensures
            final(self).wf(),
            r == (find_quote(old(self).quotes@, id) is None),
            final(self).quotes@ == if r {
                old(self).quotes@.push(QuoteRecord { id, quote })
            } else {
                old(self).quotes@
            },
            final(self).signatures@ == old(self).signatures@,
    {
        let ghost qs0 = self.quotes@;
        let n = self.quotes.len();
        let mut i: usize = 0;
        while i < n
            invariant
                0 <= i <= n,
                n == self.quotes@.len(),
                *self == *old(self),
                old(self).wf(),
                self.quotes@ == qs0,
                quote_index_at(qs0, id, 0) == quote_index_at(qs0, id, i as int),
            decreases n - i,
        {
            if self.quotes[i].id == id {
                return false;
            }
            i = i + 1;
        }
        self.quotes.push(QuoteRecord { id, quote });
        proof {
            lemma_quote_index_at(qs0, id, 0);
            assert forall|p: int, q: int|
                0 <= p < q < self.quotes@.len() implies self.quotes@[p].id
                != self.quotes@[q].id by {
                if q < qs0.len() {
                    assert(qs0[p].id != qs0[q].id);
                } else {
                    assert(qs0[p].id != id);
                }
            }
        }
        true
    }

    /// Read the amount and state of a quote inside the transaction that will
    /// conditionally write `Issued`, so the read cannot go stale before the
    /// write. Fails with `QuoteNotFound` if the id does not exist.
    pub fn get_amount_and_state_for_mint_quote_by_id(&self, quote_id: u128) -> (r: Result<
        (u64, QuoteState),
        MintError,
    >)
        ensures
            r == match find_quote(self.quotes@, quote_id) {
                Some(q) => Ok::<(u64, QuoteState), MintError>((q.expected_amount, q.state)),
                None => Err::<(u64, QuoteState), MintError>(MintError::QuoteNotFound),
            },
    {
        let n = self.quotes.len();
        let mut i: usize = 0;
        while i < n
            invariant
                0 <= i <= n,
                n == self.quotes@.len(),
                quote_index_at(self.quotes@, quote_id, 0) == quote_index_at(
                    self.quotes@,
                    quote_id,
                    i as int,
                ),
            decreases n - i,
        {
            if self.quotes[i].id == quote_id {
                let q = self.quotes[i].quote;
                return Ok((q.expected_amount, q.state));
            }
            i = i + 1;
        }
        Err(MintError::QuoteNotFound)
    }

    /// Move the quote with this id to `Issued`, leaving every other record
    /// untouched.
    pub fn mark_issued(&mut self, quote_id: u128)
        ensures
            final(self).quotes@ == issue_quote(old(self).quotes@, quote_id),
            final(self).signatures@ == old(self).signatures@,
    {
        let ghost qs0 = self.quotes@;
        let n = self.quotes.len();
        let mut i: usize = 0;
        while i < n
            invariant
                0 <= i <= n,
                n == self.quotes@.len(),
                qs0.len() == n,
                self.signatures@ == old(self).signatures@,
                forall|j: int| 0 <= j < i ==> self.quotes@[j] == issue_quote(qs0, quote_id)[j],
                forall|j: int| i <= j < n ==> self.quotes@[j] == qs0[j],
            decreases n - i,
        {
            if self.quotes[i].id == quote_id {
                let old_rec = self.quotes[i];
                self.quotes.set(
                    i,
                    QuoteRecord {
                        id: old_rec.id,
                        quote: Quote { state: QuoteState::Issued, ..old_rec.quote },
                    },
                );
            }
            i = i + 1;
        }
        proof {
            assert(self.quotes@ =~= issue_quote(qs0, quote_id));
        }
    }

    /// Persist a signature batch for one quote, in order, as one write.
    pub fn insert_blind_signatures(&mut self, quote_id: u128, sigs: &Vec<BlindSignature>)
        ensures
            final(self).quotes@ == old(self).quotes@,
            final(self).signatures@ == old(self).signatures@ + tag_signatures(quote_id, sigs@),
    {
        let ghost sg0 = self.signatures@;
        let n = sigs.len();
        let mut i: usize = 0;
        while i < n
            invariant
                0 <= i <= n,
                n == sigs@.len(),
                self.quotes@ == old(self).quotes@,
                self.signatures@ == sg0 + tag_signatures(quote_id, sigs@.subrange(0, i as int)),
            decreases n - i,
        {
            self.signatures.push(SignatureRecord { quote_id, signature: sigs[i] });
            proof {
                assert(self.signatures@ =~= sg0 + tag_signatures(
                    quote_id,
                    sigs@.subrange(0, i as int + 1),
                ));
            }
            i = i + 1;
        }
        proof {
            assert(sigs@.subrange(0, n as int) =~= sigs@);
            assert(self.signatures@ =~= sg0 + tag_signatures(quote_id, sigs@));
        }
    }
}

} // verus!
