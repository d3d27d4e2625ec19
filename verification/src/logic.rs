//! The issuance pipeline: one mint request, validated and signed as one
//! atomic unit.
//!
//! Control flow: read the quote's amount and state, gate on the state,
//! verify the output set (non-empty, single unit, supported denominations,
//! overflow-checked sum), compare the sum against the quoted amount, sign
//! every output in request order, then persist the signature batch and the
//! quote's transition to `Issued` through the same exclusive store handle.
//! Every validation failure happens before any mutation, so a failed request
//! leaves the store exactly as it found it.

use vstd::prelude::*;

use crate::errors::MintError;
use crate::keys_manager::{blind_sig_value, KeysManager};
use crate::keyset_cache::KeysetCache;
use crate::memory_db::{
    find_quote, issue_quote, lemma_find_quote_after_issue, tag_signatures, MintStore, QuoteRecord,
    SignatureRecord,
};
use crate::nut00::{BlindSignature, BlindedMessage};
use crate::nut04::{MintRequest, MintResponse};
use crate::QuoteState;

verus! {

/// Outcome of verifying the outputs from index `i` on, given the unit the
/// first output resolved to and the sum accumulated so far: the final sum,
/// or the first failure in output order.
pub open spec fn verify_loop_spec(
    cache: KeysetCache,
    outputs: Seq<BlindedMessage>,
    i: int,
    unit: u32,
    total: u64,
) -> Result<u64, MintError>
    decreases outputs.len() - i,
{
    if i < 0 || i >= outputs.len() {
        Ok(total)
    } else {
        match cache.resolve_spec(outputs[i].keyset_id, outputs[i].amount) {
            Err(e) => Err(e),
            Ok(kr) => if kr.unit != unit {
                Err(MintError::MultipleUnits)
            } else if total + outputs[i].amount > u64::MAX {
                Err(MintError::AmountOverflow)
            } else {
                verify_loop_spec(cache, outputs, i + 1, unit, (total + outputs[i].amount) as u64)
            },
        }
    }
}

/// What `verify_outputs_allow_single_unit` returns: the outputs' sum, or
/// `EmptyOutputSet`, the first resolution failure, `MultipleUnits` at the
/// first output whose unit differs from the first output's, or
/// `AmountOverflow` — whichever comes first in output order.
pub open spec fn verify_outputs_spec(cache: KeysetCache, outputs: Seq<BlindedMessage>) -> Result<
    u64,
    MintError,
> {
    if outputs.len() == 0 {
        Err(MintError::EmptyOutputSet)
    } else {
        match cache.resolve_spec(outputs[0].keyset_id, outputs[0].amount) {
            Err(e) => Err(e),
            Ok(kr) => verify_loop_spec(cache, outputs, 1, kr.unit, outputs[0].amount),
        }
    }
}

/// Verify an output set against the keyset cache: it must be non-empty,
/// every output must resolve to an active keyset supporting its amount, all
/// outputs must share one unit, and the amounts must sum without overflow.
/// Returns the sum; mutates nothing.
pub fn verify_outputs_allow_single_unit(
    keyset_cache: &KeysetCache,
    outputs: &Vec<BlindedMessage>,
) -> (r: Result<u64, MintError>)
    ensures
        r == verify_outputs_spec(*keyset_cache, outputs@),
{
    if outputs.len() == 0 {
        return Err(MintError::EmptyOutputSet);
    }
    let first = outputs[0];
    let unit = match keyset_cache.resolve(first.keyset_id, first.amount) {
        Ok(kr) => kr.unit,
        Err(e) => { return Err(e) },
    };
    let mut total: u64 = first.amount;
    let n = outputs.len();
    let mut i: usize = 1;
    while i < n
        invariant
            1 <= i <= n,
            n == outputs@.len(),
            verify_outputs_spec(*keyset_cache, outputs@) == verify_loop_spec(
                *keyset_cache,
                outputs@,
                i as int,
                unit,
                total,
            ),
        decreases n - i,
    {
        let o = outputs[i];
        match keyset_cache.resolve(o.keyset_id, o.amount) {
            Err(e) => { return Err(e) },
            Ok(kr) => {
                if kr.unit != unit {
                    return Err(MintError::MultipleUnits);
                }
                if o.amount > u64::MAX - total {
                    return Err(MintError::AmountOverflow);
                }
                total = total + o.amount;
            },
        }
        i = i + 1;
    }
    Ok(total)
}

/// A verified output set resolves at every index.
pub proof fn lemma_verify_loop_resolves(
    cache: KeysetCache,
    outputs: Seq<BlindedMessage>,
    i: int,
    unit: u32,
    total: u64,
)
    requires
        0 <= i,
        verify_loop_spec(cache, outputs, i, unit, total) is Ok,
    ensures
        forall|j: int|
            i <= j < outputs.len() ==> #[trigger] cache.resolve_spec(
                outputs[j].keyset_id,
                outputs[j].amount,
            ) is Ok,
    decreases outputs.len() - i,
{
    if i < outputs.len() {
        match cache.resolve_spec(outputs[i].keyset_id, outputs[i].amount) {
            Ok(kr) => {
                if kr.unit == unit && total + outputs[i].amount <= u64::MAX {
                    lemma_verify_loop_resolves(
                        cache,
                        outputs,
                        i + 1,
                        unit,
                        (total + outputs[i].amount) as u64,
                    );
                }
            },
            Err(_) => {},
        }
    }
}

/// A verified output set resolves at every index.
pub proof fn lemma_verify_resolves(cache: KeysetCache, outputs: Seq<BlindedMessage>)
    requires
        verify_outputs_spec(cache, outputs) is Ok,
    ensures
        forall|j: int|
            0 <= j < outputs.len() ==> #[trigger] cache.resolve_spec(
                outputs[j].keyset_id,
                outputs[j].amount,
            ) is Ok,
{
    match cache.resolve_spec(outputs[0].keyset_id, outputs[0].amount) {
        Ok(kr) => {
            lemma_verify_loop_resolves(cache, outputs, 1, kr.unit, outputs[0].amount);
        },
        Err(_) => {},
    }
}

/// The keys manager holds a private scalar for every pair the cache would
/// resolve: the internal-consistency requirement between the two components.
/// A deployment that loads both from the same catalog satisfies it.
pub open spec fn keys_cover(keys: KeysManager, cache: KeysetCache) -> bool {
    forall|id: u64, a: u64|
        #![trigger cache.resolve_spec(id, a)]
        cache.resolve_spec(id, a) is Ok ==> keys.scalar_for(id, a) is Some
}

/// The signature signing an output yields when the scalar for its pair
/// exists: the output's amount and keyset, and the combined blinded value.
pub open spec fn sign_ok_value(keys: KeysManager, o: BlindedMessage) -> BlindSignature {
    BlindSignature {
        amount: o.amount,
        keyset_id: o.keyset_id,
        blinded_signature: blind_sig_value(
            keys.scalar_for(o.keyset_id, o.amount).unwrap(),
            o.blinded_secret,
        ),
    }
}

/// The signatures of a fully signable output set, positionally aligned with
/// the outputs.
pub open spec fn signatures_spec(keys: KeysManager, outputs: Seq<BlindedMessage>) -> Seq<
    BlindSignature,
> {
    Seq::new(outputs.len(), |i: int| sign_ok_value(keys, outputs[i]))
}

/// Outcome of signing the outputs from index `i` on: their signatures in
/// order, or the first signing failure.
pub open spec fn process_from(keys: KeysManager, outputs: Seq<BlindedMessage>, i: int) -> Result<
    Seq<BlindSignature>,
    MintError,
>
    decreases outputs.len() - i,
{
    if i < 0 || i >= outputs.len() {
        Ok(Seq::empty())
    } else {
        match keys.sign_spec(outputs[i].keyset_id, outputs[i].amount, outputs[i].blinded_secret) {
            Err(e) => Err(e),
            Ok(sig) => match process_from(keys, outputs, i + 1) {
                Err(e) => Err(e),
                Ok(rest) => Ok(seq![sig] + rest),
            },
        }
    }
}

/// Sign every output in request order, so the wallet can correlate response
/// signatures with its outputs positionally. Stops at the first failure.
pub fn process_outputs(keys_manager: &KeysManager, outputs: &Vec<BlindedMessage>) -> (r: Result<
    Vec<BlindSignature>,
    MintError,
>)
    ensures
        match r {
            Ok(sigs) => process_from(*keys_manager, outputs@, 0) == Ok::<Seq<BlindSignature>, MintError>(sigs@),
            Err(e) => process_from(*keys_manager, outputs@, 0) == Err::<
                Seq<BlindSignature>,
                MintError,
            >(e),
        },
{
    let n = outputs.len();
    let mut sigs: Vec<BlindSignature> = Vec::new();
    proof {
        match process_from(*keys_manager, outputs@, 0) {
            Ok(rest) => {
                assert(Seq::<BlindSignature>::empty() + rest =~= rest);
            },
            Err(_) => {},
        }
    }
    let mut i: usize = 0;
    while i < n
        invariant
            0 <= i <= n,
            n == outputs@.len(),
            sigs@.len() == i,
            match process_from(*keys_manager, outputs@, i as int) {
                Ok(rest) => process_from(*keys_manager, outputs@, 0) == Ok::<
                    Seq<BlindSignature>,
                    MintError,
                >(sigs@ + rest),
                Err(e) => process_from(*keys_manager, outputs@, 0) == Err::<
                    Seq<BlindSignature>,
                    MintError,
                >(e),
            },
        decreases n - i,
    {
        let o = outputs[i];
        match keys_manager.sign(o.keyset_id, o.amount, o.blinded_secret) {
            Err(e) => { return Err(e) },
            Ok(sig) => {
                proof {
                    match process_from(*keys_manager, outputs@, i as int + 1) {
                        Ok(rest1) => {
                            assert(process_from(*keys_manager, outputs@, i as int)
                                == Ok::<Seq<BlindSignature>, MintError>(
                                seq![sig] + rest1,
                            ));
                            assert(sigs@ + (seq![sig] + rest1) =~= sigs@.push(sig) + rest1);
                        },
                        Err(_) => {},
                    }
                }
                sigs.push(sig);
            },
        }
        i = i + 1;
    }
    proof {
        match process_from(*keys_manager, outputs@, n as int) {
            Ok(rest) => {
                assert(rest =~= Seq::<BlindSignature>::empty());
                assert(sigs@ + rest =~= sigs@);
            },
            Err(_) => {},
        }
    }
    Ok(sigs)
}

/// When every output's pair has a scalar, signing succeeds and yields the
/// aligned signatures.
pub proof fn lemma_process_all_ok(keys: KeysManager, outputs: Seq<BlindedMessage>, i: int)
    requires
        0 <= i <= outputs.len(),
        forall|j: int|
            i <= j < outputs.len() ==> #[trigger] keys.scalar_for(
                outputs[j].keyset_id,
                outputs[j].amount,
            ) is Some,
    ensures
        process_from(keys, outputs, i) == Ok::<Seq<BlindSignature>, MintError>(
            Seq::new((outputs.len() - i) as nat, |k: int| sign_ok_value(keys, outputs[i + k])),
        ),
    decreases outputs.len() - i,
{
    let tail = Seq::new((outputs.len() - i) as nat, |k: int| sign_ok_value(keys, outputs[i + k]));
    if i == outputs.len() {
        assert(tail =~= Seq::<BlindSignature>::empty());
    } else {
        assert(keys.scalar_for(outputs[i].keyset_id, outputs[i].amount) is Some);
        lemma_process_all_ok(keys, outputs, i + 1);
        let rest = Seq::new(
            (outputs.len() - (i + 1)) as nat,
            |k: int| sign_ok_value(keys, outputs[i + 1 + k]),
        );
        assert(seq![sign_ok_value(keys, outputs[i])] + rest =~= tail);
    }
}

/// What a mint request returns, given the quote table, the caches, and the
/// request: the aligned signatures on success, or the single error kind the
/// request fails with. Validation order: quote existence, quote state,
/// output verification, balance.
pub open spec fn mint_result(
    quotes: Seq<QuoteRecord>,
    cache: KeysetCache,
    keys: KeysManager,
    quote_id: u128,
    outputs: Seq<BlindedMessage>,
) -> Result<Seq<BlindSignature>, MintError> {
    match find_quote(quotes, quote_id) {
        None => Err(MintError::QuoteNotFound),
        Some(q) => match q.state {
            QuoteState::Unpaid => Err(MintError::UnpaidQuote),
            QuoteState::Issued => Err(MintError::IssuedQuote),
            QuoteState::Failed => Err(MintError::FailedQuote),
            QuoteState::Paid => match verify_outputs_spec(cache, outputs) {
                Err(e) => Err(e),
                Ok(total) => if total != q.expected_amount {
                    Err(MintError::UnbalancedAmounts(total, q.expected_amount))
                } else {
                    Ok(signatures_spec(keys, outputs))
                },
            },
        },
    }
}

/// The quote table after a mint request: the quote moves to `Issued` exactly
/// when the request succeeds; any failure leaves every record untouched.
pub open spec fn quotes_after_mint(
    quotes: Seq<QuoteRecord>,
    cache: KeysetCache,
    keys: KeysManager,
    quote_id: u128,
    outputs: Seq<BlindedMessage>,
) -> Seq<QuoteRecord> {
    if mint_result(quotes, cache, keys, quote_id, outputs) is Ok {
        issue_quote(quotes, quote_id)
    } else {
        quotes
    }
}

/// The signature table after a mint request: the batch is appended exactly
/// when the request succeeds — all or nothing.
pub open spec fn signatures_after_mint(
    quotes: Seq<QuoteRecord>,
    signatures: Seq<SignatureRecord>,
    cache: KeysetCache,
    keys: KeysManager,
    quote_id: u128,
    outputs: Seq<BlindedMessage>,
) -> Seq<SignatureRecord> {
    if mint_result(quotes, cache, keys, quote_id, outputs) is Ok {
        signatures + tag_signatures(quote_id, signatures_spec(keys, outputs))
    } else {
        signatures
    }
}

/// Redeem a paid quote for blind signatures, atomically.
///
/// On success the response carries one signature per output, positionally
/// aligned, the quote is `Issued`, and the batch is persisted; on any
/// failure the result is the single error kind `mint_result` assigns and the
/// store is exactly as it was.
pub fn mint(
    store: &mut MintStore,
    keyset_cache: &KeysetCache,
    keys_manager: &KeysManager,
    request: &MintRequest<u128>,
) -> (r: Result<MintResponse, MintError>)
    requires
        old(store).wf(),
        keys_cover(*keys_manager, *keyset_cache),
    ensures
        final(store).wf(),
        match r {
            Ok(resp) => mint_result(
                old(store).quotes@,
                *keyset_cache,
                *keys_manager,
                request.quote,
                request.outputs@,
            ) == Ok::<Seq<BlindSignature>, MintError>(resp.signatures@),
            Err(e) => mint_result(
                old(store).quotes@,
                *keyset_cache,
                *keys_manager,
                request.quote,
                request.outputs@,
            ) == Err::<Seq<BlindSignature>, MintError>(e),
        },
        final(store).quotes@ == quotes_after_mint(
            old(store).quotes@,
            *keyset_cache,
            *keys_manager,
            request.quote,
            request.outputs@,
        ),
        final(store).signatures@ == signatures_after_mint(
            old(store).quotes@,
            old(store).signatures@,
            *keyset_cache,
            *keys_manager,
            request.quote,
            request.outputs@,
        ),
{
    let (expected_amount, state) = match store.get_amount_and_state_for_mint_quote_by_id(
        request.quote,
    ) {
        Ok(p) => p,
        Err(e) => { return Err(e) },
    };
    match state {
        QuoteState::Unpaid => { return Err(MintError::UnpaidQuote) },
        QuoteState::Paid => {},
        QuoteState::Issued => { return Err(MintError::IssuedQuote) },
        QuoteState::Failed => { return Err(MintError::FailedQuote) },
    }
    let total_amount = match verify_outputs_allow_single_unit(keyset_cache, &request.outputs) {
        Ok(t) => t,
        Err(e) => { return Err(e) },
    };
    if total_amount != expected_amount {
        return Err(MintError::UnbalancedAmounts(total_amount, expected_amount));
    }
    proof {
        let c = *keyset_cache;
        let km = *keys_manager;
        let os = request.outputs@;
        lemma_verify_resolves(c, os);
        assert forall|j: int| 0 <= j < os.len() implies #[trigger] km.scalar_for(
            os[j].keyset_id,
            os[j].amount,
        ) is Some by {
            assert(c.resolve_spec(os[j].keyset_id, os[j].amount) is Ok);
        }
        lemma_process_all_ok(*keys_manager, request.outputs@, 0);
        assert(Seq::new(
            request.outputs@.len(),
            |k: int| sign_ok_value(*keys_manager, request.outputs@[0 + k]),
        ) =~= signatures_spec(*keys_manager, request.outputs@));
    }
    let blind_signatures = match process_outputs(keys_manager, &request.outputs) {
        Ok(s) => s,
        Err(e) => { return Err(e) },
    };
    store.insert_blind_signatures(request.quote, &blind_signatures);
    store.mark_issued(request.quote);
    proof {
        let qs0 = old(store).quotes@;
        let qs1 = store.quotes@;
        assert forall|p: int, q: int| 0 <= p < q < qs1.len() implies qs1[p].id != qs1[q].id by {
            assert(qs1[p].id == qs0[p].id);
            assert(qs1[q].id == qs0[q].id);
        }
    }
    Ok(MintResponse { signatures: blind_signatures })
}

/// A verified output set resolves to the first output's unit at every index.
pub proof fn lemma_verify_loop_units(
    cache: KeysetCache,
    outputs: Seq<BlindedMessage>,
    i: int,
    unit: u32,
    total: u64,
)
    requires
        0 <= i,
        verify_loop_spec(cache, outputs, i, unit, total) is Ok,
    ensures
        forall|j: int|
            #![trigger cache.resolve_spec(outputs[j].keyset_id, outputs[j].amount)]
            i <= j < outputs.len() ==> cache.resolve_spec(
                outputs[j].keyset_id,
                outputs[j].amount,
            ).unwrap().unit == unit,
    decreases outputs.len() - i,
{
    if i < outputs.len() {
        match cache.resolve_spec(outputs[i].keyset_id, outputs[i].amount) {
            Ok(kr) => {
                if kr.unit == unit && total + outputs[i].amount <= u64::MAX {
                    lemma_verify_loop_units(
                        cache,
                        outputs,
                        i + 1,
                        unit,
                        (total + outputs[i].amount) as u64,
                    );
                }
            },
            Err(_) => {},
        }
    }
}

/// **Unit consistency.** An output set in which two outputs resolve to
/// different units never verifies, whatever its amounts sum to.
pub proof fn lemma_unit_consistency(
    cache: KeysetCache,
    outputs: Seq<BlindedMessage>,
    i: int,
    j: int,
)
    requires
        0 <= i < outputs.len(),
        0 <= j < outputs.len(),
        cache.resolve_spec(outputs[i].keyset_id, outputs[i].amount) is Ok,
        cache.resolve_spec(outputs[j].keyset_id, outputs[j].amount) is Ok,
        cache.resolve_spec(outputs[i].keyset_id, outputs[i].amount).unwrap().unit
            != cache.resolve_spec(outputs[j].keyset_id, outputs[j].amount).unwrap().unit,
    ensures
        verify_outputs_spec(cache, outputs) is Err,
{
    if verify_outputs_spec(cache, outputs) is Ok {
        let kr0 = cache.resolve_spec(outputs[0].keyset_id, outputs[0].amount).unwrap();
        lemma_verify_loop_units(cache, outputs, 1, kr0.unit, outputs[0].amount);
        assert(cache.resolve_spec(outputs[i].keyset_id, outputs[i].amount).unwrap().unit
            == kr0.unit);
        assert(cache.resolve_spec(outputs[j].keyset_id, outputs[j].amount).unwrap().unit
            == kr0.unit);
    }
}

/// **Balance check.** When a paid quote's outputs verify to a sum different
/// from the expected amount, the request fails with exactly that pair in
/// `UnbalancedAmounts` and neither table changes.
pub proof fn lemma_balance_check(
    quotes: Seq<QuoteRecord>,
    signatures: Seq<SignatureRecord>,
    cache: KeysetCache,
    keys: KeysManager,
    quote_id: u128,
    outputs: Seq<BlindedMessage>,
)
    requires
        find_quote(quotes, quote_id) is Some,
        find_quote(quotes, quote_id).unwrap().state == QuoteState::Paid,
        verify_outputs_spec(cache, outputs) is Ok,
        verify_outputs_spec(cache, outputs).unwrap() != find_quote(
            quotes,
            quote_id,
        ).unwrap().expected_amount,
    ensures
        mint_result(quotes, cache, keys, quote_id, outputs) == Err::<
            Seq<BlindSignature>,
            MintError,
        >(
            MintError::UnbalancedAmounts(
                verify_outputs_spec(cache, outputs).unwrap(),
                find_quote(quotes, quote_id).unwrap().expected_amount,
            ),
        ),
        quotes_after_mint(quotes, cache, keys, quote_id, outputs) == quotes,
        signatures_after_mint(quotes, signatures, cache, keys, quote_id, outputs) == signatures,
{
}

/// **Denomination validity.** If any output fails to resolve — in
/// particular when its amount is not among its keyset's denominations — the
/// whole request fails and no signature is persisted for any output:
/// all or nothing.
pub proof fn lemma_denomination_validity(
    quotes: Seq<QuoteRecord>,
    signatures: Seq<SignatureRecord>,
    cache: KeysetCache,
    keys: KeysManager,
    quote_id: u128,
    outputs: Seq<BlindedMessage>,
    i: int,
)
    requires
        0 <= i < outputs.len(),
        cache.resolve_spec(outputs[i].keyset_id, outputs[i].amount) is Err,
    ensures
        mint_result(quotes, cache, keys, quote_id, outputs) is Err,
        quotes_after_mint(quotes, cache, keys, quote_id, outputs) == quotes,
        signatures_after_mint(quotes, signatures, cache, keys, quote_id, outputs) == signatures,
{
    if mint_result(quotes, cache, keys, quote_id, outputs) is Ok {
        lemma_verify_resolves(cache, outputs);
        assert(cache.resolve_spec(outputs[i].keyset_id, outputs[i].amount) is Ok);
    }
}

/// **State gating.** A request against an unpaid quote fails with
/// `UnpaidQuote`, one against an already-issued quote with `IssuedQuote`,
/// and any failing request leaves both the quote table and the signature
/// table exactly as they were.
pub proof fn lemma_state_gating(
    quotes: Seq<QuoteRecord>,
    signatures: Seq<SignatureRecord>,
    cache: KeysetCache,
    keys: KeysManager,
    quote_id: u128,
    outputs: Seq<BlindedMessage>,
)
    requires
        find_quote(quotes, quote_id) is Some,
    ensures
        find_quote(quotes, quote_id).unwrap().state == QuoteState::Unpaid ==> mint_result(
            quotes,
            cache,
            keys,
            quote_id,
            outputs,
        ) == Err::<Seq<BlindSignature>, MintError>(MintError::UnpaidQuote),
        find_quote(quotes, quote_id).unwrap().state == QuoteState::Issued ==> mint_result(
            quotes,
            cache,
            keys,
            quote_id,
            outputs,
        ) == Err::<Seq<BlindSignature>, MintError>(MintError::IssuedQuote),
        mint_result(quotes, cache, keys, quote_id, outputs) is Err ==> quotes_after_mint(
            quotes,
            cache,
            keys,
            quote_id,
            outputs,
        ) == quotes && signatures_after_mint(quotes, signatures, cache, keys, quote_id, outputs)
            == signatures,
{
}

/// **Order preservation.** A successful request returns exactly one
/// signature per output, and the signature at each position carries that
/// position's amount and keyset: the wallet correlates them positionally.
pub proof fn lemma_order_preservation(
    quotes: Seq<QuoteRecord>,
    cache: KeysetCache,
    keys: KeysManager,
    quote_id: u128,
    outputs: Seq<BlindedMessage>,
)
    requires
        mint_result(quotes, cache, keys, quote_id, outputs) is Ok,
    ensures
        ({
            let sigs = mint_result(quotes, cache, keys, quote_id, outputs).unwrap();
            &&& sigs.len() == outputs.len()
            &&& forall|i: int|
                0 <= i < outputs.len() ==> #[trigger] sigs[i] == sign_ok_value(keys, outputs[i])
            &&& forall|i: int|
                0 <= i < outputs.len() ==> sigs[i].amount == outputs[i].amount && sigs[i].keyset_id
                    == outputs[i].keyset_id
        }),
{
}

/// **Single issuance.** Once a mint request on a quote has succeeded, any
/// further request on the same quote — whatever its outputs — fails with
/// `IssuedQuote`, changes no quote, and persists no additional signature.
pub proof fn lemma_single_issuance(
    quotes: Seq<QuoteRecord>,
    signatures: Seq<SignatureRecord>,
    cache: KeysetCache,
    keys: KeysManager,
    quote_id: u128,
    outputs1: Seq<BlindedMessage>,
    outputs2: Seq<BlindedMessage>,
)
    requires
        mint_result(quotes, cache, keys, quote_id, outputs1) is Ok,
    ensures
        mint_result(
            quotes_after_mint(quotes, cache, keys, quote_id, outputs1),
            cache,
            keys,
            quote_id,
            outputs2,
        ) == Err::<Seq<BlindSignature>, MintError>(MintError::IssuedQuote),
        quotes_after_mint(
            quotes_after_mint(quotes, cache, keys, quote_id, outputs1),
            cache,
            keys,
            quote_id,
            outputs2,
        ) == quotes_after_mint(quotes, cache, keys, quote_id, outputs1),
        signatures_after_mint(
            quotes_after_mint(quotes, cache, keys, quote_id, outputs1),
            signatures,
            cache,
            keys,
            quote_id,
            outputs2,
        ) == signatures,
{
    lemma_find_quote_after_issue(quotes, quote_id, quote_id);
}

/// **Conflicting concurrent requests.** Serializable isolation makes two
/// racing requests equivalent to running them in some serial order. If both
/// would succeed against the state they read, then in either order the one
/// that runs second finds the quote `Issued` and fails: exactly one commits.
pub proof fn lemma_conflicting_requests(
    quotes: Seq<QuoteRecord>,
    cache: KeysetCache,
    keys: KeysManager,
    quote_id: u128,
    outputs1: Seq<BlindedMessage>,
    outputs2: Seq<BlindedMessage>,
)
    requires
        mint_result(quotes, cache, keys, quote_id, outputs1) is Ok,
        mint_result(quotes, cache, keys, quote_id, outputs2) is Ok,
    ensures
        mint_result(
            quotes_after_mint(quotes, cache, keys, quote_id, outputs1),
            cache,
            keys,
            quote_id,
            outputs2,
        ) == Err::<Seq<BlindSignature>, MintError>(MintError::IssuedQuote),
        mint_result(
            quotes_after_mint(quotes, cache, keys, quote_id, outputs2),
            cache,
            keys,
            quote_id,
            outputs1,
        ) == Err::<Seq<BlindSignature>, MintError>(MintError::IssuedQuote),
{
    lemma_find_quote_after_issue(quotes, quote_id, quote_id);
}

} // verus!
