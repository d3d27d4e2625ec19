use nuts::errors::MintError;
use nuts::keys_manager::{KeysManager, SigningKey};
use nuts::keyset_cache::{Denomination, Keyset, KeysetCache};
use nuts::logic::{mint, verify_outputs_allow_single_unit};
use nuts::memory_db::{MintStore, Quote};
use nuts::nut00::BlindedMessage;
use nuts::nut04::MintRequest;
use nuts::QuoteState;

const SAT: u32 = 0;
const USD: u32 = 1;
const K1: u64 = 1;
const K2: u64 = 2;
const K3: u64 = 3;
const K4: u64 = 4;
const Q1: u128 = 42;

fn scalar(keyset_id: u64, amount: u64) -> u64 {
    keyset_id.wrapping_mul(1000).wrapping_add(amount)
}

fn keyset(id: u64, unit: u32, active: bool, amounts: &[u64]) -> Keyset {
    let denominations = amounts
        .iter()
        .map(|&a| Denomination { amount: a, pubkey: scalar(id, a).wrapping_add(7) })
        .collect();
    Keyset { id, unit, active, denominations }
}

fn make_cache() -> KeysetCache {
    let mut cache = KeysetCache::new();
    cache.insert(keyset(K1, SAT, true, &[1, 2, 4, 8, 10]));
    cache.insert(keyset(K2, USD, true, &[1, 2, 4, 5, 8, 10]));
    cache.insert(keyset(K3, SAT, false, &[1, 2, 4, 8, 10]));
    cache.insert(keyset(K4, SAT, true, &[1, u64::MAX]));
    cache
}

fn make_keys() -> KeysManager {
    let mut keys = Vec::new();
    for (id, amounts) in [
        (K1, vec![1u64, 2, 4, 8, 10]),
        (K2, vec![1, 2, 4, 5, 8, 10]),
        (K3, vec![1, 2, 4, 8, 10]),
        (K4, vec![1, u64::MAX]),
    ] {
        for a in amounts {
            keys.push(SigningKey { keyset_id: id, amount: a, scalar: scalar(id, a) });
        }
    }
    KeysManager::new(keys)
}

fn make_store(state: QuoteState) -> MintStore {
    let mut store = MintStore::new();
    let added = store.add_quote(Q1, Quote { expected_amount: 10, unit: SAT, state });
    assert!(added);
    store
}

fn output(amount: u64, keyset_id: u64, blinded_secret: u64) -> BlindedMessage {
    BlindedMessage { amount, keyset_id, blinded_secret }
}

#[test]
fn concrete_scenario_paid_quote_is_issued() {
    let mut store = make_store(QuoteState::Paid);
    let cache = make_cache();
    let keys = make_keys();
    let request = MintRequest { quote: Q1, outputs: vec![output(10, K1, 0xB0B)] };

    let response = mint(&mut store, &cache, &keys, &request).unwrap();

    assert_eq!(response.signatures.len(), 1);
    assert_eq!(response.signatures[0].amount, 10);
    assert_eq!(response.signatures[0].keyset_id, K1);
    // the signing primitive combines the pair's private scalar with the secret
    assert_eq!(response.signatures[0].blinded_signature, scalar(K1, 10) ^ 0xB0B);
    // and agrees with what the keys manager itself reports
    let direct = keys.sign(K1, 10, 0xB0B).unwrap();
    assert_eq!(response.signatures[0], direct);

    let (_, state) = store.get_amount_and_state_for_mint_quote_by_id(Q1).unwrap();
    assert_eq!(state, QuoteState::Issued);
    assert_eq!(store.signatures.len(), 1);
    assert_eq!(store.signatures[0].quote_id, Q1);
    assert_eq!(store.signatures[0].signature, direct);
}

#[test]
fn single_issuance_second_request_fails() {
    let mut store = make_store(QuoteState::Paid);
    let cache = make_cache();
    let keys = make_keys();
    let request = MintRequest { quote: Q1, outputs: vec![output(2, K1, 5), output(8, K1, 6)] };

    assert!(mint(&mut store, &cache, &keys, &request).is_ok());
    assert_eq!(store.signatures.len(), 2);

    // an identical follow-up request must fail and add nothing
    let second = mint(&mut store, &cache, &keys, &request);
    assert_eq!(second.unwrap_err(), MintError::IssuedQuote);
    assert_eq!(store.signatures.len(), 2);
}

#[test]
fn conflicting_requests_only_one_commits() {
    // two requests both prepared against the same Paid snapshot; under the
    // store's serializable isolation they run in some serial order
    let mut store = make_store(QuoteState::Paid);
    let cache = make_cache();
    let keys = make_keys();
    let first = MintRequest { quote: Q1, outputs: vec![output(10, K1, 111)] };
    let second = MintRequest { quote: Q1, outputs: vec![output(10, K1, 222)] };

    assert!(mint(&mut store, &cache, &keys, &first).is_ok());
    let loser = mint(&mut store, &cache, &keys, &second);
    assert_eq!(loser.unwrap_err(), MintError::IssuedQuote);
    assert_eq!(store.signatures.len(), 1);
}

#[test]
fn unbalanced_sums_are_rejected() {
    let cache = make_cache();
    let keys = make_keys();
    for (amounts, total) in [(vec![1u64, 8], 9u64), (vec![1, 2, 8], 11)] {
        let mut store = make_store(QuoteState::Paid);
        let outputs: Vec<_> = amounts.iter().map(|&a| output(a, K1, 9)).collect();
        let request = MintRequest { quote: Q1, outputs };
        let r = mint(&mut store, &cache, &keys, &request);
        assert_eq!(r.unwrap_err(), MintError::UnbalancedAmounts(total, 10));
        // no signatures persisted, state untouched
        assert!(store.signatures.is_empty());
        let (_, state) = store.get_amount_and_state_for_mint_quote_by_id(Q1).unwrap();
        assert_eq!(state, QuoteState::Paid);
    }
}

#[test]
fn unpaid_quote_is_rejected() {
    let mut store = make_store(QuoteState::Unpaid);
    let cache = make_cache();
    let keys = make_keys();
    let request = MintRequest { quote: Q1, outputs: vec![output(10, K1, 1)] };
    let r = mint(&mut store, &cache, &keys, &request);
    assert_eq!(r.unwrap_err(), MintError::UnpaidQuote);
    assert!(store.signatures.is_empty());
    let (_, state) = store.get_amount_and_state_for_mint_quote_by_id(Q1).unwrap();
    assert_eq!(state, QuoteState::Unpaid);
}

#[test]
fn issued_quote_is_rejected() {
    let mut store = make_store(QuoteState::Issued);
    let cache = make_cache();
    let keys = make_keys();
    let request = MintRequest { quote: Q1, outputs: vec![output(10, K1, 1)] };
    let r = mint(&mut store, &cache, &keys, &request);
    assert_eq!(r.unwrap_err(), MintError::IssuedQuote);
    assert!(store.signatures.is_empty());
    let (_, state) = store.get_amount_and_state_for_mint_quote_by_id(Q1).unwrap();
    assert_eq!(state, QuoteState::Issued);
}

#[test]
fn failed_quote_never_signs() {
    let mut store = make_store(QuoteState::Failed);
    let cache = make_cache();
    let keys = make_keys();
    let request = MintRequest { quote: Q1, outputs: vec![output(10, K1, 1)] };
    let r = mint(&mut store, &cache, &keys, &request);
    assert_eq!(r.unwrap_err(), MintError::FailedQuote);
    assert!(store.signatures.is_empty());
}

#[test]
fn unknown_quote_id_is_rejected() {
    let mut store = make_store(QuoteState::Paid);
    let cache = make_cache();
    let keys = make_keys();
    let request = MintRequest { quote: 777, outputs: vec![output(10, K1, 1)] };
    let r = mint(&mut store, &cache, &keys, &request);
    assert_eq!(r.unwrap_err(), MintError::QuoteNotFound);
}

#[test]
fn mixed_units_are_rejected_regardless_of_sum() {
    let mut store = make_store(QuoteState::Paid);
    let cache = make_cache();
    let keys = make_keys();
    // sums to the expected 10, but K1 is sat and K2 is usd
    let mixed = MintRequest { quote: Q1, outputs: vec![output(2, K1, 1), output(8, K2, 2)] };
    let r = mint(&mut store, &cache, &keys, &mixed);
    assert_eq!(r.unwrap_err(), MintError::MultipleUnits);
    assert!(store.signatures.is_empty());
}

#[test]
fn unsupported_denomination_rejects_whole_request() {
    let mut store = make_store(QuoteState::Paid);
    let cache = make_cache();
    let keys = make_keys();
    // 3 is not a denomination of K1; 2, 4 and 8 individually are fine, but
    // nothing at all may be persisted
    let request = MintRequest {
        quote: Q1,
        outputs: vec![output(2, K1, 1), output(3, K1, 2), output(4, K1, 3)],
    };
    let r = mint(&mut store, &cache, &keys, &request);
    assert_eq!(r.unwrap_err(), MintError::UnsupportedAmount);
    assert!(store.signatures.is_empty());
}

#[test]
fn unknown_keyset_is_rejected() {
    let mut store = make_store(QuoteState::Paid);
    let cache = make_cache();
    let keys = make_keys();
    let request = MintRequest { quote: Q1, outputs: vec![output(10, 99, 1)] };
    let r = mint(&mut store, &cache, &keys, &request);
    assert_eq!(r.unwrap_err(), MintError::UnknownKeyset);
}

#[test]
fn inactive_keyset_is_rejected() {
    let mut store = make_store(QuoteState::Paid);
    let cache = make_cache();
    let keys = make_keys();
    let request = MintRequest { quote: Q1, outputs: vec![output(10, K3, 1)] };
    let r = mint(&mut store, &cache, &keys, &request);
    assert_eq!(r.unwrap_err(), MintError::InactiveKeyset);
}

#[test]
fn empty_output_set_is_rejected() {
    let mut store = make_store(QuoteState::Paid);
    let cache = make_cache();
    let keys = make_keys();
    let request = MintRequest { quote: Q1, outputs: vec![] };
    let r = mint(&mut store, &cache, &keys, &request);
    assert_eq!(r.unwrap_err(), MintError::EmptyOutputSet);
}

#[test]
fn overflowing_sum_is_rejected() {
    let mut store = make_store(QuoteState::Paid);
    let cache = make_cache();
    let keys = make_keys();
    let request = MintRequest {
        quote: Q1,
        outputs: vec![output(u64::MAX, K4, 1), output(1, K4, 2)],
    };
    let r = mint(&mut store, &cache, &keys, &request);
    assert_eq!(r.unwrap_err(), MintError::AmountOverflow);
}

#[test]
fn signatures_preserve_output_order() {
    let mut store = make_store(QuoteState::Paid);
    let cache = make_cache();
    let keys = make_keys();
    let outputs = vec![output(2, K1, 21), output(4, K1, 22), output(4, K1, 23)];
    let request = MintRequest { quote: Q1, outputs: outputs.clone() };

    let response = mint(&mut store, &cache, &keys, &request).unwrap();

    assert_eq!(response.signatures.len(), 3);
    for (o, s) in outputs.iter().zip(response.signatures.iter()) {
        assert_eq!(s.amount, o.amount);
        assert_eq!(s.keyset_id, o.keyset_id);
        assert_eq!(s.blinded_signature, scalar(o.keyset_id, o.amount) ^ o.blinded_secret);
    }
    // persisted batch mirrors the response, in the same order
    let persisted: Vec<_> = store.signatures.iter().map(|r| r.signature).collect();
    assert_eq!(persisted, response.signatures);
}

#[test]
fn verify_outputs_returns_the_sum() {
    let cache = make_cache();
    let outputs = vec![output(1, K1, 1), output(2, K1, 2), output(4, K1, 3)];
    assert_eq!(verify_outputs_allow_single_unit(&cache, &outputs), Ok(7));
}

#[test]
fn signing_is_deterministic() {
    let keys = make_keys();
    let a = keys.sign(K1, 8, 12345).unwrap();
    let b = keys.sign(K1, 8, 12345).unwrap();
    assert_eq!(a, b);
}

#[test]
fn sign_distinguishes_unknown_keyset_from_unknown_amount() {
    let keys = make_keys();
    assert_eq!(keys.sign(99, 1, 0).unwrap_err(), MintError::UnknownKeyset);
    assert_eq!(keys.sign(K1, 3, 0).unwrap_err(), MintError::UnsupportedAmount);
}

#[test]
fn cache_resolves_units_and_keys() {
    let cache = make_cache();
    assert_eq!(cache.unit_of(K1), Ok(SAT));
    assert_eq!(cache.unit_of(K2), Ok(USD));
    assert_eq!(cache.unit_of(77).unwrap_err(), MintError::UnknownKeyset);
    let kr = cache.resolve(K1, 10).unwrap();
    assert_eq!(kr.unit, SAT);
    assert_eq!(kr.pubkey, scalar(K1, 10).wrapping_add(7));
    assert_eq!(cache.resolve(K1, 3).unwrap_err(), MintError::UnsupportedAmount);
    assert_eq!(cache.resolve(K3, 1).unwrap_err(), MintError::InactiveKeyset);
    assert_eq!(cache.resolve(55, 1).unwrap_err(), MintError::UnknownKeyset);
}

#[test]
fn cache_insert_replaces_on_rotation() {
    let mut cache = make_cache();
    assert!(cache.contains(K1));
    // rotation retires K1: same id, active flag flipped
    cache.insert(keyset(K1, SAT, false, &[1, 2, 4, 8, 10]));
    assert_eq!(cache.resolve(K1, 10).unwrap_err(), MintError::InactiveKeyset);
    assert!(!cache.contains(5));
}

#[test]
fn duplicate_quote_ids_are_refused() {
    let mut store = make_store(QuoteState::Paid);
    let added = store.add_quote(Q1, Quote { expected_amount: 3, unit: SAT, state: QuoteState::Unpaid });
    assert!(!added);
    assert_eq!(store.quotes.len(), 1);
}
