//! The idempotency store: claiming, committing, crash safety, expiry.

use zero_to_prod::idempotency::NextAction;
use zero_to_prod::idempotency::get_saved_response;
use zero_to_prod::idempotency::save_response;
use zero_to_prod::idempotency::try_save_response;
use zero_to_prod::idempotency_key::IdempotencyKey;
use zero_to_prod::expiry::expire_old_keys;
use zero_to_prod::response::HeaderPair;
use zero_to_prod::response::StoredResponse;
use zero_to_prod::store::Store;

fn key(s: &str) -> IdempotencyKey {
    IdempotencyKey::try_from(s.to_string()).unwrap()
}

fn sample_response() -> StoredResponse {
    StoredResponse {
        status: 303,
        headers: vec![HeaderPair { name: "location".to_string(), value: b"/x".to_vec() }],
        body: b"hello".to_vec(),
    }
}

#[test]
fn key_validation_bounds() {
    assert!(IdempotencyKey::try_from("".to_string()).is_err());
    assert!(IdempotencyKey::try_from("k".repeat(50)).is_ok());
    assert!(IdempotencyKey::try_from("k".repeat(51)).is_err());
    let k = key("abc");
    assert_eq!(k.as_ref(), "abc");
    assert_eq!(k.to_string_value(), "abc");
    assert_eq!(k.into_string(), "abc");
}

#[test]
fn claim_commit_replay() {
    let mut store = Store::new();
    let k = key("key-1");
    let txn = match try_save_response(&store, 7, &k, 1000) {
        NextAction::StartProcessing(t) => t,
        NextAction::ReturnSavedResponse(_) => panic!("fresh key must be claimable"),
    };
    let returned = save_response(&mut store, txn, sample_response()).unwrap();
    assert_eq!(returned.status, 303);
    // The committed record replays the identical response.
    let saved = get_saved_response(&store, 7, &k).unwrap();
    assert_eq!(saved.status, 303);
    assert_eq!(saved.headers.len(), 1);
    assert_eq!(saved.headers[0].name, "location");
    assert_eq!(saved.headers[0].value, b"/x".to_vec());
    assert_eq!(saved.body, b"hello".to_vec());
    match try_save_response(&store, 7, &k, 2000) {
        NextAction::ReturnSavedResponse(resp) => assert_eq!(resp.body, b"hello".to_vec()),
        NextAction::StartProcessing(_) => panic!("committed key must replay"),
    }
}

#[test]
fn claims_are_scoped_per_actor() {
    let mut store = Store::new();
    let k = key("key-1");
    let txn = match try_save_response(&store, 7, &k, 1000) {
        NextAction::StartProcessing(t) => t,
        NextAction::ReturnSavedResponse(_) => panic!("fresh key must be claimable"),
    };
    save_response(&mut store, txn, sample_response()).unwrap();
    // Another actor's identical key is an independent claim.
    assert!(matches!(
        try_save_response(&store, 8, &k, 1000),
        NextAction::StartProcessing(_)
    ));
    assert!(get_saved_response(&store, 8, &k).is_none());
}

#[test]
fn crash_before_complete_leaves_key_claimable() {
    let mut store = Store::new();
    let k = key("key-1");
    {
        // Claim, then abort before `save_response` — the dropped
        // transaction stands for a crash mid-unit.
        let _abandoned = match try_save_response(&store, 7, &k, 1000) {
            NextAction::StartProcessing(t) => t,
            NextAction::ReturnSavedResponse(_) => panic!("fresh key must be claimable"),
        };
    }
    assert_eq!(store.record_count(), 0);
    assert!(get_saved_response(&store, 7, &k).is_none());
    // A later claim starts afresh, as if no prior attempt occurred.
    let txn = match try_save_response(&store, 7, &k, 2000) {
        NextAction::StartProcessing(t) => t,
        NextAction::ReturnSavedResponse(_) => panic!("abandoned key must stay claimable"),
    };
    save_response(&mut store, txn, sample_response()).unwrap();
    assert_eq!(store.record_count(), 1);
}

#[test]
fn commit_clash_on_key_is_an_error() {
    let mut store = Store::new();
    let k = key("key-1");
    let txn1 = match try_save_response(&store, 7, &k, 1000) {
        NextAction::StartProcessing(t) => t,
        NextAction::ReturnSavedResponse(_) => panic!("fresh key must be claimable"),
    };
    let txn2 = match try_save_response(&store, 7, &k, 1001) {
        NextAction::StartProcessing(t) => t,
        NextAction::ReturnSavedResponse(_) => panic!("fresh key must be claimable"),
    };
    save_response(&mut store, txn1, sample_response()).unwrap();
    let e = save_response(&mut store, txn2, sample_response()).unwrap_err();
    assert_eq!(e.status, 500);
    assert_eq!(store.record_count(), 1);
}

#[test]
fn expiry_prunes_only_old_records() {
    let mut store = Store::new();
    let old_key = key("old");
    let fresh_key = key("fresh");
    let txn = match try_save_response(&store, 7, &old_key, 1000) {
        NextAction::StartProcessing(t) => t,
        NextAction::ReturnSavedResponse(_) => panic!("fresh key must be claimable"),
    };
    save_response(&mut store, txn, sample_response()).unwrap();
    let txn = match try_save_response(&store, 7, &fresh_key, 99_000) {
        NextAction::StartProcessing(t) => t,
        NextAction::ReturnSavedResponse(_) => panic!("fresh key must be claimable"),
    };
    save_response(&mut store, txn, sample_response()).unwrap();
    // At time 100 000 the first record is 99 000 s old — past the 86 400 s
    // window — while the second is 1 000 s old.
    expire_old_keys(&mut store, 100_000);
    assert_eq!(store.record_count(), 1);
    assert!(get_saved_response(&store, 7, &old_key).is_none());
    assert!(get_saved_response(&store, 7, &fresh_key).is_some());
}

#[test]
fn expiry_keeps_records_at_the_window_edge() {
    let mut store = Store::new();
    let k = key("edge");
    let txn = match try_save_response(&store, 7, &k, 1000) {
        NextAction::StartProcessing(t) => t,
        NextAction::ReturnSavedResponse(_) => panic!("fresh key must be claimable"),
    };
    save_response(&mut store, txn, sample_response()).unwrap();
    // Exactly 86 400 s old: not yet *older* than the window.
    expire_old_keys(&mut store, 1000 + 86_400);
    assert_eq!(store.record_count(), 1);
    expire_old_keys(&mut store, 1001 + 86_400);
    assert_eq!(store.record_count(), 0);
}

#[test]
fn expiry_cycles_are_idempotent() {
    let mut store = Store::new();
    let k = key("old");
    let txn = match try_save_response(&store, 7, &k, 0) {
        NextAction::StartProcessing(t) => t,
        NextAction::ReturnSavedResponse(_) => panic!("fresh key must be claimable"),
    };
    save_response(&mut store, txn, sample_response()).unwrap();
    expire_old_keys(&mut store, 1_000_000);
    expire_old_keys(&mut store, 1_000_000);
    assert_eq!(store.record_count(), 0);
}
