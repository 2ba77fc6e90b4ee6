use bytelink::mempool::{admits_tip, AdmissionError, Key, MemPool};
use bytelink::selector::{Selector, TimebasedSelector};
use bytelink::signer::Signer;
use bytelink::transaction::{BlockTx, Transaction};

fn pooled(from: &Signer, to: &Signer, nonce: u64, tip: u64) -> BlockTx {
    let tx = Transaction { nonce, from: from.address(), to: to.address(), value: 1, tip, data: vec![] };
    BlockTx::new(tx.sign_by(from).unwrap(), 1, 21000)
}

#[test]
fn new_key_is_always_admitted() {
    let (a, b) = (Signer::random(), Signer::random());
    let mut pool = MemPool::new();
    assert_eq!(pool.len(), 0);
    assert_eq!(pool.upsert(pooled(&a, &b, 0, 0)), Ok(()));
    assert_eq!(pool.upsert(pooled(&a, &b, 1, 0)), Ok(()));
    assert_eq!(pool.upsert(pooled(&b, &a, 0, 0)), Ok(()));
    assert_eq!(pool.len(), 3);
}

#[test]
fn low_bump_is_rejected_and_held_entry_stays() {
    let (a, b) = (Signer::random(), Signer::random());
    let mut pool = MemPool::new();
    pool.upsert(pooled(&a, &b, 0, 100)).unwrap();
    assert_eq!(pool.upsert(pooled(&a, &b, 0, 109)), Err(AdmissionError::TipTooLow));
    let key = Key::new(a.address(), 0);
    assert_eq!(pool.tip_at(&key), Some(100));
    assert_eq!(pool.len(), 1);
}

#[test]
fn qualifying_bump_replaces() {
    let (a, b) = (Signer::random(), Signer::random());
    let mut pool = MemPool::new();
    pool.upsert(pooled(&a, &b, 0, 100)).unwrap();
    assert_eq!(pool.upsert(pooled(&a, &b, 0, 110)), Ok(()));
    assert_eq!(pool.tip_at(&Key::new(a.address(), 0)), Some(110));
    assert_eq!(pool.len(), 1);
}

#[test]
fn small_tips_replace_at_equal_value() {
    let (a, b) = (Signer::random(), Signer::random());
    let mut pool = MemPool::new();
    pool.upsert(pooled(&a, &b, 0, 9)).unwrap();
    assert_eq!(pool.upsert(pooled(&a, &b, 0, 9)), Ok(()));
    assert_eq!(pool.upsert(pooled(&a, &b, 0, 8)), Err(AdmissionError::TipTooLow));
}

#[test]
fn tip_rule_at_the_top_of_the_range() {
    assert!(!admits_tip(u64::MAX, u64::MAX));
    assert!(admits_tip(u64::MAX - u64::MAX / 11, u64::MAX));
    assert!(admits_tip(0, 0));
    assert!(admits_tip(10, 11));
    assert!(!admits_tip(10, 10));
}

#[test]
fn delete_and_truncate_empty_the_pool() {
    let (a, b) = (Signer::random(), Signer::random());
    let mut pool = MemPool::new();
    pool.upsert(pooled(&a, &b, 0, 1)).unwrap();
    pool.upsert(pooled(&a, &b, 1, 1)).unwrap();
    let key = Key::new(a.address(), 0);
    pool.delete(&key);
    pool.delete(&key);
    assert_eq!(pool.len(), 1);
    assert_eq!(pool.tip_at(&key), None);
    pool.truncate();
    assert_eq!(pool.len(), 0);
}

#[test]
fn snapshot_feeds_the_selector_earliest_first() {
    let (a, b) = (Signer::random(), Signer::random());
    let mut pool = MemPool::new();
    for nonce in 0..4u64 {
        let mut e = pooled(&a, &b, nonce, 1);
        e.timestamp = 1000 - nonce;
        pool.upsert(e).unwrap();
    }
    let snap = pool.snapshot();
    assert_eq!(snap.len(), 4);
    let keys = TimebasedSelector::new().select(&snap, 2);
    let nonces: Vec<u64> = keys.iter().map(|k| k.nonce).collect();
    assert_eq!(nonces, vec![3, 2]);
    for k in &keys {
        pool.delete(k);
    }
    assert_eq!(pool.len(), 2);
}

#[test]
fn increasing_bumps_leave_one_entry_with_the_last_tip() {
    let (a, b) = (Signer::random(), Signer::random());
    let mut pool = MemPool::new();
    let tips = [100u64, 110, 121, 134, 150];
    for tip in tips {
        assert_eq!(pool.upsert(pooled(&a, &b, 7, tip)), Ok(()));
        assert_eq!(pool.len(), 1);
    }
    assert_eq!(pool.tip_at(&Key::new(a.address(), 7)), Some(150));
}
