use bytelink::address::Address;
use bytelink::mempool::Key;
use bytelink::selector::{Selector, TimebasedSelector, TxInfo};

struct MockTxInfo;

impl MockTxInfo {
    fn new(timestamp: u64) -> TxInfo {
        // encode the timestamp into the nonce so tests can assert ordering
        TxInfo { timestamp, key: Key::new(Address::random(), timestamp) }
    }
}

#[test]
fn select_orders_by_earliest_timestamp() {
    let txs = vec![MockTxInfo::new(300), MockTxInfo::new(100), MockTxInfo::new(200)];
    let selector = TimebasedSelector::new();
    let selected = selector.select(&txs, 10);
    let nonces: Vec<u64> = selected.into_iter().map(|k| k.nonce).collect();
    assert_eq!(nonces, vec![100, 200, 300]);
}

#[test]
fn select_respects_max_block_size() {
    let txs = (1..=5).map(|i| MockTxInfo::new(i)).collect::<Vec<_>>();
    let selector = TimebasedSelector::new();
    let selected = selector.select(&txs, 3);
    assert_eq!(selected.len(), 3);
}

#[test]
fn select_empty_pool_returns_empty() {
    let txs: Vec<TxInfo> = Vec::new();
    let selector = TimebasedSelector::new();
    let selected = selector.select(&txs, 10);
    assert!(selected.is_empty());
}

#[test]
fn select_with_zero_capacity_is_empty() {
    let txs = vec![MockTxInfo::new(1), MockTxInfo::new(2)];
    assert!(TimebasedSelector::new().select(&txs, 0).is_empty());
}

#[test]
fn select_keeps_the_earliest_and_breaks_ties_by_position() {
    let txs = vec![
        MockTxInfo::new(50),
        TxInfo { timestamp: 10, key: Key::new(Address::random(), 1) },
        MockTxInfo::new(40),
        TxInfo { timestamp: 10, key: Key::new(Address::random(), 2) },
        MockTxInfo::new(5),
    ];
    let selected = TimebasedSelector::new().select(&txs, 3);
    let nonces: Vec<u64> = selected.iter().map(|k| k.nonce).collect();
    assert_eq!(nonces, vec![5, 1, 2]);
}
