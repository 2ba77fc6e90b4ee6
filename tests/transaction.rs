use bytelink::account::{accounts_from_balances, Account};
use bytelink::address::Address;
use bytelink::signer::Signer;
use bytelink::transaction::{Transaction, TxError};

#[test]
fn transaction_naive_valid_tx() {
    let alice = Signer::random();
    let bob = Signer::random();

    let tx = Transaction {
        nonce: 0,
        from: alice.address(),
        to: bob.address(),
        value: 100,
        tip: 1,
        data: vec![],
    };

    let signed_tx = tx.sign_by(&alice).unwrap();

    assert!(signed_tx.verify().is_ok());
}

#[test]
fn transaction_send_to_self_invalid_tx() {
    let alice = Signer::random();

    let tx = Transaction {
        nonce: 0,
        from: alice.address(),
        to: alice.address(),
        value: 100,
        tip: 1,
        data: vec![],
    };

    let signed_tx = tx.sign_by(&alice).unwrap();

    assert!(signed_tx.verify().is_err());
}

#[test]
fn transaction_bad_signature_invalid_tx() {
    let alice = Signer::random();
    let bob = Signer::random();
    let charlie = Signer::random();

    let tx = Transaction {
        nonce: 0,
        from: alice.address(),
        to: bob.address(),
        value: 100,
        tip: 1,
        data: vec![],
    };

    let signed_tx = tx.sign_by(&charlie).unwrap();

    assert!(signed_tx.verify().is_err());
}

#[test]
fn verification_errors_name_the_rule() {
    let alice = Signer::random();
    let bob = Signer::random();
    let to_self = Transaction { nonce: 1, from: alice.address(), to: alice.address(), value: 5, tip: 0, data: vec![1, 2] };
    assert_eq!(to_self.sign_by(&alice).unwrap().verify().err(), Some(TxError::SelfTransfer));
    let forged = Transaction { nonce: 1, from: alice.address(), to: bob.address(), value: 5, tip: 0, data: vec![] };
    assert_eq!(forged.sign_by(&bob).unwrap().verify().err(), Some(TxError::SignatureMismatch));
    // a mismatched, self-directed transfer reports the mismatch first
    let both = Transaction { nonce: 1, from: alice.address(), to: alice.address(), value: 5, tip: 0, data: vec![] };
    assert_eq!(both.sign_by(&bob).unwrap().verify().err(), Some(TxError::SignatureMismatch));
}

#[test]
fn tampered_transaction_fails_verification() {
    let alice = Signer::random();
    let bob = Signer::random();
    let tx = Transaction { nonce: 3, from: alice.address(), to: bob.address(), value: 10, tip: 2, data: vec![] };
    let mut signed = tx.sign_by(&alice).unwrap();
    signed.transaction.value = 11;
    assert!(signed.verify().is_err());
}

#[test]
fn encoding_is_fixed_width_fields_then_data() {
    let from = Address::from_bytes([0x11; 20]);
    let to = Address::from_bytes([0x22; 20]);
    let tx = Transaction { nonce: 0x0102, from, to, value: 7, tip: 0xff00, data: vec![9, 8] };
    let e = tx.encode();
    let mut expected = vec![0, 0, 0, 0, 0, 0, 1, 2];
    expected.extend_from_slice(&[0x11; 20]);
    expected.extend_from_slice(&[0x22; 20]);
    expected.extend_from_slice(&[0, 0, 0, 0, 0, 0, 0, 7]);
    expected.extend_from_slice(&[0, 0, 0, 0, 0, 0, 0xff, 0]);
    expected.extend_from_slice(&[9, 8]);
    assert_eq!(e, expected);
}

#[test]
fn new_account_starts_at_nonce_zero() {
    let a = Address::random();
    let acc = Account::new(a, 42);
    assert_eq!(acc.address, a);
    assert_eq!(acc.nonce, 0);
    assert_eq!(acc.balance, 42);
}

#[test]
fn accounts_open_from_checksummed_balances() {
    let balances = vec![
        ("0xF01813E4B85e178A83e29B8E7bF26BD830a25f32".to_string(), 7u64),
        ("0x7E5F4552091A69125d5DfCb7b8C2659029395Bdf".to_string(), 9u64),
    ];
    let accounts = accounts_from_balances(&balances).unwrap();
    assert_eq!(accounts.len(), 2);
    assert_eq!(accounts[0].address.checksummed(), balances[0].0);
    assert_eq!(accounts[1].balance, 9);
    assert_eq!(accounts[1].nonce, 0);
    let bad = vec![("0xf01813e4b85e178a83e29b8e7bf26bd830a25f32".to_string(), 1u64)];
    assert!(accounts_from_balances(&bad).is_err());
}

#[test]
fn verified_transaction_is_the_signed_one() {
    let alice = Signer::random();
    let bob = Signer::random();
    let tx = Transaction { nonce: 4, from: alice.address(), to: bob.address(), value: 100, tip: 1, data: vec![5] };
    let signed_tx = tx.sign_by(&alice).unwrap();
    let checked = signed_tx.verify().unwrap();
    assert_eq!(checked.nonce, 4);
    assert_eq!(checked.to, bob.address());
    assert_eq!(checked.data, vec![5]);
}
