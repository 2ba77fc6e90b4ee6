use bytelink::wallet::{Wallet, WalletError};

#[test]
fn wallet_identity() {
    let wallet = Wallet::random();
    let hex = wallet.as_hex();
    let recover = Wallet::from_hex(&hex).unwrap();
    assert_eq!(wallet.address(), recover.address());
}

#[test]
fn wallet_hex_is_lowercase_and_surrounding_space_is_ignored() {
    let text = "0000000000000000000000000000000000000000000000000000000000000001";
    let w = Wallet::from_hex(&format!("  {}\n", text)).unwrap();
    assert_eq!(w.as_hex(), text);
    assert_eq!(w.address().checksummed(), "0x7E5F4552091A69125d5DfCb7b8C2659029395Bdf");
    let upper = Wallet::from_hex("00000000000000000000000000000000000000000000000000000000000000AB").unwrap();
    assert_eq!(upper.as_hex(), "00000000000000000000000000000000000000000000000000000000000000ab");
}

#[test]
fn wallet_text_errors() {
    assert_eq!(Wallet::from_hex("xyz").err(), Some(WalletError::InvalidHex));
    assert_eq!(Wallet::from_hex("abc").err(), Some(WalletError::InvalidHex));
    assert_eq!(Wallet::from_hex("abcd").err(), Some(WalletError::WrongLength));
    assert_eq!(Wallet::from_hex(&"00".repeat(32)).err(), Some(WalletError::InvalidKey));
}

#[test]
fn short_keys_are_widened_and_long_ones_rejected() {
    let short = "01".repeat(24);
    let w = Wallet::from_hex(&short).unwrap();
    assert_eq!(w.as_hex(), format!("{}{}", "00".repeat(8), short));
    assert_eq!(Wallet::from_hex(&"01".repeat(23)).err(), Some(WalletError::WrongLength));
    assert_eq!(Wallet::from_hex(&"01".repeat(33)).err(), Some(WalletError::WrongLength));
    assert_eq!(Wallet::from_hex(&"ff".repeat(32)).err(), Some(WalletError::InvalidKey));
}
