//! Wallets: a secret key kept as hexadecimal text.
use vstd::prelude::*;
use crate::address::Address;
use crate::hexcode::{
    hex_lower, is_hex_of, trimmed, hex_encode, hex_decode, trim, lemma_hex_lower_is_hex,
    lemma_hex_of_unique, lemma_trimmed_unique, lemma_hex_is_trimmed,
};
use crate::signer::{Signer, address_of_key, valid_scalar};

verus! {

/// `s`, with surrounding whitespace ignored, spells the bytes `b` in hexadecimal.
pub open spec fn key_text(s: Seq<char>, b: Seq<u8>) -> bool {
    exists|t: Seq<char>| trimmed(s, t) && is_hex_of(t, b)
}

/// A key of 24 to 32 bytes, widened to 32 bytes with leading zeros.
pub open spec fn padded_key(b: Seq<u8>) -> Seq<u8> {
    Seq::new((32 - b.len()) as nat, |i: int| 0u8) + b
}

/// A text spells at most one byte string.
pub proof fn lemma_key_text_unique(s: Seq<char>, a: Seq<u8>, b: Seq<u8>)
    requires
        key_text(s, a),
        key_text(s, b),
    ensures
        a == b,
{
    let t = choose|t: Seq<char>| trimmed(s, t) && is_hex_of(t, a);
    let u = choose|u: Seq<char>| trimmed(s, u) && is_hex_of(u, b);
    lemma_trimmed_unique(s, t, u);
    lemma_hex_of_unique(t, a, b);
}

/// Why a text does not give a wallet.
#[derive(Debug, Clone, Copy, PartialEq, Eq, Structural)]
pub enum WalletError {
    /// The trimmed text is not hexadecimal digits, two per byte.
    InvalidHex,
    /// The text spells fewer than 24 or more than 32 bytes.
    WrongLength,
    /// The bytes are not a valid secret key.
    InvalidKey,
}

/// A wallet holds one secret signing key.
pub struct Wallet {
    key: Signer,
}

impl Wallet {
    /// The wallet's secret key, as bytes.
    pub closed spec fn secret(&self) -> Seq<u8> {
        self.key.secret_spec()
    }

    /// A wallet with a fresh random key.
    pub fn random() -> (w: Wallet)
        ensures
            valid_scalar(w.secret()),
    {
        Wallet { key: Signer::random() }
    }

    /// The address the wallet's key controls.
    pub fn address(&self) -> (r: Address)
        ensures
            r@ == address_of_key(self.secret()),
    {
        Address::from_private_key(&self.key)
    }

    /// The secret key as 64 lowercase hexadecimal digits; the key is a valid one.
    pub fn as_hex(&self) -> (r: String)
        ensures
            r@ == hex_lower(self.secret()),
            r@.len() == 64,
            valid_scalar(self.secret()),
    {
        let bytes = self.key.to_bytes();
        hex_encode(bytes.as_slice())
    }

    /// Reads a wallet from hexadecimal text, with surrounding whitespace ignored; a key of
    /// 24 to 32 bytes is widened with leading zeros.
    pub fn from_hex(hex: &str) -> (r: Result<Wallet, WalletError>)
        ensures
            match r {
                Ok(w) => exists|b: Seq<u8>|
                    key_text(hex@, b) && 24 <= b.len() <= 32 && w.secret() == padded_key(b) && valid_scalar(w.secret()),
                Err(WalletError::InvalidHex) => forall|b: Seq<u8>| !key_text(hex@, b),
                Err(WalletError::WrongLength) => exists|b: Seq<u8>| key_text(hex@, b) && !(24 <= b.len() <= 32),
                Err(WalletError::InvalidKey) => exists|b: Seq<u8>|
                    key_text(hex@, b) && 24 <= b.len() <= 32 && !valid_scalar(padded_key(b)),
            },
    {
        let text = trim(hex);
        let bytes = match hex_decode(text) {
            Ok(b) => b,
            Err(_) => {
                proof {
                    assert forall|b: Seq<u8>| !key_text(hex@, b) by {
                        if key_text(hex@, b) {
                            let t = choose|t: Seq<char>| trimmed(hex@, t) && is_hex_of(t, b);
                            lemma_trimmed_unique(hex@, t, text@);
                        }
                    }
                }
                return Err(WalletError::InvalidHex);
            },
        };
        assert(key_text(hex@, bytes@));
        if bytes.len() < 24 || bytes.len() > 32 {
            return Err(WalletError::WrongLength);
        }
        let offset: usize = 32 - bytes.len();
        let mut secret: [u8; 32] = [0u8; 32];
        let mut i: usize = 0;
        while i < 32
            invariant
                24 <= bytes@.len() <= 32,
                offset == 32 - bytes@.len(),
                i <= 32,
                forall|k: int| 0 <= k < i ==> secret@[k] == padded_key(bytes@)[k],
            decreases 32 - i,
        {
            if i >= offset {
                secret[i] = bytes[i - offset];
            } else {
                secret[i] = 0;
            }
            i += 1;
        }
        assert(secret@ =~= padded_key(bytes@));
        match Signer::from_bytes(&secret) {
            Ok(key) => Ok(Wallet { key }),
            Err(_) => Err(WalletError::InvalidKey),
        }
    }
}

/// The text a wallet writes spells its key and nothing else, and the key needs no
/// widening: reading the text back gives the same key, and so the same address.
pub proof fn lemma_wallet_identity(s: Seq<u8>)
    requires
        valid_scalar(s),
    ensures
        key_text(hex_lower(s), s),
        forall|b: Seq<u8>| #[trigger] key_text(hex_lower(s), b) ==> b == s,
        padded_key(s) == s,
{
    lemma_hex_lower_is_hex(s);
    lemma_hex_is_trimmed(hex_lower(s), s);
    assert(trimmed(hex_lower(s), hex_lower(s)) && is_hex_of(hex_lower(s), s));
    assert forall|b: Seq<u8>| #[trigger] key_text(hex_lower(s), b) implies b == s by {
        lemma_key_text_unique(hex_lower(s), b, s);
    }
    assert(padded_key(s) =~= s);
}

} // verus!
