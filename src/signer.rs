//! Secret signing keys and the signatures they make.
use vstd::prelude::*;
use alloy_signer::SignerSync as _;
use crate::address::Address;
use crate::eip191::{eip191_hash, message_digest};
use crate::signature::{Signature, recovered_of, signer_of};

verus! {

/// The address derived from a secret key: the tail of the digest of its public key.
pub uninterp spec fn address_of_key(secret: Seq<u8>) -> Seq<u8>;

/// The signature `(r, s, v)` that a secret key makes over a 32-byte digest, with the
/// deterministic nonce of RFC 6979; `None` where signing fails.
pub uninterp spec fn signature_of(secret: Seq<u8>, digest: Seq<u8>) -> Option<(Seq<u8>, Seq<u8>, bool)>;

/// The number whose big-endian bytes are `b`.
pub open spec fn be_value(b: Seq<u8>) -> nat
    decreases b.len(),
{
    if b.len() == 0 {
        0
    } else {
        be_value(b.drop_last()) * 256 + b.last() as nat
    }
}

/// The order of the secp256k1 group.
pub open spec fn group_order() -> nat {
    0xfffffffffffffffffffffffffffffffeu128 as nat * 0x1_0000_0000_0000_0000u128 as nat
        * 0x1_0000_0000_0000_0000u128 as nat + 0xbaaedce6af48a03bbfd25e8cd0364141u128 as nat
}

/// Thirty-two big-endian bytes of a scalar in `[1, n - 1]`, `n` the group order: a valid
/// secret key, and the range of the scalars of a signature.
pub open spec fn valid_scalar(b: Seq<u8>) -> bool {
    b.len() == 32 && 0 < be_value(b) < group_order()
}

#[verifier::external_type_specification]
#[verifier::external_body]
pub struct ExEcdsaError(k256::ecdsa::Error);

#[verifier::external_type_specification]
#[verifier::external_body]
pub struct ExSignerError(alloy_signer::Error);

/// Relies on `PrivateKeySigner::random`, `to_bytes` and `address`: a fresh secret key drawn
/// from the thread-local generator, and the address derived from it.
#[verifier::external_body]
fn random_key() -> (r: ([u8; 32], [u8; 20]))
    ensures
        r.1@ == address_of_key(r.0@),
        valid_scalar(r.0@),
{
    let key = alloy_signer_local::PrivateKeySigner::random();
    (key.to_bytes().0, key.address().0.0)
}

/// Relies on `PrivateKeySigner::from_bytes` and `address`: the bytes are accepted exactly
/// when they are a nonzero scalar below the group order, and then give the key's address.
#[verifier::external_body]
fn key_address(secret: &[u8; 32]) -> (r: Result<[u8; 20], k256::ecdsa::Error>)
    ensures
        r is Ok <==> valid_scalar(secret@),
        r matches Ok(a) ==> a@ == address_of_key(secret@),
{
    let key = alloy_signer_local::PrivateKeySigner::from_bytes(&alloy_primitives::B256::from(*secret))?;
    Ok(key.address().0.0)
}

/// Relies on `PrivateKeySigner::from_bytes` and `SignerSync::sign_hash_sync`: the
/// deterministic recoverable ECDSA signature over `digest`, whose scalars are nonzero and
/// below the group order, and from which recovery yields the address of the key.
#[verifier::external_body]
fn sign_prehash(secret: &[u8; 32], digest: &[u8; 32]) -> (r: Result<([u8; 32], [u8; 32], bool), alloy_signer::Error>)
    ensures
        match r {
            Ok(t) => signature_of(secret@, digest@) == Some((t.0@, t.1@, t.2)),
            Err(_) => signature_of(secret@, digest@) is None,
        },
        r matches Ok(t) ==> valid_scalar(t.0@) && valid_scalar(t.1@),
        r matches Ok(t) ==> recovered_of(digest@, t.0@, t.1@, t.2) == Some(address_of_key(secret@)),
{
    let key = alloy_signer_local::PrivateKeySigner::from_bytes(&alloy_primitives::B256::from(*secret))?;
    let sig = key.sign_hash_sync(&alloy_primitives::B256::from(*digest))?;
    Ok((sig.r().to_be_bytes::<32>(), sig.s().to_be_bytes::<32>(), sig.v()))
}

/// Bytes that are not a valid secret key.
#[derive(Debug, Clone, Copy, PartialEq, Eq)]
pub struct KeyError {}

/// A signing operation that the key could not complete.
#[derive(Debug, Clone, Copy, PartialEq, Eq)]
pub struct SignError {}

/// A secret secp256k1 key together with the address it controls.
pub struct Signer {
    secret: [u8; 32],
    address: Address,
}

impl Signer {
    #[verifier::type_invariant]
    spec fn address_matches(&self) -> bool {
        self.address@ == address_of_key(self.secret@) && valid_scalar(self.secret@)
    }

    /// The secret key, as bytes.
    pub closed spec fn secret_spec(&self) -> Seq<u8> {
        self.secret@
    }

    /// The address this key controls.
    pub closed spec fn address_spec(&self) -> Seq<u8> {
        self.address@
    }

    /// A fresh random key.
    pub fn random() -> (k: Signer)
        ensures
            k.address_spec() == address_of_key(k.secret_spec()),
            valid_scalar(k.secret_spec()),
    {
        let (secret, address) = random_key();
        Signer { secret, address: Address::from_bytes(address) }
    }

    /// The key with the given secret bytes; they are accepted exactly when they form a
    /// valid secret scalar.
    pub fn from_bytes(secret: &[u8; 32]) -> (r: Result<Signer, KeyError>)
        ensures
            r is Ok <==> valid_scalar(secret@),
            r matches Ok(k) ==> k.secret_spec() == secret@ && k.address_spec() == address_of_key(secret@),
    {
        match key_address(secret) {
            Ok(address) => Ok(Signer { secret: *secret, address: Address::from_bytes(address) }),
            Err(_) => Err(KeyError {}),
        }
    }

    /// The secret bytes of the key.
    pub fn to_bytes(&self) -> (r: [u8; 32])
        ensures
            r@ == self.secret_spec(),
            valid_scalar(r@),
    {
        proof { use_type_invariant(self); }
        self.secret
    }

    /// The address this key controls.
    pub fn address(&self) -> (r: Address)
        ensures
            r@ == self.address_spec(),
            r@ == address_of_key(self.secret_spec()),
    {
        proof { use_type_invariant(self); }
        self.address
    }

}

/// A holder of a signing key: it signs digests so that recovery yields its address.
pub trait SignerSync {
    /// The address whose key signs.
    spec fn signer_address(&self) -> Seq<u8>;

    /// Signs a 32-byte digest; recovery from the signature over that digest gives
    /// the signer's address.
    fn sign_hash_sync(&self, hash: &[u8; 32]) -> (r: Result<Signature, SignError>)
        ensures
            r matches Ok(sig) ==> recovered_of(hash@, sig.r_spec(), sig.s_spec(), sig.v_spec())
                == Some(self.signer_address()),
    ;

    /// Signs the framed digest of `msg`; recovering the signer of `msg` from the signature
    /// gives the signer's address.
    fn eip191_sign_msg(&self, msg: &[u8]) -> (r: Result<Signature, SignError>)
        ensures
            r matches Ok(sig) ==> signer_of(msg@, sig) == Some(self.signer_address()),
    {
        let digest = eip191_hash(msg);
        self.sign_hash_sync(&digest)
    }
}

impl SignerSync for Signer {
    open spec fn signer_address(&self) -> Seq<u8> {
        self.address_spec()
    }

    fn sign_hash_sync(&self, hash: &[u8; 32]) -> (r: Result<Signature, SignError>) {
        proof { use_type_invariant(self); }
        match sign_prehash(&self.secret, hash) {
            Ok((r, s, v)) => Ok(Signature::from_parts(r, s, v)),
            Err(_) => Err(SignError {}),
        }
    }
}

impl Signer {
    /// Signs the framed digest of `msg`; recovering the signer of `msg` from the signature
    /// gives this key's address.
    /// The signature is the deterministic one of this key over the framed digest of `msg`;
    /// its scalars are in range, and recovery from it gives this key's address.
    pub fn sign(&self, msg: &[u8]) -> (r: Result<Signature, SignError>)
        ensures
            match r {
                Ok(sig) => signature_of(self.secret_spec(), message_digest(msg@))
                    == Some((sig.r_spec(), sig.s_spec(), sig.v_spec())),
                Err(_) => signature_of(self.secret_spec(), message_digest(msg@)) is None,
            },
            r matches Ok(sig) ==> valid_scalar(sig.r_spec()) && valid_scalar(sig.s_spec()),
            r matches Ok(sig) ==> signer_of(msg@, sig) == Some(self.address_spec()),
    {
        proof { use_type_invariant(self); }
        let digest = eip191_hash(msg);
        match sign_prehash(&self.secret, &digest) {
            Ok((r, s, v)) => Ok(Signature::from_parts(r, s, v)),
            Err(_) => Err(SignError {}),
        }
    }
}

impl Address {
    /// The address controlled by a secret key.
    pub fn from_private_key(key: &Signer) -> (r: Address)
        ensures
            r@ == key.address_spec(),
            r@ == address_of_key(key.secret_spec()),
    {
        key.address()
    }
}

} // verus!
