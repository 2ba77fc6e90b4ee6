//! Recoverable secp256k1 signatures.
use vstd::prelude::*;
use crate::address::Address;
use crate::eip191::{message_digest, eip191_hash};

verus! {

/// The address recovered from a signature `(r, s, v)` over a 32-byte digest, if any.
pub uninterp spec fn recovered_of(digest: Seq<u8>, r: Seq<u8>, s: Seq<u8>, v: bool) -> Option<Seq<u8>>;

#[verifier::external_type_specification]
#[verifier::external_body]
pub struct ExSignatureError(alloy_primitives::SignatureError);

/// Relies on `alloy_primitives::Signature::recover_address_from_prehash`: public-key
/// recovery from `(r, s, v)` over `digest`, then the address of the recovered key.
#[verifier::external_body]
fn recover_prehash(digest: &[u8; 32], r: &[u8; 32], s: &[u8; 32], v: bool) -> (res: Result<
    [u8; 20],
    alloy_primitives::SignatureError,
>)
    ensures
        match res {
            Ok(a) => recovered_of(digest@, r@, s@, v) == Some(a@),
            Err(_) => recovered_of(digest@, r@, s@, v) is None,
        },
{
    let sig = alloy_primitives::Signature::new(
        alloy_primitives::U256::from_be_bytes(*r),
        alloy_primitives::U256::from_be_bytes(*s),
        v,
    );
    sig.recover_address_from_prehash(&alloy_primitives::B256::from(*digest)).map(|a| a.0.0)
}

/// A signature from which no signer can be recovered.
#[derive(Debug, Clone, Copy, PartialEq, Eq)]
pub struct RecoveryError {}

/// A 65-byte recoverable signature: two 32-byte scalars and one recovery bit.
#[derive(Debug, Clone, Copy)]
pub struct Signature {
    r: [u8; 32],
    s: [u8; 32],
    v: bool,
}

/// The address that signed `payload` with `sig`, as recovery finds it.
pub open spec fn signer_of(payload: Seq<u8>, sig: Signature) -> Option<Seq<u8>> {
    recovered_of(message_digest(payload), sig.r_spec(), sig.s_spec(), sig.v_spec())
}

impl Signature {
    pub closed spec fn r_spec(&self) -> Seq<u8> {
        self.r@
    }

    pub closed spec fn s_spec(&self) -> Seq<u8> {
        self.s@
    }

    pub closed spec fn v_spec(&self) -> bool {
        self.v
    }

    /// The signature with the given scalars and recovery bit.
    pub fn from_parts(r: [u8; 32], s: [u8; 32], v: bool) -> (sig: Signature)
        ensures
            sig.r_spec() == r@,
            sig.s_spec() == s@,
            sig.v_spec() == v,
    {
        Signature { r, s, v }
    }

    /// The `r` scalar, big-endian.
    pub fn r(&self) -> (out: [u8; 32])
        ensures
            out@ == self.r_spec(),
    {
        self.r
    }

    /// The `s` scalar, big-endian.
    pub fn s(&self) -> (out: [u8; 32])
        ensures
            out@ == self.s_spec(),
    {
        self.s
    }

    /// The recovery bit.
    pub fn v(&self) -> (out: bool)
        ensures
            out == self.v_spec(),
    {
        self.v
    }

    /// The 65-byte serialization `r ‖ s ‖ v`, with `v` written as 27 or 28.
    pub fn to_bytes(&self) -> (out: Vec<u8>)
        ensures
            out@ == self.r_spec() + self.s_spec() + seq![if self.v_spec() { 28u8 } else { 27u8 }],
    {
        let mut out: Vec<u8> = Vec::new();
        let mut i: usize = 0;
        while i < 32
            invariant
                i <= 32,
                out@ == self.r@.subrange(0, i as int),
            decreases 32 - i,
        {
            out.push(self.r[i]);
            i += 1;
            assert(out@ =~= self.r@.subrange(0, i as int));
        }
        let mut j: usize = 0;
        while j < 32
            invariant
                j <= 32,
                out@ == self.r@ + self.s@.subrange(0, j as int),
            decreases 32 - j,
        {
            out.push(self.s[j]);
            j += 1;
            assert(out@ =~= self.r@ + self.s@.subrange(0, j as int));
        }
        assert(self.r@.subrange(0, 32) =~= self.r@);
        assert(self.s@.subrange(0, 32) =~= self.s@);
        out.push(if self.v { 28u8 } else { 27u8 });
        out
    }

    /// Recovers the address that signed `msg`: the digest of the framed message is
    /// recomputed and the signer's key is recovered from it.
    pub fn recover_address_from_msg(&self, msg: &[u8]) -> (res: Result<Address, RecoveryError>)
        ensures
            match res {
                Ok(a) => signer_of(msg@, *self) == Some(a@),
                Err(_) => signer_of(msg@, *self) is None,
            },
    {
        let digest = eip191_hash(msg);
        match recover_prehash(&digest, &self.r, &self.s, self.v) {
            Ok(bytes) => Ok(Address::from_bytes(bytes)),
            Err(_) => Err(RecoveryError {}),
        }
    }
}

} // verus!
