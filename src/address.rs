//! Fixed-width account identifiers and their checksummed text form.
use vstd::prelude::*;
use crate::hexcode::{
    keccak_of, hex_lower_bytes, lower_digit, upper_digit, nibble, is_digit_of, lemma_digit_unique,
    lemma_nibbles_determine_bytes,
};

verus! {

/// The `i`-th character after the prefix of the checksummed rendering of `b`: a letter is
/// uppercase exactly when the matching four-bit group of the digest of the lowercase
/// rendering is at least eight.
pub open spec fn checksum_char(b: Seq<u8>, i: int) -> char {
    if nibble(keccak_of(hex_lower_bytes(b)), i) >= 8 {
        upper_digit(nibble(b, i))
    } else {
        lower_digit(nibble(b, i))
    }
}

/// The checksummed (mixed-case) text form of the address bytes `b`, with its `0x` prefix.
pub open spec fn checksummed_text(b: Seq<u8>) -> Seq<char> {
    seq!['0', 'x'] + Seq::new((2 * b.len()) as nat, |i: int| checksum_char(b, i))
}

/// `t` is the checksummed text form of some twenty bytes.
pub open spec fn is_checksummed(t: Seq<char>) -> bool {
    exists|b: Seq<u8>| b.len() == 20 && t == checksummed_text(b)
}

/// An ASCII letter.
pub open spec fn is_alpha(c: char) -> bool {
    ('a' <= c && c <= 'z') || ('A' <= c && c <= 'Z')
}

/// A character differs from `c` only in its ASCII case.
pub open spec fn case_flipped(c: char, d: char) -> bool {
    is_alpha(c) && c != d && (d as u32 == c as u32 + 32 || c as u32 == d as u32 + 32)
}

#[verifier::external_type_specification]
#[verifier::external_body]
pub struct ExAddressError(alloy_primitives::AddressError);

/// Relies on `alloy_primitives::Address::to_checksum` with no chain id: the EIP-55 rendering.
#[verifier::external_body]
fn to_checksum(bytes: &[u8; 20]) -> (r: String)
    ensures
        r@ == checksummed_text(bytes@),
{
    alloy_primitives::Address::from(*bytes).to_checksum(None)
}

/// Relies on `alloy_primitives::Address::parse_checksummed` with no chain id: it accepts
/// exactly the texts that equal the EIP-55 rendering of the bytes they decode to.
#[verifier::external_body]
fn parse_checksum_bytes(s: &str) -> (r: Result<[u8; 20], alloy_primitives::AddressError>)
    ensures
        match r {
            Ok(b) => s@ == checksummed_text(b@),
            Err(_) => !is_checksummed(s@),
        },
{
    alloy_primitives::Address::parse_checksummed(s, None).map(|a| a.0.0)
}

/// Relies on `rand::random`: twenty bytes from the thread-local generator.
#[verifier::external_body]
fn random_bytes() -> (r: [u8; 20]) {
    rand::random()
}

/// Text that is not the checksummed form of an address.
#[derive(Debug, Clone, Copy, PartialEq, Eq)]
pub struct ParseError {}

/// A 20-byte account identifier.
#[derive(Debug, Clone, Copy, Hash)]
pub struct Address {
    bytes: [u8; 20],
}

impl View for Address {
    type V = Seq<u8>;

    closed spec fn view(&self) -> Seq<u8> {
        self.bytes@
    }
}

impl PartialEq for Address {
    fn eq(&self, other: &Address) -> (r: bool) {
        let mut i: usize = 0;
        while i < 20
            invariant
                i <= 20,
                forall|k: int| 0 <= k < i ==> self.bytes@[k] == other.bytes@[k],
            decreases 20 - i,
        {
            if self.bytes[i] != other.bytes[i] {
                return false;
            }
            i += 1;
        }
        assert(self.bytes@ =~= other.bytes@);
        true
    }
}

impl vstd::std_specs::cmp::PartialEqSpecImpl for Address {
    open spec fn obeys_eq_spec() -> bool {
        true
    }

    open spec fn eq_spec(&self, other: &Address) -> bool {
        self@ == other@
    }
}

impl Eq for Address {}

/// Addresses with the same bytes are the same value.
pub proof fn lemma_view_injective(a: Address, b: Address)
    requires
        a@ == b@,
    ensures
        a == b,
{
    broadcast use vstd::array::group_array_axioms;
    assert(a.bytes == b.bytes);
}

impl Address {
    /// An address has twenty bytes.
    pub proof fn lemma_len(&self)
        ensures
            self@.len() == 20,
    {
    }

    /// The address with the given bytes.
    pub fn from_bytes(bytes: [u8; 20]) -> (r: Address)
        ensures
            r@ == bytes@,
    {
        Address { bytes }
    }

    /// The bytes of the address.
    pub fn to_bytes(&self) -> (r: [u8; 20])
        ensures
            r@ == self@,
    {
        self.bytes
    }

    /// An address of twenty random bytes.
    pub fn random() -> (r: Address)
        ensures
            r@.len() == 20,
    {
        Address { bytes: random_bytes() }
    }

    /// Parses the checksummed text form; text that is not exactly the checksummed
    /// rendering of the bytes it names is rejected.
    pub fn parse_checksummed(hex: &str) -> (r: Result<Address, ParseError>)
        ensures
            match r {
                Ok(a) => hex@ == checksummed_text(a@),
                Err(_) => !is_checksummed(hex@),
            },
    {
        match parse_checksum_bytes(hex) {
            Ok(bytes) => Ok(Address { bytes }),
            Err(_) => Err(ParseError {}),
        }
    }

    /// The checksummed text form of the address.
    pub fn checksummed(&self) -> (r: String)
        ensures
            r@ == checksummed_text(self@),
    {
        to_checksum(&self.bytes)
    }
}

/// The checksummed text of `b` determines `b`.
pub proof fn lemma_checksummed_text_injective(a: Seq<u8>, b: Seq<u8>)
    requires
        a.len() == 20,
        b.len() == 20,
        checksummed_text(a) == checksummed_text(b),
    ensures
        a == b,
{
    assert forall|i: int| 0 <= i < 40 implies nibble(a, i) == nibble(b, i) by {
        assert(checksummed_text(a)[i + 2] == checksum_char(a, i));
        assert(checksummed_text(b)[i + 2] == checksum_char(b, i));
        assert(nibble(a, i) < 16 && nibble(b, i) < 16);
        lemma_digit_unique(checksum_char(a, i), nibble(a, i), nibble(b, i));
    }
    lemma_nibbles_determine_bytes(a, b);
}

/// Parsing the checksummed text form of any address gives that address back: the text is
/// a checksummed text, and no other address has it.
pub proof fn lemma_checksum_round_trip(a: Address)
    ensures
        is_checksummed(checksummed_text(a@)),
        forall|b: Address| #[trigger] checksummed_text(b@) == checksummed_text(a@) ==> b == a,
{
    assert(a@.len() == 20);
    assert forall|b: Address| #[trigger] checksummed_text(b@) == checksummed_text(a@) implies b == a by {
        lemma_checksummed_text_injective(a@, b@);
        lemma_view_injective(a, b);
    }
}

/// Flipping the case of any one letter of a checksummed text gives a text that is the
/// checksummed form of no address.
pub proof fn lemma_checksum_case_strict(a: Address, i: int, t: Seq<char>)
    requires
        2 <= i < 42,
        t.len() == 42,
        forall|j: int| 0 <= j < 42 && j != i ==> t[j] == checksummed_text(a@)[j],
        case_flipped(checksummed_text(a@)[i], t[i]),
    ensures
        !is_checksummed(t),
{
    let s = checksummed_text(a@);
    if is_checksummed(t) {
        let b = choose|b: Seq<u8>| b.len() == 20 && t == checksummed_text(b);
        assert forall|k: int| 0 <= k < 40 implies nibble(a@, k) == nibble(b, k) by {
            assert(s[k + 2] == checksum_char(a@, k));
            assert(t[k + 2] == checksum_char(b, k));
            assert(nibble(a@, k) < 16 && nibble(b, k) < 16);
            if k + 2 == i {
                let n = nibble(a@, k);
                let m = nibble(b, k);
                assert(is_digit_of(s[i], n));
                assert(is_digit_of(t[i], m));
                assert(is_digit_of(t[i], n));
                lemma_digit_unique(t[i], n, m);
            } else {
                lemma_digit_unique(t[k + 2], nibble(a@, k), nibble(b, k));
            }
        }
        lemma_nibbles_determine_bytes(a@, b);
        assert(t[i] == s[i]);
    }
}

} // verus!
