//! Domain-separated, length-framed message hashing used to sign and to recover signers.
use vstd::prelude::*;
use crate::hexcode::{keccak_of, keccak};

verus! {

/// The fixed prefix that names this system and declares a signed message.
pub open spec fn message_prefix() -> Seq<u8> {
    seq![0x19u8, 0x42u8, 0x79u8, 0x74u8, 0x65u8, 0x6cu8, 0x69u8, 0x6eu8, 0x6bu8, 0x20u8, 0x53u8, 0x69u8, 0x67u8, 0x6eu8, 0x65u8, 0x64u8, 0x20u8, 0x4du8, 0x65u8, 0x73u8, 0x73u8, 0x61u8, 0x67u8, 0x65u8, 0x3au8, 0x0au8]
}

/// The decimal ASCII digits of `n`, most significant first, with no leading zeros.
pub open spec fn decimal(n: nat) -> Seq<u8>
    decreases n,
{
    if n < 10 {
        seq![(48 + n) as u8]
    } else {
        decimal(n / 10).push((48 + n % 10) as u8)
    }
}

/// The framed form of a payload: the prefix, the payload's length in decimal, the payload.
pub open spec fn framed(payload: Seq<u8>) -> Seq<u8> {
    message_prefix() + decimal(payload.len()) + payload
}

/// The digest that is signed for a payload.
pub open spec fn message_digest(payload: Seq<u8>) -> Seq<u8> {
    keccak_of(framed(payload))
}

/// Relies on `itoa::Buffer::format`: the decimal ASCII digits of `n`.
#[verifier::external_body]
fn format_decimal(n: usize) -> (r: Vec<u8>)
    ensures
        r@ == decimal(n as nat),
{
    itoa::Buffer::new().format(n).as_bytes().to_vec()
}

/// The framed form of `message`: prefix, decimal length, then the payload verbatim.
pub fn eip191_message(message: &[u8]) -> (r: Vec<u8>)
    ensures
        r@ == framed(message@),
{
    let mut out: Vec<u8> = vec![0x19u8, 0x42u8, 0x79u8, 0x74u8, 0x65u8, 0x6cu8, 0x69u8, 0x6eu8, 0x6bu8, 0x20u8, 0x53u8, 0x69u8, 0x67u8, 0x6eu8, 0x65u8, 0x64u8, 0x20u8, 0x4du8, 0x65u8, 0x73u8, 0x73u8, 0x61u8, 0x67u8, 0x65u8, 0x3au8, 0x0au8];
    assert(out@ =~= message_prefix());
    let mut digits = format_decimal(message.len());
    out.append(&mut digits);
    let ghost head = out@;
    let mut i: usize = 0;
    while i < message.len()
        invariant
            head == message_prefix() + decimal(message@.len()),
            i <= message@.len(),
            out@ == head + message@.subrange(0, i as int),
        decreases message@.len() - i,
    {
        out.push(message[i]);
        i += 1;
        assert(out@ =~= head + message@.subrange(0, i as int));
    }
    assert(message@.subrange(0, message@.len() as int) =~= message@);
    out
}

/// The Keccak-256 digest of the framed form of `message`.
pub fn eip191_hash(message: &[u8]) -> (r: [u8; 32])
    ensures
        r@ == message_digest(message@),
{
    let framed_message = eip191_message(message);
    keccak(framed_message.as_slice())
}

} // verus!
