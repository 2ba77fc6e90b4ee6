use bytelink::address::Address;
use bytelink::eip191::{eip191_hash, eip191_message};
use bytelink::signature::Signature;
use bytelink::signer::Signer;

#[test]
fn framing_puts_prefix_length_and_payload() {
    let m = eip191_message(b"abc");
    let mut expected = b"\x19Bytelink Signed Message:\n".to_vec();
    expected.extend_from_slice(b"3abc");
    assert_eq!(m, expected);
}

#[test]
fn framing_writes_multi_digit_and_zero_lengths() {
    let payload = [7u8; 12];
    let m = eip191_message(&payload);
    let mut expected = b"\x19Bytelink Signed Message:\n12".to_vec();
    expected.extend_from_slice(&payload);
    assert_eq!(m, expected);
    assert_eq!(eip191_message(b""), b"\x19Bytelink Signed Message:\n0".to_vec());
}

#[test]
fn hash_is_keccak_of_framed_message() {
    let h = eip191_hash(b"hello");
    let expected = alloy_primitives::keccak256(eip191_message(b"hello"));
    assert_eq!(h, expected.0);
    assert_ne!(eip191_hash(b"hello"), eip191_hash(b"hellp"));
}

#[test]
fn sign_then_recover_gives_signer_address() {
    for payload in [&b""[..], &b"payload"[..], &[0u8; 100][..]] {
        let k = Signer::random();
        let sig = k.sign(payload).unwrap();
        let a = sig.recover_address_from_msg(payload).unwrap();
        assert_eq!(a, k.address());
        assert_eq!(a, Address::from_private_key(&k));
    }
}

#[test]
fn recover_from_other_payload_gives_other_address() {
    let k = Signer::random();
    let sig = k.sign(b"one").unwrap();
    match sig.recover_address_from_msg(b"two") {
        Ok(a) => assert_ne!(a, k.address()),
        Err(_) => {}
    }
}

#[test]
fn zero_scalars_do_not_recover() {
    let sig = Signature::from_parts([0u8; 32], [0u8; 32], false);
    assert!(sig.recover_address_from_msg(b"x").is_err());
}

#[test]
fn signature_serializes_to_65_bytes() {
    let sig = Signature::from_parts([1u8; 32], [2u8; 32], true);
    let b = sig.to_bytes();
    assert_eq!(b.len(), 65);
    assert_eq!(&b[..32], &[1u8; 32]);
    assert_eq!(&b[32..64], &[2u8; 32]);
    assert_eq!(b[64], 28);
    assert_eq!(Signature::from_parts([1u8; 32], [2u8; 32], false).to_bytes()[64], 27);
    assert_eq!(sig.r(), [1u8; 32]);
    assert_eq!(sig.s(), [2u8; 32]);
    assert!(sig.v());
}

#[test]
fn known_key_has_known_address() {
    // secret key 1: its address is well known
    let mut secret = [0u8; 32];
    secret[31] = 1;
    let k = Signer::from_bytes(&secret).unwrap();
    assert_eq!(k.address().checksummed(), "0x7E5F4552091A69125d5DfCb7b8C2659029395Bdf");
    assert_eq!(k.to_bytes(), secret);
}

#[test]
fn zero_key_is_rejected() {
    assert!(Signer::from_bytes(&[0u8; 32]).is_err());
    assert!(Signer::from_bytes(&[0xffu8; 32]).is_err());
}

#[test]
fn signing_is_deterministic_with_scalars_in_range() {
    let k = Signer::random();
    let a = k.sign(b"same payload").unwrap();
    let b = k.sign(b"same payload").unwrap();
    assert_eq!(a.to_bytes(), b.to_bytes());
    assert_ne!(a.r(), [0u8; 32]);
    assert_ne!(a.s(), [0u8; 32]);
    assert_ne!(k.sign(b"other payload").unwrap().to_bytes(), a.to_bytes());
}
