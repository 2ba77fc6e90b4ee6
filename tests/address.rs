use bytelink::address::Address;

fn sample_bytes() -> [u8; 20] {
    let v = hex::decode("f01813e4b85e178a83e29b8e7bf26bd830a25f32").unwrap();
    let mut b = [0u8; 20];
    b.copy_from_slice(&v);
    b
}

#[test]
fn address_valid_checksummed_address() {
    Address::parse_checksummed("0xF01813E4B85e178A83e29B8E7bF26BD830a25f32").unwrap();
}

#[test]
fn address_invalid_checksummed_address() {
    // lowercase the first character (F -> f)
    assert!(Address::parse_checksummed("0xf01813e4b85e178a83e29b8e7bf26bd830a25f32").is_err());
}

#[test]
fn account_valid_checksummed_address() {
    Address::parse_checksummed("0xF01813E4B85e178A83e29B8E7bF26BD830a25f32").unwrap();
}

#[test]
fn account_invalid_checksummed_address() {
    assert!(Address::parse_checksummed("0xf01813e4b85e178a83e29b8e7bf26bd830a25f32").is_err());
}

#[test]
fn generate_random_address() {
    let addr1 = Address::random();
    let addr2 = Address::random();
    assert_ne!(addr1, addr2);
}

#[test]
fn parsed_address_has_the_named_bytes() {
    let a = Address::parse_checksummed("0xF01813E4B85e178A83e29B8E7bF26BD830a25f32").unwrap();
    assert_eq!(a.to_bytes(), sample_bytes());
    assert_eq!(a, Address::from_bytes(sample_bytes()));
}

#[test]
fn checksummed_renders_mixed_case() {
    let a = Address::from_bytes(sample_bytes());
    assert_eq!(a.checksummed(), "0xF01813E4B85e178A83e29B8E7bF26BD830a25f32");
}

#[test]
fn checksum_round_trip_on_random_addresses() {
    for _ in 0..20 {
        let a = Address::random();
        let text = a.checksummed();
        assert_eq!(Address::parse_checksummed(&text).unwrap(), a);
    }
}

#[test]
fn flipping_one_letter_case_is_rejected() {
    let text = "0xF01813E4B85e178A83e29B8E7bF26BD830a25f32";
    let chars: Vec<char> = text.chars().collect();
    for i in 2..chars.len() {
        if chars[i].is_ascii_alphabetic() {
            let mut flipped = chars.clone();
            flipped[i] = if chars[i].is_ascii_uppercase() {
                chars[i].to_ascii_lowercase()
            } else {
                chars[i].to_ascii_uppercase()
            };
            let s: String = flipped.into_iter().collect();
            assert!(Address::parse_checksummed(&s).is_err(), "accepted {}", s);
        }
    }
}

#[test]
fn missing_prefix_or_wrong_length_is_rejected() {
    assert!(Address::parse_checksummed("F01813E4B85e178A83e29B8E7bF26BD830a25f32").is_err());
    assert!(Address::parse_checksummed("0xF01813E4B85e178A83e29B8E7bF26BD830a25f3").is_err());
    assert!(Address::parse_checksummed("").is_err());
}
