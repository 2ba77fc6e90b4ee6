//! Mathematical descriptions of hexadecimal renderings and of the hash used by them.
use vstd::prelude::*;

verus! {

/// The Keccak-256 digest of a byte string.
pub uninterp spec fn keccak_of(data: Seq<u8>) -> Seq<u8>;

/// Relies on `alloy_primitives::keccak256`: the 32-byte Keccak-256 digest of `data`.
#[verifier::external_body]
pub(crate) fn keccak(data: &[u8]) -> (r: [u8; 32])
    ensures
        r@ == keccak_of(data@),
{
    alloy_primitives::keccak256(data).0
}

/// The lowercase hexadecimal digit for a value below sixteen.
pub open spec fn lower_digit(n: u8) -> char {
    match n {
        0 => '0', 1 => '1', 2 => '2', 3 => '3', 4 => '4', 5 => '5', 6 => '6', 7 => '7',
        8 => '8', 9 => '9', 10 => 'a', 11 => 'b', 12 => 'c', 13 => 'd', 14 => 'e', _ => 'f',
    }
}

/// The uppercase hexadecimal digit for a value below sixteen.
pub open spec fn upper_digit(n: u8) -> char {
    match n {
        0 => '0', 1 => '1', 2 => '2', 3 => '3', 4 => '4', 5 => '5', 6 => '6', 7 => '7',
        8 => '8', 9 => '9', 10 => 'A', 11 => 'B', 12 => 'C', 13 => 'D', 14 => 'E', _ => 'F',
    }
}

/// The ASCII byte of the lowercase hexadecimal digit for a value below sixteen.
pub open spec fn lower_digit_byte(n: u8) -> u8 {
    if n < 10 { (48 + n) as u8 } else { (87 + n) as u8 }
}

/// The `i`-th four-bit group of `b`, most significant group of each byte first.
pub open spec fn nibble(b: Seq<u8>, i: int) -> u8 {
    if i % 2 == 0 { b[i / 2] / 16 } else { b[i / 2] % 16 }
}

/// The lowercase hexadecimal rendering of `b` as ASCII bytes.
pub open spec fn hex_lower_bytes(b: Seq<u8>) -> Seq<u8> {
    Seq::new((2 * b.len()) as nat, |i: int| lower_digit_byte(nibble(b, i)))
}

/// The lowercase hexadecimal rendering of `b` as characters.
pub open spec fn hex_lower(b: Seq<u8>) -> Seq<char> {
    Seq::new((2 * b.len()) as nat, |i: int| lower_digit(nibble(b, i)))
}

/// `s` is a hexadecimal rendering of `b`, two digits per byte, in either case.
pub open spec fn is_hex_of(s: Seq<char>, b: Seq<u8>) -> bool {
    &&& s.len() == 2 * b.len()
    &&& forall|i: int| 0 <= i < s.len() ==> is_digit_of(#[trigger] s[i], nibble(b, i))
}

/// A character of Unicode's White_Space property.
pub open spec fn is_whitespace(c: char) -> bool {
    let u = c as u32;
    (9 <= u <= 13) || u == 32 || u == 0x85 || u == 0xa0 || u == 0x1680 || (0x2000 <= u <= 0x200a)
        || u == 0x2028 || u == 0x2029 || u == 0x202f || u == 0x205f || u == 0x3000
}

/// `t` is `s` with its leading and trailing whitespace removed.
pub open spec fn trimmed(s: Seq<char>, t: Seq<char>) -> bool {
    exists|i: int, j: int|
        0 <= i <= j <= s.len() && t == s.subrange(i, j)
        && (forall|k: int| 0 <= k < i ==> is_whitespace(#[trigger] s[k]))
        && (forall|k: int| j <= k < s.len() ==> is_whitespace(#[trigger] s[k]))
        && (t.len() > 0 ==> !is_whitespace(t[0]) && !is_whitespace(t[t.len() - 1]))
}

/// Relies on `hex::encode`: two lowercase digits per byte.
#[verifier::external_body]
pub(crate) fn hex_encode(b: &[u8]) -> (r: String)
    ensures
        r@ == hex_lower(b@),
{
    hex::encode(b)
}

#[verifier::external_type_specification]
#[verifier::external_body]
pub struct ExFromHexError(hex::FromHexError);

/// Relies on `hex::decode`: succeeds exactly on texts of an even number of hexadecimal
/// digits, in either case, and gives the bytes they spell.
#[verifier::external_body]
pub(crate) fn hex_decode(s: &str) -> (r: Result<Vec<u8>, hex::FromHexError>)
    ensures
        match r {
            Ok(b) => is_hex_of(s@, b@),
            Err(_) => forall|b: Seq<u8>| !is_hex_of(s@, b),
        },
{
    hex::decode(s)
}

/// Relies on `str::trim`: the text without its leading and trailing whitespace.
#[verifier::external_body]
pub(crate) fn trim(s: &str) -> (r: &str)
    ensures
        trimmed(s@, r@),
{
    s.trim()
}

/// A character is a hexadecimal digit of value `n`, in either case.
pub open spec fn is_digit_of(c: char, n: u8) -> bool {
    c == lower_digit(n) || c == upper_digit(n)
}

/// A hexadecimal digit character names one value only.
pub proof fn lemma_digit_unique(c: char, n: u8, m: u8)
    requires
        n < 16,
        m < 16,
        is_digit_of(c, n),
        is_digit_of(c, m),
    ensures
        n == m,
{
}

/// The lowercase rendering of `b` is a hexadecimal rendering of `b`.
pub proof fn lemma_hex_lower_is_hex(b: Seq<u8>)
    ensures
        is_hex_of(hex_lower(b), b),
{
}

/// A hexadecimal rendering names one byte string.
pub proof fn lemma_hex_of_unique(s: Seq<char>, a: Seq<u8>, b: Seq<u8>)
    requires
        is_hex_of(s, a),
        is_hex_of(s, b),
    ensures
        a == b,
{
    assert forall|i: int| 0 <= i < 2 * a.len() implies nibble(a, i) == nibble(b, i) by {
        lemma_digit_unique(s[i], nibble(a, i), nibble(b, i));
    }
    lemma_nibbles_determine_bytes(a, b);
}

/// Hexadecimal text is its own trimmed form.
pub proof fn lemma_hex_is_trimmed(s: Seq<char>, b: Seq<u8>)
    requires
        is_hex_of(s, b),
    ensures
        trimmed(s, s),
{
    assert forall|k: int| 0 <= k < s.len() implies !is_whitespace(s[k]) by {
        assert(is_digit_of(s[k], nibble(b, k)));
    }
    assert(s.subrange(0, s.len() as int) =~= s);
    if s.len() > 0 {
        assert(!is_whitespace(s[0]) && !is_whitespace(s[s.len() - 1]));
    }
    assert(0 <= 0 <= s.len() <= s.len() && s == s.subrange(0, s.len() as int)
        && (forall|k: int| 0 <= k < 0 ==> is_whitespace(#[trigger] s[k]))
        && (forall|k: int| s.len() <= k < s.len() ==> is_whitespace(#[trigger] s[k]))
        && (s.len() > 0 ==> !is_whitespace(s[0]) && !is_whitespace(s[s.len() - 1])));
}

/// Trimming has one outcome.
pub proof fn lemma_trimmed_unique(s: Seq<char>, t: Seq<char>, u: Seq<char>)
    requires
        trimmed(s, t),
        trimmed(s, u),
    ensures
        t == u,
{
    let (i1, j1) = choose|i: int, j: int|
        0 <= i <= j <= s.len() && t == s.subrange(i, j)
        && (forall|k: int| 0 <= k < i ==> is_whitespace(#[trigger] s[k]))
        && (forall|k: int| j <= k < s.len() ==> is_whitespace(#[trigger] s[k]))
        && (t.len() > 0 ==> !is_whitespace(t[0]) && !is_whitespace(t[t.len() - 1]));
    let (i2, j2) = choose|i: int, j: int|
        0 <= i <= j <= s.len() && u == s.subrange(i, j)
        && (forall|k: int| 0 <= k < i ==> is_whitespace(#[trigger] s[k]))
        && (forall|k: int| j <= k < s.len() ==> is_whitespace(#[trigger] s[k]))
        && (u.len() > 0 ==> !is_whitespace(u[0]) && !is_whitespace(u[u.len() - 1]));
    if t.len() == 0 && u.len() > 0 {
        assert(u[0] == s[i2]);
        assert(i2 < i1 || i2 >= j1);
    } else if u.len() == 0 && t.len() > 0 {
        assert(t[0] == s[i1]);
        assert(i1 < i2 || i1 >= j2);
    } else if t.len() > 0 && u.len() > 0 {
        assert(t[0] == s[i1] && u[0] == s[i2]);
        assert(t[t.len() - 1] == s[j1 - 1] && u[u.len() - 1] == s[j2 - 1]);
        assert(i1 == i2);
        assert(j1 == j2);
    }
    assert(t =~= u);
}

/// Two byte strings of one length whose four-bit groups agree are equal.
pub proof fn lemma_nibbles_determine_bytes(a: Seq<u8>, b: Seq<u8>)
    requires
        a.len() == b.len(),
        forall|i: int| 0 <= i < 2 * a.len() ==> nibble(a, i) == nibble(b, i),
    ensures
        a == b,
{
    assert forall|k: int| 0 <= k < a.len() implies a[k] == b[k] by {
        assert(nibble(a, 2 * k) == nibble(b, 2 * k));
        assert(nibble(a, 2 * k + 1) == nibble(b, 2 * k + 1));
        assert((2 * k) / 2 == k);
        assert((2 * k + 1) / 2 == k);
        assert((2 * k) % 2 == 0);
        assert((2 * k + 1) % 2 == 1);
    }
    assert(a =~= b);
}

} // verus!
