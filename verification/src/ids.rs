//! Entry identifiers: ULIDs, held as their 128-bit value and written in
//! Crockford base 32.

use vstd::prelude::*;

use vstd::arithmetic::div_mod::{
    lemma_basic_div, lemma_div_basics, lemma_div_denominator, lemma_div_is_ordered_by_denominator,
    lemma_fundamental_div_mod,
};
use vstd::arithmetic::mul::lemma_mul_is_commutative;
use vstd::utf8::{encode_scalar, encode_utf8};

verus! {

/// Symbol of a base-32 digit `d < 32` in the alphabet
/// `0123456789ABCDEFGHJKMNPQRSTVWXYZ`.
pub open spec fn crockford_symbol(d: int) -> char {
    if d < 10 {
        (d + 48) as char
    } else if d < 18 {
        (d + 55) as char
    } else if d < 20 {
        (d + 56) as char
    } else if d < 22 {
        (d + 57) as char
    } else if d < 27 {
        (d + 58) as char
    } else {
        (d + 59) as char
    }
}

/// The digit a byte stands for, either case; `I`, `L`, `O`, `U` and
/// everything outside the alphabet stand for none.
pub open spec fn crockford_digit(b: u8) -> Option<int> {
    let c: int = if 97 <= b <= 122 {
        b - 32
    } else {
        b as int
    };
    if 48 <= b <= 57 {
        Some(b - 48)
    } else if 65 <= c <= 72 {
        Some(c - 55)
    } else if c == 74 || c == 75 {
        Some(c - 56)
    } else if c == 77 || c == 78 {
        Some(c - 57)
    } else if 80 <= c <= 84 {
        Some(c - 58)
    } else if 86 <= c <= 90 {
        Some(c - 59)
    } else {
        None
    }
}

pub open spec fn pow32(n: nat) -> int
    decreases n,
{
    if n == 0 {
        1
    } else {
        32 * pow32((n - 1) as nat)
    }
}

/// The 26-character text of an identifier: its base-32 digits, most
/// significant first.
pub open spec fn ulid_text(v: u128) -> Seq<char> {
    Seq::new(26, |i: int| crockford_symbol((v as int / pow32((25 - i) as nat)) % 32))
}

/// Why a text is not an identifier.
#[derive(Debug, Clone, Copy, PartialEq, Eq, Structural)]
pub enum UlidError {
    InvalidLength,
    InvalidChar,
}

/// Value of the first `n` digit bytes, shifted in from the right and
/// truncated to 128 bits.
pub open spec fn digits_value(b: Seq<u8>, n: nat) -> int
    decreases n,
{
    if n == 0 {
        0
    } else {
        (digits_value(b, (n - 1) as nat) * 32 + crockford_digit(b[n - 1]).unwrap())
            % (u128::MAX as int + 1)
    }
}

/// Decoding of identifier bytes: exactly 26 bytes, each a base-32 digit.
pub open spec fn ulid_decode_bytes(b: Seq<u8>) -> Result<u128, UlidError> {
    if b.len() != 26 {
        Err(UlidError::InvalidLength)
    } else if exists|i: int| 0 <= i < 26 && #[trigger] crockford_digit(b[i]) is None {
        Err(UlidError::InvalidChar)
    } else {
        Ok(digits_value(b, 26) as u128)
    }
}

/// Decoding of an identifier text (its UTF-8 bytes).
pub open spec fn ulid_decode_spec(s: Seq<char>) -> Result<u128, UlidError> {
    ulid_decode_bytes(encode_utf8(s))
}

/// Calls `ulid::Ulid::to_string`, which writes the 26 base-32 digits of the
/// value, most significant first (`base32::encode`).
#[verifier::external_body]
pub(crate) fn ulid_to_string(id: u128) -> (s: String)
    ensures
        s@ == ulid_text(id),
{
    ulid::Ulid(id).to_string()
}

/// Calls `ulid::Ulid::from_string` (`base32::decode`): a wrong byte length
/// is `InvalidLength`, a byte outside the alphabet `InvalidChar`, and
/// otherwise the digits are shifted in five bits at a time.
#[verifier::external_body]
pub(crate) fn ulid_from_str(s: &str) -> (r: Result<u128, UlidError>)
    ensures
        r == ulid_decode_spec(s@),
{
    match ulid::Ulid::from_string(s) {
        Ok(u) => Ok(u.0),
        Err(ulid::DecodeError::InvalidLength) => Err(UlidError::InvalidLength),
        Err(ulid::DecodeError::InvalidChar) => Err(UlidError::InvalidChar),
    }
}

/// The canonical text of an identifier.
pub fn id_text(id: u128) -> (s: String)
    ensures
        s@ == ulid_text(id),
{
    ulid_to_string(id)
}

/// Reads an identifier from its text (either case).
pub fn parse_id(s: &str) -> (r: Result<u128, UlidError>)
    ensures
        r == ulid_decode_spec(s@),
{
    ulid_from_str(s)
}

/// The text of a decoding error.
pub open spec fn ulid_error_text(e: UlidError) -> Seq<char> {
    match e {
        UlidError::InvalidLength => "invalid length"@,
        UlidError::InvalidChar => "invalid character"@,
    }
}

impl UlidError {
    /// The error text: `invalid length` or `invalid character`.
    pub fn message(self) -> (m: String)
        ensures
            m@ == ulid_error_text(self),
    {
        match self {
            UlidError::InvalidLength => String::from_str("invalid length"),
            UlidError::InvalidChar => String::from_str("invalid character"),
        }
    }
}

/// `32^n` is positive.
pub proof fn lemma_pow32_pos(n: nat)
    ensures
        pow32(n) > 0,
    decreases n,
{
    if n > 0 {
        lemma_pow32_pos((n - 1) as nat);
    }
}

/// The UTF-8 encoding of ASCII text is its character codes.
proof fn lemma_ascii_encode(s: Seq<char>)
    requires
        forall|i: int| 0 <= i < s.len() ==> (#[trigger] s[i] as u32) < 0x80,
    ensures
        encode_utf8(s).len() == s.len(),
        forall|i: int| 0 <= i < s.len() ==> #[trigger] encode_utf8(s)[i] == s[i] as u32 as u8,
    decreases s.len(),
{
    if s.len() > 0 {
        let c = s[0] as u32;
        assert(c < 0x80);
        assert((c & 0x7F) as u8 == c as u8) by (bit_vector)
            requires
                c < 0x80,
        ;
        let rest = s.drop_first();
        assert forall|i: int| 0 <= i < rest.len() implies (#[trigger] rest[i] as u32) < 0x80 by {
            assert(rest[i] == s[i + 1]);
        }
        lemma_ascii_encode(rest);
        assert(encode_scalar(c) == seq![c as u8]);
        assert forall|i: int| 0 <= i < s.len() implies #[trigger] encode_utf8(s)[i] == s[i] as u32 as u8 by {
            if i > 0 {
                assert(rest[i - 1] == s[i]);
            }
        }
    }
}

/// The symbol of a digit is ASCII and its byte reads back as the digit.
proof fn lemma_symbol_digit(d: int)
    requires
        0 <= d < 32,
    ensures
        (crockford_symbol(d) as u32) < 0x80,
        crockford_digit(crockford_symbol(d) as u32 as u8) == Some(d),
{
}

/// Shifting in the digits of `v` one by one rebuilds `v` divided by the
/// weight of the digits not yet read.
proof fn lemma_digits_rebuild(b: Seq<u8>, v: u128, n: nat)
    requires
        n <= 26,
        b.len() == 26,
        forall|i: int|
            0 <= i < 26 ==> #[trigger] crockford_digit(b[i]) == Some(
                (v as int / pow32((25 - i) as nat)) % 32,
            ),
    ensures
        digits_value(b, n) == v as int / pow32((26 - n) as nat),
    decreases n,
{
    if n == 0 {
        reveal_with_fuel(pow32, 27);
        assert(pow32(26) == 0x4_0000_0000_0000_0000_0000_0000_0000_0000);
        lemma_basic_div(v as int, pow32(26));
    } else {
        lemma_digits_rebuild(b, v, (n - 1) as nat);
        let p = pow32((26 - n) as nat);
        lemma_pow32_pos((26 - n) as nat);
        let q = v as int / p;
        assert(pow32((27 - n) as nat) == 32 * p);
        lemma_div_denominator(v as int, p, 32);
        lemma_mul_is_commutative(p, 32);
        assert(digits_value(b, (n - 1) as nat) == q / 32);
        assert(crockford_digit(b[n - 1]) == Some(q % 32));
        lemma_fundamental_div_mod(q, 32);
        lemma_div_is_ordered_by_denominator(v as int, 1, p);
        lemma_div_basics(v as int);
        assert(0 <= q <= v);
        assert((q / 32 * 32 + q % 32) % (u128::MAX as int + 1) == q);
    }
}

/// Law: the text of an identifier decodes back to the identifier.
pub proof fn lemma_ulid_roundtrip(v: u128)
    ensures
        ulid_decode_spec(ulid_text(v)) == Ok::<u128, UlidError>(v),
{
    let t = ulid_text(v);
    assert forall|i: int| 0 <= i < 26 implies (#[trigger] t[i] as u32) < 0x80 && crockford_digit(
        t[i] as u32 as u8,
    ) == Some((v as int / pow32((25 - i) as nat)) % 32) by {
        lemma_pow32_pos((25 - i) as nat);
        lemma_symbol_digit((v as int / pow32((25 - i) as nat)) % 32);
    }
    lemma_ascii_encode(t);
    let b = encode_utf8(t);
    assert forall|i: int| 0 <= i < 26 implies #[trigger] crockford_digit(b[i]) == Some(
        (v as int / pow32((25 - i) as nat)) % 32,
    ) by {
        assert(b[i] == t[i] as u32 as u8);
    }
    lemma_digits_rebuild(b, v, 26);
    lemma_div_basics(v as int);
    assert(digits_value(b, 26) == v);
}

} // verus!
