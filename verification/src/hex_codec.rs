//! Hex text for credential bytes: lowercase, two digits per byte, no
//! separators. Encoding and decoding call the `hex` crate; both directions
//! have exact contracts here, and the round-trip law is proved.

use vstd::prelude::*;

verus! {

/// The lowercase hex digit character for a value below sixteen.
pub open spec fn hex_digit_char(d: nat) -> char {
    if d == 0 {
        '0'
    } else if d == 1 {
        '1'
    } else if d == 2 {
        '2'
    } else if d == 3 {
        '3'
    } else if d == 4 {
        '4'
    } else if d == 5 {
        '5'
    } else if d == 6 {
        '6'
    } else if d == 7 {
        '7'
    } else if d == 8 {
        '8'
    } else if d == 9 {
        '9'
    } else if d == 10 {
        'a'
    } else if d == 11 {
        'b'
    } else if d == 12 {
        'c'
    } else if d == 13 {
        'd'
    } else if d == 14 {
        'e'
    } else {
        'f'
    }
}

/// The lowercase hex text of a byte sequence: two digits per byte, most
/// significant nibble first.
pub open spec fn hex_of(b: Seq<u8>) -> Seq<char> {
    Seq::new(
        2 * b.len(),
        |i: int|
            if i % 2 == 0 {
                hex_digit_char((b[i / 2] / 16) as nat)
            } else {
                hex_digit_char((b[i / 2] % 16) as nat)
            },
    )
}

/// A hex digit character of either case.
pub open spec fn is_hex_char(c: char) -> bool {
    ||| 48 <= c as int && c as int <= 57
    ||| 97 <= c as int && c as int <= 102
    ||| 65 <= c as int && c as int <= 70
}

/// The numeric value of a hex digit character of either case.
pub open spec fn hex_char_val(c: char) -> nat {
    if 48 <= c as int && c as int <= 57 {
        (c as int - 48) as nat
    } else if 97 <= c as int && c as int <= 102 {
        (c as int - 87) as nat
    } else {
        (c as int - 55) as nat
    }
}

/// Text that decodes as hex: even length, every character a hex digit of
/// either case.
pub open spec fn valid_hex(s: Seq<char>) -> bool {
    s.len() % 2 == 0 && forall|i: int| 0 <= i < s.len() ==> is_hex_char(s[i])
}

/// The bytes encoded by valid hex text.
pub open spec fn bytes_of_hex(s: Seq<char>) -> Seq<u8> {
    Seq::new(s.len() / 2, |i: int| (hex_char_val(s[2 * i]) * 16 + hex_char_val(s[2 * i + 1])) as u8)
}

/// Relies on `hex::encode`: lowercase hex, two digits per byte, most
/// significant nibble first.
#[verifier::external_body]
pub(crate) fn hex_encode(bytes: &Vec<u8>) -> (r: String)
    ensures
        r@ == hex_of(bytes@),
{
    hex::encode(bytes)
}

/// Relies on `hex::decode`: succeeds exactly on even-length text made of
/// hex digits of either case, returning the bytes it encodes.
#[verifier::external_body]
pub(crate) fn hex_decode(text: &str) -> (r: Option<Vec<u8>>)
    ensures
        match r {
            Some(b) => valid_hex(text@) && b@ == bytes_of_hex(text@),
            None => !valid_hex(text@),
        },
{
    hex::decode(text).ok()
}

proof fn lemma_hex_digit_char_val(d: nat)
    requires
        d < 16,
    ensures
        is_hex_char(hex_digit_char(d)),
        hex_char_val(hex_digit_char(d)) == d,
{
}

/// Law: hex round trip — the encoding of any byte sequence, the empty one
/// included, is valid hex and decodes back to exactly those bytes.
pub proof fn lemma_hex_round_trip(b: Seq<u8>)
    ensures
        valid_hex(hex_of(b)),
        bytes_of_hex(hex_of(b)) == b,
{
    assert forall|i: int| 0 <= i < hex_of(b).len() implies is_hex_char(hex_of(b)[i]) by {
        if i % 2 == 0 {
            lemma_hex_digit_char_val((b[i / 2] / 16) as nat);
        } else {
            lemma_hex_digit_char_val((b[i / 2] % 16) as nat);
        }
    }
    assert forall|i: int| 0 <= i < b.len() implies bytes_of_hex(hex_of(b))[i] == b[i] by {
        assert((2 * i) / 2 == i);
        assert((2 * i) % 2 == 0);
        assert((2 * i + 1) / 2 == i);
        assert((2 * i + 1) % 2 == 1);
        lemma_hex_digit_char_val((b[i] / 16) as nat);
        lemma_hex_digit_char_val((b[i] % 16) as nat);
        assert(hex_char_val(hex_of(b)[2 * i]) == b[i] / 16);
        assert(hex_char_val(hex_of(b)[2 * i + 1]) == b[i] % 16);
        assert((b[i] / 16) * 16 + (b[i] % 16) == b[i]) by (nonlinear_arith);
    }
    assert(bytes_of_hex(hex_of(b)) =~= b);
}

} // verus!
