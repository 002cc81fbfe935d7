//! Hexadecimal text as the `hex` crate reads and writes it.

use vstd::prelude::*;

verus! {

/// Whether `c` is one of the characters that `hex` accepts as a digit.
pub open spec fn is_hex_digit(c: char) -> bool {
    ('0' <= c && c <= '9') || ('a' <= c && c <= 'f') || ('A' <= c && c <= 'F')
}

/// The value of a hexadecimal digit, upper or lower case.
pub open spec fn hex_digit_value(c: char) -> int {
    if '0' <= c && c <= '9' {
        c as int - '0' as int
    } else if 'a' <= c && c <= 'f' {
        c as int - 'a' as int + 10
    } else {
        c as int - 'A' as int + 10
    }
}

/// Whether `s` is a valid hex string: an even number of hex digits.
pub open spec fn is_hex_string(s: Seq<char>) -> bool {
    &&& s.len() % 2 == 0
    &&& forall|i: int| 0 <= i < s.len() ==> #[trigger] is_hex_digit(s[i])
}

/// The bytes that a valid hex string stands for, two digits per byte,
/// the high nibble first.
pub open spec fn hex_string_bytes(s: Seq<char>) -> Seq<u8> {
    Seq::new(
        s.len() / 2,
        |i: int| (hex_digit_value(s[2 * i]) * 16 + hex_digit_value(s[2 * i + 1])) as u8,
    )
}

/// The lower-case hex digit for a nibble.
pub open spec fn lower_hex_digit(n: int) -> char {
    if n < 10 {
        ('0' as int + n) as char
    } else {
        ('a' as int + n - 10) as char
    }
}

/// The lower-case hex text of a byte string, two digits per byte.
pub open spec fn hex_encoding(b: Seq<u8>) -> Seq<char> {
    Seq::new(
        2 * b.len(),
        |i: int|
            if i % 2 == 0 {
                lower_hex_digit(b[i / 2] as int / 16)
            } else {
                lower_hex_digit(b[i / 2] as int % 16)
            },
    )
}

/// Decodes hex text with `hex::decode`.
///
/// The `hex` crate decodes the bytes of the string; it fails when their
/// number is odd or when one of them is not a hex digit. This contract says
/// that it succeeds exactly on valid hex strings and returns the bytes that
/// they stand for.
#[verifier::external_body]
pub(crate) fn hex_decode(s: &str) -> (res: Option<Vec<u8>>)
    ensures
        res.is_some() <==> is_hex_string(s@),
        res matches Some(v) ==> v@ == hex_string_bytes(s@),
{
    hex::decode(s).ok()
}

/// Encodes bytes as lower-case hex text with `hex::encode`.
#[verifier::external_body]
pub(crate) fn hex_encode(data: &[u8]) -> (res: String)
    ensures
        res@ == hex_encoding(data@),
{
    hex::encode(data)
}

} // verus!

verus! {

/// The lower-case hexadecimal numeral of `n`, without leading zeros, as
/// `{:x}` formats it.
pub open spec fn lower_hex_numeral(n: nat) -> Seq<char>
    decreases n,
{
    if n < 16 {
        seq![lower_hex_digit(n as int)]
    } else {
        lower_hex_numeral(n / 16).push(lower_hex_digit((n % 16) as int))
    }
}

/// The lower-case hexadecimal numeral of `n` padded with zeros to at least
/// two digits, as `{:02x}` formats it.
pub open spec fn lower_hex_numeral_2(n: nat) -> Seq<char> {
    if n < 16 {
        seq!['0', lower_hex_digit(n as int)]
    } else {
        lower_hex_numeral(n)
    }
}

/// Formats `n` with `format!("{:02x}", n)`: lower-case hexadecimal digits,
/// no prefix, padded with zeros to at least two digits.
#[verifier::external_body]
pub(crate) fn format_lower_hex_2(n: usize) -> (res: String)
    ensures
        res@ == lower_hex_numeral_2(n as nat),
{
    format!("{:02x}", n)
}

/// Encoding two byte strings one after the other gives the encoding of their
/// concatenation.
pub proof fn lemma_hex_encoding_concat(a: Seq<u8>, b: Seq<u8>)
    ensures
        hex_encoding(a) + hex_encoding(b) =~= hex_encoding(a + b),
{
    assert forall|i: int| 0 <= i < hex_encoding(a + b).len() implies #[trigger] hex_encoding(
        a + b,
    )[i] == (hex_encoding(a) + hex_encoding(b))[i] by {
        if i >= 2 * a.len() {
            let j = i - 2 * a.len();
            assert(j / 2 == i / 2 - a.len());
            assert(j % 2 == i % 2);
        }
    }
}

/// Reading back the hex text of bytes gives the same bytes.
pub proof fn lemma_hex_round_trip(b: Seq<u8>)
    ensures
        is_hex_string(hex_encoding(b)),
        hex_string_bytes(hex_encoding(b)) =~= b,
{
    let e = hex_encoding(b);
    assert forall|i: int| 0 <= i < e.len() implies #[trigger] is_hex_digit(e[i]) by {
        let x = b[i / 2];
        assert(x / 16 < 16 && x % 16 < 16);
    }
    assert forall|i: int| 0 <= i < b.len() implies #[trigger] hex_string_bytes(e)[i] == b[i] by {
        assert((2 * i) / 2 == i);
        assert((2 * i + 1) / 2 == i);
        assert((2 * i) % 2 == 0);
        assert((2 * i + 1) % 2 == 1);
        let x = b[i];
        assert(hex_digit_value(lower_hex_digit(x as int / 16)) == x as int / 16);
        assert(hex_digit_value(lower_hex_digit(x as int % 16)) == x as int % 16);
    }
}

} // verus!
