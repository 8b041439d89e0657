//! Lowercase hexadecimal text for byte strings.

use fastcrypto::encoding::{Encoding, Hex};
use vstd::prelude::*;

verus! {

/// The lowercase hexadecimal digit for a value below sixteen.
pub open spec fn hex_digit(nibble: int) -> char {
    seq!['0', '1', '2', '3', '4', '5', '6', '7', '8', '9', 'a', 'b', 'c', 'd', 'e', 'f'][nibble]
}

/// Whether `c` is one of `0`..`9`, `a`..`f`.
pub open spec fn is_lower_hex_digit(c: char) -> bool {
    ('0' <= c && c <= '9') || ('a' <= c && c <= 'f')
}

/// Two digits per byte, high nibble first, in the order of the bytes.
pub open spec fn hex_string(bytes: Seq<u8>) -> Seq<char> {
    Seq::new(
        2 * bytes.len(),
        |i: int|
            if i % 2 == 0 {
                hex_digit(bytes[i / 2] as int / 16)
            } else {
                hex_digit(bytes[i / 2] as int % 16)
            },
    )
}

/// Distinct nibbles have distinct digits.
pub proof fn lemma_hex_digit_injective(a: int, b: int)
    requires
        0 <= a < 16,
        0 <= b < 16,
        hex_digit(a) == hex_digit(b),
    ensures
        a == b,
{
}

/// Hex text is twice as long as the bytes it stands for and holds lowercase
/// hexadecimal digits only.
pub proof fn lemma_hex_string_shape(bytes: Seq<u8>)
    ensures
        hex_string(bytes).len() == 2 * bytes.len(),
        forall|i: int|
            0 <= i < hex_string(bytes).len() ==> is_lower_hex_digit(#[trigger] hex_string(bytes)[i]),
{
    assert forall|i: int| 0 <= i < hex_string(bytes).len() implies is_lower_hex_digit(
        #[trigger] hex_string(bytes)[i],
    ) by {
        let byte: int = bytes[i / 2] as int;
        if i % 2 == 0 {
            assert(hex_string(bytes)[i] == hex_digit(byte / 16));
        } else {
            assert(hex_string(bytes)[i] == hex_digit(byte % 16));
        }
    }
}

/// Hex text determines its bytes: two byte strings with the same text are equal.
pub proof fn lemma_hex_string_injective(a: Seq<u8>, b: Seq<u8>)
    requires
        hex_string(a) == hex_string(b),
    ensures
        a == b,
{
    assert(hex_string(a).len() == 2 * a.len());
    assert(hex_string(b).len() == 2 * b.len());
    assert(a.len() == b.len());
    assert forall|k: int| 0 <= k < a.len() implies a[k] == b[k] by {
        let x: int = a[k] as int;
        let y: int = b[k] as int;
        assert(hex_string(a)[2 * k] == hex_digit(x / 16));
        assert(hex_string(b)[2 * k] == hex_digit(y / 16));
        assert(hex_string(a)[2 * k + 1] == hex_digit(x % 16));
        assert(hex_string(b)[2 * k + 1] == hex_digit(y % 16));
        lemma_hex_digit_injective(x / 16, y / 16);
        lemma_hex_digit_injective(x % 16, y % 16);
    }
    assert(a =~= b);
}

/// `fastcrypto::encoding::Hex::encode`, which hands the bytes to `hex::encode`:
/// for each byte in turn the digit of its high four bits and the digit of its
/// low four bits, taken from `0123456789abcdef`, with no prefix.
#[verifier::external_body]
fn hex_of(bytes: &[u8]) -> (text: String)
    ensures
        text@ == hex_string(bytes@),
{
    Hex::encode(bytes)
}

/// Writes bytes as lowercase hex text, two digits to the byte.
pub fn hex_encode(bytes: &[u8]) -> (text: String)
    ensures
        text@ == hex_string(bytes@),
        text@.len() == 2 * bytes@.len(),
        forall|i: int| 0 <= i < text@.len() ==> is_lower_hex_digit(#[trigger] text@[i]),
{
    proof {
        lemma_hex_string_shape(bytes@);
    }
    hex_of(bytes)
}

} // verus!
