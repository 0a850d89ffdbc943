//! Lower-case hexadecimal notation of bytes.

use vstd::prelude::*;

verus! {

/// The character of the hexadecimal digit `d`, in lower case.
pub open spec fn hex_digit(d: int) -> char
    recommends
        0 <= d < 16,
{
    if d < 10 {
        (('0' as u8) + d) as u8 as char
    } else {
        (('a' as u8) + d - 10) as u8 as char
    }
}

/// The hexadecimal notation of `bytes`: two digits for each byte, the high
/// half first.
pub open spec fn hex_encoding(bytes: Seq<u8>) -> Seq<char> {
    Seq::new(
        2 * bytes.len(),
        |i: int|
            if i % 2 == 0 {
                hex_digit(bytes[i / 2] as int / 16)
            } else {
                hex_digit(bytes[i / 2] as int % 16)
            },
    )
}

/// Whether `c` is a digit or a lower-case letter.
pub open spec fn is_plain(c: char) -> bool {
    ('0' <= c && c <= '9') || ('a' <= c && c <= 'z')
}

/// The notation is made of digits and lower-case letters.
pub proof fn lemma_hex_encoding_plain(bytes: Seq<u8>)
    ensures
        hex_encoding(bytes).len() == 2 * bytes.len(),
        forall|i: int| 0 <= i < 2 * bytes.len() ==> is_plain(#[trigger] hex_encoding(bytes)[i]),
{
    assert forall|i: int| 0 <= i < 2 * bytes.len() implies is_plain(
        #[trigger] hex_encoding(bytes)[i],
    ) by {
        let d = if i % 2 == 0 {
            bytes[i / 2] as int / 16
        } else {
            bytes[i / 2] as int % 16
        };
        assert(0 <= d < 16);
        assert(hex_encoding(bytes)[i] == hex_digit(d));
    }
}

/// Different bytes have different notations.
pub proof fn lemma_hex_encoding_injective(a: Seq<u8>, b: Seq<u8>)
    requires
        hex_encoding(a) == hex_encoding(b),
    ensures
        a == b,
{
    assert(hex_encoding(a).len() == 2 * a.len());
    assert(hex_encoding(b).len() == 2 * b.len());
    assert forall|i: int| 0 <= i < a.len() implies a[i] == b[i] by {
        let high_a = a[i] as int / 16;
        let high_b = b[i] as int / 16;
        let low_a = a[i] as int % 16;
        let low_b = b[i] as int % 16;
        assert(hex_encoding(a)[2 * i] == hex_digit(high_a));
        assert(hex_encoding(b)[2 * i] == hex_digit(high_b));
        assert(hex_encoding(a)[2 * i + 1] == hex_digit(low_a));
        assert(hex_encoding(b)[2 * i + 1] == hex_digit(low_b));
        assert(high_a == high_b);
        assert(low_a == low_b);
    }
    assert(a =~= b);
}

/// Calls `hex::encode`, which writes each byte as two digits out of
/// `0123456789abcdef`: first the digit of the byte's high four bits, then that
/// of its low four bits.
#[verifier::external_body]
pub(crate) fn hex_encode(bytes: &[u8]) -> (text: String)
    ensures
        text@ == hex_encoding(bytes@),
{
    hex::encode(bytes)
}

} // verus!
