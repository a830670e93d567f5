//! ASCII text building: decimal rendering of unsigned integers into a byte
//! buffer, and the bridge from a buffer of ASCII bytes to a `String`.

use vstd::prelude::*;

verus! {

/// The characters that a sequence of ASCII bytes stands for, byte by byte.
pub open spec fn ascii_view(bytes: Seq<u8>) -> Seq<char> {
    Seq::new(bytes.len(), |i: int| bytes[i] as char)
}

/// Every byte is an ASCII code point.
pub open spec fn ascii_only(bytes: Seq<u8>) -> bool {
    forall|i: int| 0 <= i < bytes.len() ==> bytes[i] < 128
}

/// The character for one decimal digit.
pub open spec fn spec_digit_char(d: int) -> char {
    (48 + d) as char
}

/// The decimal rendering of a non-negative integer, without sign or padding.
pub open spec fn spec_decimal(n: int) -> Seq<char>
    decreases n,
{
    if n <= 9 {
        seq![spec_digit_char(n)]
    } else {
        spec_decimal(n / 10) + seq![spec_digit_char(n % 10)]
    }
}

/// The decimal rendering of an integer, with a leading minus sign when negative.
pub open spec fn spec_int_str(n: int) -> Seq<char> {
    if n < 0 {
        seq!['-'] + spec_decimal(-n)
    } else {
        spec_decimal(n)
    }
}

pub proof fn lemma_ascii_view_push(s: Seq<u8>, b: u8)
    ensures
        ascii_view(s.push(b)) =~= ascii_view(s).push(b as char),
{
}

/// Appends the decimal rendering of `n` to `out`.
pub fn push_decimal(out: &mut Vec<u8>, n: u64)
    ensures
        ascii_view(final(out)@) == ascii_view(old(out)@) + spec_decimal(n as int),
        ascii_only(old(out)@) ==> ascii_only(final(out)@),
    decreases n,
{
    if n > 9 {
        push_decimal(out, n / 10);
    }
    let ghost mid = out@;
    let d: u8 = (n % 10) as u8 + 48;
    out.push(d);
    proof {
        lemma_ascii_view_push(mid, d);
        assert(ascii_view(out@) =~= ascii_view(old(out)@) + spec_decimal(n as int));
        assert(ascii_only(old(out)@) ==> ascii_only(out@));
    }
}

/// Relies on `String::from_utf8` from std: a buffer of ASCII bytes is valid
/// UTF-8 and decodes to exactly those characters, one per byte.
#[verifier::external_body]
pub(crate) fn ascii_string(bytes: Vec<u8>) -> (r: String)
    requires
        ascii_only(bytes@),
    ensures
        r@ == ascii_view(bytes@),
{
    String::from_utf8(bytes).unwrap_or_default()
}

} // verus!
