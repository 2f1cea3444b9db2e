//! Hexadecimal digits and the two-digit text of an octet.

use vstd::prelude::*;
use vstd::string::*;

verus! {

/// The value of a hexadecimal digit of either case; `None` for any other character.
pub open spec fn hex_value(c: char) -> Option<u8> {
    if '0' <= c && c <= '9' {
        Some((c as u32 - '0' as u32) as u8)
    } else if 'a' <= c && c <= 'f' {
        Some((c as u32 - 'a' as u32 + 10) as u8)
    } else if 'A' <= c && c <= 'F' {
        Some((c as u32 - 'A' as u32 + 10) as u8)
    } else {
        None
    }
}

/// The lowercase digit that stands for a value below sixteen.
pub open spec fn hex_char(n: u8) -> char {
    if n < 10 {
        ('0' as u32 + n) as char
    } else {
        ('a' as u32 + n - 10) as char
    }
}

/// The lowercase form of a hexadecimal letter; every other character is left as it is.
pub open spec fn lower(c: char) -> char {
    if 'A' <= c && c <= 'F' {
        (c as u32 + 32) as char
    } else {
        c
    }
}

/// Whether a text is exactly two hexadecimal digits.
pub open spec fn is_octet_text(t: Seq<char>) -> bool {
    t.len() == 2 && hex_value(t[0]) is Some && hex_value(t[1]) is Some
}

/// The octet that a two-digit text stands for.
pub open spec fn octet_value(t: Seq<char>) -> u8
    recommends
        is_octet_text(t),
{
    (16 * hex_value(t[0])->0 + hex_value(t[1])->0) as u8
}

/// The two lowercase digits of an octet.
pub open spec fn octet_text(o: u8) -> Seq<char> {
    seq![hex_char(o / 16), hex_char(o % 16)]
}

/// Reads one hexadecimal digit.
pub fn hex_digit(c: char) -> (r: Option<u8>)
    ensures
        r == hex_value(c),
{
    if '0' <= c && c <= '9' {
        Some((c as u32 - '0' as u32) as u8)
    } else if 'a' <= c && c <= 'f' {
        Some((c as u32 - 'a' as u32 + 10) as u8)
    } else if 'A' <= c && c <= 'F' {
        Some((c as u32 - 'A' as u32 + 10) as u8)
    } else {
        None
    }
}

/// The one-character text of a lowercase hexadecimal digit.
pub fn hex_digit_text(n: u8) -> (r: &'static str)
    requires
        n < 16,
    ensures
        r@ == seq![hex_char(n)],
{
    let digits: &'static str = "0123456789abcdef";
    proof {
        reveal_strlit("0123456789abcdef");
    }
    let at: usize = n as usize;
    let r = digits.substring_ascii(at, at + 1);
    assert(r@ =~= seq![hex_char(n)]);
    r
}

/// Writing an octet as two digits and reading them back gives the octet.
pub proof fn lemma_octet_text_round_trip(o: u8)
    ensures
        is_octet_text(octet_text(o)),
        octet_value(octet_text(o)) == o,
{
}

/// Reading two digits as an octet and writing it back gives their lowercase form.
pub proof fn lemma_octet_value_round_trip(t: Seq<char>)
    requires
        is_octet_text(t),
    ensures
        octet_text(octet_value(t)) =~= t.map_values(|c: char| lower(c)),
{
}

} // verus!
