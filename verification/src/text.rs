//! Building and comparing text.

use vstd::prelude::*;
use vstd::utf8::{decode_utf8, encode_utf8_decode_utf8, is_ascii_chars, valid_utf8};

verus! {

/// `String::push` appends one character.
pub assume_specification[ String::push ](text: &mut String, c: char)
    ensures
        final(text)@ == old(text)@.push(c),
;

/// `String::push_str` appends a whole string slice.
pub assume_specification[ String::push_str ](text: &mut String, tail: &str)
    ensures
        final(text)@ == old(text)@ + tail@,
;

/// What `str::to_lowercase` makes of a text.
pub uninterp spec fn lowercase(text: Seq<char>) -> Seq<char>;

/// The lowercase form of one ASCII character; every other character is kept.
pub open spec fn ascii_lower(c: char) -> char {
    if 'A' <= c <= 'Z' {
        (c as u32 + 32) as char
    } else {
        c
    }
}

/// A text with every ASCII capital in lowercase.
pub open spec fn ascii_lowered(text: Seq<char>) -> Seq<char> {
    text.map_values(|c: char| ascii_lower(c))
}

/// Calls `str::to_lowercase`, which follows Unicode's lowercase mapping. On a text of ASCII
/// characters alone the result is the text with `A` to `Z` replaced by `a` to `z`.
#[verifier::external_body]
pub(crate) fn to_lowercase(text: &str) -> (lower: String)
    ensures
        lower@ == lowercase(text@),
        is_ascii_chars(text@) ==> lower@ == ascii_lowered(text@),
{
    text.to_lowercase()
}

/// Whether `needle` occurs in `hay` as a run of consecutive characters.
pub open spec fn contains_text(hay: Seq<char>, needle: Seq<char>) -> bool {
    exists|at: int|
        0 <= at <= hay.len() - needle.len() && #[trigger] hay.subrange(at, at + needle.len())
            == needle
}

/// Calls `str::contains` with a string slice as the pattern: true when the pattern matches a
/// sub-slice of the text.
#[verifier::external_body]
pub(crate) fn str_contains(hay: &str, needle: &str) -> (found: bool)
    ensures
        found == contains_text(hay@, needle@),
{
    hay.contains(needle)
}

/// What `String::from_utf8_lossy` makes of some bytes.
pub uninterp spec fn utf8_lossy(bytes: Seq<u8>) -> Seq<char>;

/// Calls `String::from_utf8_lossy`: bytes that are valid UTF-8 are decoded, and invalid runs
/// become replacement characters.
#[verifier::external_body]
pub(crate) fn from_utf8_lossy(bytes: &[u8]) -> (text: String)
    ensures
        text@ == utf8_lossy(bytes@),
        valid_utf8(bytes@) ==> text@ == decode_utf8(bytes@),
{
    String::from_utf8_lossy(bytes).into_owned()
}

/// Whether two byte slices hold the same bytes.
pub fn bytes_eq(a: &[u8], b: &[u8]) -> (same: bool)
    ensures
        same == (a@ == b@),
{
    if a.len() != b.len() {
        return false;
    }
    let mut i: usize = 0;
    while i < a.len()
        invariant
            a.len() == b.len(),
            i <= a.len(),
            forall|k: int| 0 <= k < i ==> a@[k] == b@[k],
        decreases a.len() - i,
    {
        if a[i] != b[i] {
            return false;
        }
        i += 1;
    }
    assert(a@ =~= b@);
    true
}

/// Whether two string slices hold the same characters.
pub fn str_eq(a: &str, b: &str) -> (same: bool)
    ensures
        same == (a@ == b@),
{
    proof {
        encode_utf8_decode_utf8(a@);
        encode_utf8_decode_utf8(b@);
    }
    bytes_eq(a.as_bytes(), b.as_bytes())
}

/// The decimal digits of a number, with no leading zero.
pub open spec fn decimal(n: nat) -> Seq<char>
    decreases n,
{
    if n < 10 {
        seq![digit(n)]
    } else {
        decimal(n / 10).push(digit(n % 10))
    }
}

/// The character of one decimal digit.
pub open spec fn digit(d: nat) -> char {
    (48 + d) as char
}

/// Appends the decimal digits of `n` to `text`.
pub fn push_decimal(text: &mut String, n: u64)
    ensures
        final(text)@ == old(text)@ + decimal(n as nat),
    decreases n,
{
    if n >= 10 {
        push_decimal(text, n / 10);
    }
    let d: u8 = (n % 10) as u8;
    text.push((48u8 + d) as char);
    assert(text@ =~= old(text)@ + decimal(n as nat));
}

/// The decimal digits of `n` as a text of its own.
pub fn decimal_text(n: u64) -> (text: String)
    ensures
        text@ == decimal(n as nat),
{
    let mut text = String::new();
    push_decimal(&mut text, n);
    assert(text@ =~= decimal(n as nat));
    text
}

} // verus!
