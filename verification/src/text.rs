//! Text handling that the standard library does and Verus has no
//! specification for: decoding UTF-8 and trimming whitespace.

use vstd::prelude::*;
use vstd::utf8::*;

verus! {

/// Whether `c` is whitespace to `str::trim`: a character with the Unicode
/// property `White_Space`.  These are U+0009 to U+000D, U+0020, U+0085,
/// U+00A0, U+1680, U+2000 to U+200A, U+2028, U+2029, U+202F, U+205F and
/// U+3000.  The delimiter U+0001 is not among them.
pub open spec fn is_whitespace(c: char) -> bool {
    let code = c as u32;
    ||| 0x09 <= code <= 0x0d
    ||| code == 0x20
    ||| code == 0x85
    ||| code == 0xa0
    ||| code == 0x1680
    ||| 0x2000 <= code <= 0x200a
    ||| code == 0x2028
    ||| code == 0x2029
    ||| code == 0x202f
    ||| code == 0x205f
    ||| code == 0x3000
}

/// How many whitespace characters `text` begins with.
pub open spec fn leading_whitespace(text: Seq<char>) -> nat
    decreases text.len(),
{
    if text.len() > 0 && is_whitespace(text.first()) {
        1 + leading_whitespace(text.drop_first())
    } else {
        0
    }
}

/// How many whitespace characters `text` ends with.
pub open spec fn trailing_whitespace(text: Seq<char>) -> nat
    decreases text.len(),
{
    if text.len() > 0 && is_whitespace(text.last()) {
        1 + trailing_whitespace(text.drop_last())
    } else {
        0
    }
}

/// `text` without the whitespace it begins with and the whitespace it ends
/// with.
pub open spec fn trimmed(text: Seq<char>) -> Seq<char> {
    let rest = text.skip(leading_whitespace(text) as int);
    rest.take(rest.len() - trailing_whitespace(rest))
}

/// Trimming leaves alone a text that neither begins nor ends with
/// whitespace, the empty text among them.
pub proof fn lemma_trimmed_keeps(text: Seq<char>)
    requires
        text.len() > 0 ==> !is_whitespace(text.first()) && !is_whitespace(text.last()),
    ensures
        trimmed(text) == text,
{
    assert(leading_whitespace(text) == 0);
    assert(text.skip(0) =~= text);
    assert(trailing_whitespace(text) == 0);
    assert(text.take(text.len() as int) =~= text);
}

/// Decodes `bytes` with `core::str::from_utf8`.  The bytes decode exactly
/// when they are well-formed UTF-8, and then to the characters they encode.
#[verifier::external_body]
pub(crate) fn decode<'a>(bytes: &'a [u8]) -> (text: Option<&'a str>)
    ensures
        text is Some <==> valid_utf8(bytes@),
        text is Some ==> text->Some_0@ == decode_utf8(bytes@),
{
    core::str::from_utf8(bytes).ok()
}

/// Trims `text` with `str::trim`, which hands back the part of `text`
/// between its leading and its trailing whitespace.
#[verifier::external_body]
pub(crate) fn trim<'a>(text: &'a str) -> (inner: &'a str)
    ensures
        inner@ == trimmed(text@),
{
    text.trim()
}

} // verus!
