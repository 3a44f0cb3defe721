//! The regular-expression engine that locates fields in a message.
//!
//! The engine is the `regex` crate.  Nothing in this module is proved about
//! how it matches: each search result is named by a spec function of the
//! compiled pattern and the searched text, and the rest of the library
//! reasons about those names.

use regex::Regex;
use vstd::prelude::*;
use vstd::utf8::*;

verus! {

/// `regex::Regex`, a compiled pattern.
#[verifier::external_type_specification]
#[verifier::external_body]
pub struct ExRegex(regex::Regex);

/// `regex::Error`, the reason a pattern did not compile.
#[verifier::external_type_specification]
#[verifier::external_body]
pub struct ExRegexError(regex::Error);

/// One match of a pattern that has a capture group.  All offsets count bytes
/// of the searched text.
#[derive(Clone, Copy, Debug, PartialEq, Eq)]
pub struct Capture {
    /// Where the whole match begins.
    pub start: usize,
    /// Where the whole match ends (exclusive).
    pub end: usize,
    /// The span of the first capture group, if it took part in the match.
    pub group: Option<(usize, usize)>,
}

/// True when `span` cuts a piece out of `text`: it lies inside the bytes of
/// the text, and starts and ends between characters.
pub open spec fn span_fits(text: Seq<char>, span: (usize, usize)) -> bool {
    &&& span.0 <= span.1 <= encode_utf8(text).len()
    &&& is_char_boundary(encode_utf8(text), span.0 as int)
    &&& is_char_boundary(encode_utf8(text), span.1 as int)
}

/// True when the match and its capture group each cut a piece out of `text`.
pub open spec fn capture_fits(text: Seq<char>, capture: Capture) -> bool {
    &&& span_fits(text, (capture.start, capture.end))
    &&& capture.group is Some ==> span_fits(text, capture.group->Some_0)
}

/// Whether `regex::Regex::new` takes `pattern`: it is well-formed and its
/// compiled form stays within the engine's size limit.
pub uninterp spec fn compiles(pattern: Seq<char>) -> bool;

/// The pattern text that a compiled pattern was built from, which
/// `regex::Regex::as_str` gives back.
pub uninterp spec fn pattern_of(re: Regex) -> Seq<char>;

/// The span of the first match of `re` in `text`, if there is one.
pub uninterp spec fn first_match(re: Regex, text: Seq<char>) -> Option<(usize, usize)>;

/// The successive non-overlapping matches of `re` in `text`, in order.
pub uninterp spec fn all_captures(re: Regex, text: Seq<char>) -> Seq<Capture>;

/// Compiles `pattern` with `regex::Regex::new`.  Whether a pattern compiles
/// is for the engine to say, and it says the same of the same pattern every
/// time; a compiled pattern remembers its text.
#[verifier::external_body]
pub(crate) fn compile(pattern: &str) -> (compiled: Result<Regex, regex::Error>)
    ensures
        compiled is Ok <==> compiles(pattern@),
        compiled is Ok ==> pattern_of(compiled->Ok_0) == pattern@,
{
    Regex::new(pattern)
}

/// Searches `text` with `regex::Regex::find` and hands back the byte span of
/// the first match.  The engine promises of every match that it starts no
/// later than it ends and that the text can be sliced at both offsets.
#[verifier::external_body]
pub(crate) fn find_first(re: &Regex, text: &str) -> (found: Option<(usize, usize)>)
    ensures
        found == first_match(*re, text@),
        found is Some ==> span_fits(text@, found->Some_0),
{
    re.find(text).map(|m| (m.start(), m.end()))
}

/// Walks `text` with `regex::Regex::captures_iter` and hands back, for each
/// match in order, its span and the span of capture group 1.  The engine
/// promises of the match and of the group what it promises of every match.
#[verifier::external_body]
pub(crate) fn find_captures(re: &Regex, text: &str) -> (found: Vec<Capture>)
    ensures
        found@ == all_captures(*re, text@),
        forall|i: int| 0 <= i < found@.len() ==> capture_fits(text@, #[trigger] found@[i]),
{
    re.captures_iter(text)
        .map(|c| Capture {
            start: c.get_match().start(),
            end: c.get_match().end(),
            group: c.get(1).map(|m| (m.start(), m.end())),
        })
        .collect()
}

} // verus!
