//! The matchers for the two fields this library reads: the checksum (tag
//! `10`) and the message type (tag `35`).

use crate::matcher::{
    all_captures, capture_fits, compile, compiles, find_captures, find_first, first_match,
    pattern_of, span_fits, Capture,
};
use regex::Regex;
use vstd::prelude::*;

verus! {

/// A checksum field: at the start of the text or after a delimiter, `10=`,
/// exactly three decimal digits in the capture group, and the delimiter that
/// closes the field.
pub const CHECKSUM_PATTERN: &'static str = "(?:^|\u{1})10=([0-9]{3})\u{1}";

/// A message-type field: at the start of the text or after a delimiter,
/// `35=`, then one or more characters other than the delimiter in the
/// capture group.
pub const MSG_TYPE_PATTERN: &'static str = "(?:^|\u{1})35=([^\u{1}]+)";

/// Which of the two patterns the engine turned down.
#[derive(Clone, Copy, Debug, PartialEq, Eq, Structural)]
pub enum PatternError {
    /// The checksum pattern did not compile.
    Checksum,
    /// The message-type pattern did not compile.
    MsgType,
}

/// The two compiled patterns.  They are compiled once and shared, read-only,
/// by every session.
pub struct FieldMatchers {
    checksum: Regex,
    msg_type: Regex,
}

impl FieldMatchers {
    /// The pattern text behind the checksum matcher.
    pub closed spec fn checksum_pattern(&self) -> Seq<char> {
        pattern_of(self.checksum)
    }

    /// The pattern text behind the message-type matcher.
    pub closed spec fn msg_type_pattern(&self) -> Seq<char> {
        pattern_of(self.msg_type)
    }

    /// The span of the first checksum field of `text`, as the engine finds
    /// it.
    pub closed spec fn checksum_span(&self, text: Seq<char>) -> Option<(usize, usize)> {
        first_match(self.checksum, text)
    }

    /// All checksum fields of `text`, in order, as the engine finds them.
    pub closed spec fn checksum_captures(&self, text: Seq<char>) -> Seq<Capture> {
        all_captures(self.checksum, text)
    }

    /// All message-type fields of `text`, in order, as the engine finds
    /// them.
    pub closed spec fn msg_type_captures(&self, text: Seq<char>) -> Seq<Capture> {
        all_captures(self.msg_type, text)
    }

    /// True when the matchers were built from the two patterns of the wire
    /// format.
    pub open spec fn standard(&self) -> bool {
        &&& self.checksum_pattern() == CHECKSUM_PATTERN@
        &&& self.msg_type_pattern() == MSG_TYPE_PATTERN@
    }

    /// Puts two compilation results together: the matchers when both
    /// patterns compiled, otherwise the first pattern that failed.
    pub fn from_compiled(
        checksum: Result<Regex, regex::Error>,
        msg_type: Result<Regex, regex::Error>,
    ) -> (built: Result<FieldMatchers, PatternError>)
        ensures
            checksum is Err ==> built == Err::<FieldMatchers, PatternError>(PatternError::Checksum),
            checksum is Ok && msg_type is Err ==> built == Err::<FieldMatchers, PatternError>(
                PatternError::MsgType,
            ),
            checksum is Ok && msg_type is Ok ==> built is Ok,
            built is Ok ==> built->Ok_0.checksum_pattern() == pattern_of(checksum->Ok_0),
            built is Ok ==> built->Ok_0.msg_type_pattern() == pattern_of(msg_type->Ok_0),
            built is Ok ==> forall|text: Seq<char>| #[trigger]
                built->Ok_0.checksum_span(text) == first_match(checksum->Ok_0, text),
            built is Ok ==> forall|text: Seq<char>| #[trigger]
                built->Ok_0.checksum_captures(text) == all_captures(checksum->Ok_0, text),
            built is Ok ==> forall|text: Seq<char>| #[trigger]
                built->Ok_0.msg_type_captures(text) == all_captures(msg_type->Ok_0, text),
    {
        match checksum {
            Err(_) => Err(PatternError::Checksum),
            Ok(checksum) => match msg_type {
                Err(_) => Err(PatternError::MsgType),
                Ok(msg_type) => Ok(FieldMatchers { checksum, msg_type }),
            },
        }
    }

    /// Compiles the two patterns of the wire format, once for all sessions.
    /// The matchers come back when the engine takes both patterns, and they
    /// are then the standard ones; otherwise the first pattern that it turns
    /// down is named.
    pub fn new() -> (built: Result<FieldMatchers, PatternError>)
        ensures
            built is Ok <==> compiles(CHECKSUM_PATTERN@) && compiles(MSG_TYPE_PATTERN@),
            built is Ok ==> built->Ok_0.standard(),
            !compiles(CHECKSUM_PATTERN@) ==> built == Err::<FieldMatchers, PatternError>(
                PatternError::Checksum,
            ),
            compiles(CHECKSUM_PATTERN@) && !compiles(MSG_TYPE_PATTERN@) ==> built == Err::<
                FieldMatchers,
                PatternError,
            >(PatternError::MsgType),
    {
        FieldMatchers::from_compiled(compile(CHECKSUM_PATTERN), compile(MSG_TYPE_PATTERN))
    }

    /// The span of the first checksum field in `text`, if it has one.
    pub fn first_checksum_field(&self, text: &str) -> (found: Option<(usize, usize)>)
        ensures
            found == self.checksum_span(text@),
            found is Some ==> span_fits(text@, found->Some_0),
    {
        find_first(&self.checksum, text)
    }

    /// Every checksum field of `text`, in order.
    pub fn checksum_fields(&self, text: &str) -> (found: Vec<Capture>)
        ensures
            found@ == self.checksum_captures(text@),
            forall|i: int| 0 <= i < found@.len() ==> capture_fits(text@, #[trigger] found@[i]),
    {
        find_captures(&self.checksum, text)
    }

    /// Every message-type field of `text`, in order.
    pub fn msg_type_fields(&self, text: &str) -> (found: Vec<Capture>)
        ensures
            found@ == self.msg_type_captures(text@),
            forall|i: int| 0 <= i < found@.len() ==> capture_fits(text@, #[trigger] found@[i]),
    {
        find_captures(&self.msg_type, text)
    }
}

} // verus!
