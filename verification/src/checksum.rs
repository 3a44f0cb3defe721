//! The checksum validator: recompute the checksum of a complete message and
//! compare it with the three digits the message carries.
//!
//! A mismatch is a finding, not a failure: the message is dispatched all the
//! same.

use crate::fields::FieldMatchers;
use crate::matcher::Capture;
use crate::wire::{byte_sum, checksum_of, checksum_range, lemma_byte_sum_concat, CHECKSUM_MODULUS};
use vstd::prelude::*;
use vstd::string::StringSliceAdditionalSpecFns;

verus! {

/// What the validator found.
#[derive(Clone, Copy, Debug, PartialEq, Eq, Structural)]
pub enum ChecksumStatus {
    /// The digits carried equal the checksum of the rest of the message.
    Valid,
    /// They differ.
    Mismatch {
        /// The checksum of the message without its checksum field.
        expected: u32,
        /// The value of the three digits.
        carried: u32,
    },
    /// The message has no checksum field to compare with.
    Missing,
}

/// An ASCII decimal digit.
pub open spec fn is_digit(b: u8) -> bool {
    0x30 <= b <= 0x39
}

/// The number that three decimal digits denote; `None` for anything else.
pub open spec fn field_value(digits: Seq<u8>) -> Option<u32> {
    if digits.len() == 3 && is_digit(digits[0]) && is_digit(digits[1]) && is_digit(digits[2]) {
        Some(((digits[0] - 0x30) * 100 + (digits[1] - 0x30) * 10 + (digits[2] - 0x30)) as u32)
    } else {
        None
    }
}

/// The three digits, zero-padded, that stand for `value`.
pub open spec fn checksum_digits(value: nat) -> Seq<u8>
    recommends
        value < 1000,
{
    seq![
        (0x30 + value / 100) as u8,
        (0x30 + (value / 10) % 10) as u8,
        (0x30 + value % 10) as u8,
    ]
}

/// How many bytes the tag and the equals sign take in front of the digits.
pub const TAG_LEN: usize = 3;

/// True when the spans of `field` lie inside a text of `len` bytes: the
/// digits inside the match, with room for the tag between the start of the
/// match and the digits.
pub open spec fn well_placed(field: Capture, len: nat) -> bool {
    &&& field.group is Some
    &&& field.start + TAG_LEN <= field.group->Some_0.0
    &&& field.group->Some_0.0 <= field.group->Some_0.1
    &&& field.group->Some_0.1 <= field.end
    &&& field.end <= len
}

/// Where the checksum field itself begins: at its tag.  A delimiter that
/// the match holds in front of the tag closes the field before and is not
/// part of this one.
pub open spec fn field_start(field: Capture) -> int
    recommends
        field.group is Some,
{
    field.group->Some_0.0 - TAG_LEN
}

/// `bytes` with the checksum field cut out: the field runs from its tag to
/// the end of the match, which is the delimiter that closes it.  What is
/// left is everything in front of the field and everything behind it.
pub open spec fn without_field(bytes: Seq<u8>, field: Capture) -> Seq<u8>
    recommends
        well_placed(field, bytes.len()),
{
    bytes.subrange(0, field_start(field)) + bytes.subrange(field.end as int, bytes.len() as int)
}

/// The finding for `bytes` when `field` is taken as its checksum field.
pub open spec fn status_at(bytes: Seq<u8>, field: Capture) -> ChecksumStatus {
    if !well_placed(field, bytes.len()) {
        ChecksumStatus::Missing
    } else {
        match field_value(
            bytes.subrange(field.group->Some_0.0 as int, field.group->Some_0.1 as int),
        ) {
            None => ChecksumStatus::Missing,
            Some(carried) => {
                let expected = checksum_of(without_field(bytes, field)) as u32;
                if carried == expected {
                    ChecksumStatus::Valid
                } else {
                    ChecksumStatus::Mismatch { expected, carried }
                }
            },
        }
    }
}

/// The finding for `bytes` given all its checksum fields: the last one is
/// the one that counts, and only that one is left out of the sum.
pub open spec fn status_of(bytes: Seq<u8>, fields: Seq<Capture>) -> ChecksumStatus {
    if fields.len() == 0 {
        ChecksumStatus::Missing
    } else {
        status_at(bytes, fields.last())
    }
}

/// Reads three decimal digits at `from..to`.
pub fn parse_field_value(bytes: &[u8], from: usize, to: usize) -> (value: Option<u32>)
    requires
        from <= to <= bytes@.len(),
    ensures
        value == field_value(bytes@.subrange(from as int, to as int)),
{
    if to - from != 3 {
        return None;
    }
    let a: u8 = bytes[from];
    let b: u8 = bytes[from + 1];
    let c: u8 = bytes[from + 2];
    proof {
        let digits = bytes@.subrange(from as int, to as int);
        assert(digits[0] == a && digits[1] == b && digits[2] == c);
    }
    if 0x30 <= a && a <= 0x39 && 0x30 <= b && b <= 0x39 && 0x30 <= c && c <= 0x39 {
        let hundreds: u32 = (a - 0x30) as u32;
        let tens: u32 = (b - 0x30) as u32;
        let units: u32 = (c - 0x30) as u32;
        Some(hundreds * 100 + tens * 10 + units)
    } else {
        None
    }
}

/// Checks `bytes` against the checksum field at `field`.
pub fn check_at(bytes: &[u8], field: &Capture) -> (status: ChecksumStatus)
    ensures
        status == status_at(bytes@, *field),
{
    let (group_start, group_end) = match field.group {
        Some(span) => span,
        None => { return ChecksumStatus::Missing; },
    };
    if !(group_start >= TAG_LEN && field.start <= group_start - TAG_LEN && group_start <= group_end
        && group_end <= field.end && field.end <= bytes.len()) {
        return ChecksumStatus::Missing;
    }
    match parse_field_value(bytes, group_start, group_end) {
        None => ChecksumStatus::Missing,
        Some(carried) => {
            let before: u32 = checksum_range(bytes, 0, group_start - TAG_LEN);
            let after: u32 = checksum_range(bytes, field.end, bytes.len());
            let expected: u32 = (before + after) % CHECKSUM_MODULUS;
            proof {
                let head = bytes@.subrange(0, field_start(*field));
                let tail = bytes@.subrange(field.end as int, bytes@.len() as int);
                lemma_byte_sum_concat(head, tail);
                lemma_mod_of_sum(byte_sum(head) as int, byte_sum(tail) as int);
            }
            if carried == expected {
                ChecksumStatus::Valid
            } else {
                ChecksumStatus::Mismatch { expected, carried }
            }
        },
    }
}

/// Checks `bytes` given all its checksum fields.
pub fn check_fields(bytes: &[u8], fields: &Vec<Capture>) -> (status: ChecksumStatus)
    ensures
        status == status_of(bytes@, fields@),
{
    if fields.len() == 0 {
        ChecksumStatus::Missing
    } else {
        check_at(bytes, &fields[fields.len() - 1])
    }
}

/// Validates the checksum of the complete message `msg`.
pub fn validate_checksum(matchers: &FieldMatchers, msg: &str) -> (status: ChecksumStatus)
    ensures
        status == status_of(msg.spec_bytes(), matchers.checksum_captures(msg@)),
{
    let fields = matchers.checksum_fields(msg);
    check_fields(msg.as_bytes(), &fields)
}

/// The bytes of a checksum field that carries `value`: `10=`, the three
/// digits and the closing delimiter.
pub open spec fn checksum_field_bytes(value: nat) -> Seq<u8>
    recommends
        value < 1000,
{
    seq![0x31u8, 0x30u8, 0x3du8] + checksum_digits(value) + seq![0x01u8]
}

/// The spans of a checksum field whose tag begins at byte `tag_at`, found
/// by a match that begins at `match_at`: there, or at a delimiter in front.
pub open spec fn checksum_field_at(match_at: usize, tag_at: usize) -> Capture
    recommends
        match_at <= tag_at,
        tag_at + 7 <= usize::MAX,
{
    Capture {
        start: match_at,
        end: (tag_at + 7) as usize,
        group: Some(((tag_at + 3) as usize, (tag_at + 6) as usize)),
    }
}

/// The three digits that stand for a value below 1000 denote that value.
pub proof fn lemma_digits_denote(value: nat)
    requires
        value < 1000,
    ensures
        field_value(checksum_digits(value)) == Some(value as u32),
{
    let d = checksum_digits(value);
    assert(d.len() == 3);
    assert(value / 100 < 10 && (value / 10) % 10 < 10 && value % 10 < 10);
    assert((value / 100) * 100 + ((value / 10) % 10) * 10 + value % 10 == value);
}

/// A message made of `head`, a checksum field that carries `carried`, and
/// `tail` validates exactly when `carried` is the checksum of `head` and
/// `tail` together; otherwise the validator reports both values.  So a
/// message sealed with its true checksum is valid, and the same message with
/// the carried value off by one is not.  Where the match begins, at the tag
/// or in front of it, makes no difference.
pub proof fn lemma_carried_value_decides(
    head: Seq<u8>,
    tail: Seq<u8>,
    carried: nat,
    match_at: usize,
)
    requires
        carried < 1000,
        match_at <= head.len(),
        head.len() + 7 + tail.len() <= usize::MAX,
    ensures
        status_at(
            head + checksum_field_bytes(carried) + tail,
            checksum_field_at(match_at, head.len() as usize),
        ) == (if carried == checksum_of(head + tail) {
            ChecksumStatus::Valid
        } else {
            ChecksumStatus::Mismatch {
                expected: checksum_of(head + tail) as u32,
                carried: carried as u32,
            }
        }),
        carried == checksum_of(head + tail) + 1 ==> status_at(
            head + checksum_field_bytes(carried) + tail,
            checksum_field_at(match_at, head.len() as usize),
        ) is Mismatch,
{
    let msg = head + checksum_field_bytes(carried) + tail;
    let field = checksum_field_at(match_at, head.len() as usize);
    let at = head.len() as int;
    assert(well_placed(field, msg.len()));
    assert(field_start(field) == at);
    assert(msg.subrange(at + 3, at + 6) =~= checksum_digits(carried));
    assert(without_field(msg, field) =~= head + tail);
    lemma_digits_denote(carried);
}

proof fn lemma_mod_of_sum(a: int, b: int)
    requires
        0 <= a,
        0 <= b,
    ensures
        ((a % 256) + (b % 256)) % 256 == (a + b) % 256,
{
    assert(((a % 256) + (b % 256)) % 256 == (a + b) % 256) by (nonlinear_arith)
        requires
            0 <= a,
            0 <= b,
    ;
}

} // verus!
