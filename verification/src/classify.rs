//! The message classifier: the value of the last message-type field of a
//! complete message, or the empty type when it has none.

use crate::fields::FieldMatchers;
use crate::matcher::{capture_fits, Capture};
use vstd::prelude::*;
use vstd::string::StringSliceAdditionalSpecFns;
use vstd::utf8::*;

verus! {

/// True when `span` cuts a piece of text out of `bytes`: it lies inside and
/// starts and ends between characters.
pub open spec fn readable_span(bytes: Seq<u8>, span: (usize, usize)) -> bool {
    &&& span.0 <= span.1 <= bytes.len()
    &&& is_char_boundary(bytes, span.0 as int)
    &&& is_char_boundary(bytes, span.1 as int)
}

/// The value of the last of `fields`, read out of `bytes`; empty without a
/// field, or when the last field captured no value.
pub open spec fn last_field_value(bytes: Seq<u8>, fields: Seq<Capture>) -> Seq<char> {
    if fields.len() > 0 && fields.last().group is Some {
        decode_utf8(
            bytes.subrange(
                fields.last().group->Some_0.0 as int,
                fields.last().group->Some_0.1 as int,
            ),
        )
    } else {
        Seq::empty()
    }
}

/// The message type of the text encoded by `bytes`, given all its
/// message-type fields: the captured value of the last one.  Without such a
/// field the type is empty, which callers take as "not recognised"; so it is
/// when the value's span cannot be read out of the text.
pub open spec fn msg_type_of(bytes: Seq<u8>, fields: Seq<Capture>) -> Seq<char> {
    if fields.len() > 0 && fields.last().group is Some && !readable_span(
        bytes,
        fields.last().group->Some_0,
    ) {
        Seq::empty()
    } else {
        last_field_value(bytes, fields)
    }
}

/// Picks the message type of `msg` out of its message-type fields.
pub fn select_msg_type(msg: &str, fields: &Vec<Capture>) -> (msg_type: String)
    ensures
        msg_type@ == msg_type_of(msg.spec_bytes(), fields@),
{
    broadcast use {
        encode_utf8_valid_utf8,
        encode_utf8_decode_utf8,
        is_char_boundary_iff_not_is_continuation_byte,
        is_char_boundary_start_end_of_seq,
    };

    if fields.len() == 0 {
        return String::new();
    }
    let last = &fields[fields.len() - 1];
    let (start, end) = match last.group {
        Some(span) => span,
        None => { return String::new(); },
    };
    let len: usize = msg.as_bytes().len();
    if !(start <= end && end <= len && msg.is_char_boundary(start) && msg.is_char_boundary(end)) {
        return String::new();
    }
    let (head, _) = msg.split_at(end);
    proof {
        let bytes = msg.spec_bytes();
        let head_bytes = head.spec_bytes();
        assert(valid_utf8(bytes));
        assert(valid_utf8(head_bytes));
        assert(head_bytes =~= bytes.subrange(0, end as int));
        if start < end {
            assert(head_bytes[start as int] == bytes[start as int]);
            is_char_boundary_iff_not_is_continuation_byte(bytes, start as int);
            is_char_boundary_iff_not_is_continuation_byte(head_bytes, start as int);
        } else {
            is_char_boundary_start_end_of_seq(head_bytes);
        }
        assert(is_char_boundary(head_bytes, start as int));
    }
    let (_, value) = head.split_at(start);
    proof {
        assert(value.spec_bytes() =~= msg.spec_bytes().subrange(start as int, end as int));
    }
    value.to_owned()
}

/// The message type of the complete message `msg`: the value of its last
/// message-type field, or the empty type when it has none.
pub fn get_msg_type(matchers: &FieldMatchers, msg: &str) -> (msg_type: String)
    ensures
        msg_type@ == last_field_value(msg.spec_bytes(), matchers.msg_type_captures(msg@)),
{
    let fields = matchers.msg_type_fields(msg);
    proof {
        if fields@.len() > 0 {
            assert(capture_fits(msg@, fields@[fields@.len() - 1]));
        }
    }
    select_msg_type(msg, &fields)
}

} // verus!
