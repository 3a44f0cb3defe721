//! The frame reader: it gathers delimiter-terminated chunks of a byte stream
//! until the gathered text holds a checksum field, and hands that text out as
//! one complete message.

use crate::fields::FieldMatchers;
use crate::text::{decode, is_whitespace, lemma_trimmed_keeps, trim, trimmed};
use crate::wire::SOH;
use vstd::prelude::*;
use vstd::string::{StringExecFns, StringSliceAdditionalSpecFns};
use vstd::utf8::*;

verus! {

/// Why no message could be framed.
#[derive(Clone, Copy, Debug, PartialEq, Eq, Structural)]
pub enum FrameError {
    /// The peer closed the stream before a message was complete.
    Disconnected,
    /// A chunk was not well-formed UTF-8, or the gathered text outgrew the
    /// reader's limit.
    Decoding,
}

/// The text gathered so far with one more chunk appended: the chunk is
/// decoded and trimmed of surrounding whitespace first.  An empty chunk adds
/// nothing.
pub open spec fn extended(gathered: Seq<char>, chunk: Seq<u8>) -> Seq<char> {
    if chunk.len() == 0 {
        gathered
    } else {
        gathered + trimmed(decode_utf8(chunk))
    }
}

/// A text is complete once the checksum matcher finds a field in it.
pub open spec fn is_complete(matchers: &FieldMatchers, text: Seq<char>) -> bool {
    matchers.checksum_span(text) is Some
}

/// True when `text` takes more bytes than `limit` allows.  Without a limit
/// no text is too long.
pub open spec fn over_limit(limit: Option<usize>, text: Seq<char>) -> bool {
    limit is Some && encode_utf8(text).len() > limit->Some_0
}

/// The state of one connection's framing: the text gathered since the last
/// complete message, and how long that text may get.
pub struct FrameReader {
    gathered: String,
    limit: Option<usize>,
}

impl FrameReader {
    /// The text gathered since the last complete message.
    pub closed spec fn gathered(&self) -> Seq<char> {
        self.gathered@
    }

    /// The most bytes the gathered text may take, if that is limited.
    pub closed spec fn limit(&self) -> Option<usize> {
        self.limit
    }

    /// A reader that has gathered nothing and gathers without limit.
    pub fn new() -> (reader: FrameReader)
        ensures
            reader.gathered() == Seq::<char>::empty(),
            reader.limit() is None,
    {
        FrameReader { gathered: String::new(), limit: None }
    }

    /// A reader that has gathered nothing and gives up on a message once
    /// its text takes more than `limit` bytes.
    pub fn with_limit(limit: usize) -> (reader: FrameReader)
        ensures
            reader.gathered() == Seq::<char>::empty(),
            reader.limit() == Some(limit),
    {
        FrameReader { gathered: String::new(), limit: Some(limit) }
    }

    /// Takes in the bytes of one delimited read: everything up to and
    /// including the next delimiter, less at the end of the stream, nothing
    /// once the peer has closed it.
    ///
    /// A chunk that does not decode leaves the reader as it was.  Otherwise
    /// the chunk is appended.  Text that has outgrown the limit is an error.
    /// Text that is complete is handed out, and the reader starts afresh.
    /// Completion is tested before the empty read is taken as a disconnect.
    pub fn push_chunk(&mut self, matchers: &FieldMatchers, chunk: &[u8]) -> (outcome: Result<
        Option<String>,
        FrameError,
    >)
        ensures
            final(self).limit() == old(self).limit(),
            !valid_utf8(chunk@) ==> outcome == Err::<Option<String>, FrameError>(
                FrameError::Decoding,
            ) && final(self).gathered() == old(self).gathered(),
            valid_utf8(chunk@) && over_limit(
                old(self).limit(),
                extended(old(self).gathered(), chunk@),
            ) ==> outcome == Err::<Option<String>, FrameError>(FrameError::Decoding)
                && final(self).gathered() == extended(old(self).gathered(), chunk@),
            valid_utf8(chunk@) && !over_limit(
                old(self).limit(),
                extended(old(self).gathered(), chunk@),
            ) && is_complete(
                matchers,
                extended(old(self).gathered(), chunk@),
            ) ==> outcome is Ok && outcome->Ok_0 is Some && outcome->Ok_0->Some_0@ == extended(
                old(self).gathered(),
                chunk@,
            ) && final(self).gathered() == Seq::<char>::empty(),
            valid_utf8(chunk@) && !over_limit(
                old(self).limit(),
                extended(old(self).gathered(), chunk@),
            ) && !is_complete(
                matchers,
                extended(old(self).gathered(), chunk@),
            ) ==> final(self).gathered() == extended(old(self).gathered(), chunk@) && outcome == (
            if chunk@.len() == 0 {
                Err::<Option<String>, FrameError>(FrameError::Disconnected)
            } else {
                Ok::<Option<String>, FrameError>(None)
            }),
    {
        if chunk.len() > 0 {
            let text = match decode(chunk) {
                Some(text) => text,
                None => { return Err(FrameError::Decoding); },
            };
            self.gathered.append(trim(text));
        }
        if let Some(limit) = self.limit {
            if self.gathered.as_str().as_bytes().len() > limit {
                return Err(FrameError::Decoding);
            }
        }
        if matchers.first_checksum_field(self.gathered.as_str()).is_some() {
            let mut message = String::new();
            core::mem::swap(&mut self.gathered, &mut message);
            Ok(Some(message))
        } else if chunk.len() == 0 {
            Err(FrameError::Disconnected)
        } else {
            Ok(None)
        }
    }
}

/// Where the delimited read that starts at `pos` ends: just after the next
/// delimiter, or at the end of the stream when no delimiter is left.
pub open spec fn chunk_end(stream: Seq<u8>, pos: int) -> int
    decreases stream.len() - pos,
{
    if pos < 0 || pos >= stream.len() {
        stream.len() as int
    } else if stream[pos] == SOH {
        pos + 1
    } else {
        chunk_end(stream, pos + 1)
    }
}

/// What reading one message off a finished stream gives, starting at `pos`
/// with `gathered` already taken in: the message and the position after it,
/// or the reason there is none.
pub open spec fn frame_from(
    matchers: &FieldMatchers,
    stream: Seq<u8>,
    pos: int,
    gathered: Seq<char>,
) -> Result<(Seq<char>, int), FrameError>
    decreases stream.len() - pos,
{
    if pos < 0 || pos > stream.len() {
        Err(FrameError::Disconnected)
    } else {
        let end = chunk_end(stream, pos);
        let chunk = stream.subrange(pos, end);
        if !valid_utf8(chunk) {
            Err(FrameError::Decoding)
        } else if is_complete(matchers, extended(gathered, chunk)) {
            Ok((extended(gathered, chunk), end))
        } else if pos >= stream.len() {
            Err(FrameError::Disconnected)
        } else {
            proof {
                lemma_chunk_end_bounds(stream, pos);
            }
            frame_from(matchers, stream, end, extended(gathered, chunk))
        }
    }
}

/// A delimited read never goes backwards nor past the end, and it takes in
/// at least one byte while any are left.
pub proof fn lemma_chunk_end_bounds(stream: Seq<u8>, pos: int)
    requires
        0 <= pos <= stream.len(),
    ensures
        pos <= chunk_end(stream, pos) <= stream.len(),
        pos < stream.len() ==> pos < chunk_end(stream, pos),
    decreases stream.len() - pos,
{
    if pos < stream.len() && stream[pos] != SOH {
        lemma_chunk_end_bounds(stream, pos + 1);
    }
}

/// Finds where the delimited read that starts at `pos` ends.
pub fn next_chunk_end(stream: &[u8], pos: usize) -> (end: usize)
    requires
        pos <= stream@.len(),
    ensures
        end == chunk_end(stream@, pos as int),
        pos <= end <= stream@.len(),
{
    let mut i: usize = pos;
    while i < stream.len() && stream[i] != SOH
        invariant
            pos <= i <= stream@.len(),
            chunk_end(stream@, pos as int) == chunk_end(stream@, i as int),
        decreases stream@.len() - i,
    {
        i += 1;
    }
    proof {
        lemma_chunk_end_bounds(stream@, pos as int);
    }
    if i < stream.len() {
        i + 1
    } else {
        i
    }
}

/// Reads the next complete message off the finished stream `stream`,
/// starting at `pos`.  On success the message comes with the position just
/// after the bytes it took.
pub fn read_fix(matchers: &FieldMatchers, stream: &[u8], pos: usize) -> (outcome: Result<
    (String, usize),
    FrameError,
>)
    requires
        pos <= stream@.len(),
    ensures
        match outcome {
            Ok((message, next)) => frame_from(
                matchers,
                stream@,
                pos as int,
                Seq::empty(),
            ) == Ok::<(Seq<char>, int), FrameError>((message@, next as int)) && pos <= next
                <= stream@.len(),
            Err(reason) => frame_from(
                matchers,
                stream@,
                pos as int,
                Seq::empty(),
            ) == Err::<(Seq<char>, int), FrameError>(reason),
        },
{
    let mut reader = FrameReader::new();
    let mut at: usize = pos;
    loop
        invariant
            pos <= at <= stream@.len(),
            reader.limit() is None,
            frame_from(matchers, stream@, pos as int, Seq::empty())
                == frame_from(matchers, stream@, at as int, reader.gathered()),
        decreases stream@.len() - at,
    {
        let end: usize = next_chunk_end(stream, at);
        let chunk = vstd::slice::slice_subrange(stream, at, end);
        proof {
            lemma_chunk_end_bounds(stream@, at as int);
        }
        match reader.push_chunk(matchers, chunk) {
            Err(reason) => {
                return Err(reason);
            },
            Ok(Some(message)) => {
                return Ok((message, end));
            },
            Ok(None) => {
                at = end;
            },
        }
    }
}

/// A stream that ends with the delimiter.
pub open spec fn delimiter_terminated(stream: Seq<u8>) -> bool {
    stream.len() > 0 && stream.last() == SOH
}

/// Moves the position in a successful read `by` bytes to the right.
pub open spec fn shifted(outcome: Result<(Seq<char>, int), FrameError>, by: int) -> Result<
    (Seq<char>, int),
    FrameError,
> {
    match outcome {
        Ok((message, next)) => Ok((message, next + by)),
        Err(reason) => Err(reason),
    }
}

/// Within a delimiter-terminated stream, what follows the stream does not
/// move the end of a delimited read.
pub proof fn lemma_chunk_end_before(first: Seq<u8>, rest: Seq<u8>, pos: int)
    requires
        delimiter_terminated(first),
        0 <= pos < first.len(),
    ensures
        chunk_end(first + rest, pos) == chunk_end(first, pos),
        chunk_end(first, pos) <= first.len(),
    decreases first.len() - pos,
{
    assert((first + rest)[pos] == first[pos]);
    if first[pos] != SOH {
        lemma_chunk_end_before(first, rest, pos + 1);
    }
}

/// Behind a prefix, delimited reads end where they end in the rest alone,
/// moved by the length of the prefix.
pub proof fn lemma_chunk_end_behind(first: Seq<u8>, rest: Seq<u8>, pos: int)
    requires
        0 <= pos <= rest.len(),
    ensures
        chunk_end(first + rest, first.len() + pos) == first.len() + chunk_end(rest, pos),
    decreases rest.len() - pos,
{
    if pos < rest.len() {
        assert((first + rest)[first.len() + pos] == rest[pos]);
        if rest[pos] != SOH {
            lemma_chunk_end_behind(first, rest, pos + 1);
        }
    }
}

/// A read that succeeds inside a delimiter-terminated stream gives the same
/// message, and ends at the same place, whatever follows the stream.
pub proof fn lemma_frame_before(
    matchers: &FieldMatchers,
    first: Seq<u8>,
    rest: Seq<u8>,
    pos: int,
    gathered: Seq<char>,
)
    requires
        delimiter_terminated(first),
        0 <= pos < first.len(),
        frame_from(matchers, first, pos, gathered) is Ok,
    ensures
        frame_from(matchers, first + rest, pos, gathered) == frame_from(
            matchers,
            first,
            pos,
            gathered,
        ),
    decreases first.len() - pos,
{
    lemma_chunk_end_before(first, rest, pos);
    lemma_chunk_end_bounds(first, pos);
    let end = chunk_end(first, pos);
    let chunk = first.subrange(pos, end);
    assert((first + rest).subrange(pos, end) =~= chunk);
    let text = extended(gathered, chunk);
    if valid_utf8(chunk) && !is_complete(matchers, text) {
        if end < first.len() {
            lemma_frame_before(matchers, first, rest, end, text);
        } else {
            let nothing = first.subrange(end, end);
            assert(chunk_end(first, end) == end);
            assert(nothing.len() == 0);
            assert(extended(text, nothing) == text);
            assert(frame_from(matchers, first, end, text) is Err);
            assert(frame_from(matchers, first, pos, gathered) == frame_from(
                matchers,
                first,
                end,
                text,
            ));
        }
    }
}

/// Behind a prefix, a read gives what it gives in the rest alone, with the
/// position moved by the length of the prefix.
pub proof fn lemma_frame_behind(
    matchers: &FieldMatchers,
    first: Seq<u8>,
    rest: Seq<u8>,
    pos: int,
    gathered: Seq<char>,
)
    requires
        0 <= pos <= rest.len(),
    ensures
        frame_from(matchers, first + rest, first.len() + pos, gathered) == shifted(
            frame_from(matchers, rest, pos, gathered),
            first.len() as int,
        ),
    decreases rest.len() - pos,
{
    lemma_chunk_end_behind(first, rest, pos);
    lemma_chunk_end_bounds(rest, pos);
    let end = chunk_end(rest, pos);
    let chunk = rest.subrange(pos, end);
    assert((first + rest).subrange(first.len() + pos, first.len() + end) =~= chunk);
    let text = extended(gathered, chunk);
    if valid_utf8(chunk) && !is_complete(matchers, text) && pos < rest.len() {
        lemma_frame_behind(matchers, first, rest, end, text);
    }
}

/// Two messages sent back to back come out as two messages, in order: if
/// `first` alone frames as one message that takes all its bytes, then in
/// `first` followed by `second` the first read gives that message and stops
/// at the boundary, and the read that starts there gives what `second` alone
/// gives.  No byte at the boundary is lost or read twice.
pub proof fn lemma_back_to_back(matchers: &FieldMatchers, first: Seq<u8>, second: Seq<u8>)
    requires
        delimiter_terminated(first),
        frame_from(matchers, first, 0, Seq::empty()) matches Ok((_, next)) && next
            == first.len(),
    ensures
        frame_from(matchers, first + second, 0, Seq::empty()) == frame_from(
            matchers,
            first,
            0,
            Seq::empty(),
        ),
        frame_from(matchers, first + second, first.len() as int, Seq::empty())
            == shifted(
            frame_from(matchers, second, 0, Seq::empty()),
            first.len() as int,
        ),
{
    lemma_frame_before(matchers, first, second, 0, Seq::empty());
    lemma_frame_behind(matchers, first, second, 0, Seq::empty());
}

/// A chunk that goes into the text byte for byte: it decodes, and what it
/// decodes to neither begins nor ends with whitespace.
pub open spec fn kept_whole(chunk: Seq<u8>) -> bool {
    &&& valid_utf8(chunk)
    &&& chunk.len() > 0 ==> !is_whitespace(decode_utf8(chunk).first()) && !is_whitespace(
        decode_utf8(chunk).last(),
    )
}

/// Every delimited read from `pos` up to `end` takes in a chunk that is kept
/// whole.
pub open spec fn chunks_kept_whole(stream: Seq<u8>, pos: int, end: int) -> bool
    decreases end - pos,
{
    if pos < 0 || pos >= end || end > stream.len() {
        true
    } else if !kept_whole(stream.subrange(pos, chunk_end(stream, pos))) {
        false
    } else if chunk_end(stream, pos) >= end {
        true
    } else {
        proof {
            lemma_chunk_end_bounds(stream, pos);
        }
        chunks_kept_whole(stream, chunk_end(stream, pos), end)
    }
}

/// An ASCII space, tab, line feed, vertical tab, form feed or carriage
/// return: the whitespace there is among bytes below 0x80.
pub open spec fn is_whitespace_byte(b: u8) -> bool {
    0x09 <= b <= 0x0d || b == 0x20
}

/// A chunk of ASCII bytes is kept whole unless it begins or ends with
/// whitespace.  A chunk that ends with the delimiter does not end with
/// whitespace.
pub proof fn lemma_ascii_chunk_kept_whole(chunk: Seq<u8>)
    requires
        forall|i: int| 0 <= i < chunk.len() ==> #[trigger] chunk[i] < 0x80,
        chunk.len() > 0 ==> !is_whitespace_byte(chunk.first()) && !is_whitespace_byte(
            chunk.last(),
        ),
    ensures
        kept_whole(chunk),
        !is_whitespace_byte(SOH),
{
    let text = Seq::new(chunk.len(), |i: int| chunk[i] as char);
    assert(is_ascii_chars(text));
    is_ascii_chars_encode_utf8(text);
    assert(encode_utf8(text) =~= chunk);
    encode_utf8_valid_utf8(text);
    encode_utf8_decode_utf8(text);
    if chunk.len() > 0 {
        assert(text.first() == chunk.first() as char);
        assert(text.last() == chunk.last() as char);
    }
}

/// A chunk that is kept whole adds exactly its own bytes to the text.
pub proof fn lemma_extended_bytes(gathered: Seq<char>, chunk: Seq<u8>)
    requires
        kept_whole(chunk),
    ensures
        encode_utf8(extended(gathered, chunk)) == encode_utf8(gathered) + chunk,
{
    broadcast use {encode_utf8_valid_utf8, valid_utf8_concat};

    let before = encode_utf8(gathered);
    if chunk.len() == 0 {
        assert(before + chunk =~= before);
    } else {
        let text = decode_utf8(chunk);
        lemma_trimmed_keeps(text);
        let joined = before + chunk;
        let at = before.len() as int;
        assert(valid_utf8(joined));
        is_char_boundary_start_end_of_seq(chunk);
        is_char_boundary_iff_not_is_continuation_byte(chunk, 0);
        assert(joined[at] == chunk[0]);
        is_char_boundary_iff_not_is_continuation_byte(joined, at);
        decode_utf8_split(joined, at);
        assert(joined.subrange(0, at) =~= before);
        assert(joined.subrange(at, joined.len() as int) =~= chunk);
        encode_utf8_decode_utf8(gathered);
        assert(decode_utf8(joined) == gathered + text);
        decode_utf8_encode_utf8(joined);
    }
}

/// Where every chunk is kept whole, a message that is framed holds exactly
/// the bytes that were taken for it, after what had been gathered before:
/// every delimiter is kept, no byte is lost, none is taken twice, and none
/// is taken from behind the position at which the read stops.
pub proof fn lemma_frame_keeps_bytes(
    matchers: &FieldMatchers,
    stream: Seq<u8>,
    pos: int,
    gathered: Seq<char>,
)
    requires
        0 <= pos <= stream.len(),
        frame_from(matchers, stream, pos, gathered) is Ok,
        chunks_kept_whole(
            stream,
            pos,
            frame_from(matchers, stream, pos, gathered)->Ok_0.1,
        ),
    ensures
        pos <= frame_from(matchers, stream, pos, gathered)->Ok_0.1 <= stream.len(),
        encode_utf8(frame_from(matchers, stream, pos, gathered)->Ok_0.0) == encode_utf8(gathered)
            + stream.subrange(pos, frame_from(matchers, stream, pos, gathered)->Ok_0.1),
    decreases stream.len() - pos,
{
    lemma_chunk_end_bounds(stream, pos);
    let end = chunk_end(stream, pos);
    let chunk = stream.subrange(pos, end);
    let text = extended(gathered, chunk);
    let next = frame_from(matchers, stream, pos, gathered)->Ok_0.1;
    if is_complete(matchers, text) {
        assert(next == end);
        if pos < end {
            lemma_extended_bytes(gathered, chunk);
        } else {
            assert(encode_utf8(gathered) + chunk =~= encode_utf8(gathered));
        }
    } else {
        assert(frame_from(matchers, stream, end, text) == frame_from(
            matchers,
            stream,
            pos,
            gathered,
        ));
        lemma_chunk_end_bounds(stream, end);
        lemma_frame_reaches(matchers, stream, end, text);
        assert(pos < next);
        lemma_frame_keeps_bytes(matchers, stream, end, text);
        lemma_extended_bytes(gathered, chunk);
        assert(encode_utf8(gathered) + chunk + stream.subrange(end, next) =~= encode_utf8(gathered)
            + stream.subrange(pos, next));
    }
}

/// A read that succeeds stops at or behind the position it started from.
pub proof fn lemma_frame_reaches(
    matchers: &FieldMatchers,
    stream: Seq<u8>,
    pos: int,
    gathered: Seq<char>,
)
    requires
        0 <= pos <= stream.len(),
        frame_from(matchers, stream, pos, gathered) is Ok,
    ensures
        pos <= frame_from(matchers, stream, pos, gathered)->Ok_0.1 <= stream.len(),
    decreases stream.len() - pos,
{
    lemma_chunk_end_bounds(stream, pos);
    let end = chunk_end(stream, pos);
    let text = extended(gathered, stream.subrange(pos, end));
    if !is_complete(matchers, text) {
        lemma_frame_reaches(matchers, stream, end, text);
    }
}

} // verus!
