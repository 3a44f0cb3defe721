//! One session: a connection's framing state, its reply table, and the
//! decisions that follow each event on the connection.
//!
//! The session does no input or output.  Whoever owns the connection reads
//! one delimited chunk at a time and reports it with `on_chunk`, or a read
//! that failed with `on_read_failed`; writes and flushes what `Action::Send`
//! carries and reports the result with `on_sent`.

use crate::checksum::{status_of, validate_checksum, ChecksumStatus};
use crate::classify::{get_msg_type, last_field_value};
use crate::fields::FieldMatchers;
use crate::frame::{extended, is_complete, over_limit, FrameReader};
use vstd::prelude::*;
use vstd::string::StringExecFns;
use vstd::utf8::*;

verus! {

/// The endpoint a connection was accepted on.
#[derive(Clone, Copy, Debug, PartialEq, Eq, Structural)]
pub enum Channel {
    /// The market-data endpoint.
    MarketData,
    /// The order-routing endpoint.
    OrderRouting,
}

/// One line of a reply table: the payload sent back for a message type.
struct Reply {
    msg_type: String,
    payload: Vec<u8>,
}

/// The replies of one session, fixed for its lifetime.  Where two lines
/// answer the same message type, the earlier one is used.
pub struct ReplyTable {
    replies: Vec<Reply>,
}

/// The payload that `table` holds for `msg_type`: that of the first line
/// with this type.
pub open spec fn reply_for(table: Seq<(Seq<char>, Seq<u8>)>, msg_type: Seq<char>) -> Option<
    Seq<u8>,
>
    decreases table.len(),
{
    if table.len() == 0 {
        None
    } else if table.first().0 == msg_type {
        Some(table.first().1)
    } else {
        reply_for(table.drop_first(), msg_type)
    }
}

impl View for ReplyTable {
    type V = Seq<(Seq<char>, Seq<u8>)>;

    closed spec fn view(&self) -> Seq<(Seq<char>, Seq<u8>)> {
        Seq::new(self.replies@.len(), |i: int| (self.replies@[i].msg_type@, self.replies@[i].payload@))
    }
}

impl ReplyTable {
    /// A table that answers nothing.
    pub fn new() -> (table: ReplyTable)
        ensures
            table@ == Seq::<(Seq<char>, Seq<u8>)>::empty(),
    {
        let table = ReplyTable { replies: Vec::new() };
        assert(table@ =~= Seq::<(Seq<char>, Seq<u8>)>::empty());
        table
    }

    /// Adds a line after those already there.
    pub fn push(&mut self, msg_type: String, payload: Vec<u8>)
        ensures
            final(self)@ == old(self)@.push((msg_type@, payload@)),
    {
        self.replies.push(Reply { msg_type, payload });
        assert(self@ =~= old(self)@.push((msg_type@, payload@)));
    }

    /// The number of lines.
    pub fn len(&self) -> (n: usize)
        ensures
            n == self@.len(),
    {
        self.replies.len()
    }

    /// The payload for `msg_type`, if the table answers it.
    pub fn lookup(&self, msg_type: &String) -> (payload: Option<&Vec<u8>>)
        ensures
            payload is Some <==> reply_for(self@, msg_type@) is Some,
            payload is Some ==> payload->Some_0@ == reply_for(self@, msg_type@)->Some_0,
    {
        let mut i: usize = 0;
        assert(self@.skip(0) =~= self@);
        while i < self.replies.len()
            invariant
                i <= self.replies@.len(),
                self@.len() == self.replies@.len(),
                reply_for(self@, msg_type@) == reply_for(self@.skip(i as int), msg_type@),
            decreases self.replies@.len() - i,
        {
            proof {
                let rest = self@.skip(i as int);
                assert(rest.first() == self@[i as int]);
                assert(rest.drop_first() =~= self@.skip(i + 1));
            }
            if self.replies[i].msg_type == *msg_type {
                return Some(&self.replies[i].payload);
            }
            i += 1;
        }
        None
    }
}

/// The message type of a logon.
pub const LOGON: &'static str = "A";

/// The message type of a market-data request.
pub const MARKET_DATA_REQUEST: &'static str = "V";

/// The message type of a new order.
pub const NEW_ORDER: &'static str = "D";

impl Channel {
    /// The message type, besides the logon, that this channel answers.
    pub open spec fn request_type(self) -> Seq<char> {
        match self {
            Channel::MarketData => MARKET_DATA_REQUEST@,
            Channel::OrderRouting => NEW_ORDER@,
        }
    }

    /// The table of a channel: the logon is answered with `logon`, the
    /// channel's own request with `reply`, nothing else is answered.
    pub fn reply_table(self, logon: Vec<u8>, reply: Vec<u8>) -> (table: ReplyTable)
        ensures
            table@ == seq![(LOGON@, logon@), (self.request_type(), reply@)],
    {
        let mut table = ReplyTable::new();
        table.push(String::from_str(LOGON), logon);
        match self {
            Channel::MarketData => table.push(String::from_str(MARKET_DATA_REQUEST), reply),
            Channel::OrderRouting => table.push(String::from_str(NEW_ORDER), reply),
        }
        assert(table@ =~= seq![(LOGON@, logon@), (self.request_type(), reply@)]);
        table
    }
}

/// A channel's table answers the logon with the logon reply and the
/// channel's own request with its reply; every other message type, the empty
/// one among them, goes unanswered.  The logon is not the request of either
/// channel, so neither line hides the other.
pub proof fn lemma_channel_table_answers(
    channel: Channel,
    logon: Seq<u8>,
    reply: Seq<u8>,
    msg_type: Seq<char>,
)
    ensures
        LOGON@ != channel.request_type(),
        LOGON@.len() > 0 && channel.request_type().len() > 0,
        action_for(seq![(LOGON@, logon), (channel.request_type(), reply)], msg_type) == (
        if msg_type == LOGON@ {
            ActionView::Send(logon)
        } else if msg_type == channel.request_type() {
            ActionView::Send(reply)
        } else {
            ActionView::Read
        }),
{
    reveal_strlit("A");
    reveal_strlit("V");
    reveal_strlit("D");
    assert(LOGON@[0] == 'A');
    assert(MARKET_DATA_REQUEST@[0] == 'V');
    assert(NEW_ORDER@[0] == 'D');
    let table = seq![(LOGON@, logon), (channel.request_type(), reply)];
    let rest = table.drop_first();
    assert(rest.first() == (channel.request_type(), reply));
    assert(rest.drop_first().len() == 0);
    reveal_with_fuel(reply_for, 3);
}

/// What the owner of the connection does next.
#[derive(Debug)]
pub enum Action {
    /// Read the next delimited chunk and report it.
    Read,
    /// Write these bytes, flush, and report whether that worked.
    Send(Vec<u8>),
    /// Close the connection; the session is over.
    Close,
}

/// An `Action` with its payload as a sequence.
pub enum ActionView {
    Read,
    Send(Seq<u8>),
    Close,
}

impl View for Action {
    type V = ActionView;

    open spec fn view(&self) -> ActionView {
        match self {
            Action::Read => ActionView::Read,
            Action::Send(payload) => ActionView::Send(payload@),
            Action::Close => ActionView::Close,
        }
    }
}

/// Where a session stands.
#[derive(Clone, Copy, Debug, PartialEq, Eq, Structural)]
pub enum SessionState {
    /// Waiting for the next chunk of the next message.
    AwaitingFrame,
    /// A reply is being written.
    Dispatching,
    /// The session is over.
    Closed,
}

/// A complete message with what the validator and the classifier found.
pub struct Framed {
    /// The message as it was framed.
    pub text: String,
    /// The validator's finding.  A mismatch does not stop the dispatch.
    pub checksum: ChecksumStatus,
    /// The message type; empty when the message has none.
    pub msg_type: String,
}

/// The action for a message of type `msg_type` under `table`: send the
/// payload the table holds for it, or go on reading when it holds none.
pub open spec fn action_for(table: Seq<(Seq<char>, Seq<u8>)>, msg_type: Seq<char>) -> ActionView {
    match reply_for(table, msg_type) {
        Some(payload) => ActionView::Send(payload),
        None => ActionView::Read,
    }
}

/// The state that goes with an action: a send is followed by waiting for
/// its result, a read by waiting for the frame, a close by nothing.
pub open spec fn state_after(action: ActionView) -> SessionState {
    match action {
        ActionView::Read => SessionState::AwaitingFrame,
        ActionView::Send(_) => SessionState::Dispatching,
        ActionView::Close => SessionState::Closed,
    }
}

/// Validates and classifies the complete message `text`.
pub fn inspect(matchers: &FieldMatchers, text: String) -> (framed: Framed)
    ensures
        framed.text == text,
        framed.checksum == status_of(
            encode_utf8(text@),
            matchers.checksum_captures(text@),
        ),
        framed.msg_type@ == last_field_value(
            encode_utf8(text@),
            matchers.msg_type_captures(text@),
        ),
{
    let checksum = validate_checksum(matchers, text.as_str());
    let msg_type = get_msg_type(matchers, text.as_str());
    Framed { text, checksum, msg_type }
}

/// Chooses the action for a message of type `msg_type`.
pub fn dispatch(table: &ReplyTable, msg_type: &String) -> (action: Action)
    ensures
        action@ == action_for(table@, msg_type@),
{
    match table.lookup(msg_type) {
        Some(payload) => {
            let copy = payload.clone();
            assert(copy@ =~= payload@);
            Action::Send(copy)
        },
        None => Action::Read,
    }
}

/// One accepted connection: which endpoint it came in on, its replies, its
/// framing state and where it stands.  Sessions share nothing.
pub struct Session {
    channel: Channel,
    table: ReplyTable,
    reader: FrameReader,
    state: SessionState,
}

impl Session {
    /// The endpoint the connection was accepted on.
    pub closed spec fn channel_spec(&self) -> Channel {
        self.channel
    }

    /// The session's replies.
    pub closed spec fn replies(&self) -> Seq<(Seq<char>, Seq<u8>)> {
        self.table@
    }

    /// The text gathered since the last complete message.
    pub closed spec fn gathered(&self) -> Seq<char> {
        self.reader.gathered()
    }

    /// Where the session stands.
    pub closed spec fn state_spec(&self) -> SessionState {
        self.state
    }

    /// The most bytes one message may take, if that is limited.
    pub closed spec fn limit(&self) -> Option<usize> {
        self.reader.limit()
    }

    /// A session for a connection that was just accepted: nothing gathered,
    /// waiting for the first frame.
    pub fn new(channel: Channel, table: ReplyTable) -> (session: Session)
        ensures
            session.channel_spec() == channel,
            session.replies() == table@,
            session.gathered() == Seq::<char>::empty(),
            session.state_spec() == SessionState::AwaitingFrame,
            session.limit() is None,
    {
        Session { channel, table, reader: FrameReader::new(), state: SessionState::AwaitingFrame }
    }

    /// A session like that of `new`, which closes once a message takes more
    /// than `limit` bytes.
    pub fn with_limit(channel: Channel, table: ReplyTable, limit: usize) -> (session: Session)
        ensures
            session.channel_spec() == channel,
            session.replies() == table@,
            session.gathered() == Seq::<char>::empty(),
            session.state_spec() == SessionState::AwaitingFrame,
            session.limit() == Some(limit),
    {
        Session {
            channel,
            table,
            reader: FrameReader::with_limit(limit),
            state: SessionState::AwaitingFrame,
        }
    }

    /// The endpoint the connection was accepted on.
    pub fn channel(&self) -> (channel: Channel)
        ensures
            channel == self.channel_spec(),
    {
        self.channel
    }

    /// Where the session stands.
    pub fn state(&self) -> (state: SessionState)
        ensures
            state == self.state_spec(),
    {
        self.state
    }

    /// Takes in one delimited chunk: everything up to and including the
    /// next delimiter, less at the end of the stream, nothing once the peer
    /// has closed it.
    ///
    /// A session that is not waiting for a frame closes.  A chunk that does
    /// not decode closes the session, and so does text that has outgrown the
    /// session's limit.  A chunk that completes a message has
    /// the message validated, classified and dispatched; the message comes
    /// back with the action.  Otherwise the session goes on reading, unless
    /// the chunk was empty: then the peer has gone and the session closes.
    pub fn on_chunk(&mut self, matchers: &FieldMatchers, chunk: &[u8]) -> (step: (
        Action,
        Option<Framed>,
    ))
        ensures
            final(self).channel_spec() == old(self).channel_spec(),
            final(self).replies() == old(self).replies(),
            final(self).limit() == old(self).limit(),
            final(self).state_spec() == state_after(step.0@),
            old(self).state_spec() != SessionState::AwaitingFrame || !valid_utf8(chunk@) ==> {
                &&& step.0@ == ActionView::Close
                &&& step.1 is None
                &&& final(self).gathered() == old(self).gathered()
            },
            old(self).state_spec() == SessionState::AwaitingFrame && valid_utf8(chunk@)
                && over_limit(old(self).limit(), extended(old(self).gathered(), chunk@)) ==> {
                &&& step.0@ == ActionView::Close
                &&& step.1 is None
                &&& final(self).gathered() == extended(old(self).gathered(), chunk@)
            },
            old(self).state_spec() == SessionState::AwaitingFrame && valid_utf8(chunk@)
                && !over_limit(old(self).limit(), extended(old(self).gathered(), chunk@))
                && is_complete(
                matchers,
                extended(old(self).gathered(), chunk@),
            ) ==> {
                &&& step.1 is Some
                &&& step.1->Some_0.text@ == extended(old(self).gathered(), chunk@)
                &&& step.1->Some_0.checksum == status_of(
                    encode_utf8(step.1->Some_0.text@),
                    matchers.checksum_captures(step.1->Some_0.text@),
                )
                &&& step.1->Some_0.msg_type@ == last_field_value(
                    encode_utf8(step.1->Some_0.text@),
                    matchers.msg_type_captures(step.1->Some_0.text@),
                )
                &&& step.0@ == action_for(old(self).replies(), step.1->Some_0.msg_type@)
                &&& final(self).gathered() == Seq::<char>::empty()
            },
            old(self).state_spec() == SessionState::AwaitingFrame && valid_utf8(chunk@)
                && !over_limit(old(self).limit(), extended(old(self).gathered(), chunk@))
                && !is_complete(
                matchers,
                extended(old(self).gathered(), chunk@),
            ) ==> {
                &&& step.1 is None
                &&& step.0@ == (if chunk@.len() == 0 {
                    ActionView::Close
                } else {
                    ActionView::Read
                })
                &&& final(self).gathered() == extended(old(self).gathered(), chunk@)
            },
    {
        if self.state != SessionState::AwaitingFrame {
            self.state = SessionState::Closed;
            return (Action::Close, None);
        }
        match self.reader.push_chunk(matchers, chunk) {
            Err(_) => {
                self.state = SessionState::Closed;
                (Action::Close, None)
            },
            Ok(None) => (Action::Read, None),
            Ok(Some(text)) => {
                let framed = inspect(matchers, text);
                let action = dispatch(&self.table, &framed.msg_type);
                match action {
                    Action::Send(_) => {
                        self.state = SessionState::Dispatching;
                    },
                    _ => {},
                }
                (action, Some(framed))
            },
        }
    }

    /// Takes in that a read on the connection failed.  Whatever the session
    /// was doing, it is over.
    pub fn on_read_failed(&mut self) -> (action: Action)
        ensures
            action@ == ActionView::Close,
            final(self).state_spec() == SessionState::Closed,
            final(self).channel_spec() == old(self).channel_spec(),
            final(self).replies() == old(self).replies(),
            final(self).gathered() == old(self).gathered(),
            final(self).limit() == old(self).limit(),
    {
        self.state = SessionState::Closed;
        Action::Close
    }

    /// Takes in the result of writing and flushing a reply.  After a reply
    /// that went out the session reads on; a reply that did not go out, or a
    /// report that no reply was waiting for, closes the session.
    pub fn on_sent(&mut self, flushed: bool) -> (action: Action)
        ensures
            final(self).channel_spec() == old(self).channel_spec(),
            final(self).replies() == old(self).replies(),
            final(self).gathered() == old(self).gathered(),
            final(self).limit() == old(self).limit(),
            final(self).state_spec() == state_after(action@),
            action@ == (if old(self).state_spec() == SessionState::Dispatching && flushed {
                ActionView::Read
            } else {
                ActionView::Close
            }),
    {
        if self.state == SessionState::Dispatching && flushed {
            self.state = SessionState::AwaitingFrame;
            Action::Read
        } else {
            self.state = SessionState::Closed;
            Action::Close
        }
    }
}

} // verus!
