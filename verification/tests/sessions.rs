use fix_acceptor::checksum::ChecksumStatus;
use fix_acceptor::fields::FieldMatchers;
use fix_acceptor::session::{
    dispatch, inspect, Action, Channel, ReplyTable, Session, SessionState, LOGON,
    MARKET_DATA_REQUEST, NEW_ORDER,
};

const MD_LOGON: &[u8] = b"8=FIX.4.4\x0135=A\x0149=SENDERMD\x0110=104\x01\n";
const MD_SNAPSHOT: &[u8] = b"8=FIX.4.4\x0135=W\x0149=SENDERMD\x0110=057\x01";
const OR_LOGON: &[u8] = b"8=FIX.4.4\x0135=A\x0149=SENDEROR\x0110=104\x01\n";
const OR_REPORT: &[u8] = b"8=FIX.4.4\x0135=8\x0149=SENDEROR\x0110=057\x01";

fn matchers() -> FieldMatchers {
    FieldMatchers::new().expect("the field patterns compile")
}

fn market_data() -> Session {
    Session::new(
        Channel::MarketData,
        Channel::MarketData.reply_table(MD_LOGON.to_vec(), MD_SNAPSHOT.to_vec()),
    )
}

fn order_routing() -> Session {
    Session::new(
        Channel::OrderRouting,
        Channel::OrderRouting.reply_table(OR_LOGON.to_vec(), OR_REPORT.to_vec()),
    )
}

fn feed(session: &mut Session, m: &FieldMatchers, chunks: &[&[u8]]) -> Action {
    let mut last = Action::Read;
    for chunk in chunks {
        last = session.on_chunk(m, chunk).0;
    }
    last
}

fn sent(action: &Action) -> Option<&[u8]> {
    match action {
        Action::Send(payload) => Some(payload.as_slice()),
        _ => None,
    }
}

#[test]
fn message_type_keys() {
    assert_eq!(LOGON, "A");
    assert_eq!(MARKET_DATA_REQUEST, "V");
    assert_eq!(NEW_ORDER, "D");
}

#[test]
fn table_gives_the_first_payload_for_a_type() {
    let mut table = ReplyTable::new();
    assert_eq!(table.len(), 0);
    assert_eq!(table.lookup(&"A".to_string()), None);
    table.push("A".to_string(), vec![1]);
    table.push("B".to_string(), vec![2, 2]);
    table.push("A".to_string(), vec![3]);
    assert_eq!(table.len(), 3);
    assert_eq!(table.lookup(&"A".to_string()), Some(&vec![1]));
    assert_eq!(table.lookup(&"B".to_string()), Some(&vec![2, 2]));
    assert_eq!(table.lookup(&"C".to_string()), None);
    assert_eq!(table.lookup(&"".to_string()), None);
}

#[test]
fn channel_tables_answer_the_logon_and_their_own_request() {
    let md = Channel::MarketData.reply_table(vec![1], vec![2]);
    assert_eq!(md.len(), 2);
    assert_eq!(md.lookup(&"A".to_string()), Some(&vec![1]));
    assert_eq!(md.lookup(&"V".to_string()), Some(&vec![2]));
    assert_eq!(md.lookup(&"D".to_string()), None);
    let or = Channel::OrderRouting.reply_table(vec![3], vec![4]);
    assert_eq!(or.len(), 2);
    assert_eq!(or.lookup(&"A".to_string()), Some(&vec![3]));
    assert_eq!(or.lookup(&"D".to_string()), Some(&vec![4]));
    assert_eq!(or.lookup(&"V".to_string()), None);
}

#[test]
fn dispatch_sends_what_the_table_holds() {
    let table = Channel::MarketData.reply_table(vec![1], vec![2]);
    assert_eq!(sent(&dispatch(&table, &"V".to_string())), Some(&[2u8][..]));
    assert!(matches!(dispatch(&table, &"Z".to_string()), Action::Read));
    assert!(matches!(dispatch(&table, &"".to_string()), Action::Read));
}

#[test]
fn inspect_validates_and_classifies() {
    let m = matchers();
    let framed = inspect(&m, "8=FIX.4.4\u{1}9=5\u{1}35=A\u{1}10=180\u{1}".to_string());
    assert_eq!(framed.text, "8=FIX.4.4\u{1}9=5\u{1}35=A\u{1}10=180\u{1}");
    assert_eq!(framed.checksum, ChecksumStatus::Valid);
    assert_eq!(framed.msg_type, "A");
    let odd = inspect(&m, "8=FIX.4.4\u{1}10=000\u{1}".to_string());
    assert_eq!(odd.checksum, ChecksumStatus::Mismatch { expected: 33, carried: 0 });
    assert_eq!(odd.msg_type, "");
}

#[test]
fn market_data_logon_is_answered_and_the_session_stays_open() {
    let m = matchers();
    let mut session = market_data();
    assert_eq!(session.channel(), Channel::MarketData);
    assert_eq!(session.state(), SessionState::AwaitingFrame);
    assert!(matches!(session.on_chunk(&m, b"8=FIX.4.4\x01").0, Action::Read));
    assert!(matches!(session.on_chunk(&m, b"9=5\x01").0, Action::Read));
    assert!(matches!(session.on_chunk(&m, b"35=A\x01").0, Action::Read));
    let (action, framed) = session.on_chunk(&m, b"10=180\x01");
    assert_eq!(sent(&action), Some(MD_LOGON));
    let framed = framed.unwrap();
    assert_eq!(framed.text, "8=FIX.4.4\u{1}9=5\u{1}35=A\u{1}10=180\u{1}");
    assert_eq!(framed.checksum, ChecksumStatus::Valid);
    assert_eq!(framed.msg_type, "A");
    assert_eq!(session.state(), SessionState::Dispatching);
    assert!(matches!(session.on_sent(true), Action::Read));
    assert_eq!(session.state(), SessionState::AwaitingFrame);
    let next = feed(&mut session, &m, &[b"8=FIX.4.4\x01", b"35=V\x01", b"10=000\x01"]);
    assert_eq!(sent(&next), Some(MD_SNAPSHOT));
}

#[test]
fn order_routing_answers_new_orders_and_ignores_unknown_types() {
    let m = matchers();
    let mut session = order_routing();
    let order = feed(&mut session, &m, &[b"8=FIX.4.4\x01", b"9=5\x01", b"35=D\x01", b"10=183\x01"]);
    assert_eq!(sent(&order), Some(OR_REPORT));
    assert!(matches!(session.on_sent(true), Action::Read));
    let (action, framed) = {
        feed(&mut session, &m, &[b"8=FIX.4.4\x01", b"9=5\x01", b"35=Z\x01"]);
        session.on_chunk(&m, b"10=205\x01")
    };
    assert!(matches!(action, Action::Read));
    assert_eq!(framed.unwrap().msg_type, "Z");
    assert_eq!(session.state(), SessionState::AwaitingFrame);
    let logon = feed(&mut session, &m, &[b"8=FIX.4.4\x01", b"35=A\x01", b"10=000\x01"]);
    assert_eq!(sent(&logon), Some(OR_LOGON));
}

#[test]
fn each_channel_uses_its_own_table() {
    let m = matchers();
    let mut md = market_data();
    let mut or = order_routing();
    let chunks: [&[u8]; 3] = [b"8=FIX.4.4\x01", b"35=V\x01", b"10=000\x01"];
    assert_eq!(sent(&feed(&mut md, &m, &chunks)), Some(MD_SNAPSHOT));
    assert!(matches!(feed(&mut or, &m, &chunks), Action::Read));
    let chunks: [&[u8]; 3] = [b"8=FIX.4.4\x01", b"35=D\x01", b"10=000\x01"];
    assert!(matches!(md.on_sent(true), Action::Read));
    assert!(matches!(feed(&mut md, &m, &chunks), Action::Read));
    assert_eq!(sent(&feed(&mut or, &m, &chunks)), Some(OR_REPORT));
}

#[test]
fn bad_checksum_is_reported_and_the_message_is_still_dispatched() {
    let m = matchers();
    let mut session = market_data();
    feed(&mut session, &m, &[b"8=FIX.4.4\x01", b"9=5\x01", b"35=A\x01"]);
    let (action, framed) = session.on_chunk(&m, b"10=181\x01");
    assert_eq!(framed.unwrap().checksum, ChecksumStatus::Mismatch { expected: 180, carried: 181 });
    assert_eq!(sent(&action), Some(MD_LOGON));
}

#[test]
fn partial_message_then_close_ends_the_session() {
    let m = matchers();
    let mut session = order_routing();
    assert!(matches!(feed(&mut session, &m, &[b"8=FIX.4.4\x01", b"35=D\x01"]), Action::Read));
    let (action, framed) = session.on_chunk(&m, b"");
    assert!(matches!(action, Action::Close));
    assert!(framed.is_none());
    assert_eq!(session.state(), SessionState::Closed);
    let mut other = order_routing();
    let order = feed(&mut other, &m, &[b"8=FIX.4.4\x01", b"35=D\x01", b"10=000\x01"]);
    assert_eq!(sent(&order), Some(OR_REPORT));
}

#[test]
fn chunk_that_does_not_decode_closes_the_session() {
    let m = matchers();
    let mut session = market_data();
    let (action, framed) = session.on_chunk(&m, b"58=\xff\x01");
    assert!(matches!(action, Action::Close));
    assert!(framed.is_none());
    assert_eq!(session.state(), SessionState::Closed);
}

#[test]
fn failed_flush_closes_the_session() {
    let m = matchers();
    let mut session = market_data();
    let logon = feed(&mut session, &m, &[b"8=FIX.4.4\x01", b"35=A\x01", b"10=000\x01"]);
    assert_eq!(sent(&logon), Some(MD_LOGON));
    assert!(matches!(session.on_sent(false), Action::Close));
    assert_eq!(session.state(), SessionState::Closed);
    assert!(matches!(session.on_chunk(&m, b"8=FIX.4.4\x01").0, Action::Close));
    assert!(matches!(session.on_sent(true), Action::Close));
}

#[test]
fn events_out_of_turn_close_the_session() {
    let m = matchers();
    let mut idle = market_data();
    assert!(matches!(idle.on_sent(true), Action::Close));
    assert_eq!(idle.state(), SessionState::Closed);
    let mut busy = market_data();
    feed(&mut busy, &m, &[b"8=FIX.4.4\x01", b"35=A\x01", b"10=000\x01"]);
    assert_eq!(busy.state(), SessionState::Dispatching);
    assert!(matches!(busy.on_chunk(&m, b"8=FIX.4.4\x01").0, Action::Close));
    assert_eq!(busy.state(), SessionState::Closed);
}

#[test]
fn session_with_a_limit_closes_on_a_message_that_is_too_long() {
    let m = matchers();
    let table = Channel::MarketData.reply_table(MD_LOGON.to_vec(), MD_SNAPSHOT.to_vec());
    let mut session = Session::with_limit(Channel::MarketData, table, 12);
    assert!(matches!(session.on_chunk(&m, b"8=FIX.4.4\x01").0, Action::Read));
    let (action, framed) = session.on_chunk(&m, b"35=A\x01");
    assert!(matches!(action, Action::Close));
    assert!(framed.is_none());
    assert_eq!(session.state(), SessionState::Closed);
    let table = Channel::MarketData.reply_table(MD_LOGON.to_vec(), MD_SNAPSHOT.to_vec());
    let mut roomy = Session::with_limit(Channel::MarketData, table, 64);
    let logon = feed(&mut roomy, &m, &[b"8=FIX.4.4\x01", b"35=A\x01", b"10=000\x01"]);
    assert_eq!(sent(&logon), Some(MD_LOGON));
}

#[test]
fn failed_read_closes_the_session_whatever_it_was_doing() {
    let m = matchers();
    let mut waiting = market_data();
    feed(&mut waiting, &m, &[b"8=FIX.4.4\x01"]);
    assert!(matches!(waiting.on_read_failed(), Action::Close));
    assert_eq!(waiting.state(), SessionState::Closed);
    assert!(matches!(waiting.on_chunk(&m, b"10=000\x01").0, Action::Close));
    let mut busy = market_data();
    feed(&mut busy, &m, &[b"35=A\x01", b"10=000\x01"]);
    assert_eq!(busy.state(), SessionState::Dispatching);
    assert!(matches!(busy.on_read_failed(), Action::Close));
    assert_eq!(busy.state(), SessionState::Closed);
    let mut other = market_data();
    assert_eq!(sent(&feed(&mut other, &m, &[b"35=A\x01", b"10=000\x01"])), Some(MD_LOGON));
}

#[test]
fn logon_that_begins_with_its_type_is_answered() {
    let m = matchers();
    let mut session = order_routing();
    let (action, framed) = {
        session.on_chunk(&m, b"35=A\x01");
        session.on_chunk(&m, b"10=231\x01")
    };
    let framed = framed.unwrap();
    assert_eq!(framed.text, "35=A\u{1}10=231\u{1}");
    assert_eq!(framed.msg_type, "A");
    assert_eq!(framed.checksum, ChecksumStatus::Valid);
    assert_eq!(sent(&action), Some(OR_LOGON));
}
