use kingdom_kards::action::Action;
use kingdom_kards::client::{choose_player_name, declines_retry, join_request, Error};
use kingdom_kards::handler::{ConnState, Connection, Output};
use kingdom_kards::join::{
    check_name_text, encode_reply, reply_accepted, JoinResponse, RejectReason, Session,
};
use kingdom_kards::wire::{decode, encode_action, encode_join, is_zeroed, DecodeError, Message};

fn buffer(text: &[u8]) -> Vec<u8> {
    let mut b = vec![0u8; 512];
    b[..text.len()].copy_from_slice(text);
    b
}

fn action(code: u8, attachment: u16, from: &str, to: &str) -> Action {
    Action {
        action_type: code,
        attachment,
        from_player: String::from(from),
        to_player: String::from(to),
    }
}

#[test]
fn zero_buffer_is_zeroed() {
    assert!(is_zeroed(&[0u8; 512]));
    assert!(is_zeroed(&[]));
    assert!(!is_zeroed(&[0, 0, 1]));
}

#[test]
fn zero_buffer_decodes_to_idle() {
    assert_eq!(decode(&[0u8; 512]), Ok(Message::Idle));
    assert_eq!(decode(&[]), Ok(Message::Idle));
}

#[test]
fn join_message_decodes_with_padding_dropped() {
    assert_eq!(decode(&buffer(b"JOIN,Alice")), Ok(Message::Join(String::from("Alice"))));
    assert_eq!(decode(b"JOIN,"), Ok(Message::Join(String::new())));
}

#[test]
fn join_name_keeps_its_commas() {
    assert_eq!(decode(&buffer(b"JOIN,Al,ice")), Ok(Message::Join(String::from("Al,ice"))));
    assert_eq!(decode(b"JOIN,a,b"), Ok(Message::Join(String::from("a,b"))));
}

#[test]
fn empty_names_are_refused() {
    assert_eq!(check_name_text(""), Some(RejectReason::InvalidCharacter));
    assert_eq!(choose_player_name(""), Err(Error::InvalidCharacterFound));
    assert_eq!(join_request(""), Err(Error::InvalidCharacterFound));
    let mut s = Session::new();
    assert_eq!(s.validate_name(""), Err(RejectReason::InvalidCharacter));
    assert_eq!(s.admit_name(""), JoinResponse::Rejected(RejectReason::InvalidCharacter));
    assert_eq!(s.len(), 0);
    let mut c = Connection::new();
    assert_eq!(c.on_receive(&mut s, b"JOIN,"), Output::Reply(b"REJECT".to_vec()));
    assert_eq!(c.state, ConnState::AwaitingJoin);
}

#[test]
fn comma_name_over_the_wire_is_answered_reject() {
    let mut s = Session::new();
    let mut c = Connection::new();
    assert_eq!(c.on_receive(&mut s, &buffer(b"JOIN,Al,ice")), Output::Reply(b"REJECT".to_vec()));
    assert_eq!(c.state, ConnState::AwaitingJoin);
    assert_eq!(s.len(), 0);
    assert_eq!(c.on_receive(&mut s, &buffer(b"JOIN,Alice")), Output::Reply(b"ACCEPT".to_vec()));
}

#[test]
fn taken_name_over_the_wire_is_answered_reject() {
    let mut s = Session::new();
    let mut first = Connection::new();
    first.on_receive(&mut s, &buffer(b"JOIN,Bob"));
    for _ in 0..3 {
        let mut other = Connection::new();
        assert_eq!(other.on_receive(&mut s, &buffer(b"JOIN,Bob")), Output::Reply(b"REJECT".to_vec()));
        assert_eq!(other.state, ConnState::AwaitingJoin);
    }
    assert_eq!(s.len(), 1);
}

#[test]
fn invalid_utf8_is_replaced() {
    assert_eq!(
        decode(&buffer(b"JOIN,Al\xffce")),
        Ok(Message::Join(String::from("Al\u{FFFD}ce")))
    );
}

#[test]
fn act_message_decodes() {
    assert_eq!(
        decode(&buffer(b"ACT,14,300,Alice,Bob")),
        Ok(Message::Act(action(14, 300, "Alice", "Bob")))
    );
    assert_eq!(
        decode(b"ACT,0,65535,,"),
        Ok(Message::Act(action(0, 65535, "", "")))
    );
}

#[test]
fn malformed_messages() {
    let bad: [&[u8]; 9] = [
        b"HELLO,there",
        b"JOIN",
        b"JOINT,a",
        b"join,a",
        b"ACT,1,2,a",
        b"ACT,53,2,a,b",
        b"ACT,1,65536,a,b",
        b"ACT,x,2,a,b",
        b"ACT,,2,a,b",
    ];
    for b in bad {
        assert_eq!(decode(b), Err(DecodeError::MalformedMessage));
    }
}

#[test]
fn action_encoding() {
    assert_eq!(encode_action(&action(12, 300, "Ann", "Bo")), b"ACT,12,300,Ann,Bo".to_vec());
    assert_eq!(encode_action(&action(0, 0, "", "")), b"ACT,0,0,,".to_vec());
    assert_eq!(encode_action(&action(52, 65535, "a", "b")), b"ACT,52,65535,a,b".to_vec());
}

#[test]
fn action_round_trip() {
    let a = action(37, 9, "Carol", "Dave");
    let bytes = encode_action(&a);
    assert_eq!(decode(&bytes), Ok(Message::Act(a.clone())));
    let received = buffer(b"ACT,5,40,Eve,Frank");
    if let Ok(Message::Act(got)) = decode(&received) {
        assert_eq!(encode_action(&got), b"ACT,5,40,Eve,Frank".to_vec());
        assert_eq!(decode(&encode_action(&got)), Ok(Message::Act(got)));
    } else {
        panic!("not an action");
    }
}

#[test]
fn join_encoding() {
    assert_eq!(encode_join("Alice"), b"JOIN,Alice".to_vec());
    assert_eq!(decode(&encode_join("Alice")), Ok(Message::Join(String::from("Alice"))));
}

#[test]
fn name_text_checks() {
    assert_eq!(check_name_text("Alice"), None);
    assert_eq!(check_name_text("Ålice"), Some(RejectReason::InvalidCharacter));
    assert_eq!(check_name_text("Al,ice"), Some(RejectReason::DelimiterConflict));
    assert_eq!(check_name_text("Å,b"), Some(RejectReason::InvalidCharacter));
}

#[test]
fn validate_name_order() {
    let mut s = Session::new();
    assert_eq!(s.admit_name("Bob"), JoinResponse::Accepted);
    assert_eq!(s.validate_name("Bob"), Err(RejectReason::NameTaken));
    assert_eq!(s.validate_name("Zoë"), Err(RejectReason::InvalidCharacter));
    assert_eq!(s.validate_name("B,ob"), Err(RejectReason::DelimiterConflict));
    assert_eq!(s.validate_name("Carol"), Ok(()));
}

#[test]
fn fresh_session_accepts_alice() {
    let mut s = Session::new();
    assert!(!s.contains("Alice"));
    assert_eq!(s.admit_name("Alice"), JoinResponse::Accepted);
    assert!(s.contains("Alice"));
    assert_eq!(s.len(), 1);
}

#[test]
fn refused_names_leave_registry_unchanged() {
    let mut s = Session::new();
    assert_eq!(s.admit_name("Al,ice"), JoinResponse::Rejected(RejectReason::DelimiterConflict));
    assert_eq!(s.admit_name("Ålice"), JoinResponse::Rejected(RejectReason::InvalidCharacter));
    assert_eq!(s.len(), 0);
}

#[test]
fn second_join_of_a_name_is_taken() {
    let mut s = Session::new();
    assert_eq!(s.admit_name("Bob"), JoinResponse::Accepted);
    assert_eq!(s.admit_name("Bob"), JoinResponse::Rejected(RejectReason::NameTaken));
    assert_eq!(s.len(), 1);
}

#[test]
fn replies() {
    assert_eq!(encode_reply(JoinResponse::Accepted), b"ACCEPT".to_vec());
    assert_eq!(
        encode_reply(JoinResponse::Rejected(RejectReason::NameTaken)),
        b"REJECT".to_vec()
    );
    assert!(!reply_accepted(&buffer(b"REJECT")));
    assert!(reply_accepted(&buffer(b"ACCEPT")));
    assert!(reply_accepted(b"REJECTED"));
}

#[test]
fn client_name_checks() {
    assert_eq!(choose_player_name("Alice"), Ok(String::from("Alice")));
    assert_eq!(choose_player_name("Al,ice"), Err(Error::CommaFound));
    assert_eq!(choose_player_name("Ålice"), Err(Error::InvalidCharacterFound));
}

#[test]
fn comma_name_is_refused_before_sending() {
    assert_eq!(join_request("Al,ice"), Err(Error::CommaFound));
    assert_eq!(join_request("Alice"), Ok(b"JOIN,Alice".to_vec()));
}

#[test]
fn retry_answers() {
    for a in ["n", "N", "no", "No", "NO", "nO"] {
        assert!(declines_retry(a));
    }
    for a in ["", "y", "yes", "nope", "non", "ñ"] {
        assert!(!declines_retry(a));
    }
}

#[test]
fn handler_accepts_join_on_fresh_session() {
    let mut s = Session::new();
    let mut c = Connection::new();
    assert_eq!(c.on_receive(&mut s, &buffer(b"JOIN,Alice")), Output::Reply(b"ACCEPT".to_vec()));
    assert_eq!(c.state, ConnState::Joined(String::from("Alice")));
    assert!(s.contains("Alice"));
}

#[test]
fn handler_ignores_zero_buffer() {
    let mut s = Session::new();
    let mut c = Connection::new();
    assert_eq!(c.on_receive(&mut s, &[0u8; 512]), Output::Nothing);
    assert_eq!(c.state, ConnState::AwaitingJoin);
    assert_eq!(s.len(), 0);
}

#[test]
fn two_connections_join_as_bob() {
    let mut s = Session::new();
    let mut a = Connection::new();
    let mut b = Connection::new();
    let ra = a.on_receive(&mut s, &buffer(b"JOIN,Bob"));
    let rb = b.on_receive(&mut s, &buffer(b"JOIN,Bob"));
    assert_eq!(ra, Output::Reply(b"ACCEPT".to_vec()));
    assert_eq!(rb, Output::Reply(b"REJECT".to_vec()));
    assert_eq!(b.state, ConnState::AwaitingJoin);
    assert_eq!(s.len(), 1);
    // the refused connection may retry with another name
    assert_eq!(b.on_receive(&mut s, &buffer(b"JOIN,Rob")), Output::Reply(b"ACCEPT".to_vec()));
}

#[test]
fn handler_ignores_actions_before_join() {
    let mut s = Session::new();
    let mut c = Connection::new();
    assert_eq!(c.on_receive(&mut s, &buffer(b"ACT,1,0,a,b")), Output::Ignored);
    assert_eq!(c.on_receive(&mut s, &buffer(b"garbage")), Output::Ignored);
    assert_eq!(c.state, ConnState::AwaitingJoin);
}

#[test]
fn closing_one_connection_leaves_the_other_serving() {
    let mut s = Session::new();
    let mut a = Connection::new();
    let mut b = Connection::new();
    a.on_receive(&mut s, &buffer(b"JOIN,Ann"));
    b.on_receive(&mut s, &buffer(b"JOIN,Ben"));
    a.on_disconnect();
    assert!(a.is_closed());
    assert_eq!(a.on_receive(&mut s, &buffer(b"ACT,1,0,Ann,Ben")), Output::Nothing);
    assert_eq!(
        b.on_receive(&mut s, &buffer(b"ACT,2,7,Ben,Ann")),
        Output::Forward(action(2, 7, "Ben", "Ann"))
    );
    assert_eq!(
        b.on_receive(&mut s, &buffer(b"ACT,3,8,Ben,Ann")),
        Output::Forward(action(3, 8, "Ben", "Ann"))
    );
    assert!(!b.is_closed());
    assert_eq!(s.len(), 2);
}
