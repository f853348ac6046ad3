use peer_relay::envelope::{frame, DecodeError, Field, Members};
use peer_relay::message::{build_message, Message};

fn text(s: &str) -> String {
    s.to_string()
}

#[test]
fn build_message_frames_the_members_in_record_order() {
    let wire = build_message(text("a"), text("b"), text("hi"));
    assert_eq!(wire, "{\"from\":\"a\",\"to\":\"b\",\"message_type\":\"message\",\"body\":\"hi\"}");
}

#[test]
fn to_json_escapes_what_json_escapes() {
    let m = Message::new(text("a\"b"), text("c\\d"), text("message"), text("line\nbreak\u{1}"));
    let wire = m.to_json().unwrap();
    assert_eq!(
        wire,
        "{\"from\":\"a\\\"b\",\"to\":\"c\\\\d\",\"message_type\":\"message\",\"body\":\"line\\nbreak\\u0001\"}"
    );
    let back = Message::from_json(&wire).unwrap();
    assert_eq!(back.from, "a\"b");
    assert_eq!(back.to, "c\\d");
    assert_eq!(back.message_type, "message");
    assert_eq!(back.body, "line\nbreak\u{1}");
}

#[test]
fn from_json_takes_members_in_any_order_with_white_space() {
    let m = Message::from_json(
        " \n{ \"body\" : \"x\" ,\t\"to\":\"b\", \"from\":\"a\",\r\n \"message_type\":\"ack\" } ",
    )
    .unwrap();
    assert_eq!(m.from, "a");
    assert_eq!(m.to, "b");
    assert_eq!(m.message_type, "ack");
    assert_eq!(m.body, "x");
}

#[test]
fn from_json_reports_a_duplicate_member() {
    let r = Message::from_json("{\"from\":\"a\",\"from\":\"b\",\"to\":\"c\"}");
    assert_eq!(r.unwrap_err(), DecodeError::DuplicateField(Field::From));
}

#[test]
fn from_json_reports_the_first_missing_member() {
    let r = Message::from_json("{\"from\":\"a\",\"body\":\"b\"}");
    assert_eq!(r.unwrap_err(), DecodeError::MissingField(Field::To));
    let r = Message::from_json("{}");
    assert_eq!(r.unwrap_err(), DecodeError::MissingField(Field::From));
}

#[test]
fn from_json_refuses_what_is_no_envelope() {
    for bad in [
        "",
        "[]",
        "\"from\"",
        "{\"from\":\"a\",\"to\":\"b\",\"message_type\":\"m\",\"body\":\"x\"} x",
        "{\"from\":\"a\",\"to\":\"b\",\"message_type\":\"m\",\"body\":\"x\",}",
        "{\"from\":\"a\",\"to\":\"b\",\"message_type\":\"m\",\"body\":\"x\",\"extra\":\"y\"}",
        "{\"from\":\"a\",\"to\":\"b\",\"message_type\":\"m\",\"body\":7}",
        "{\"from\":\"a\",\"to\":\"b\",\"message_type\":\"m\",\"body\":\"bad \\q escape\"}",
        "{\"from\":\"a\",\"to\":\"b\",\"message_type\":\"m\",\"body\":\"unterminated}",
        "{\"fr\\u006fm\":\"a\",\"to\":\"b\",\"message_type\":\"m\",\"body\":\"x\"}",
    ] {
        assert_eq!(Message::from_json(bad).unwrap_err(), DecodeError::Malformed, "{}", bad);
    }
}

#[test]
fn frame_puts_the_literals_between_the_names() {
    assert_eq!(
        frame("1", "[2]", "null", "\"four\""),
        "{\"from\":1,\"to\":[2],\"message_type\":null,\"body\":\"four\"}"
    );
    assert_eq!(frame("", "", "", ""), "{\"from\":,\"to\":,\"message_type\":,\"body\":}");
}

#[test]
fn members_fill_one_by_one() {
    let members = Members::new();
    for field in [Field::From, Field::To, Field::MessageType, Field::Body] {
        assert!(!members.holds(field));
    }
    let members = members.with(Field::Body, text("b")).with(Field::From, text("f"));
    assert!(members.holds(Field::Body));
    assert!(members.holds(Field::From));
    assert!(!members.holds(Field::To));
    assert!(!members.holds(Field::MessageType));
    let members = members.with(Field::MessageType, text("m"));
    let members = members.with(Field::To, text("t"));
    let message = members.complete().unwrap();
    assert_eq!(message.from, "f");
    assert_eq!(message.to, "t");
    assert_eq!(message.message_type, "m");
    assert_eq!(message.body, "b");
}

#[test]
fn members_name_the_first_that_is_absent() {
    assert_eq!(Members::new().complete().unwrap_err(), Field::From);
    let members = Members::new().with(Field::From, text("f"));
    assert_eq!(members.complete().unwrap_err(), Field::To);
    let members = Members::new().with(Field::From, text("f")).with(Field::To, text("t"));
    assert_eq!(members.complete().unwrap_err(), Field::MessageType);
    let members = Members::new()
        .with(Field::From, text("f"))
        .with(Field::To, text("t"))
        .with(Field::MessageType, text("m"));
    assert_eq!(members.complete().unwrap_err(), Field::Body);
    let members = Members::new().with(Field::Body, text("b")).with(Field::To, text("t"));
    assert_eq!(members.complete().unwrap_err(), Field::From);
}

#[test]
fn from_json_reports_what_comes_first() {
    let r = Message::from_json("{\"to\":\"a\",\"to\":7}");
    assert_eq!(r.unwrap_err(), DecodeError::DuplicateField(Field::To));
    let r = Message::from_json("{\"to\":\"a\"} trailing");
    assert_eq!(r.unwrap_err(), DecodeError::MissingField(Field::From));
    let r = Message::from_json("{\"to\":7,\"to\":\"a\"}");
    assert_eq!(r.unwrap_err(), DecodeError::Malformed);
    let r = Message::from_json("{\"body\":\"a\",\"message_type\":\"b\",\"to\":\"c\"}");
    assert_eq!(r.unwrap_err(), DecodeError::MissingField(Field::From));
}

#[test]
fn from_json_reads_the_escapes_of_json() {
    let m = Message::from_json(
        "{\"from\":\"\\u00e9\\ud83d\\ude00\",\"to\":\"\\/\\b\\f\\n\\r\\t\",\"message_type\":\"\",\"body\":\"}{,:\\\"\"}",
    )
    .unwrap();
    assert_eq!(m.from, "\u{e9}\u{1F600}");
    assert_eq!(m.to, "/\u{8}\u{c}\n\r\t");
    assert_eq!(m.message_type, "");
    assert_eq!(m.body, "}{,:\"");
}
