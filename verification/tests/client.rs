use peer_relay::client::announce;
use peer_relay::message::errors;
use peer_relay::message::types;
use peer_relay::message::{
    build_ack, build_disconnect, build_discovery, build_error, build_message, Message,
};

fn text(s: &str) -> String {
    s.to_string()
}

#[test]
fn a_connection_is_announced_as_a_discovery() {
    let wire = announce("0.0.0.0:8080", Ok(text("10.0.0.7:5555")));
    assert_eq!(
        wire,
        "{\"from\":\"10.0.0.7:5555\",\"to\":\"0.0.0.0:8080\",\"message_type\":\"discovery\",\"body\":\"\"}"
    );
}

#[test]
fn a_failure_is_announced_as_an_error_to_oneself() {
    let wire = announce("0.0.0.0:8080", Err(text("too many \"files\"")));
    let m = Message::from_json(&wire).unwrap();
    assert_eq!(m.from, "0.0.0.0:8080");
    assert_eq!(m.to, "0.0.0.0:8080");
    assert_eq!(m.message_type, "error");
    assert_eq!(m.body, "too many \"files\"");
}

#[test]
fn each_builder_sets_its_kind() {
    let kind = |wire: String| Message::from_json(&wire).unwrap().message_type;
    assert_eq!(kind(build_message(text("a"), text("b"), text("c"))), types::MESSAGE);
    assert_eq!(kind(build_discovery(text("a"), text("b"), text("c"))), types::DISCOVERY);
    assert_eq!(kind(build_ack(text("a"), text("b"), text("c"))), types::ACK);
    assert_eq!(kind(build_error(text("a"), text("b"), text("c"))), types::ERROR);
    assert_eq!(kind(build_disconnect(text("a"), text("b"), text("c"))), types::DISCONNECT);
}

#[test]
fn the_kinds_are_spelled_as_on_the_wire() {
    assert_eq!(types::MESSAGE, "message");
    assert_eq!(types::DISCOVERY, "discovery");
    assert_eq!(types::ACK, "ack");
    assert_eq!(types::ERROR, "error");
    assert_eq!(types::DISCONNECT, "disconnect");
    assert_eq!(errors::INVALID_MESSAGE, "Invalid message");
    assert_eq!(errors::INVALID_DISCOVERY, "Invalid discovery");
    assert_eq!(errors::INVALID_ACK, "Invalid ack");
    assert_eq!(errors::INVALID_ERROR, "Invalid error");
    assert_eq!(errors::INVALID_DISCONNECT, "Invalid disconnect");
}

#[test]
fn a_built_message_reads_back() {
    let wire = build_disconnect(text("tab\there"), text("ünï\u{1F600}"), text("\\\"/\u{7f}"));
    let m = Message::from_json(&wire).unwrap();
    assert_eq!(m.from, "tab\there");
    assert_eq!(m.to, "ünï\u{1F600}");
    assert_eq!(m.message_type, "disconnect");
    assert_eq!(m.body, "\\\"/\u{7f}");
}

#[test]
fn a_copy_of_a_message_holds_what_it_held() {
    let m = Message::new(text("a"), text("b"), text("c"), text("d"));
    let copy = m.clone();
    assert_eq!(copy.from, "a");
    assert_eq!(copy.to, "b");
    assert_eq!(copy.message_type, "c");
    assert_eq!(copy.body, "d");
}
