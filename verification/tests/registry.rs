use peer_relay::message::Message;
use peer_relay::queue::OutboundQueue;
use peer_relay::registry::{PeerId, Registry, RegistryError};

fn peer(port: u16) -> PeerId {
    PeerId { host: 0x7f00_0001, port }
}

fn message(from: &str, body: &str) -> Message {
    Message::new(from.to_string(), "all".to_string(), "message".to_string(), body.to_string())
}

fn drain(registry: &mut Registry, id: PeerId) -> Vec<String> {
    let mut bodies = Vec::new();
    while let Some(m) = registry.next_outbound(id) {
        bodies.push(m.body);
    }
    bodies
}

#[test]
fn register_then_unregister_leaves_the_registry_empty() {
    let mut registry = Registry::new();
    assert_eq!(registry.len(), 0);
    assert_eq!(registry.register(peer(1), OutboundQueue::new()), Ok(()));
    assert_eq!(registry.len(), 1);
    assert!(registry.contains(peer(1)));
    assert!(registry.unregister(peer(1)));
    assert_eq!(registry.len(), 0);
    assert!(!registry.contains(peer(1)));
}

#[test]
fn unregister_of_an_absent_peer_changes_nothing() {
    let mut registry = Registry::new();
    assert!(!registry.unregister(peer(1)));
    registry.register(peer(2), OutboundQueue::new()).unwrap();
    assert!(!registry.unregister(peer(1)));
    assert!(registry.unregister(peer(2)));
    assert!(!registry.unregister(peer(2)));
    assert_eq!(registry.len(), 0);
}

#[test]
fn register_refuses_a_live_id() {
    let mut registry = Registry::new();
    registry.register(peer(1), OutboundQueue::new()).unwrap();
    registry.send_to(peer(1), message("x", "kept"));
    assert_eq!(
        registry.register(peer(1), OutboundQueue::new()),
        Err(RegistryError::DuplicatePeer)
    );
    assert_eq!(registry.len(), 1);
    assert_eq!(registry.pending(peer(1)), 1);
    registry.unregister(peer(1));
    assert_eq!(registry.register(peer(1), OutboundQueue::new()), Ok(()));
    assert_eq!(registry.pending(peer(1)), 0);
}

#[test]
fn peers_differ_by_host_and_by_port() {
    let mut registry = Registry::new();
    registry.register(PeerId { host: 1, port: 1 }, OutboundQueue::new()).unwrap();
    assert_eq!(registry.register(PeerId { host: 1, port: 2 }, OutboundQueue::new()), Ok(()));
    assert_eq!(registry.register(PeerId { host: 2, port: 1 }, OutboundQueue::new()), Ok(()));
    assert_eq!(registry.len(), 3);
}

#[test]
fn broadcast_reaches_everyone_but_the_sender() {
    let mut registry = Registry::new();
    for port in [1, 2, 3] {
        registry.register(peer(port), OutboundQueue::new()).unwrap();
    }
    assert_eq!(registry.broadcast(peer(1), &message("a", "hello")), 2);
    assert_eq!(registry.pending(peer(1)), 0);
    assert_eq!(drain(&mut registry, peer(2)), ["hello"]);
    assert_eq!(drain(&mut registry, peer(3)), ["hello"]);
    assert_eq!(registry.len(), 3);
}

#[test]
fn broadcast_with_no_other_peer_does_nothing() {
    let mut registry = Registry::new();
    assert_eq!(registry.broadcast(peer(1), &message("a", "hello")), 0);
    registry.register(peer(1), OutboundQueue::new()).unwrap();
    assert_eq!(registry.broadcast(peer(1), &message("a", "hello")), 0);
    assert_eq!(registry.pending(peer(1)), 0);
    assert_eq!(registry.len(), 1);
}

#[test]
fn broadcast_from_an_unregistered_sender_reaches_all() {
    let mut registry = Registry::new();
    registry.register(peer(1), OutboundQueue::new()).unwrap();
    registry.register(peer(2), OutboundQueue::new()).unwrap();
    assert_eq!(registry.broadcast(peer(9), &message("z", "hi")), 2);
    assert_eq!(registry.pending(peer(1)), 1);
    assert_eq!(registry.pending(peer(2)), 1);
}

#[test]
fn broadcasts_of_one_sender_arrive_in_order() {
    let mut registry = Registry::new();
    for port in [1, 2, 3] {
        registry.register(peer(port), OutboundQueue::new()).unwrap();
    }
    registry.broadcast(peer(1), &message("a", "m1"));
    registry.broadcast(peer(1), &message("a", "m2"));
    assert_eq!(drain(&mut registry, peer(2)), ["m1", "m2"]);
    assert_eq!(drain(&mut registry, peer(3)), ["m1", "m2"]);
    assert_eq!(drain(&mut registry, peer(1)), Vec::<String>::new());
}

#[test]
fn broadcasts_of_two_senders_keep_each_senders_order() {
    let mut registry = Registry::new();
    for port in [1, 2, 3] {
        registry.register(peer(port), OutboundQueue::new()).unwrap();
    }
    registry.broadcast(peer(1), &message("a", "a1"));
    registry.broadcast(peer(2), &message("b", "b1"));
    registry.broadcast(peer(1), &message("a", "a2"));
    assert_eq!(drain(&mut registry, peer(3)), ["a1", "b1", "a2"]);
    assert_eq!(drain(&mut registry, peer(2)), ["a1", "a2"]);
    assert_eq!(drain(&mut registry, peer(1)), ["b1"]);
}

#[test]
fn a_peer_whose_consumer_is_gone_is_passed_over() {
    let mut registry = Registry::new();
    for port in [1, 2, 3] {
        registry.register(peer(port), OutboundQueue::new()).unwrap();
    }
    registry.broadcast(peer(1), &message("a", "before"));
    registry.hang_up(peer(2));
    assert_eq!(registry.broadcast(peer(1), &message("a", "after")), 1);
    assert!(!registry.send_to(peer(2), message("a", "direct")));
    assert_eq!(drain(&mut registry, peer(2)), ["before"]);
    assert_eq!(drain(&mut registry, peer(3)), ["before", "after"]);
    assert!(registry.contains(peer(2)));
}

#[test]
fn send_to_reaches_one_peer_only() {
    let mut registry = Registry::new();
    registry.register(peer(1), OutboundQueue::new()).unwrap();
    registry.register(peer(2), OutboundQueue::new()).unwrap();
    assert!(registry.send_to(peer(2), message("a", "one")));
    assert!(!registry.send_to(peer(7), message("a", "nobody")));
    assert_eq!(registry.pending(peer(1)), 0);
    assert_eq!(drain(&mut registry, peer(2)), ["one"]);
}

#[test]
fn next_outbound_of_an_absent_or_idle_peer_is_none() {
    let mut registry = Registry::new();
    assert!(registry.next_outbound(peer(1)).is_none());
    registry.register(peer(1), OutboundQueue::new()).unwrap();
    assert!(registry.next_outbound(peer(1)).is_none());
    assert_eq!(registry.pending(peer(5)), 0);
}

#[test]
fn each_recipient_gets_a_copy_of_its_own() {
    let mut registry = Registry::new();
    for port in [1, 2, 3] {
        registry.register(peer(port), OutboundQueue::new()).unwrap();
    }
    let sent = message("a", "copy");
    registry.broadcast(peer(1), &sent);
    let mut at_two = registry.next_outbound(peer(2)).unwrap();
    at_two.body.push_str(" changed");
    let at_three = registry.next_outbound(peer(3)).unwrap();
    assert_eq!(at_three.body, "copy");
    assert_eq!(at_three.from, "a");
    assert_eq!(at_three.to, "all");
    assert_eq!(at_three.message_type, "message");
    assert_eq!(sent.body, "copy");
}

#[test]
fn a_registered_queue_keeps_what_it_held() {
    let mut queue = OutboundQueue::new();
    assert!(queue.is_empty());
    assert!(queue.is_open());
    assert!(queue.push(message("a", "early")));
    assert_eq!(queue.len(), 1);
    let mut registry = Registry::new();
    registry.register(peer(1), queue).unwrap();
    assert_eq!(drain(&mut registry, peer(1)), ["early"]);
}

#[test]
fn a_queue_is_first_in_first_out_and_drops_when_closed() {
    let mut queue = OutboundQueue::new();
    assert!(queue.pop().is_none());
    queue.push(message("a", "1"));
    queue.push(message("a", "2"));
    queue.close();
    assert!(!queue.is_open());
    assert!(!queue.push(message("a", "3")));
    assert_eq!(queue.len(), 2);
    assert_eq!(queue.pop().unwrap().body, "1");
    assert_eq!(queue.pop().unwrap().body, "2");
    assert!(queue.pop().is_none());
}
