use std::cell::RefCell;

use jackfield::message::BaseMessage;
use jackfield::message_bus::{Consumer, MessageBus};

struct MockConsumer {
    accepted_labels: Vec<String>,
    consumed: RefCell<usize>,
}

impl MockConsumer {
    fn new(labels: &[&str]) -> Self {
        MockConsumer { accepted_labels: labels.iter().map(|s| s.to_string()).collect(), consumed: RefCell::new(0) }
    }
}

impl Consumer for MockConsumer {
    fn accepts(&self, message: BaseMessage) -> bool {
        message.labels.iter().all(|l| self.accepted_labels.contains(l))
    }

    fn validate(&self, message: &BaseMessage) -> bool {
        message.labels.iter().all(|l| self.accepted_labels.contains(l))
    }

    fn consume(&self, _message: BaseMessage) {
        *self.consumed.borrow_mut() += 1;
    }
}

fn labelled(labels: &[&str]) -> BaseMessage {
    BaseMessage::new(None, Some(labels.iter().map(|s| s.to_string()).collect()), None)
}

#[test]
fn message_bus_bus_creation() {
    let bus: MessageBus<MockConsumer> = MessageBus::new();
    assert!(bus.done());
}

#[test]
fn message_bus_sync_routing() {
    let mut bus = MessageBus::new();
    bus.add_consumer(MockConsumer::new(&["label1", "label2"]));

    bus.add_message(labelled(&["label1"]));
    bus.add_message(labelled(&["label1", "label2"]));
    bus.add_message(labelled(&["label1", "label2", "label3"]));

    bus.route_sync();
    assert!(!bus.done());

    bus.add_consumer(MockConsumer::new(&["label1", "label2", "label3"]));
    bus.route_sync();
    assert!(bus.done());
    assert_eq!(*bus.consumers[0].consumed.borrow(), 2);
    assert_eq!(*bus.consumers[1].consumed.borrow(), 1);
}

#[test]
fn message_bus_keeps_unaccepted_in_order() {
    let mut bus = MessageBus::new();
    bus.add_consumer(MockConsumer::new(&["a"]));
    bus.add_message(labelled(&["x"]));
    bus.add_message(labelled(&["a"]));
    bus.add_message(labelled(&["y"]));
    bus.route_sync();
    let left: Vec<String> = bus.pending.iter().map(|m| m.labels[0].clone()).collect();
    assert_eq!(left, vec!["x".to_string(), "y".to_string()]);
}

#[test]
fn message_bus_assigns_identifiers() {
    let mut bus: MessageBus<MockConsumer> = MessageBus::new();
    let fresh = bus.add_message(labelled(&[]));
    assert_ne!(fresh, 0);
    assert_eq!((fresh >> 76) & 0xF, 4);
    let kept = bus.add_message(BaseMessage::new(Some(42), None, None));
    assert_eq!(kept, 42);
    assert_eq!(bus.pending[1].uuid, 42);
}

#[test]
fn message_bus_second_pass_changes_nothing() {
    let mut bus = MessageBus::new();
    bus.add_consumer(MockConsumer::new(&["a"]));
    bus.add_message(labelled(&["x"]));
    bus.add_message(labelled(&["a"]));
    bus.add_message(labelled(&["a", "y"]));
    bus.route_sync();
    let first: Vec<Vec<String>> = bus.pending.iter().map(|m| m.labels.clone()).collect();
    bus.route_sync();
    let second: Vec<Vec<String>> = bus.pending.iter().map(|m| m.labels.clone()).collect();
    assert_eq!(first, second);
    assert_eq!(first.len(), 2);
    assert_eq!(*bus.consumers[0].consumed.borrow(), 1);
}

#[test]
fn message_bus_hands_each_message_to_first_accepting_consumer() {
    let mut bus = MessageBus::new();
    bus.add_consumer(MockConsumer::new(&["a"]));
    bus.add_consumer(MockConsumer::new(&["a", "b"]));
    bus.add_message(labelled(&["b"]));
    bus.add_message(labelled(&["a"]));
    bus.add_message(labelled(&["c"]));
    let out: Vec<(usize, Vec<String>)> = bus.take_deliveries().into_iter().map(|(i, m)| (i, m.labels)).collect();
    assert_eq!(out, vec![(1, vec!["b".to_string()]), (0, vec!["a".to_string()])]);
    assert_eq!(bus.pending.len(), 1);
}
