use jackfield::bus::{Bus, Drain, DrainStep};
use jackfield::dims::ProducerDim;
use jackfield::envelope::{Envelope, ProducerId};
use jackfield::message::BaseMessage;

fn env(label: &str) -> Envelope {
    Envelope {
        origin: ProducerId("producer".to_string()),
        message: BaseMessage::new(None, Some(vec![label.to_string()]), None),
    }
}

fn labels(bus: &mut Bus<(), ProducerDim>) -> Vec<String> {
    bus.take_pending().into_iter().map(|e| e.message.labels[0].clone()).collect()
}

#[test]
fn test_bus_creation() {
    let bus: Bus<(), ProducerDim> = Bus::new().max_pending(1024);
    assert_eq!(bus.max_pending, 1024);
    assert!(!bus.has_pending());
}

#[test]
fn pending_queue_keeps_latest() {
    // 30 unhandled envelopes with a cap of 10: the last 10 survive, in order.
    let mut bus: Bus<(), ProducerDim> = Bus::new().max_pending(10);
    for i in 0..30u32 {
        bus.push_pending(env(&i.to_string()));
    }
    assert!(bus.has_pending());
    let expected: Vec<String> = (20..30u32).map(|i| i.to_string()).collect();
    assert_eq!(labels(&mut bus), expected);
    assert!(!bus.has_pending());
}

#[test]
fn pending_queue_zero_cap_keeps_nothing() {
    let mut bus: Bus<(), ProducerDim> = Bus::new().max_pending(0);
    bus.push_pending(env("a"));
    bus.push_pending(env("b"));
    assert!(!bus.has_pending());
}

#[test]
fn pending_queue_lowered_cap_trims_oldest() {
    let mut bus: Bus<(), ProducerDim> = Bus::new().max_pending(5);
    for i in 0..5u32 {
        bus.push_pending(env(&i.to_string()));
    }
    let mut bus = bus.max_pending(2);
    bus.push_pending(env("5"));
    assert_eq!(labels(&mut bus), vec!["4".to_string(), "5".to_string()]);
}

#[test]
fn apply_register_attaches_dims_in_order() {
    let mut bus: Bus<&str, ProducerDim> = Bus::new();
    let id0 = bus.register_consumer("first").id;
    let id1 = bus.apply_register(
        "second",
        vec![(ProducerDim::only("a".to_string()), true), (ProducerDim::only("b".to_string()), false)],
    );
    assert_eq!((id0, id1), (0, 1));
    let e = &bus.registry.entries[1];
    assert_eq!(e.consumer, "second");
    assert_eq!(e.dims.len(), 2);
    assert!(e.dims[0].reject_on_miss);
    assert!(!e.dims[1].reject_on_miss);
    assert!(bus.deregister_consumer(id0));
    assert!(!bus.deregister_consumer(id0));
    assert_eq!(bus.registry.entries.len(), 1);
}

#[test]
fn drain_runs_commands_then_pending_then_channel() {
    use_drain();
}

fn use_drain() {
    let mut bus: Bus<(), ProducerDim> = Bus::new();
    bus.push_pending(env("p1"));
    bus.push_pending(env("p2"));
    let mut d = Drain::new();
    let mut seen = Vec::new();
    let mut retried = Vec::new();
    let mut commands = 2;
    let mut channel = 2;
    loop {
        let step = d.step();
        seen.push(step);
        match step {
            DrainStep::TryCommand => {
                let got = commands > 0;
                commands -= got as i32;
                d.feed(got);
            }
            DrainStep::TakePending => d.take_pending(&mut bus),
            DrainStep::TryPending => {
                if let Some(e) = d.next_pending() {
                    retried.push(e.message.labels[0].clone());
                }
            }
            DrainStep::TryChannel => {
                let got = channel > 0;
                channel -= got as i32;
                d.feed(got);
            }
            DrainStep::Finished => break,
        }
    }
    assert_eq!(retried, vec!["p1".to_string(), "p2".to_string()]);
    assert!(!bus.has_pending());
    assert_eq!(
        seen,
        vec![
            DrainStep::TryCommand,
            DrainStep::TryCommand,
            DrainStep::TryCommand,
            DrainStep::TakePending,
            DrainStep::TryPending,
            DrainStep::TryPending,
            DrainStep::TryPending,
            DrainStep::TryChannel,
            DrainStep::TryChannel,
            DrainStep::TryChannel,
            DrainStep::Finished,
        ]
    );
}
