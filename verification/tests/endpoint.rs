use jackfield::connection::ConnectionTable;
use jackfield::endpoint::{Endpoint, EndpointType};
use jackfield::error::JackfieldError;
use jackfield::envelope::ProducerId;
use jackfield::throttle::Throttle;
use jackfield::route::{AffinityRouter, BlindRouter};

#[test]
fn endpoint_type_flags() {
    let both = EndpointType::producer().union(EndpointType::consumer());
    assert!(both.contains(EndpointType::producer()));
    assert!(both.contains(EndpointType::consumer()));
    assert!(!EndpointType::consumer().contains(EndpointType::producer()));
    assert!(EndpointType::consumer().contains(EndpointType::empty()));
}

#[test]
fn send_without_registration_is_refused() {
    let ep: Endpoint<u32, ()> = Endpoint::new("unattached".to_string(), EndpointType::producer());
    assert!(matches!(ep.sender(), Err(JackfieldError::NotRegistered)));
    assert_eq!(ep.name(), "unattached");
}

#[test]
fn send_needs_the_producer_flag() {
    let mut ep: Endpoint<u32, ()> = Endpoint::new("c".to_string(), EndpointType::consumer());
    ep.attach(7);
    assert!(matches!(ep.sender(), Err(JackfieldError::NotRegistered)));
    let mut relay: Endpoint<u32, ()> =
        Endpoint::new("relay".to_string(), EndpointType::producer().union(EndpointType::consumer()));
    relay.attach(9);
    assert_eq!(*relay.sender().unwrap(), 9);
    assert!(relay.consumer().is_none());
    let relay = relay.set_consumer(());
    assert!(relay.consumer().is_some());
}

#[test]
fn error_messages() {
    assert_eq!(JackfieldError::NotRegistered.message(), "Endpoint not registered with a bus");
    assert_eq!(JackfieldError::ChannelClosed.message(), "Bus channel has been closed");
    assert_eq!(JackfieldError::ChannelFull.message(), "Bus channel is full");
    assert_eq!(JackfieldError::Custom("boom".to_string()).message(), "Bus error: boom");
}

#[test]
fn producer_id_text() {
    let p = ProducerId("sensor".to_string());
    assert_eq!(p.as_str(), "sensor");
    assert_eq!(p.duplicate(), p);
}

#[test]
fn throttle_and_routers() {
    let t = Throttle::new(20, 2);
    assert_eq!((t.rate, t.burst), (20, 2));
    let _a = AffinityRouter::new();
    let _b = BlindRouter::new();
}

#[test]
fn connection_table_tracks_live_connections() {
    let mut t: ConnectionTable<&str> = ConnectionTable::new();
    assert!(!t.available());
    let a = t.connect("a");
    let b = t.connect("b");
    let c = t.connect("c");
    assert_eq!((a, b, c), (0, 1, 2));
    assert!(t.available());
    assert_eq!(t.connections.len(), 3);
    assert_eq!(t.connections.get(&1), Some(&"b"));
    assert!(t.disconnect(b));
    assert!(!t.disconnect(b));
    t.remove_dead(&vec![a, 7, a]);
    assert_eq!(t.connections.keys().copied().collect::<Vec<u64>>(), vec![2]);
    assert_eq!(t.active, 1);
    assert!(t.disconnect(c));
    assert!(!t.available());
    assert_eq!(t.connect("d"), 3);
}
