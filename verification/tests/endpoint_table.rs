use jackfield::config::DimensionsError;
use jackfield::grpc_register::{RegisterError, RegisterStep, Registration};
use jackfield::ws_connection::{ConnStep, WsConnection};
use jackfield::endpoint_table::{client_producer_name, DeregisterError, EndpointEntry, EndpointTable, StreamError};
use jackfield::uuids::{uuid_to_bytes, uuid_to_text};
use jackfield::ws_session::{ws_producer_origin, Frame, WsSession, WsStage, WsStep};

fn entry(uuid: u128, reg: Option<u64>) -> EndpointEntry<&'static str, &'static str> {
    EndpointEntry { uuid, consumer_reg_id: reg, consumer_rx: Some("rx"), producer_handle: Some("handle") }
}

#[test]
fn stream_requires_registration() {
    let mut t: EndpointTable<&str, &str> = EndpointTable::new();
    assert_eq!(t.take_stream_parts(Some(&"127.0.0.1:1".to_string())).err(), Some(StreamError::NotRegistered));
    assert_eq!(t.take_stream_parts(None).err(), Some(StreamError::NoRemoteAddress));
}

#[test]
fn stream_takes_receiver_and_handle_once() {
    let mut t = EndpointTable::new();
    let addr = "127.0.0.1:9".to_string();
    t.insert(addr.clone(), entry(5, Some(3)));
    let (rx, reg, handle) = t.take_stream_parts(Some(&addr)).ok().unwrap();
    assert_eq!((rx, reg, handle), (Some("rx"), Some(3), Some("handle")));
    let (rx, reg, handle) = t.take_stream_parts(Some(&addr)).ok().unwrap();
    assert_eq!((rx, reg, handle), (None, Some(3), None));
}

#[test]
fn register_again_replaces_entry() {
    let mut t = EndpointTable::new();
    let addr = "a".to_string();
    t.insert(addr.clone(), entry(1, None));
    t.insert(addr.clone(), entry(2, Some(8)));
    assert_eq!(t.entries.len(), 1);
    assert_eq!(t.entries[0].1.uuid, 2);
}

#[test]
fn deregister_checks_uuid() {
    let mut t = EndpointTable::new();
    let addr = "peer".to_string();
    t.insert(addr.clone(), entry(77, Some(4)));
    t.insert("other".to_string(), entry(78, None));
    assert_eq!(t.deregister(None, &uuid_to_bytes(77)), Err(DeregisterError::NoRemoteAddress));
    assert_eq!(t.deregister(Some(&addr), &[1, 2, 3]), Err(DeregisterError::InvalidUuid));
    assert_eq!(t.deregister(Some(&addr), &uuid_to_bytes(76)), Err(DeregisterError::UuidMismatch));
    assert_eq!(t.deregister(Some(&"nobody".to_string()), &uuid_to_bytes(77)), Err(DeregisterError::NotRegistered));
    assert_eq!(t.deregister(Some(&addr), &uuid_to_bytes(77)), Ok(Some(4)));
    assert_eq!(t.deregister(Some(&addr), &uuid_to_bytes(77)), Err(DeregisterError::NotRegistered));
    assert_eq!(t.entries.len(), 1);
    assert!(t.remove(&"other".to_string()).is_some());
    assert!(t.remove(&"other".to_string()).is_none());
}

#[test]
fn client_producer_names() {
    assert_eq!(uuid_to_text(0x0123456789abcdef0011223344556677), "01234567-89ab-cdef-0011-223344556677");
    assert_eq!(client_producer_name("demo", 1), "demo/00000000-0000-0000-0000-000000000001");
}

#[test]
fn ws_session_handshake_then_messages() {
    use_ws_session();
}

fn use_ws_session() {
    // a producer and consumer: read errors before registration are skipped
    let mut s = WsSession::new();
    assert_eq!(s.on_frame(Frame::Other, false), WsStep::ReadNext);
    assert_eq!(s.on_frame(Frame::Error, false), WsStep::ReadNext);
    assert_eq!(s.on_frame(Frame::Binary, true), WsStep::Configure);
    assert_eq!(s.configure(true, true, true), WsStep::RegisterConsumer);
    assert_eq!(s.consumer_registered(Some(7)), WsStep::ReadNext);
    assert_eq!(s.on_frame(Frame::Binary, false), WsStep::ReadNext);
    assert_eq!(s.on_frame(Frame::Binary, true), WsStep::Forward);
    assert_eq!(s.on_frame(Frame::Error, false), WsStep::Withdraw { id: 7 });
    assert_eq!(s.stage, WsStage::Closed);
    assert_eq!(s.on_frame(Frame::End, false), WsStep::Finish);

    // an undecodable registration ends the connection
    let mut bad = WsSession::new();
    assert_eq!(bad.on_frame(Frame::Binary, false), WsStep::Finish);

    // unparsable dimensions: nothing is registered
    let mut bad_dims = WsSession::new();
    bad_dims.on_frame(Frame::Binary, true);
    assert_eq!(bad_dims.configure(false, true, true), WsStep::Finish);
    assert_eq!(bad_dims.stage, WsStage::Closed);

    // the bus refuses the consumer: nothing to withdraw
    let mut refused = WsSession::new();
    refused.on_frame(Frame::Binary, true);
    refused.configure(true, true, false);
    assert_eq!(refused.consumer_registered(None), WsStep::Finish);

    // a consumer only: its frames are not forwarded; the end withdraws it
    let mut consumer_only = WsSession::new();
    consumer_only.on_frame(Frame::Binary, true);
    consumer_only.configure(true, true, false);
    consumer_only.consumer_registered(Some(3));
    assert_eq!(consumer_only.on_frame(Frame::Binary, true), WsStep::ReadNext);
    assert_eq!(consumer_only.on_frame(Frame::Close, false), WsStep::Withdraw { id: 3 });

    // a producer only: the end just finishes
    let mut producer_only = WsSession::new();
    producer_only.on_frame(Frame::Binary, true);
    assert_eq!(producer_only.configure(true, false, true), WsStep::ReadNext);
    assert_eq!(producer_only.on_frame(Frame::End, false), WsStep::Finish);
}

#[test]
fn ws_producer_origin_has_name_and_uuid() {
    let o = ws_producer_origin("sensor");
    assert!(o.starts_with("sensor/"));
    assert_eq!(o.len(), "sensor/".len() + 36);
}

#[test]
fn ws_connection_forwards_then_disconnects_once() {
    let mut c = WsConnection::new(12);
    assert_eq!(c.origin("demo"), "demo/12");
    assert_eq!(c.handshake(true), ConnStep::ReadNext);
    assert_eq!(c.on_frame(Frame::Binary, true, true), ConnStep::Forward);
    assert_eq!(c.on_frame(Frame::Binary, true, false), ConnStep::ReadNext);
    assert_eq!(c.on_frame(Frame::Binary, false, true), ConnStep::ReadNext);
    assert_eq!(c.on_frame(Frame::Other, false, true), ConnStep::ReadNext);
    assert_eq!(c.on_frame(Frame::Close, false, true), ConnStep::Disconnect { id: 12 });
    assert_eq!(c.on_frame(Frame::End, false, true), ConnStep::Finish);

    let mut failed = WsConnection::new(0);
    assert_eq!(failed.origin("ws"), "ws/0");
    assert_eq!(failed.handshake(false), ConnStep::Disconnect { id: 0 });
    assert_eq!(failed.on_frame(Frame::Binary, true, true), ConnStep::Finish);

    assert_eq!(WsConnection::new(1234567890).origin("x"), "x/1234567890");
}

#[test]
fn grpc_register_checks_then_registers_then_records() {

    let (step, _) = Registration::start(false, None, true, true, 5);
    assert_eq!(step, RegisterStep::Refuse(RegisterError::NoRemoteAddress));
    let (step, _) = Registration::start(true, Some(DimensionsError::InvalidSize), true, true, 5);
    assert_eq!(step, RegisterStep::Refuse(RegisterError::InvalidDimensions(DimensionsError::InvalidSize)));

    let (step, mut reg) = Registration::start(true, None, true, false, 5);
    assert_eq!(step, RegisterStep::RegisterConsumer);
    let mut closed = reg;
    assert_eq!(closed.consumer_registered(None), RegisterStep::Refuse(RegisterError::BusClosed));
    assert_eq!(reg.consumer_registered(Some(9)), RegisterStep::Record);

    let mut table: EndpointTable<&str, &str> = EndpointTable::new();
    let bytes = reg.record(&mut table, "10.0.0.1:5".to_string(), Some("rx"), None);
    assert_eq!(bytes, {
        let mut b = vec![0u8; 16];
        b[15] = 5;
        b
    });
    let e = &table.entries[0].1;
    assert_eq!(e.uuid, 5);
    assert_eq!(e.consumer_reg_id, Some(9));
    assert_eq!(e.consumer_rx, Some("rx"));
    assert_eq!(e.producer_handle, None);

    let (step, prod) = Registration::start(true, None, false, true, 6);
    assert_eq!(step, RegisterStep::Record);
    prod.record(&mut table, "10.0.0.2:5".to_string(), None, Some("handle"));
    assert_eq!(table.entries.len(), 2);
    assert_eq!(table.entries[1].1.consumer_reg_id, None);
}
