use jackfield::codec::{from_wire, to_wire, WireMessage};
use jackfield::message::{BaseMessage, Message};
use jackfield::uuids::{random_uuid, uuid_from_slice, uuid_to_bytes};

#[test]
fn test_message_creation() {
    let message = BaseMessage::new(None, None, None);
    assert_eq!(message.get_uuid(), 0u128);
    assert!(message.get_labels().is_empty());
    assert!(message.get_bytes().is_empty());
}

#[test]
fn message_keeps_given_parts() {
    let m = BaseMessage::new(Some(7), Some(vec!["a".to_string(), "b".to_string()]), Some(vec![1, 2, 3]));
    assert_eq!(m.get_uuid(), 7);
    assert_eq!(m.get_labels(), &["a".to_string(), "b".to_string()]);
    assert_eq!(m.get_bytes(), &[1u8, 2, 3]);
}

#[test]
fn acquire_uuid_gives_version_four() {
    let mut m = BaseMessage::new(None, Some(vec!["x".to_string()]), None);
    m.acquire_uuid();
    let u = m.get_uuid();
    assert_ne!(u, 0);
    assert_eq!((u >> 76) & 0xF, 4);
    assert_eq!((u >> 62) & 0x3, 2);
    assert_eq!(m.get_labels(), &["x".to_string()]);
    let v = uuid::Uuid::from_u128(u);
    assert_eq!(v.get_version_num(), 4);
}

#[test]
fn random_uuids_differ() {
    assert_ne!(random_uuid(), random_uuid());
}

#[test]
fn uuid_bytes_are_big_endian() {
    let b = uuid_to_bytes(0x0102030405060708090a0b0c0d0e0f10);
    assert_eq!(b, vec![1, 2, 3, 4, 5, 6, 7, 8, 9, 10, 11, 12, 13, 14, 15, 16]);
    assert_eq!(uuid_from_slice(&b), Some(0x0102030405060708090a0b0c0d0e0f10));
    assert_eq!(uuid_from_slice(&b[..15]), None);
    assert_eq!(uuid_from_slice(&[]), None);
}

#[test]
fn wire_round_trip_keeps_message() {
    let m = BaseMessage::new(Some(0xdeadbeef), Some(vec!["temp".to_string()]), Some(b"42".to_vec()));
    let w = to_wire(m);
    assert_eq!(w.uuid.len(), 16);
    assert_eq!(w.uuid[15], 0xef);
    let back = from_wire(w);
    assert_eq!(back.uuid, 0xdeadbeef);
    assert_eq!(back.labels, vec!["temp".to_string()]);
    assert_eq!(back.data, b"42".to_vec());
}

#[test]
fn wire_malformed_uuid_becomes_nil() {
    let w = WireMessage { uuid: vec![1, 2, 3], labels: vec![], data: vec![9] };
    let m = from_wire(w);
    assert_eq!(m.uuid, 0);
    assert_eq!(m.data, vec![9]);
}
