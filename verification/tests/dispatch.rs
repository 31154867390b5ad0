use std::sync::Arc;
use std::time::Duration;

use jackfield::dispatch::{DispatchEvent, EventMeta};
use jackfield::envelope::{Envelope, ProducerId};
use jackfield::message::BaseMessage;
use jackfield::route::EventKind;

#[test]
fn event_meta_from_envelope() {
    let env = Envelope {
        origin: ProducerId("identified_producer".to_string()),
        message: BaseMessage::new(None, Some(vec!["event".to_string()]), Some(vec![1, 2, 3, 4])),
    };
    let m = EventMeta::from_envelope(&env);
    assert_eq!(m.origin.as_str(), "identified_producer");
    assert_eq!(m.labels, vec!["event".to_string()]);
    assert_eq!(m.size, 4);
}

#[test]
fn dispatch_event_kinds() {
    let env = Envelope { origin: ProducerId("p".to_string()), message: BaseMessage::new(None, None, None) };
    let meta = Arc::new(EventMeta::from_envelope(&env));
    for k in [EventKind::Vetoed, EventKind::Consumed, EventKind::Busy, EventKind::Skipped] {
        let e = DispatchEvent::new(k, &meta, Duration::from_millis(3));
        assert_eq!(e.kind(), k);
    }
    match DispatchEvent::new(EventKind::Consumed, &meta, Duration::from_millis(3)) {
        DispatchEvent::Consumed { latency, meta: m } => {
            assert_eq!(latency, Duration::from_millis(3));
            assert!(Arc::ptr_eq(&m, &meta));
        },
        _ => panic!("consumed"),
    }
}
