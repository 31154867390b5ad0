use vstd::prelude::*;

use std::sync::Arc;
use std::time::Duration;

use crate::envelope::{Envelope, ProducerId};
use crate::route::EventKind;

verus! {

/// What the dimensions learn about a routed message.
#[derive(Debug, Clone)]
pub struct EventMeta {
    pub origin: ProducerId,
    pub labels: Vec<String>,
    pub size: usize,
}

impl EventMeta {
    /// Origin, labels and payload size of the envelope.
    pub fn from_envelope(env: &Envelope) -> (m: Self)
        ensures
            m.origin.0@ == env.origin.0@,
            m.labels@ == env.message.labels@,
            m.size == env.message.data@.len(),
    {
        let labels = env.message.labels.clone();
        proof {
            assert forall|i: int| 0 <= i < labels@.len() implies labels@[i] == env.message.labels@[i] by {
                assert(cloned::<String>(env.message.labels[i], labels[i]));
            }
            assert(labels@ =~= env.message.labels@);
        }
        EventMeta { origin: env.origin.duplicate(), labels, size: env.message.data.len() }
    }
}

/// Outcome reported to every dimension of a consumer involved in routing.
#[non_exhaustive]
pub enum DispatchEvent {
    Vetoed { meta: Arc<EventMeta> },
    Consumed { meta: Arc<EventMeta>, latency: Duration },
    Busy { meta: Arc<EventMeta> },
    Skipped { meta: Arc<EventMeta> },
}

/// Calls `Arc::clone`: another pointer to the same allocation.
#[verifier::external_body]
fn share<T>(a: &Arc<T>) -> (r: Arc<T>)
    ensures
        r == *a,
{
    Arc::clone(a)
}

impl DispatchEvent {
    pub open spec fn spec_kind(&self) -> EventKind {
        match self {
            DispatchEvent::Vetoed { .. } => EventKind::Vetoed,
            DispatchEvent::Consumed { .. } => EventKind::Consumed,
            DispatchEvent::Busy { .. } => EventKind::Busy,
            DispatchEvent::Skipped { .. } => EventKind::Skipped,
        }
    }

    pub open spec fn spec_meta(&self) -> Arc<EventMeta> {
        match self {
            DispatchEvent::Vetoed { meta } => *meta,
            DispatchEvent::Consumed { meta, .. } => *meta,
            DispatchEvent::Busy { meta } => *meta,
            DispatchEvent::Skipped { meta } => *meta,
        }
    }

    /// The event of the given kind about `meta`; `latency` is carried only
    /// by `Consumed`.
    pub fn new(kind: EventKind, meta: &Arc<EventMeta>, latency: Duration) -> (e: Self)
        ensures
            e.spec_kind() == kind,
            e.spec_meta() == *meta,
            e matches DispatchEvent::Consumed { latency: l, .. } ==> l == latency,
    {
        let meta = share(meta);
        match kind {
            EventKind::Vetoed => DispatchEvent::Vetoed { meta },
            EventKind::Consumed => DispatchEvent::Consumed { meta, latency },
            EventKind::Busy => DispatchEvent::Busy { meta },
            EventKind::Skipped => DispatchEvent::Skipped { meta },
        }
    }

    /// Which of the four outcomes this is.
    pub fn kind(&self) -> (k: EventKind)
        ensures
            k == self.spec_kind(),
    {
        match self {
            DispatchEvent::Vetoed { .. } => EventKind::Vetoed,
            DispatchEvent::Consumed { .. } => EventKind::Consumed,
            DispatchEvent::Busy { .. } => EventKind::Busy,
            DispatchEvent::Skipped { .. } => EventKind::Skipped,
        }
    }
}

} // verus!
