use vstd::prelude::*;

use crate::config::DimensionsError;
use crate::endpoint_table::{EndpointEntry, EndpointTable};
use crate::uuids::{be_value, uuid_to_bytes};

verus! {

/// Why a `Register` call was refused.
#[derive(Clone, Debug, PartialEq, Eq)]
pub enum RegisterError {
    /// The call carries no peer address to key the client by.
    NoRemoteAddress,
    /// `dimensions_json` was refused for this reason.
    InvalidDimensions(DimensionsError),
    /// The bus did not answer the consumer registration.
    BusClosed,
}

/// What the `Register` handler does next.
#[derive(Clone, Debug, PartialEq, Eq)]
pub enum RegisterStep {
    /// Send one registration of the client as a consumer, with the parsed
    /// dimensions, and report the outcome with `consumer_registered`.
    RegisterConsumer,
    /// Record the client with `record` and answer with its UUID.
    Record,
    /// Answer with this error; no command was sent and nothing is recorded.
    Refuse(RegisterError),
}

/// Where a `Register` call stands.
#[derive(Clone, Copy, Debug, PartialEq, Eq)]
pub enum RegisterStage {
    AwaitingConsumer,
    Recording,
    Refused,
}

/// The decisions of a `Register` call: the peer address and the dimensions
/// are checked first, then the consumer registration is sent when the
/// client consumes, and only then is the client recorded.
#[derive(Clone, Copy, Debug)]
pub struct Registration {
    pub uuid: u128,
    pub consumer: bool,
    pub producer: bool,
    pub consumer_id: Option<u64>,
    pub stage: RegisterStage,
}

impl Registration {
    pub open spec fn spec_start(
        has_addr: bool,
        dims_error: Option<DimensionsError>,
        consumer: bool,
        producer: bool,
        uuid: u128,
    ) -> (RegisterStep, Registration) {
        let base = Registration { uuid, consumer, producer, consumer_id: None, stage: RegisterStage::Refused };
        if !has_addr {
            (RegisterStep::Refuse(RegisterError::NoRemoteAddress), base)
        } else {
            match dims_error {
                Some(e) => (RegisterStep::Refuse(RegisterError::InvalidDimensions(e)), base),
                None => if consumer {
                    (RegisterStep::RegisterConsumer, Registration { stage: RegisterStage::AwaitingConsumer, ..base })
                } else {
                    (RegisterStep::Record, Registration { stage: RegisterStage::Recording, ..base })
                },
            }
        }
    }

    pub open spec fn next_registered(&self, id: Option<u64>) -> (RegisterStep, Registration) {
        match id {
            None => (RegisterStep::Refuse(RegisterError::BusClosed), Registration { stage: RegisterStage::Refused, ..*self }),
            Some(i) => (
                RegisterStep::Record,
                Registration { consumer_id: Some(i), stage: RegisterStage::Recording, ..*self },
            ),
        }
    }

    /// The entry a recorded client gets.
    pub open spec fn entry<R, P>(&self, rx: Option<R>, handle: Option<P>) -> EndpointEntry<R, P> {
        EndpointEntry { uuid: self.uuid, consumer_reg_id: self.consumer_id, consumer_rx: rx, producer_handle: handle }
    }

    /// Starts a call of a client that asks for the given roles and was given
    /// `uuid`: `has_addr` tells whether the call carries a peer address and
    /// `dims_error` why its dimensions were refused, if they were.
    pub fn start(
        has_addr: bool,
        dims_error: Option<DimensionsError>,
        consumer: bool,
        producer: bool,
        uuid: u128,
    ) -> (r: (RegisterStep, Registration))
        ensures
            r == Self::spec_start(has_addr, dims_error, consumer, producer, uuid),
    {
        let base = Registration { uuid, consumer, producer, consumer_id: None, stage: RegisterStage::Refused };
        if !has_addr {
            (RegisterStep::Refuse(RegisterError::NoRemoteAddress), base)
        } else {
            match dims_error {
                Some(e) => (RegisterStep::Refuse(RegisterError::InvalidDimensions(e)), base),
                None => if consumer {
                    (
                        RegisterStep::RegisterConsumer,
                        Registration { uuid, consumer, producer, consumer_id: None, stage: RegisterStage::AwaitingConsumer },
                    )
                } else {
                    (
                        RegisterStep::Record,
                        Registration { uuid, consumer, producer, consumer_id: None, stage: RegisterStage::Recording },
                    )
                },
            }
        }
    }

    /// Reports the consumer registration: its identifier, or `None` when the
    /// bus did not answer.
    pub fn consumer_registered(&mut self, id: Option<u64>) -> (step: RegisterStep)
        requires
            old(self).stage == RegisterStage::AwaitingConsumer,
        ensures
            (step, *final(self)) == old(self).next_registered(id),
    {
        match id {
            None => {
                self.stage = RegisterStage::Refused;
                RegisterStep::Refuse(RegisterError::BusClosed)
            },
            Some(i) => {
                self.consumer_id = Some(i);
                self.stage = RegisterStage::Recording;
                RegisterStep::Record
            },
        }
    }

    /// Records the client at `addr`, with the receiving side of its consumer
    /// channel when it consumes and its producer handle when it produces,
    /// replacing any earlier entry there; returns the UUID's sixteen bytes
    /// for the answer.
    pub fn record<R, P>(&self, table: &mut EndpointTable<R, P>, addr: String, rx: Option<R>, handle: Option<P>) -> (r:
        Vec<u8>)
        requires
            self.stage == RegisterStage::Recording,
            old(table).wf(),
            rx is Some <==> self.consumer,
            handle is Some <==> self.producer,
        ensures
            final(table).wf(),
            final(table).lookup(addr@) == Some(self.entry(rx, handle)),
            forall|a: Seq<char>| a != addr@ ==> #[trigger] final(table).lookup(a) == old(table).lookup(a),
            r@.len() == 16,
            be_value(r@) == self.uuid as nat,
    {
        let entry = EndpointEntry { uuid: self.uuid, consumer_reg_id: self.consumer_id, consumer_rx: rx, producer_handle: handle };
        table.insert(addr, entry);
        uuid_to_bytes(self.uuid)
    }
}

/// Law: a consumer registration is sent only for a call with a peer address
/// and parsable dimensions from a client that consumes, and a refused call
/// records nothing: only `Record` leads to `record`, and `Record` comes only
/// once every check passed and, for a consumer, the bus returned its
/// identifier, which the recorded entry then holds.
pub proof fn lemma_register_order(
    has_addr: bool,
    dims_error: Option<DimensionsError>,
    consumer: bool,
    producer: bool,
    uuid: u128,
    id: Option<u64>,
)
    ensures
        ({
            let (step, r) = Registration::spec_start(has_addr, dims_error, consumer, producer, uuid);
            &&& step == RegisterStep::RegisterConsumer <==> (has_addr && dims_error is None && consumer)
            &&& step == RegisterStep::Record <==> (has_addr && dims_error is None && !consumer)
            &&& step is Refuse <==> r.stage == RegisterStage::Refused
            &&& step == RegisterStep::Record ==> r.consumer_id is None
            &&& step == RegisterStep::RegisterConsumer ==> {
                let (step2, r2) = r.next_registered(id);
                &&& (step2 == RegisterStep::Record <==> id is Some)
                &&& r2.consumer_id == id
                &&& (step2 is Refuse <==> r2.stage == RegisterStage::Refused)
            }
        }),
{
}

} // verus!
