use vstd::prelude::*;

use crate::endpoint_table::client_producer_name;
use crate::uuids::{random_uuid, uuid_text, uuid_version};

verus! {

/// What a WebSocket connection delivered next.
#[derive(Clone, Copy, Debug, PartialEq, Eq)]
pub enum Frame {
    Binary,
    Close,
    /// Text, ping, pong or any other frame kind.
    Other,
    /// Reading the next frame failed.
    Error,
    /// The stream ended.
    End,
}

/// Where a connection stands.
#[derive(Clone, Copy, Debug, PartialEq, Eq)]
pub enum WsStage {
    /// Waiting for the first binary frame, which must be the registration.
    AwaitingRegistration,
    /// The registration arrived; its roles and dimensions are being read.
    Configuring,
    /// The client's consumer registration was sent to the bus.
    RegisteringConsumer,
    /// Registered; binary frames carry messages.
    Open,
    /// Over.
    Closed,
}

/// What the connection handler does next.
#[derive(Clone, Copy, Debug, PartialEq, Eq)]
pub enum WsStep {
    /// Ignore the frame and read the next one.
    ReadNext,
    /// The frame is the registration: read its roles and parse its
    /// dimensions, then report them with `configure`.
    Configure,
    /// Send one registration of the client as a consumer, with the parsed
    /// dimensions, and report the outcome with `consumer_registered`.
    RegisterConsumer,
    /// The frame is a message from a producer: send it into the bus.
    Forward,
    /// Withdraw the consumer registration `id`, then stop serving.
    Withdraw { id: u64 },
    /// Stop serving the connection.
    Finish,
}

/// The decisions of a WebSocket connection handler: registration first,
/// then messages until the connection ends, then the withdrawal of the
/// consumer registration, if one was made.
#[derive(Clone, Copy, Debug)]
pub struct WsSession {
    pub stage: WsStage,
    pub producer: bool,
    pub consumer_id: Option<u64>,
}

/// A session that has stopped serving.
pub open spec fn closed_session() -> WsSession {
    WsSession { stage: WsStage::Closed, producer: false, consumer_id: None }
}

impl WsSession {
    /// A consumer registration is held only while the connection is open.
    pub open spec fn inv(&self) -> bool {
        self.consumer_id is Some ==> self.stage == WsStage::Open
    }

    /// The session waits for a frame (rather than for `configure` or
    /// `consumer_registered`).
    pub open spec fn reads_frames(&self) -> bool {
        self.stage == WsStage::AwaitingRegistration || self.stage == WsStage::Open || self.stage == WsStage::Closed
    }

    /// What the end of the connection asks for: the withdrawal of the
    /// consumer registration when there is one.
    pub open spec fn closing(&self) -> (WsStep, WsSession) {
        match self.consumer_id {
            Some(id) => (WsStep::Withdraw { id }, closed_session()),
            None => (WsStep::Finish, closed_session()),
        }
    }

    pub open spec fn next_frame(&self, frame: Frame, decodes: bool) -> (WsStep, WsSession) {
        match self.stage {
            WsStage::AwaitingRegistration => match frame {
                Frame::Binary => if decodes {
                    (WsStep::Configure, WsSession { stage: WsStage::Configuring, producer: self.producer, consumer_id: self.consumer_id })
                } else {
                    (WsStep::Finish, closed_session())
                },
                Frame::Close | Frame::End => (WsStep::Finish, closed_session()),
                Frame::Other | Frame::Error => (WsStep::ReadNext, *self),
            },
            WsStage::Open => match frame {
                Frame::Binary => if decodes && self.producer {
                    (WsStep::Forward, *self)
                } else {
                    (WsStep::ReadNext, *self)
                },
                Frame::Other => (WsStep::ReadNext, *self),
                Frame::Close | Frame::Error | Frame::End => self.closing(),
            },
            _ => (WsStep::Finish, closed_session()),
        }
    }

    pub open spec fn next_configure(&self, dims_ok: bool, consumer: bool, producer: bool) -> (WsStep, WsSession) {
        if !dims_ok {
            (WsStep::Finish, closed_session())
        } else if consumer {
            (WsStep::RegisterConsumer, WsSession { stage: WsStage::RegisteringConsumer, producer, consumer_id: None })
        } else {
            (WsStep::ReadNext, WsSession { stage: WsStage::Open, producer, consumer_id: None })
        }
    }

    pub open spec fn next_registered(&self, id: Option<u64>) -> (WsStep, WsSession) {
        match id {
            None => (WsStep::Finish, closed_session()),
            Some(i) => (WsStep::ReadNext, WsSession { stage: WsStage::Open, producer: self.producer, consumer_id: Some(i) }),
        }
    }

    pub fn new() -> (s: Self)
        ensures
            s.inv(),
            s.stage == WsStage::AwaitingRegistration,
            !s.producer,
            s.consumer_id is None,
    {
        WsSession { stage: WsStage::AwaitingRegistration, producer: false, consumer_id: None }
    }

    fn close_step(&self) -> (r: (WsStep, WsSession))
        ensures
            r == self.closing(),
    {
        let closed = WsSession { stage: WsStage::Closed, producer: false, consumer_id: None };
        match self.consumer_id {
            Some(id) => (WsStep::Withdraw { id }, closed),
            None => (WsStep::Finish, closed),
        }
    }

    /// Decides what to do with `frame`; `decodes` tells whether its payload
    /// decodes as the expected record (the registration before the client
    /// registered, a message after). Before registration a failed read is
    /// skipped; once open, it ends the connection like a close.
    pub fn on_frame(&mut self, frame: Frame, decodes: bool) -> (step: WsStep)
        requires
            old(self).reads_frames(),
        ensures
            (step, *final(self)) == old(self).next_frame(frame, decodes),
    {
        let cur = *self;
        let r = match cur.stage {
            WsStage::AwaitingRegistration => match frame {
                Frame::Binary => if decodes {
                    (WsStep::Configure, WsSession { stage: WsStage::Configuring, producer: cur.producer, consumer_id: cur.consumer_id })
                } else {
                    (WsStep::Finish, WsSession { stage: WsStage::Closed, producer: false, consumer_id: None })
                },
                Frame::Close | Frame::End => (WsStep::Finish, WsSession { stage: WsStage::Closed, producer: false, consumer_id: None }),
                Frame::Other | Frame::Error => (WsStep::ReadNext, cur),
            },
            WsStage::Open => match frame {
                Frame::Binary => if decodes && cur.producer {
                    (WsStep::Forward, cur)
                } else {
                    (WsStep::ReadNext, cur)
                },
                Frame::Other => (WsStep::ReadNext, cur),
                Frame::Close | Frame::Error | Frame::End => cur.close_step(),
            },
            _ => (WsStep::Finish, WsSession { stage: WsStage::Closed, producer: false, consumer_id: None }),
        };
        *self = r.1;
        r.0
    }

    /// Reports the registration's content: whether its dimensions parsed and
    /// which roles it asks for. Unparsable dimensions end the connection
    /// with nothing registered.
    pub fn configure(&mut self, dims_ok: bool, consumer: bool, producer: bool) -> (step: WsStep)
        requires
            old(self).stage == WsStage::Configuring,
        ensures
            (step, *final(self)) == old(self).next_configure(dims_ok, consumer, producer),
    {
        if !dims_ok {
            *self = WsSession { stage: WsStage::Closed, producer: false, consumer_id: None };
            WsStep::Finish
        } else if consumer {
            *self = WsSession { stage: WsStage::RegisteringConsumer, producer, consumer_id: None };
            WsStep::RegisterConsumer
        } else {
            *self = WsSession { stage: WsStage::Open, producer, consumer_id: None };
            WsStep::ReadNext
        }
    }

    /// Reports the consumer registration: its identifier, or `None` when the
    /// bus refused it (then the connection ends with nothing to withdraw).
    pub fn consumer_registered(&mut self, id: Option<u64>) -> (step: WsStep)
        requires
            old(self).stage == WsStage::RegisteringConsumer,
        ensures
            (step, *final(self)) == old(self).next_registered(id),
    {
        match id {
            None => {
                *self = WsSession { stage: WsStage::Closed, producer: false, consumer_id: None };
                WsStep::Finish
            },
            Some(i) => {
                *self = WsSession { stage: WsStage::Open, producer: self.producer, consumer_id: Some(i) };
                WsStep::ReadNext
            },
        }
    }
}

/// The producer name of a WebSocket client: the name it registered with, a
/// slash and a freshly drawn version-4 UUID in hyphenated form.
pub fn ws_producer_origin(name: &str) -> (r: String)
    ensures
        exists|u: u128| uuid_version(u) == 4 && r@ == name@ + "/"@ + uuid_text(u),
{
    let u = random_uuid();
    client_producer_name(name, u)
}

/// Law: a consumer registration is withdrawn exactly once. The connection
/// ending while a registration `id` is held asks for `Withdraw { id }`; after
/// that no registration is held, and a closed session only ever finishes.
pub proof fn lemma_withdraw_once(s: WsSession, frame: Frame, decodes: bool)
    requires
        s.inv(),
        s.reads_frames(),
    ensures
        s.next_frame(frame, decodes).1.inv(),
        s.stage == WsStage::Open && s.consumer_id == Some(s.consumer_id->0) && (frame == Frame::Close
            || frame == Frame::Error || frame == Frame::End) ==> s.next_frame(frame, decodes).0 == (WsStep::Withdraw {
            id: s.consumer_id->0,
        }),
        s.next_frame(frame, decodes).0 is Withdraw ==> s.next_frame(frame, decodes).1.stage == WsStage::Closed
            && s.next_frame(frame, decodes).1.consumer_id is None,
        s.next_frame(frame, decodes).0 is Withdraw ==> s.consumer_id == Some(
            s.next_frame(frame, decodes).0->id,
        ),
        s.stage == WsStage::Closed ==> s.next_frame(frame, decodes).0 == WsStep::Finish,
{
}

/// Law: nothing is registered with the bus unless the registration frame
/// decoded and its dimensions parsed, and a registration held afterwards is
/// the identifier the bus returned.
pub proof fn lemma_register_only_after_parse(s: WsSession, dims_ok: bool, consumer: bool, producer: bool, id: Option<u64>)
    requires
        s.stage == WsStage::Configuring,
    ensures
        s.next_configure(dims_ok, consumer, producer).0 == WsStep::RegisterConsumer <==> dims_ok && consumer,
        !dims_ok ==> s.next_configure(dims_ok, consumer, producer).1 == closed_session(),
        s.next_configure(dims_ok, consumer, producer).1.next_registered(id).1.consumer_id == id,
{
}

/// Law: only a producer's decodable binary frames reach the bus, and only
/// once the connection is open.
pub proof fn lemma_session_forwards_only_producer_data(s: WsSession, frame: Frame, decodes: bool)
    ensures
        s.next_frame(frame, decodes).0 == WsStep::Forward ==> s.producer && decodes && frame == Frame::Binary
            && s.stage == WsStage::Open,
{
}

/// Law: an open connection ends only when the client closes it, a read
/// fails or the stream ends; any other frame (text, ping, pong, or a binary
/// frame) leaves the session as it is, registration included.
pub proof fn lemma_open_session_ends_only_on_close(s: WsSession, frame: Frame, decodes: bool)
    requires
        s.stage == WsStage::Open,
    ensures
        (s.next_frame(frame, decodes).1.stage == WsStage::Closed) <==> (frame == Frame::Close || frame == Frame::Error
            || frame == Frame::End),
        (frame == Frame::Other || frame == Frame::Binary) ==> s.next_frame(frame, decodes).1 == s,
        frame == Frame::Other ==> s.next_frame(frame, decodes).0 == WsStep::ReadNext,
        (s.next_frame(frame, decodes).0 is Withdraw || s.next_frame(frame, decodes).0 == WsStep::Finish) ==> (frame
            == Frame::Close || frame == Frame::Error || frame == Frame::End),
{
}

/// Law: before registering, only a close, the end of the stream or an
/// undecodable binary frame ends the connection; other frames and failed
/// reads are skipped, and a decodable binary frame is the registration.
pub proof fn lemma_waiting_session_skips_other_frames(s: WsSession, frame: Frame, decodes: bool)
    requires
        s.stage == WsStage::AwaitingRegistration,
    ensures
        (frame == Frame::Other || frame == Frame::Error) ==> s.next_frame(frame, decodes) == (WsStep::ReadNext, s),
        (s.next_frame(frame, decodes).1.stage == WsStage::Closed) <==> (frame == Frame::Close || frame == Frame::End
            || (frame == Frame::Binary && !decodes)),
        s.next_frame(frame, decodes).0 == WsStep::Configure <==> (frame == Frame::Binary && decodes),
{
}

} // verus!
