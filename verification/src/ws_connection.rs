use vstd::prelude::*;
use vstd::string::StringExecFns;

use crate::ws_session::Frame;

verus! {

/// The decimal digit of value `d` (0 to 9).
pub open spec fn digit_char(d: nat) -> char {
    (48 + d) as char
}

/// Decimal text of `n`, without leading zeros.
pub open spec fn decimal(n: nat) -> Seq<char>
    decreases n,
{
    if n < 10 {
        seq![digit_char(n)]
    } else {
        decimal(n / 10).push(digit_char(n % 10))
    }
}

fn digit_text(d: u64) -> (r: &'static str)
    requires
        d < 10,
    ensures
        r@ == seq![digit_char(d as nat)],
{
    proof {
        reveal_strlit("0");
        reveal_strlit("1");
        reveal_strlit("2");
        reveal_strlit("3");
        reveal_strlit("4");
        reveal_strlit("5");
        reveal_strlit("6");
        reveal_strlit("7");
        reveal_strlit("8");
        reveal_strlit("9");
    }
    if d == 0 {
        "0"
    } else if d == 1 {
        "1"
    } else if d == 2 {
        "2"
    } else if d == 3 {
        "3"
    } else if d == 4 {
        "4"
    } else if d == 5 {
        "5"
    } else if d == 6 {
        "6"
    } else if d == 7 {
        "7"
    } else if d == 8 {
        "8"
    } else {
        "9"
    }
}

fn push_decimal(s: &mut String, n: u64)
    ensures
        final(s)@ == old(s)@ + decimal(n as nat),
    decreases n,
{
    if n >= 10 {
        push_decimal(s, n / 10);
    }
    s.append(digit_text(n % 10));
    proof {
        if n >= 10 {
            assert(decimal(n as nat) == decimal((n / 10) as nat).push(digit_char((n % 10) as nat)));
        }
    }
}

/// Where a connection of a WebSocket endpoint stands.
#[derive(Clone, Copy, Debug, PartialEq, Eq)]
pub enum ConnStage {
    /// Accepted and entered in the connection table; the WebSocket
    /// handshake is under way.
    Handshaking,
    /// Frames are being read.
    Open,
    /// Over; its table entry was removed.
    Closed,
}

/// What the handler of one connection does next.
#[derive(Clone, Copy, Debug, PartialEq, Eq)]
pub enum ConnStep {
    /// Ignore the frame (or start reading) and read the next one.
    ReadNext,
    /// The frame holds a message: send it into the bus under the
    /// connection's origin.
    Forward,
    /// Remove connection `id` from the connection table, then stop.
    Disconnect { id: u64 },
    /// Stop serving the connection.
    Finish,
}

/// The decisions of the handler of one WebSocket connection, which entered
/// the connection table under `id` when it was accepted: every decodable
/// message is sent under the origin `name/id` while a producer handle is
/// attached, and the table entry is removed exactly once, when the handshake
/// fails or the stream ends.
#[derive(Clone, Copy, Debug)]
pub struct WsConnection {
    pub id: u64,
    pub stage: ConnStage,
}

impl WsConnection {
    pub open spec fn next_handshake(&self, ok: bool) -> (ConnStep, WsConnection) {
        if ok {
            (ConnStep::ReadNext, WsConnection { id: self.id, stage: ConnStage::Open })
        } else {
            (ConnStep::Disconnect { id: self.id }, WsConnection { id: self.id, stage: ConnStage::Closed })
        }
    }

    pub open spec fn next_frame(&self, frame: Frame, decodes: bool, attached: bool) -> (ConnStep, WsConnection) {
        match self.stage {
            ConnStage::Open => match frame {
                Frame::Binary => if decodes && attached {
                    (ConnStep::Forward, *self)
                } else {
                    (ConnStep::ReadNext, *self)
                },
                Frame::Other => (ConnStep::ReadNext, *self),
                Frame::Close | Frame::Error | Frame::End => (
                    ConnStep::Disconnect { id: self.id },
                    WsConnection { id: self.id, stage: ConnStage::Closed },
                ),
            },
            _ => (ConnStep::Finish, WsConnection { id: self.id, stage: ConnStage::Closed }),
        }
    }

    /// A connection accepted under table identifier `id`.
    pub fn new(id: u64) -> (c: Self)
        ensures
            c.id == id,
            c.stage == ConnStage::Handshaking,
    {
        WsConnection { id, stage: ConnStage::Handshaking }
    }

    /// Reports whether the WebSocket handshake succeeded.
    pub fn handshake(&mut self, ok: bool) -> (step: ConnStep)
        requires
            old(self).stage == ConnStage::Handshaking,
        ensures
            (step, *final(self)) == old(self).next_handshake(ok),
    {
        if ok {
            self.stage = ConnStage::Open;
            ConnStep::ReadNext
        } else {
            self.stage = ConnStage::Closed;
            ConnStep::Disconnect { id: self.id }
        }
    }

    /// Decides what to do with `frame`; `decodes` tells whether a binary
    /// frame decodes as a message and `attached` whether the endpoint has a
    /// producer handle. A message that cannot be sent is dropped.
    pub fn on_frame(&mut self, frame: Frame, decodes: bool, attached: bool) -> (step: ConnStep)
        requires
            old(self).stage != ConnStage::Handshaking,
        ensures
            (step, *final(self)) == old(self).next_frame(frame, decodes, attached),
    {
        let cur = *self;
        let r = match cur.stage {
            ConnStage::Open => match frame {
                Frame::Binary => if decodes && attached {
                    (ConnStep::Forward, cur)
                } else {
                    (ConnStep::ReadNext, cur)
                },
                Frame::Other => (ConnStep::ReadNext, cur),
                Frame::Close | Frame::Error | Frame::End => (
                    ConnStep::Disconnect { id: cur.id },
                    WsConnection { id: cur.id, stage: ConnStage::Closed },
                ),
            },
            _ => (ConnStep::Finish, WsConnection { id: cur.id, stage: ConnStage::Closed }),
        };
        *self = r.1;
        r.0
    }

    /// The origin under which this connection's messages are sent: the
    /// endpoint's name, a slash and the connection's identifier in decimal.
    pub fn origin(&self, name: &str) -> (r: String)
        ensures
            r@ == name@ + "/"@ + decimal(self.id as nat),
    {
        let mut r = name.to_owned();
        r.append("/");
        push_decimal(&mut r, self.id);
        r
    }
}

/// Law: a connection's table entry is removed exactly once. Removal is asked
/// for only on a connection that is not yet over, always for its own
/// identifier, and leaves it over; an over connection only ever finishes.
pub proof fn lemma_disconnect_once(c: WsConnection, ok: bool, frame: Frame, decodes: bool, attached: bool)
    ensures
        c.stage == ConnStage::Handshaking ==> (c.next_handshake(ok).0 is Disconnect <==> !ok),
        c.next_handshake(ok).0 is Disconnect ==> c.next_handshake(ok).0 == (ConnStep::Disconnect { id: c.id })
            && c.next_handshake(ok).1.stage == ConnStage::Closed,
        c.stage == ConnStage::Open ==> (c.next_frame(frame, decodes, attached).0 is Disconnect <==> (frame
            == Frame::Close || frame == Frame::Error || frame == Frame::End)),
        c.next_frame(frame, decodes, attached).0 is Disconnect ==> c.stage == ConnStage::Open
            && c.next_frame(frame, decodes, attached).0 == (ConnStep::Disconnect { id: c.id })
            && c.next_frame(frame, decodes, attached).1.stage == ConnStage::Closed,
        c.stage == ConnStage::Closed ==> c.next_frame(frame, decodes, attached).0 == ConnStep::Finish,
        c.next_frame(frame, decodes, attached).1.id == c.id,
{
}

/// Law: an open connection ends only when the client closes it, a read
/// fails or the stream ends; other frames keep it open, and only a decodable
/// binary frame, while a producer handle is attached, is sent into the bus.
pub proof fn lemma_open_connection_ends_only_on_close(c: WsConnection, frame: Frame, decodes: bool, attached: bool)
    requires
        c.stage == ConnStage::Open,
    ensures
        (c.next_frame(frame, decodes, attached).1.stage == ConnStage::Closed) <==> (frame == Frame::Close || frame
            == Frame::Error || frame == Frame::End),
        !(frame == Frame::Close || frame == Frame::Error || frame == Frame::End) ==> c.next_frame(
            frame,
            decodes,
            attached,
        ).1 == c,
        c.next_frame(frame, decodes, attached).0 == ConnStep::Forward <==> (frame == Frame::Binary && decodes
            && attached),
{
}

} // verus!
