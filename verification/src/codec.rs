use vstd::prelude::*;

use crate::message::BaseMessage;
use crate::uuids::{be_value, uuid_from_slice, uuid_to_bytes};

verus! {

/// A message as it travels between endpoints: the sixteen UUID bytes, the
/// labels and the payload.
pub struct WireMessage {
    pub uuid: Vec<u8>,
    pub labels: Vec<String>,
    pub data: Vec<u8>,
}

/// The identifier a wire message decodes to: its bytes in big-endian order
/// when there are exactly sixteen of them, the nil UUID otherwise.
pub open spec fn wire_uuid(bytes: Seq<u8>) -> u128 {
    if bytes.len() == 16 {
        be_value(bytes) as u128
    } else {
        0
    }
}

/// Encodes a message for the wire.
pub fn to_wire(msg: BaseMessage) -> (w: WireMessage)
    ensures
        w.uuid@.len() == 16,
        be_value(w.uuid@) == msg.uuid as nat,
        w.labels@ == msg.labels@,
        w.data@ == msg.data@,
{
    WireMessage { uuid: uuid_to_bytes(msg.uuid), labels: msg.labels, data: msg.data }
}

/// Decodes a wire message; a malformed identifier becomes the nil UUID.
pub fn from_wire(w: WireMessage) -> (m: BaseMessage)
    ensures
        m.uuid == wire_uuid(w.uuid@),
        m.labels@ == w.labels@,
        m.data@ == w.data@,
{
    let uuid = match uuid_from_slice(w.uuid.as_slice()) {
        Some(u) => u,
        None => 0u128,
    };
    BaseMessage { uuid, labels: w.labels, data: w.data }
}

/// Law: decoding what was encoded gives back the same identifier (labels and
/// payload are carried unchanged by both directions).
pub proof fn lemma_wire_round_trip(uuid: u128, bytes: Seq<u8>)
    requires
        bytes.len() == 16,
        be_value(bytes) == uuid as nat,
    ensures
        wire_uuid(bytes) == uuid,
{
}

} // verus!
