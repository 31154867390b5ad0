use vstd::prelude::*;

use crate::message::BaseMessage;

verus! {

/// Name of the producer a message came from.
#[derive(Debug, Clone, PartialEq, Eq, Hash)]
pub struct ProducerId(pub String);

impl ProducerId {
    /// The producer's name.
    pub fn as_str(&self) -> (s: &str)
        ensures
            s@ == self.0@,
    {
        self.0.as_str()
    }

    /// A copy carrying the same name.
    pub fn duplicate(&self) -> (r: ProducerId)
        ensures
            r.0@ == self.0@,
    {
        ProducerId(self.0.clone())
    }
}

/// A message together with the identity of its producer; the origin lives
/// at the routing layer, not inside the message.
pub struct Envelope {
    pub origin: ProducerId,
    pub message: BaseMessage,
}

} // verus!
