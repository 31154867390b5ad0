use vstd::prelude::*;

use crate::uuids::{nil_uuid, random_uuid, uuid_version, uuid_variant};

verus! {

/// What the bus carries: an identifier, routing labels and a payload.
pub trait Message {
    fn get_uuid(&self) -> u128;
    fn acquire_uuid(&mut self);
    fn get_labels(&self) -> &[String];
    fn get_bytes(&self) -> &[u8];
}

/// The default message: a UUID (as a big-endian `u128`), labels and bytes.
pub struct BaseMessage {
    pub uuid: u128,
    pub labels: Vec<String>,
    pub data: Vec<u8>,
}

impl BaseMessage {
    /// Missing parts default to the nil UUID, no labels and no bytes.
    pub fn new(uuid: Option<u128>, labels: Option<Vec<String>>, data: Option<Vec<u8>>) -> (m: Self)
        ensures
            m.uuid == (match uuid {
                Some(u) => u,
                None => nil_uuid(),
            }),
            m.labels@ == (match labels {
                Some(l) => l@,
                None => Seq::<String>::empty(),
            }),
            m.data@ == (match data {
                Some(d) => d@,
                None => Seq::<u8>::empty(),
            }),
    {
        let uuid = match uuid {
            Some(u) => u,
            None => 0u128,
        };
        let labels = match labels {
            Some(l) => l,
            None => Vec::new(),
        };
        let data = match data {
            Some(d) => d,
            None => Vec::new(),
        };
        BaseMessage { uuid, labels, data }
    }
}

impl Message for BaseMessage {
    fn get_uuid(&self) -> (u: u128)
        ensures
            u == self.uuid,
    {
        self.uuid
    }

    /// Replaces the identifier with a freshly drawn version-4 UUID.
    fn acquire_uuid(&mut self)
        ensures
            uuid_version(final(self).uuid) == 4,
            uuid_variant(final(self).uuid) == 2,
            final(self).labels == old(self).labels,
            final(self).data == old(self).data,
    {
        self.uuid = random_uuid();
    }

    fn get_labels(&self) -> (l: &[String])
        ensures
            l@ == self.labels@,
    {
        self.labels.as_slice()
    }

    fn get_bytes(&self) -> (b: &[u8])
        ensures
            b@ == self.data@,
    {
        self.data.as_slice()
    }
}

} // verus!
