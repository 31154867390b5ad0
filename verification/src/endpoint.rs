use vstd::prelude::*;

use crate::error::JackfieldError;

verus! {

/// Roles an endpoint can play, as a set of flags.
#[derive(Debug, Clone, Copy, PartialEq, Eq)]
pub struct EndpointType {
    pub bits: u8,
}

impl EndpointType {
    /// The consumer role (bit 0).
    pub open spec fn spec_consumer() -> EndpointType {
        EndpointType { bits: 1 }
    }

    /// The producer role (bit 1).
    pub open spec fn spec_producer() -> EndpointType {
        EndpointType { bits: 2 }
    }

    #[verifier::when_used_as_spec(spec_consumer)]
    pub fn consumer() -> (r: EndpointType)
        ensures
            r == Self::spec_consumer(),
    {
        EndpointType { bits: 1 }
    }

    #[verifier::when_used_as_spec(spec_producer)]
    pub fn producer() -> (r: EndpointType)
        ensures
            r == Self::spec_producer(),
    {
        EndpointType { bits: 2 }
    }

    /// Every flag of `other` is set in `self`.
    pub open spec fn spec_contains(&self, other: EndpointType) -> bool {
        self.bits & other.bits == other.bits
    }

    pub fn contains(&self, other: EndpointType) -> (r: bool)
        ensures
            r == self.spec_contains(other),
    {
        self.bits & other.bits == other.bits
    }

    /// The flags set in either.
    pub fn union(self, other: EndpointType) -> (r: EndpointType)
        ensures
            r.bits == self.bits | other.bits,
    {
        EndpointType { bits: self.bits | other.bits }
    }

    /// No flag set.
    pub fn empty() -> (r: EndpointType)
        ensures
            r.bits == 0,
    {
        EndpointType { bits: 0 }
    }
}

/// Law: a union of flag sets contains each of its parts.
pub proof fn lemma_union_contains(a: EndpointType, b: EndpointType)
    ensures
        (EndpointType { bits: a.bits | b.bits }).spec_contains(a),
        (EndpointType { bits: a.bits | b.bits }).spec_contains(b),
{
    let x = a.bits;
    let y = b.bits;
    assert((x | y) & x == x) by (bit_vector);
    assert((x | y) & y == y) by (bit_vector);
}

/// An in-process endpoint: a named producer (once attached to a bus through
/// a handle `H`) and, optionally, a consumer `C`.
pub struct Endpoint<H, C> {
    pub name: String,
    pub flags: EndpointType,
    pub handle: Option<H>,
    pub consumer_handler: Option<C>,
}

impl<H, C> Endpoint<H, C> {
    /// A detached endpoint with no consumer.
    pub fn new(name: String, flags: EndpointType) -> (e: Self)
        ensures
            e.name@ == name@,
            e.flags == flags,
            e.handle is None,
            e.consumer_handler is None,
    {
        Endpoint { name, flags, handle: None, consumer_handler: None }
    }

    /// Gives the endpoint the consumer it delegates to.
    pub fn set_consumer(self, consumer: C) -> (e: Self)
        ensures
            e.name == self.name,
            e.flags == self.flags,
            e.handle == self.handle,
            e.consumer_handler == Some(consumer),
    {
        let mut e = self;
        e.consumer_handler = Some(consumer);
        e
    }

    /// The producer name it registers under.
    pub fn name(&self) -> (s: &str)
        ensures
            s@ == self.name@,
    {
        self.name.as_str()
    }

    /// Connects the endpoint to a bus.
    pub fn attach(&mut self, handle: H)
        ensures
            final(self).handle == Some(handle),
            final(self).name == old(self).name,
            final(self).flags == old(self).flags,
            final(self).consumer_handler == old(self).consumer_handler,
    {
        self.handle = Some(handle);
    }

    /// The handle to send through: sending needs the producer flag and an
    /// attached handle, otherwise the endpoint is not registered.
    pub fn sender(&self) -> (r: Result<&H, JackfieldError>)
        ensures
            match r {
                Ok(h) => self.flags.spec_contains(EndpointType::producer()) && self.handle == Some(*h),
                Err(e) => e == JackfieldError::NotRegistered && !(self.flags.spec_contains(
                    EndpointType::producer(),
                ) && self.handle is Some),
            },
    {
        if !self.flags.contains(EndpointType::producer()) {
            return Err(JackfieldError::NotRegistered);
        }
        match &self.handle {
            Some(h) => Ok(h),
            None => Err(JackfieldError::NotRegistered),
        }
    }

    /// The consumer it delegates to, if any.
    pub fn consumer(&self) -> (r: Option<&C>)
        ensures
            match r {
                Some(c) => self.consumer_handler == Some(*c),
                None => self.consumer_handler is None,
            },
    {
        match &self.consumer_handler {
            Some(c) => Some(c),
            None => None,
        }
    }
}

} // verus!
