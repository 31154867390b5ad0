use vstd::prelude::*;

use vstd::string::StringExecFns;
use crate::uuids::{be_value, uuid_from_slice, uuid_text, uuid_to_text};

verus! {

/// What a network endpoint keeps about one connected client between its
/// `Register`, `Stream` and `Deregister` calls.
pub struct EndpointEntry<R, P> {
    pub uuid: u128,
    pub consumer_reg_id: Option<u64>,
    pub consumer_rx: Option<R>,
    pub producer_handle: Option<P>,
}

/// Producer name given to a network client: the endpoint's name, a slash and
/// the client's UUID in hyphenated form.
pub fn client_producer_name(name: &str, uuid: u128) -> (r: String)
    ensures
        r@ == name@ + "/"@ + uuid_text(uuid),
{
    let mut r = name.to_owned();
    r.append("/");
    let text = uuid_to_text(uuid);
    r.append(text.as_str());
    r
}

/// Why a `Stream` call was refused.
#[derive(Clone, Copy, Debug, PartialEq, Eq)]
pub enum StreamError {
    /// The call carries no peer address to find the client by.
    NoRemoteAddress,
    /// The client must call `Register` first.
    NotRegistered,
}

/// Why a `Deregister` call was refused.
#[derive(Clone, Copy, Debug, PartialEq, Eq)]
pub enum DeregisterError {
    /// The call carries no peer address to find the client by.
    NoRemoteAddress,
    /// The notification does not carry a sixteen-byte UUID.
    InvalidUuid,
    /// The client registered under another UUID.
    UuidMismatch,
    /// Nothing is registered for the client's address.
    NotRegistered,
}

/// Registered clients, keyed by the text of their peer address; at most one
/// entry per address.
pub struct EndpointTable<R, P> {
    pub entries: Vec<(String, EndpointEntry<R, P>)>,
}

/// The value stored under `addr`, if any (the first such entry).
pub open spec fn lookup_in<E>(entries: Seq<(String, E)>, addr: Seq<char>) -> Option<E>
    decreases entries.len(),
{
    if entries.len() == 0 {
        None
    } else if entries[0].0@ == addr {
        Some(entries[0].1)
    } else {
        lookup_in(entries.drop_first(), addr)
    }
}

/// No two entries share an address.
pub open spec fn unique_keys<E>(entries: Seq<(String, E)>) -> bool {
    forall|i: int, j: int| 0 <= i < j < entries.len() ==> (#[trigger] entries[i]).0@ != (#[trigger] entries[j]).0@
}

proof fn lemma_lookup_first<E>(s: Seq<(String, E)>, a: Seq<char>, i: int)
    requires
        0 <= i < s.len(),
        s[i].0@ == a,
        forall|k: int| 0 <= k < i ==> (#[trigger] s[k]).0@ != a,
    ensures
        lookup_in(s, a) == Some(s[i].1),
    decreases i,
{
    if i > 0 {
        assert(s[0].0@ != a);
        let t = s.drop_first();
        assert forall|k: int| 0 <= k < i - 1 implies (#[trigger] t[k]).0@ != a by {
            assert(t[k] == s[k + 1]);
        }
        lemma_lookup_first(t, a, i - 1);
    }
}

proof fn lemma_lookup_none<E>(s: Seq<(String, E)>, a: Seq<char>)
    requires
        forall|k: int| 0 <= k < s.len() ==> (#[trigger] s[k]).0@ != a,
    ensures
        lookup_in(s, a) is None,
    decreases s.len(),
{
    if s.len() > 0 {
        let t = s.drop_first();
        assert forall|k: int| 0 <= k < t.len() implies (#[trigger] t[k]).0@ != a by {
            assert(t[k] == s[k + 1]);
        }
        lemma_lookup_none(t, a);
    }
}

/// With unique addresses, the lookup finds the one entry under `a`.
proof fn lemma_lookup_unique<E>(s: Seq<(String, E)>, a: Seq<char>)
    requires
        unique_keys(s),
    ensures
        forall|i: int| 0 <= i < s.len() && (#[trigger] s[i]).0@ == a ==> lookup_in(s, a) == Some(s[i].1),
        (forall|i: int| 0 <= i < s.len() ==> (#[trigger] s[i]).0@ != a) ==> lookup_in(s, a) is None,
{
    assert forall|i: int| 0 <= i < s.len() && (#[trigger] s[i]).0@ == a implies lookup_in(s, a) == Some(s[i].1) by {
        assert forall|k: int| 0 <= k < i implies (#[trigger] s[k]).0@ != a by {
            assert(s[k].0@ != s[i].0@);
        }
        lemma_lookup_first(s, a, i);
    }
    if forall|i: int| 0 <= i < s.len() ==> (#[trigger] s[i]).0@ != a {
        lemma_lookup_none(s, a);
    }
}

/// Two tables that agree on every address at every position, except for
/// the value at position `p`, agree on every lookup but that of `s[p]`.
proof fn lemma_lookup_update<E>(s: Seq<(String, E)>, t: Seq<(String, E)>, p: int, a: Seq<char>)
    requires
        unique_keys(s),
        s.len() == t.len(),
        0 <= p < s.len(),
        forall|k: int| 0 <= k < s.len() ==> (#[trigger] t[k]).0@ == s[k].0@,
        forall|k: int| 0 <= k < s.len() && k != p ==> #[trigger] t[k] == s[k],
    ensures
        unique_keys(t),
        a == s[p].0@ ==> lookup_in(t, a) == Some(t[p].1),
        a != s[p].0@ ==> lookup_in(t, a) == lookup_in(s, a),
{
    assert forall|i: int, j: int| 0 <= i < j < t.len() implies (#[trigger] t[i]).0@ != (#[trigger] t[j]).0@ by {
        assert(s[i].0@ != s[j].0@);
    }
    lemma_lookup_unique(s, a);
    lemma_lookup_unique(t, a);
    if a != s[p].0@ {
        if exists|i: int| 0 <= i < s.len() && (#[trigger] s[i]).0@ == a {
            let i = choose|i: int| 0 <= i < s.len() && (#[trigger] s[i]).0@ == a;
            assert(t[i] == s[i]);
        } else {
            assert forall|i: int| 0 <= i < t.len() implies (#[trigger] t[i]).0@ != a by {
                assert(t[i].0@ == s[i].0@);
            }
        }
    }
}

/// Removing the entry at `p` forgets its address and keeps every other lookup.
proof fn lemma_lookup_remove<E>(s: Seq<(String, E)>, p: int, a: Seq<char>)
    requires
        unique_keys(s),
        0 <= p < s.len(),
    ensures
        unique_keys(s.remove(p)),
        a == s[p].0@ ==> lookup_in(s.remove(p), a) is None,
        a != s[p].0@ ==> lookup_in(s.remove(p), a) == lookup_in(s, a),
{
    let t = s.remove(p);
    assert forall|i: int, j: int| 0 <= i < j < t.len() implies (#[trigger] t[i]).0@ != (#[trigger] t[j]).0@ by {
        let bi = if i < p { i } else { i + 1 };
        let bj = if j < p { j } else { j + 1 };
        assert(t[i] == s[bi] && t[j] == s[bj]);
    }
    lemma_lookup_unique(s, a);
    lemma_lookup_unique(t, a);
    if exists|i: int| 0 <= i < s.len() && (#[trigger] s[i]).0@ == a {
        let i = choose|i: int| 0 <= i < s.len() && (#[trigger] s[i]).0@ == a;
        if i == p {
            assert forall|k: int| 0 <= k < t.len() implies (#[trigger] t[k]).0@ != a by {
                let bk = if k < p { k } else { k + 1 };
                assert(t[k] == s[bk]);
                assert(s[bk].0@ != s[p].0@);
            }
        } else {
            let k = if i < p { i } else { i - 1 };
            assert(t[k] == s[i]);
        }
    } else {
        assert forall|k: int| 0 <= k < t.len() implies (#[trigger] t[k]).0@ != a by {
            let bk = if k < p { k } else { k + 1 };
            assert(t[k] == s[bk]);
        }
    }
}

/// Appending an entry under a new address makes it found and keeps the rest.
proof fn lemma_lookup_push<E>(s: Seq<(String, E)>, x: (String, E), a: Seq<char>)
    requires
        unique_keys(s),
        lookup_in(s, x.0@) is None,
    ensures
        unique_keys(s.push(x)),
        a == x.0@ ==> lookup_in(s.push(x), a) == Some(x.1),
        a != x.0@ ==> lookup_in(s.push(x), a) == lookup_in(s, a),
{
    let t = s.push(x);
    lemma_lookup_unique(s, x.0@);
    assert forall|k: int| 0 <= k < s.len() implies (#[trigger] s[k]).0@ != x.0@ by {
        if s[k].0@ == x.0@ {
            assert(lookup_in(s, x.0@) == Some(s[k].1));
        }
    }
    assert forall|i: int, j: int| 0 <= i < j < t.len() implies (#[trigger] t[i]).0@ != (#[trigger] t[j]).0@ by {
        if j == s.len() {
            assert(t[i] == s[i]);
        } else {
            assert(t[i] == s[i] && t[j] == s[j]);
        }
    }
    lemma_lookup_unique(s, a);
    lemma_lookup_unique(t, a);
    if a == x.0@ {
        assert(t[s.len() as int] == x);
    } else {
        if exists|i: int| 0 <= i < s.len() && (#[trigger] s[i]).0@ == a {
            let i = choose|i: int| 0 <= i < s.len() && (#[trigger] s[i]).0@ == a;
            assert(t[i] == s[i]);
        } else {
            assert forall|k: int| 0 <= k < t.len() implies (#[trigger] t[k]).0@ != a by {
                if k < s.len() {
                    assert(t[k] == s[k]);
                }
            }
        }
    }
}

impl<R, P> EndpointTable<R, P> {
    pub open spec fn wf(&self) -> bool {
        unique_keys(self.entries@)
    }

    /// The entry registered for `addr`.
    pub open spec fn lookup(&self, addr: Seq<char>) -> Option<EndpointEntry<R, P>> {
        lookup_in(self.entries@, addr)
    }

    pub fn new() -> (t: Self)
        ensures
            t.wf(),
            forall|a: Seq<char>| #[trigger] t.lookup(a) is None,
    {
        EndpointTable { entries: Vec::new() }
    }

    fn find(&self, addr: &String) -> (r: Option<usize>)
        requires
            self.wf(),
        ensures
            match r {
                Some(i) => i < self.entries@.len() && self.entries@[i as int].0@ == addr@,
                None => self.lookup(addr@) is None,
            },
    {
        let n = self.entries.len();
        let mut i: usize = 0;
        while i < n
            invariant
                n == self.entries@.len(),
                i <= n,
                forall|k: int| 0 <= k < i ==> (#[trigger] self.entries@[k]).0@ != addr@,
            decreases n - i,
        {
            if self.entries[i].0.eq(addr) {
                return Some(i);
            }
            i = i + 1;
        }
        proof {
            lemma_lookup_none(self.entries@, addr@);
        }
        None
    }

    /// Records (or replaces) the entry of the client at `addr`.
    pub fn insert(&mut self, addr: String, entry: EndpointEntry<R, P>)
        requires
            old(self).wf(),
        ensures
            final(self).wf(),
            final(self).lookup(addr@) == Some(entry),
            forall|a: Seq<char>| a != addr@ ==> #[trigger] final(self).lookup(a) == old(self).lookup(a),
    {
        let ghost key = addr@;
        match self.find(&addr) {
            Some(i) => {
                let _old = self.entries.remove(i);
                self.entries.insert(i, (addr, entry));
                proof {
                    assert forall|a: Seq<char>| true implies #[trigger] lookup_in(self.entries@, a) == (if a == key {
                        Some(entry)
                    } else {
                        lookup_in(old(self).entries@, a)
                    }) by {
                        lemma_lookup_update(old(self).entries@, self.entries@, i as int, a);
                    }
                    lemma_lookup_update(old(self).entries@, self.entries@, i as int, key);
                }
            },
            None => {
                let ghost x = (addr, entry);
                self.entries.push((addr, entry));
                proof {
                    assert forall|a: Seq<char>| true implies #[trigger] lookup_in(self.entries@, a) == (if a == key {
                        Some(entry)
                    } else {
                        lookup_in(old(self).entries@, a)
                    }) by {
                        lemma_lookup_push(old(self).entries@, x, a);
                    }
                    lemma_lookup_push(old(self).entries@, x, key);
                }
            },
        }
    }

    /// Hands out what a `Stream` call needs: the call must carry the
    /// client's peer address; then see `stream_parts_at`.
    pub fn take_stream_parts(&mut self, addr: Option<&String>) -> (r: Result<
        (Option<R>, Option<u64>, Option<P>),
        StreamError,
    >)
        requires
            old(self).wf(),
        ensures
            final(self).wf(),
            match addr {
                None => r == Err::<(Option<R>, Option<u64>, Option<P>), StreamError>(StreamError::NoRemoteAddress)
                    && final(self).entries@ == old(self).entries@,
                Some(a) => match old(self).lookup(a@) {
                    None => r == Err::<(Option<R>, Option<u64>, Option<P>), StreamError>(StreamError::NotRegistered)
                        && final(self).entries@ == old(self).entries@,
                    Some(e) => {
                        &&& r == Ok::<(Option<R>, Option<u64>, Option<P>), StreamError>(
                            (e.consumer_rx, e.consumer_reg_id, e.producer_handle),
                        )
                        &&& final(self).lookup(a@) == Some(
                            EndpointEntry::<R, P> {
                                uuid: e.uuid,
                                consumer_reg_id: e.consumer_reg_id,
                                consumer_rx: None,
                                producer_handle: None,
                            },
                        )
                        &&& forall|x: Seq<char>| x != a@ ==> #[trigger] final(self).lookup(x) == old(self).lookup(x)
                    },
                },
            },
    {
        match addr {
            None => Err(StreamError::NoRemoteAddress),
            Some(a) => self.stream_parts_at(a),
        }
    }

    /// What the `Stream` call of the client at `addr` needs: the consumer's
    /// receiving side and the producer handle (both taken out of the entry),
    /// and the consumer's registration.
    fn stream_parts_at(&mut self, addr: &String) -> (r: Result<(Option<R>, Option<u64>, Option<P>), StreamError>)
        requires
            old(self).wf(),
        ensures
            final(self).wf(),
            match old(self).lookup(addr@) {
                None => r == Err::<(Option<R>, Option<u64>, Option<P>), StreamError>(StreamError::NotRegistered)
                    && final(self).entries@ == old(self).entries@,
                Some(e) => {
                    &&& r == Ok::<(Option<R>, Option<u64>, Option<P>), StreamError>(
                        (e.consumer_rx, e.consumer_reg_id, e.producer_handle),
                    )
                    &&& final(self).lookup(addr@) == Some(
                        EndpointEntry::<R, P> {
                            uuid: e.uuid,
                            consumer_reg_id: e.consumer_reg_id,
                            consumer_rx: None,
                            producer_handle: None,
                        },
                    )
                    &&& forall|a: Seq<char>| a != addr@ ==> #[trigger] final(self).lookup(a) == old(self).lookup(a)
                },
            },
    {
        match self.find(addr) {
            None => Err(StreamError::NotRegistered),
            Some(i) => {
                proof {
                    lemma_lookup_unique(self.entries@, addr@);
                }
                let (key, e) = self.entries.remove(i);
                let EndpointEntry { uuid, consumer_reg_id, consumer_rx, producer_handle } = e;
                self.entries.insert(
                    i,
                    (key, EndpointEntry { uuid, consumer_reg_id, consumer_rx: None, producer_handle: None }),
                );
                proof {
                    assert forall|a: Seq<char>| a != addr@ implies #[trigger] lookup_in(self.entries@, a) == lookup_in(
                        old(self).entries@,
                        a,
                    ) by {
                        lemma_lookup_update(old(self).entries@, self.entries@, i as int, a);
                    }
                    lemma_lookup_update(old(self).entries@, self.entries@, i as int, addr@);
                }
                Ok((consumer_rx, consumer_reg_id, producer_handle))
            },
        }
    }

    /// Forgets the client at `addr` (its stream ended); returns its entry.
    pub fn remove(&mut self, addr: &String) -> (r: Option<EndpointEntry<R, P>>)
        requires
            old(self).wf(),
        ensures
            final(self).wf(),
            r == old(self).lookup(addr@),
            final(self).lookup(addr@) is None,
            forall|a: Seq<char>| a != addr@ ==> #[trigger] final(self).lookup(a) == old(self).lookup(a),
    {
        match self.find(addr) {
            None => None,
            Some(i) => {
                proof {
                    lemma_lookup_unique(self.entries@, addr@);
                }
                let (_key, e) = self.entries.remove(i);
                proof {
                    assert forall|a: Seq<char>| a != addr@ implies #[trigger] lookup_in(self.entries@, a) == lookup_in(
                        old(self).entries@,
                        a,
                    ) by {
                        lemma_lookup_remove(old(self).entries@, i as int, a);
                    }
                    lemma_lookup_remove(old(self).entries@, i as int, addr@);
                }
                Some(e)
            },
        }
    }

    /// Handles a `Deregister` notification: the call must carry the client's
    /// peer address; then see `deregister_at`.
    pub fn deregister(&mut self, addr: Option<&String>, uuid: &[u8]) -> (r: Result<Option<u64>, DeregisterError>)
        requires
            old(self).wf(),
        ensures
            final(self).wf(),
            addr is None ==> r == Err::<Option<u64>, DeregisterError>(DeregisterError::NoRemoteAddress)
                && final(self).entries@ == old(self).entries@,
            addr matches Some(a) ==> {
                &&& uuid@.len() != 16 ==> r == Err::<Option<u64>, DeregisterError>(DeregisterError::InvalidUuid)
                    && final(self).entries@ == old(self).entries@
                &&& uuid@.len() == 16 ==> match old(self).lookup(a@) {
                    None => r == Err::<Option<u64>, DeregisterError>(DeregisterError::NotRegistered)
                        && final(self).entries@ == old(self).entries@,
                    Some(e) => if e.uuid as nat == be_value(uuid@) {
                        &&& r == Ok::<Option<u64>, DeregisterError>(e.consumer_reg_id)
                        &&& final(self).lookup(a@) is None
                        &&& forall|x: Seq<char>| x != a@ ==> #[trigger] final(self).lookup(x) == old(self).lookup(x)
                    } else {
                        r == Err::<Option<u64>, DeregisterError>(DeregisterError::UuidMismatch)
                            && final(self).entries@ == old(self).entries@
                    },
                }
            },
    {
        match addr {
            None => Err(DeregisterError::NoRemoteAddress),
            Some(a) => self.deregister_at(a, uuid),
        }
    }

    /// Handles a `Deregister` notification from the client at `addr`: the
    /// UUID must be sixteen bytes and match the one it registered under;
    /// then its entry is dropped and its consumer registration returned.
    fn deregister_at(&mut self, addr: &String, uuid: &[u8]) -> (r: Result<Option<u64>, DeregisterError>)
        requires
            old(self).wf(),
        ensures
            final(self).wf(),
            uuid@.len() != 16 ==> r == Err::<Option<u64>, DeregisterError>(DeregisterError::InvalidUuid)
                && final(self).entries@ == old(self).entries@,
            uuid@.len() == 16 ==> match old(self).lookup(addr@) {
                None => r == Err::<Option<u64>, DeregisterError>(DeregisterError::NotRegistered)
                    && final(self).entries@ == old(self).entries@,
                Some(e) => if e.uuid as nat == be_value(uuid@) {
                    &&& r == Ok::<Option<u64>, DeregisterError>(e.consumer_reg_id)
                    &&& final(self).lookup(addr@) is None
                    &&& forall|a: Seq<char>| a != addr@ ==> #[trigger] final(self).lookup(a) == old(self).lookup(a)
                } else {
                    r == Err::<Option<u64>, DeregisterError>(DeregisterError::UuidMismatch)
                        && final(self).entries@ == old(self).entries@
                },
            },
    {
        let id = match uuid_from_slice(uuid) {
            Some(v) => v,
            None => {
                return Err(DeregisterError::InvalidUuid);
            },
        };
        match self.find(addr) {
            None => Err(DeregisterError::NotRegistered),
            Some(i) => {
                proof {
                    lemma_lookup_unique(self.entries@, addr@);
                }
                if self.entries[i].1.uuid != id {
                    return Err(DeregisterError::UuidMismatch);
                }
                match self.remove(addr) {
                    Some(e) => Ok(e.consumer_reg_id),
                    None => Ok(None),
                }
            },
        }
    }
}

} // verus!
