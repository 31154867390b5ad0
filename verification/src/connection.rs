use vstd::prelude::*;

use std::collections::HashMap;

verus! {

broadcast use vstd::std_specs::hash::group_hash_axioms;

/// Table of live connections, each under its identifier with the sender `S`
/// used to reach it. Identifiers are handed out in increasing order, so none
/// is reused, and `active` counts the live connections.
pub struct ConnectionTable<S> {
    pub connections: HashMap<u64, S>,
    pub next_id: u64,
    pub active: usize,
}

impl<S> ConnectionTable<S> {
    pub open spec fn wf(&self) -> bool {
        &&& self.active == self.connections@.len()
        &&& forall|id: u64| #[trigger] self.connections@.contains_key(id) ==> id < self.next_id
    }

    pub fn new() -> (t: Self)
        ensures
            t.wf(),
            t.connections@ == Map::<u64, S>::empty(),
            t.next_id == 0,
    {
        ConnectionTable { connections: HashMap::new(), next_id: 0, active: 0 }
    }

    /// Some connection is live.
    pub fn available(&self) -> (r: bool)
        requires
            self.wf(),
        ensures
            r == (self.connections@.len() > 0),
    {
        self.active > 0
    }

    /// Adds a connection under a fresh identifier and returns it.
    pub fn connect(&mut self, tx: S) -> (id: u64)
        requires
            old(self).wf(),
            old(self).next_id < u64::MAX,
        ensures
            final(self).wf(),
            id == old(self).next_id,
            !old(self).connections@.contains_key(id),
            final(self).next_id == old(self).next_id + 1,
            final(self).connections@ == old(self).connections@.insert(id, tx),
    {
        let id = self.next_id;
        self.next_id = self.next_id + 1;
        self.connections.insert(id, tx);
        proof {
            assert(self.connections@.len() == old(self).connections@.len() + 1);
        }
        self.active = self.connections.len();
        id
    }

    /// Drops connection `id` if it is live; reports whether it was.
    pub fn disconnect(&mut self, id: u64) -> (removed: bool)
        requires
            old(self).wf(),
        ensures
            final(self).wf(),
            final(self).next_id == old(self).next_id,
            removed == old(self).connections@.contains_key(id),
            final(self).connections@ == old(self).connections@.remove(id),
    {
        let removed = self.connections.remove(&id).is_some();
        self.active = self.connections.len();
        removed
    }

    /// Drops every connection whose send failed during a broadcast; ones
    /// already gone are ignored.
    pub fn remove_dead(&mut self, dead: &Vec<u64>)
        requires
            old(self).wf(),
        ensures
            final(self).wf(),
            final(self).next_id == old(self).next_id,
            final(self).connections@ == old(self).connections@.remove_keys(dead@.to_set()),
    {
        let n = dead.len();
        let mut k: usize = 0;
        while k < n
            invariant
                n == dead@.len(),
                k <= n,
                self.wf(),
                self.next_id == old(self).next_id,
                self.connections@ == old(self).connections@.remove_keys(dead@.subrange(0, k as int).to_set()),
            decreases n - k,
        {
            let ghost before = self.connections@;
            self.disconnect(dead[k]);
            proof {
                assert(dead@.subrange(0, k + 1).to_set() =~= dead@.subrange(0, k as int).to_set().insert(dead@[k as int])) by {
                    assert forall|x: u64| dead@.subrange(0, k + 1).to_set().contains(x) implies dead@.subrange(
                        0,
                        k as int,
                    ).to_set().insert(dead@[k as int]).contains(x) by {
                        let j = choose|j: int| 0 <= j < k + 1 && #[trigger] dead@.subrange(0, k + 1)[j] == x;
                        if j < k {
                            assert(dead@.subrange(0, k as int)[j] == x);
                        }
                    }
                    assert forall|x: u64| dead@.subrange(0, k as int).to_set().insert(dead@[k as int]).contains(
                        x,
                    ) implies dead@.subrange(0, k + 1).to_set().contains(x) by {
                        if x == dead@[k as int] {
                            assert(dead@.subrange(0, k + 1)[k as int] == x);
                        } else {
                            let j = choose|j: int| 0 <= j < k && #[trigger] dead@.subrange(0, k as int)[j] == x;
                            assert(dead@.subrange(0, k + 1)[j] == x);
                        }
                    }
                }
                assert(self.connections@ =~= old(self).connections@.remove_keys(
                    dead@.subrange(0, k + 1).to_set(),
                ));
            }
            k = k + 1;
        }
        proof {
            assert(dead@.subrange(0, n as int) =~= dead@);
        }
    }
}

} // verus!
