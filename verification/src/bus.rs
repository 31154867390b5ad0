use vstd::prelude::*;

use std::collections::VecDeque;

use crate::envelope::Envelope;
use crate::registry::{RegistrationBuilder, Registry};

verus! {

/// The pending queue after one unhandled envelope `e` is put back: `e` goes
/// last and the oldest entries are dropped until at most `max` remain (with
/// a cap of 0 nothing is kept).
pub open spec fn requeued<E>(q: Seq<E>, max: nat, e: E) -> Seq<E> {
    latest(q.push(e), max)
}

/// The pending queue after putting back every envelope of `s`, in order.
pub open spec fn requeued_all<E>(q: Seq<E>, max: nat, s: Seq<E>) -> Seq<E>
    decreases s.len(),
{
    if s.len() == 0 {
        q
    } else {
        requeued(requeued_all(q, max, s.drop_last()), max, s.last())
    }
}

/// The last `min(n, t.len())` elements of `t`.
pub open spec fn latest<E>(t: Seq<E>, n: nat) -> Seq<E> {
    if t.len() <= n {
        t
    } else {
        t.subrange(t.len() - n, t.len() as int)
    }
}

/// Routing state of a bus: the consumer registry and the queue of envelopes
/// that no consumer took yet, capped at `max_pending` entries.
pub struct Bus<C, D> {
    pub registry: Registry<C, D>,
    pub pending: VecDeque<Envelope>,
    pub max_pending: usize,
}

impl<C, D> Bus<C, D> {
    pub open spec fn wf(&self) -> bool {
        self.registry.wf()
    }

    /// No consumers, nothing pending, no cap on the pending queue.
    pub fn new() -> (b: Self)
        ensures
            b.wf(),
            b.registry.entries@.len() == 0,
            b.registry.next_id == 0,
            b.pending@.len() == 0,
            b.max_pending == usize::MAX,
    {
        Bus { registry: Registry::new(), pending: VecDeque::new(), max_pending: usize::MAX }
    }

    /// Caps the pending queue at `cap` envelopes.
    pub fn max_pending(self, cap: usize) -> (b: Self)
        ensures
            b.max_pending == cap,
            b.registry == self.registry,
            b.pending == self.pending,
    {
        let mut b = self;
        b.max_pending = cap;
        b
    }

    /// Puts back an envelope that no consumer took, dropping the oldest
    /// pending ones so that the queue never holds more than the cap.
    pub fn push_pending(&mut self, envelope: Envelope)
        ensures
            final(self).pending@ == requeued(old(self).pending@, old(self).max_pending as nat, envelope),
            final(self).pending@.len() <= final(self).max_pending,
            final(self).registry == old(self).registry,
            final(self).max_pending == old(self).max_pending,
    {
        let ghost t = old(self).pending@.push(envelope);
        self.pending.push_back(envelope);
        while self.pending.len() > self.max_pending
            invariant
                self.registry == old(self).registry,
                self.max_pending == old(self).max_pending,
                self.pending@.len() <= t.len(),
                self.pending@.len() >= self.max_pending ==> self.pending@ == t.subrange(
                    t.len() - self.pending@.len(),
                    t.len() as int,
                ),
                self.pending@.len() < self.max_pending ==> self.pending@ == t,
            decreases self.pending@.len(),
        {
            let _dropped = self.pending.pop_front();
            proof {
                assert(self.pending@ =~= t.subrange(t.len() - self.pending@.len(), t.len() as int));
            }
        }
        proof {
            if t.len() <= self.max_pending {
                assert(self.pending@ =~= t);
            }
        }
    }

    /// Takes every pending envelope, oldest first, leaving the queue empty.
    pub fn take_pending(&mut self) -> (taken: VecDeque<Envelope>)
        ensures
            taken@ == old(self).pending@,
            final(self).pending@.len() == 0,
            final(self).registry == old(self).registry,
            final(self).max_pending == old(self).max_pending,
    {
        let mut taken = VecDeque::new();
        std::mem::swap(&mut taken, &mut self.pending);
        taken
    }

    /// Whether any envelope waits for a consumer.
    pub fn has_pending(&self) -> (r: bool)
        ensures
            r == (self.pending@.len() > 0),
    {
        self.pending.len() > 0
    }

    /// Registers a consumer with no dimensions yet.
    pub fn register_consumer(&mut self, consumer: C) -> (b: RegistrationBuilder)
        requires
            old(self).wf(),
            old(self).registry.next_id < u64::MAX,
        ensures
            final(self).wf(),
            b.id == old(self).registry.next_id,
            b.idx == old(self).registry.entries@.len(),
            final(self).registry.next_id == old(self).registry.next_id + 1,
            final(self).registry.entries@.len() == old(self).registry.entries@.len() + 1,
            final(self).registry.entries@.take(b.idx as int) == old(self).registry.entries@,
            final(self).registry.entries@[b.idx as int].id == b.id,
            final(self).registry.entries@[b.idx as int].consumer == consumer,
            final(self).registry.entries@[b.idx as int].dims@.len() == 0,
            final(self).pending == old(self).pending,
            final(self).max_pending == old(self).max_pending,
    {
        self.registry.register(consumer)
    }

    /// Removes the consumer registered under `id`; reports whether it existed.
    pub fn deregister_consumer(&mut self, id: u64) -> (removed: bool)
        requires
            old(self).wf(),
        ensures
            final(self).wf(),
            removed == exists|i: int|
                0 <= i < old(self).registry.entries@.len() && #[trigger] old(self).registry.entries@[i].id == id,
            removed ==> exists|p: int|
                0 <= p < old(self).registry.entries@.len() && old(self).registry.entries@[p].id == id
                    && final(self).registry.entries@ == old(self).registry.entries@.remove(p),
            !removed ==> final(self).registry.entries@ == old(self).registry.entries@,
            final(self).registry.next_id == old(self).registry.next_id,
            final(self).pending == old(self).pending,
            final(self).max_pending == old(self).max_pending,
    {
        self.registry.deregister(id)
    }

    /// Registers `consumer` with `dims` attached in order, each a hard
    /// requirement when its flag is set and a preference otherwise; returns
    /// the new identifier.
    pub fn apply_register(&mut self, consumer: C, dims: Vec<(D, bool)>) -> (id: u64)
        requires
            old(self).wf(),
            old(self).registry.next_id < u64::MAX,
        ensures
            final(self).wf(),
            id == old(self).registry.next_id,
            final(self).registry.next_id == old(self).registry.next_id + 1,
            final(self).registry.entries@.len() == old(self).registry.entries@.len() + 1,
            final(self).registry.entries@.take(old(self).registry.entries@.len() as int)
                == old(self).registry.entries@,
            ({
                let e = final(self).registry.entries@[old(self).registry.entries@.len() as int];
                &&& e.id == id
                &&& e.consumer == consumer
                &&& e.dims@.len() == dims@.len()
                &&& forall|k: int|
                    0 <= k < dims@.len() ==> (#[trigger] e.dims@[k]).dim == dims@[k].0
                        && e.dims@[k].reject_on_miss == dims@[k].1
            }),
            final(self).pending == old(self).pending,
            final(self).max_pending == old(self).max_pending,
    {
        let b = self.registry.register(consumer);
        let ghost base = self.registry.entries@;
        let ghost all = dims@;
        let total = dims.len();
        let mut rest = dims;
        let mut k: usize = 0;
        while rest.len() > 0
            invariant
                self.registry.wf(),
                b.idx < self.registry.entries@.len(),
                self.registry.entries@.len() == base.len(),
                self.registry.next_id == old(self).registry.next_id + 1,
                forall|i: int| 0 <= i < base.len() && i != b.idx ==> #[trigger] self.registry.entries@[i] == base[i],
                self.registry.entries@[b.idx as int].id == b.id,
                self.registry.entries@[b.idx as int].consumer == consumer,
                k + rest@.len() == all.len(),
                all.len() == total,
                self.pending == old(self).pending,
                self.max_pending == old(self).max_pending,
                rest@ == all.subrange(k as int, all.len() as int),
                self.registry.entries@[b.idx as int].dims@.len() == k,
                forall|j: int|
                    0 <= j < k ==> (#[trigger] self.registry.entries@[b.idx as int].dims@[j]).dim == all[j].0
                        && self.registry.entries@[b.idx as int].dims@[j].reject_on_miss == all[j].1,
            decreases rest@.len(),
        {
            let (dim, required) = rest.remove(0);
            self.registry.add_dimension(b.idx, dim, required);
            k = k + 1;
            proof {
                assert(rest@ =~= all.subrange(k as int, all.len() as int));
            }
        }
        proof {
            assert(self.registry.entries@.take(b.idx as int) =~= old(self).registry.entries@);
        }
        b.id
    }
}

/// What a drain of the bus does next.
#[derive(Clone, Copy, Debug, PartialEq, Eq)]
pub enum DrainStep {
    /// Take the next queued registration command, if any, and apply it.
    TryCommand,
    /// Take the pending envelopes out of the bus (`Bus::take_pending`).
    TakePending,
    /// Route the next of the envelopes taken out, if any are left.
    TryPending,
    /// Take the next envelope from the bus channel, if any, and route it.
    TryChannel,
    /// The drain is over.
    Finished,
}

/// The order of a drain: every queued command first, then the envelopes
/// that were pending, handed out one at a time, then those waiting in the
/// channel. `stage` counts the phases passed: 0 commands, 1 taking the
/// pending ones, 2 retrying them, 3 the channel, 4 over. `taken` are the
/// envelopes taken out of the bus and `handed` how many of them were handed
/// out; `retry` holds the rest.
pub struct Drain {
    pub stage: u8,
    pub retry: VecDeque<Envelope>,
    pub taken: Ghost<Seq<Envelope>>,
    pub handed: Ghost<nat>,
}

impl Drain {
    pub open spec fn inv(&self) -> bool {
        &&& self.stage <= 4
        &&& self.handed@ <= self.taken@.len()
        &&& self.retry@ == self.taken@.skip(self.handed@ as int)
        &&& self.stage < 2 ==> self.taken@.len() == 0
        &&& self.stage > 2 ==> self.handed@ == self.taken@.len()
    }

    pub open spec fn spec_step(&self) -> DrainStep {
        if self.stage == 0 {
            DrainStep::TryCommand
        } else if self.stage == 1 {
            DrainStep::TakePending
        } else if self.stage == 2 {
            DrainStep::TryPending
        } else if self.stage == 3 {
            DrainStep::TryChannel
        } else {
            DrainStep::Finished
        }
    }

    /// The stage after reporting `got` for a command or channel step: the
    /// phase goes on while its source yields something and ends when it is
    /// empty.
    pub open spec fn next_stage(&self, got: bool) -> u8 {
        if got && self.stage != 4 {
            self.stage
        } else if self.stage < 4 {
            (self.stage + 1) as u8
        } else {
            4
        }
    }

    pub fn new() -> (d: Self)
        ensures
            d.inv(),
            d.stage == 0,
    {
        let d = Drain { stage: 0, retry: VecDeque::new(), taken: Ghost(Seq::empty()), handed: Ghost(0) };
        proof {
            assert(d.taken@.skip(0) =~= d.retry@);
        }
        d
    }

    pub fn step(&self) -> (s: DrainStep)
        ensures
            s == self.spec_step(),
    {
        if self.stage == 0 {
            DrainStep::TryCommand
        } else if self.stage == 1 {
            DrainStep::TakePending
        } else if self.stage == 2 {
            DrainStep::TryPending
        } else if self.stage == 3 {
            DrainStep::TryChannel
        } else {
            DrainStep::Finished
        }
    }

    /// Reports whether a command step or a channel step found something.
    pub fn feed(&mut self, got: bool)
        requires
            old(self).inv(),
            old(self).stage != 1,
            old(self).stage != 2,
        ensures
            final(self).inv(),
            final(self).stage == old(self).next_stage(got),
            final(self).taken == old(self).taken,
            final(self).handed == old(self).handed,
    {
        if got && self.stage != 4 {
        } else if self.stage < 4 {
            self.stage = self.stage + 1;
        }
    }

    /// Takes every pending envelope out of `bus`, oldest first, to be
    /// handed out by `next_pending`.
    pub fn take_pending<C, D>(&mut self, bus: &mut Bus<C, D>)
        requires
            old(self).inv(),
            old(self).stage == 1,
        ensures
            final(self).inv(),
            final(self).stage == 2,
            final(self).taken@ == old(bus).pending@,
            final(self).handed@ == 0,
            final(bus).pending@.len() == 0,
            final(bus).registry == old(bus).registry,
            final(bus).max_pending == old(bus).max_pending,
    {
        self.retry = bus.take_pending();
        self.taken = Ghost(self.retry@);
        self.handed = Ghost(0);
        self.stage = 2;
        proof {
            assert(self.taken@.skip(0) =~= self.taken@);
        }
    }

    /// Hands out the next envelope taken out of the bus, in their order;
    /// `None` once all were handed out, which ends the pending phase.
    pub fn next_pending(&mut self) -> (r: Option<Envelope>)
        requires
            old(self).inv(),
            old(self).stage == 2,
        ensures
            final(self).inv(),
            final(self).taken == old(self).taken,
            old(self).handed@ < old(self).taken@.len() ==> {
                &&& r == Some(old(self).taken@[old(self).handed@ as int])
                &&& final(self).handed@ == old(self).handed@ + 1
                &&& final(self).stage == 2
            },
            old(self).handed@ == old(self).taken@.len() ==> {
                &&& r is None
                &&& final(self).handed == old(self).handed
                &&& final(self).stage == 3
            },
    {
        match self.retry.pop_front() {
            Some(e) => {
                proof {
                    assert(self.taken@.skip(self.handed@ + 1int) =~= self.retry@);
                }
                self.handed = Ghost(self.handed@ + 1);
                Some(e)
            },
            None => {
                self.stage = 3;
                None
            },
        }
    }
}

/// Law: a drain never goes back, and each envelope taken out of the bus is
/// handed out exactly once, in order: while retrying, the ones handed out so
/// far are the first `handed` taken, the rest wait in order, and the channel
/// phase starts only once all were handed out.
pub proof fn lemma_drain_order(d: Drain, got: bool)
    requires
        d.inv(),
    ensures
        d.stage <= d.next_stage(got) <= 4,
        d.spec_step() == DrainStep::TryCommand ==> (d.next_stage(got) == 0 <==> got),
        d.spec_step() == DrainStep::TryChannel ==> (d.next_stage(got) == 3 <==> got),
        d.stage == 4 ==> d.next_stage(got) == 4,
        d.taken@.take(d.handed@ as int) + d.retry@ == d.taken@,
        d.stage >= 3 ==> d.retry@.len() == 0,
{
    assert(d.taken@.take(d.handed@ as int) + d.taken@.skip(d.handed@ as int) =~= d.taken@);
}

/// Law: for every cap, the pending queue always holds the most recent
/// unhandled envelopes, oldest first, and never more than the cap.
pub proof fn lemma_pending_keeps_latest<E>(q: Seq<E>, max: nat, s: Seq<E>)
    requires
        q.len() <= max,
    ensures
        requeued_all(q, max, s) == latest(q + s, max),
        requeued_all(q, max, s).len() <= max,
    decreases s.len(),
{
    if s.len() == 0 {
        assert(q + s =~= q);
    } else {
        let s0 = s.drop_last();
        lemma_pending_keeps_latest(q, max, s0);
        let t0 = q + s0;
        let t = q + s;
        assert(t =~= t0.push(s.last()));
        let p = latest(t0, max);
        if t0.len() <= max {
            assert(p.push(s.last()) =~= t);
        } else {
            assert(p.push(s.last()) =~= t.subrange(t.len() - (max + 1), t.len() as int));
        }
        assert(latest(p.push(s.last()), max) =~= latest(t, max));
    }
}

} // verus!
