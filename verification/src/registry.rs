use vstd::prelude::*;

verus! {

/// One routing dimension attached to a consumer: the dimension object itself
/// (opaque to the registry) and whether a miss on it rejects the consumer.
pub struct DimEntry<D> {
    pub dim: D,
    pub reject_on_miss: bool,
}

/// A registered consumer with its identifier and attached dimensions.
pub struct RegistrationEntry<C, D> {
    pub id: u64,
    pub consumer: C,
    pub dims: Vec<DimEntry<D>>,
}

/// Consumer registration table. Identifiers are handed out in increasing
/// order and are never reused.
pub struct Registry<C, D> {
    pub entries: Vec<RegistrationEntry<C, D>>,
    pub next_id: u64,
}

/// What `register` hands back: the new identifier and the entry's index,
/// through which dimensions are attached.
#[derive(Clone, Copy, Debug)]
pub struct RegistrationBuilder {
    pub id: u64,
    pub idx: usize,
}

impl RegistrationBuilder {
    /// Attaches a hard requirement: a miss rejects the consumer.
    pub fn require<C, D>(self, registry: &mut Registry<C, D>, dim: D) -> (r: Self)
        requires
            old(registry).wf(),
            self.idx < old(registry).entries@.len(),
        ensures
            r == self,
            final(registry).wf(),
            final(registry).next_id == old(registry).next_id,
            final(registry).entries@.len() == old(registry).entries@.len(),
            forall|i: int|
                0 <= i < old(registry).entries@.len() && i != self.idx ==> #[trigger] final(registry).entries@[i]
                    == old(registry).entries@[i],
            final(registry).entries@[self.idx as int].id == old(registry).entries@[self.idx as int].id,
            final(registry).entries@[self.idx as int].consumer == old(registry).entries@[self.idx as int].consumer,
            final(registry).entries@[self.idx as int].dims@ == old(registry).entries@[self.idx as int].dims@.push(
                DimEntry { dim, reject_on_miss: true },
            ),
    {
        registry.add_dimension(self.idx, dim, true);
        self
    }

    /// Attaches a soft preference: a miss only forgoes its score.
    pub fn prefer<C, D>(self, registry: &mut Registry<C, D>, dim: D) -> (r: Self)
        requires
            old(registry).wf(),
            self.idx < old(registry).entries@.len(),
        ensures
            r == self,
            final(registry).wf(),
            final(registry).next_id == old(registry).next_id,
            final(registry).entries@.len() == old(registry).entries@.len(),
            forall|i: int|
                0 <= i < old(registry).entries@.len() && i != self.idx ==> #[trigger] final(registry).entries@[i]
                    == old(registry).entries@[i],
            final(registry).entries@[self.idx as int].id == old(registry).entries@[self.idx as int].id,
            final(registry).entries@[self.idx as int].consumer == old(registry).entries@[self.idx as int].consumer,
            final(registry).entries@[self.idx as int].dims@ == old(registry).entries@[self.idx as int].dims@.push(
                DimEntry { dim, reject_on_miss: false },
            ),
    {
        registry.add_dimension(self.idx, dim, false);
        self
    }
}

/// Outcome of scoring one registry entry against an envelope: whether a
/// hard requirement rejected it, and the IEEE-754 bit pattern of its score.
#[derive(Clone, Copy, Debug)]
pub struct EntryScore {
    pub rejected: bool,
    pub score_bits: u32,
}

/// Some dimension whose miss rejects was missed.
pub open spec fn hard_miss<D>(dims: Seq<DimEntry<D>>, missed: Seq<bool>) -> bool {
    exists|i: int| 0 <= i < dims.len() && missed[i] && (#[trigger] dims[i]).reject_on_miss
}

/// Whether a consumer is rejected for a message, given which of its
/// dimensions missed it: only a missed hard requirement rejects; a missed
/// preference merely adds no score.
pub fn entry_rejected<D>(dims: &Vec<DimEntry<D>>, missed: &Vec<bool>) -> (r: bool)
    requires
        missed@.len() == dims@.len(),
    ensures
        r == hard_miss(dims@, missed@),
{
    let n = dims.len();
    let mut i: usize = 0;
    while i < n
        invariant
            n == dims@.len(),
            missed@.len() == n,
            i <= n,
            forall|k: int| 0 <= k < i ==> !(missed@[k] && (#[trigger] dims@[k]).reject_on_miss),
        decreases n - i,
    {
        if missed[i] && dims[i].reject_on_miss {
            return true;
        }
        i = i + 1;
    }
    false
}

/// Law: attaching a preference never changes whether a consumer is
/// rejected, whether or not the preference misses the message.
pub proof fn lemma_preference_never_rejects<D>(dims: Seq<DimEntry<D>>, missed: Seq<bool>, dim: D, miss: bool)
    requires
        missed.len() == dims.len(),
    ensures
        hard_miss(dims.push(DimEntry { dim, reject_on_miss: false }), missed.push(miss)) == hard_miss(dims, missed),
{
    let d2 = dims.push(DimEntry { dim, reject_on_miss: false });
    let m2 = missed.push(miss);
    if hard_miss(d2, m2) {
        let i = choose|i: int| 0 <= i < d2.len() && m2[i] && (#[trigger] d2[i]).reject_on_miss;
        assert(i < dims.len());
        assert(d2[i] == dims[i] && m2[i] == missed[i]);
    }
    if hard_miss(dims, missed) {
        let i = choose|i: int| 0 <= i < dims.len() && missed[i] && (#[trigger] dims[i]).reject_on_miss;
        assert(d2[i] == dims[i] && m2[i] == missed[i]);
    }
}

/// A consumer that qualified for a message: clamped score bits, id, index.
#[derive(Clone, Copy, Debug, PartialEq, Eq)]
pub struct Candidate {
    pub score_bits: u32,
    pub id: u64,
    pub idx: usize,
}

/// Position of an `f32` bit pattern in the IEEE total order (`f32::total_cmp`).
pub open spec fn total_order_key(bits: u32) -> int {
    if bits < 0x8000_0000u32 {
        bits as int
    } else {
        0x7FFF_FFFFint - bits as int
    }
}

/// The bit pattern encodes a finite `f32` (exponent not all ones).
pub open spec fn is_finite_bits(bits: u32) -> bool {
    (bits as int % 0x8000_0000int) < 0x7F80_0000int
}

/// Non-finite scores are replaced by `0.0`.
pub open spec fn clamped_bits(bits: u32) -> u32 {
    if is_finite_bits(bits) {
        bits
    } else {
        0u32
    }
}

/// `a` is tried before `b`: higher score first, lower id on equal scores.
pub open spec fn ranks_before(a: Candidate, b: Candidate) -> bool {
    ||| total_order_key(a.score_bits) > total_order_key(b.score_bits)
    ||| (total_order_key(a.score_bits) == total_order_key(b.score_bits) && a.id < b.id)
}

/// Candidate list strictly ordered by `ranks_before`.
pub open spec fn strictly_ranked(q: Seq<Candidate>) -> bool {
    forall|a: int, b: int| 0 <= a < b < q.len() ==> ranks_before(q[a], q[b])
}

fn order_key(bits: u32) -> (k: i64)
    ensures
        k == total_order_key(bits),
{
    if bits < 0x8000_0000u32 {
        bits as i64
    } else {
        0x7FFF_FFFFi64 - bits as i64
    }
}

fn clamp_score(bits: u32) -> (r: u32)
    ensures
        r == clamped_bits(bits),
{
    if bits % 0x8000_0000u32 < 0x7F80_0000u32 {
        bits
    } else {
        0
    }
}

fn candidate_ranks_before(a: &Candidate, b: &Candidate) -> (r: bool)
    ensures
        r == ranks_before(*a, *b),
{
    let ka = order_key(a.score_bits);
    let kb = order_key(b.score_bits);
    ka > kb || (ka == kb && a.id < b.id)
}

impl<C, D> Registry<C, D> {
    /// An empty table whose first identifier will be 0.
    pub fn new() -> (r: Self)
        ensures
            r.wf(),
            r.entries@.len() == 0,
            r.next_id == 0,
    {
        Registry { entries: Vec::new(), next_id: 0 }
    }

    /// Number of registered consumers.
    pub fn len(&self) -> (n: usize)
        ensures
            n == self.entries@.len(),
    {
        self.entries.len()
    }

    /// Appends `consumer` with a fresh identifier and no dimensions.
    pub fn register(&mut self, consumer: C) -> (b: RegistrationBuilder)
        requires
            old(self).wf(),
            old(self).next_id < u64::MAX,
        ensures
            final(self).wf(),
            b.id == old(self).next_id,
            b.idx == old(self).entries@.len(),
            final(self).next_id == old(self).next_id + 1,
            final(self).entries@.len() == old(self).entries@.len() + 1,
            final(self).entries@.take(b.idx as int) == old(self).entries@,
            final(self).entries@[b.idx as int].id == b.id,
            final(self).entries@[b.idx as int].consumer == consumer,
            final(self).entries@[b.idx as int].dims@ == Seq::<DimEntry<D>>::empty(),
    {
        let id = self.next_id;
        self.next_id = self.next_id + 1;
        self.entries.push(RegistrationEntry { id, consumer, dims: Vec::new() });
        let idx = self.entries.len() - 1;
        proof {
            assert(self.entries@.take(idx as int) =~= old(self).entries@);
        }
        RegistrationBuilder { id, idx }
    }

    /// Attaches `dim` to the entry at `idx`.
    pub fn add_dimension(&mut self, idx: usize, dim: D, reject_on_miss: bool)
        requires
            old(self).wf(),
            idx < old(self).entries@.len(),
        ensures
            final(self).wf(),
            final(self).next_id == old(self).next_id,
            final(self).entries@.len() == old(self).entries@.len(),
            forall|i: int|
                0 <= i < old(self).entries@.len() && i != idx ==> #[trigger] final(self).entries@[i]
                    == old(self).entries@[i],
            final(self).entries@[idx as int].id == old(self).entries@[idx as int].id,
            final(self).entries@[idx as int].consumer == old(self).entries@[idx as int].consumer,
            final(self).entries@[idx as int].dims@ == old(self).entries@[idx as int].dims@.push(
                DimEntry { dim, reject_on_miss },
            ),
    {
        let mut entry = self.entries.remove(idx);
        entry.dims.push(DimEntry { dim, reject_on_miss });
        self.entries.insert(idx, entry);
        proof {
            assert forall|i: int, j: int|
                0 <= i < j < self.entries@.len() implies #[trigger] self.entries@[i].id
                < #[trigger] self.entries@[j].id by {
                assert(self.entries@[i].id == old(self).entries@[i].id);
                assert(self.entries@[j].id == old(self).entries@[j].id);
            }
            assert forall|i: int| 0 <= i < self.entries@.len() implies #[trigger] self.entries@[i].id
                < self.next_id by {
                assert(self.entries@[i].id == old(self).entries@[i].id);
            }
        }
    }

    /// Removes the entry registered under `id`; reports whether one was removed.
    pub fn deregister(&mut self, id: u64) -> (removed: bool)
        requires
            old(self).wf(),
        ensures
            final(self).wf(),
            final(self).next_id == old(self).next_id,
            removed == exists|i: int| 0 <= i < old(self).entries@.len() && #[trigger] old(self).entries@[i].id == id,
            removed ==> exists|p: int|
                0 <= p < old(self).entries@.len() && old(self).entries@[p].id == id
                    && final(self).entries@ == old(self).entries@.remove(p),
            !removed ==> final(self).entries@ == old(self).entries@,
            forall|i: int| 0 <= i < final(self).entries@.len() ==> #[trigger] final(self).entries@[i].id != id,
    {
        let n = self.entries.len();
        let mut p: usize = 0;
        while p < n && self.entries[p].id != id
            invariant
                n == self.entries@.len(),
                p <= n,
                forall|k: int| 0 <= k < p ==> #[trigger] self.entries@[k].id != id,
            decreases n - p,
        {
            p = p + 1;
        }
        if p < n {
            let ghost before = self.entries@;
            let _gone = self.entries.remove(p);
            proof {
                assert forall|i: int| 0 <= i < self.entries@.len() implies #[trigger] self.entries@[i].id != id by {
                    if i < p {
                        assert(self.entries@[i] == before[i]);
                    } else {
                        assert(self.entries@[i] == before[i + 1]);
                        assert(before[p as int].id < before[i + 1].id);
                    }
                }
                assert forall|i: int, j: int|
                    0 <= i < j < self.entries@.len() implies #[trigger] self.entries@[i].id
                    < #[trigger] self.entries@[j].id by {
                    let bi = if i < p { i } else { i + 1 };
                    let bj = if j < p { j } else { j + 1 };
                    assert(self.entries@[i] == before[bi]);
                    assert(self.entries@[j] == before[bj]);
                }
                assert forall|i: int| 0 <= i < self.entries@.len() implies #[trigger] self.entries@[i].id
                    < self.next_id by {
                    let bi = if i < p { i } else { i + 1 };
                    assert(self.entries@[i] == before[bi]);
                }
            }
            true
        } else {
            false
        }
    }

    /// Identifiers strictly increase along the table and stay below `next_id`.
    pub open spec fn wf(&self) -> bool {
        &&& forall|i: int, j: int|
            0 <= i < j < self.entries@.len() ==> #[trigger] self.entries@[i].id < #[trigger] self.entries@[j].id
        &&& forall|i: int| 0 <= i < self.entries@.len() ==> #[trigger] self.entries@[i].id < self.next_id
    }

    /// Entry `i` qualifies for a message when its score was not rejected.
    pub open spec fn plan_matches(&self, scores: Seq<EntryScore>, q: Seq<Candidate>) -> bool {
        &&& forall|k: int|
            0 <= k < q.len() ==> {
                let c = #[trigger] q[k];
                &&& c.idx < self.entries@.len()
                &&& !scores[c.idx as int].rejected
                &&& c.id == self.entries@[c.idx as int].id
                &&& c.score_bits == clamped_bits(scores[c.idx as int].score_bits)
            }
        &&& forall|i: int|
            0 <= i < self.entries@.len() && !(#[trigger] scores[i]).rejected ==> exists|k: int|
                0 <= k < q.len() && q[k].idx == i
        &&& strictly_ranked(q)
    }

    /// Ranks the consumers that were not rejected: highest score first, then
    /// lowest identifier; non-finite scores count as `0.0`.
    pub fn plan(&self, scores: &Vec<EntryScore>) -> (q: Vec<Candidate>)
        requires
            self.wf(),
            scores@.len() == self.entries@.len(),
        ensures
            self.plan_matches(scores@, q@),
    {
        let n = self.entries.len();
        let mut q: Vec<Candidate> = Vec::new();
        let mut i: usize = 0;
        while i < n
            invariant
                n == self.entries@.len(),
                scores@.len() == n,
                self.wf(),
                i <= n,
                forall|k: int|
                    0 <= k < q@.len() ==> {
                        let c = #[trigger] q@[k];
                        &&& c.idx < i
                        &&& !scores@[c.idx as int].rejected
                        &&& c.id == self.entries@[c.idx as int].id
                        &&& c.score_bits == clamped_bits(scores@[c.idx as int].score_bits)
                    },
                forall|j: int|
                    0 <= j < i && !(#[trigger] scores@[j]).rejected ==> exists|k: int|
                        0 <= k < q@.len() && q@[k].idx == j,
                strictly_ranked(q@),
            decreases n - i,
        {
            if !scores[i].rejected {
                let c = Candidate {
                    score_bits: clamp_score(scores[i].score_bits),
                    id: self.entries[i].id,
                    idx: i,
                };
                let mut p: usize = 0;
                while p < q.len() && !candidate_ranks_before(&c, &q[p])
                    invariant
                        p <= q@.len(),
                        forall|k: int| 0 <= k < p ==> !ranks_before(c, #[trigger] q@[k]),
                    decreases q@.len() - p,
                {
                    p = p + 1;
                }
                let ghost old_q = q@;
                proof {
                    // every earlier candidate has a smaller id, so ordering is strict
                    assert forall|k: int| 0 <= k < p implies ranks_before(#[trigger] old_q[k], c) by {
                        let ck = old_q[k];
                        assert(ck.idx < i);
                        assert(self.entries@[ck.idx as int].id < self.entries@[i as int].id);
                    }
                    assert forall|k: int| p <= k < old_q.len() implies ranks_before(c, #[trigger] old_q[k]) by {
                        if k > p {
                            assert(ranks_before(old_q[p as int], old_q[k]));
                        }
                    }
                }
                q.insert(p, c);
                proof {
                    assert forall|a: int, b: int| 0 <= a < b < q@.len() implies ranks_before(q@[a], q@[b]) by {
                        if a < p && b < p {
                            assert(q@[a] == old_q[a] && q@[b] == old_q[b]);
                        } else if a < p && b == p {
                        } else if a < p {
                            assert(q@[a] == old_q[a] && q@[b] == old_q[b - 1]);
                            assert(ranks_before(old_q[a], c));
                            assert(ranks_before(c, old_q[b - 1]));
                        } else if a == p {
                            assert(q@[b] == old_q[b - 1]);
                        } else {
                            assert(q@[a] == old_q[a - 1] && q@[b] == old_q[b - 1]);
                        }
                    }
                    assert forall|j: int|
                        0 <= j < i + 1 && !(#[trigger] scores@[j]).rejected implies exists|k: int|
                        0 <= k < q@.len() && q@[k].idx == j by {
                        if j == i {
                            assert(q@[p as int].idx == j);
                        } else {
                            let k0 = choose|k: int| 0 <= k < old_q.len() && old_q[k].idx == j;
                            if k0 < p {
                                assert(q@[k0].idx == j);
                            } else {
                                assert(q@[k0 + 1].idx == j);
                            }
                        }
                    }
                }
            }
            i = i + 1;
        }
        q
    }
}

/// Law: identifiers are never reused. In a well-formed table the next
/// identifier, which `register` hands out, belongs to no registered
/// consumer and exceeds every identifier in use; `register` and
/// `deregister` keep the table well-formed and never lower `next_id`, so
/// this holds across any sequence of registrations and removals.
pub proof fn lemma_fresh_id_unused<C, D>(registry: &Registry<C, D>)
    requires
        registry.wf(),
    ensures
        forall|i: int|
            0 <= i < registry.entries@.len() ==> #[trigger] registry.entries@[i].id < registry.next_id
                && registry.entries@[i].id != registry.next_id,
{
}

/// The IEEE 754 total order on `f32` bit patterns (the order of
/// `f32::total_cmp`), stated through sign and magnitude: every pattern with
/// the sign bit set lies below every pattern without it; without the sign
/// bit a larger magnitude is larger, with it a larger magnitude is smaller.
/// For finite values this is the order of the numbers, with -0.0 below +0.0.
pub open spec fn ieee_total_less(a: u32, b: u32) -> bool {
    let a_neg = a >= 0x8000_0000u32;
    let b_neg = b >= 0x8000_0000u32;
    if a_neg && !b_neg {
        true
    } else if !a_neg && b_neg {
        false
    } else if !a_neg {
        a < b
    } else {
        a > b
    }
}

/// Law: the ranking key is strictly monotone in the IEEE total order and
/// tells distinct bit patterns apart, so two scores compare by their keys
/// exactly as the scores compare.
pub proof fn lemma_order_key_follows_total_order(a: u32, b: u32)
    ensures
        ieee_total_less(a, b) <==> total_order_key(a) < total_order_key(b),
        a == b <==> total_order_key(a) == total_order_key(b),
{
}

/// Law: a plan lists a higher score before a lower one, in the IEEE total
/// order of the (clamped) scores, and equal scores by increasing id.
pub proof fn lemma_plan_higher_score_first<C, D>(registry: &Registry<C, D>, scores: Seq<EntryScore>, q: Seq<Candidate>)
    requires
        registry.plan_matches(scores, q),
    ensures
        forall|a: int, b: int|
            0 <= a < b < q.len() ==> ieee_total_less(#[trigger] q[b].score_bits, #[trigger] q[a].score_bits) || (
            q[a].score_bits == q[b].score_bits && q[a].id < q[b].id),
{
    assert forall|a: int, b: int| 0 <= a < b < q.len() implies ieee_total_less(
        #[trigger] q[b].score_bits,
        #[trigger] q[a].score_bits,
    ) || (q[a].score_bits == q[b].score_bits && q[a].id < q[b].id) by {
        assert(ranks_before(q[a], q[b]));
        lemma_order_key_follows_total_order(q[b].score_bits, q[a].score_bits);
    }
}

} // verus!
