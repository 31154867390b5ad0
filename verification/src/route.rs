use vstd::prelude::*;

use crate::registry::{Candidate, DimEntry, EntryScore, Registry, clamped_bits, ranks_before};

verus! {

/// What a router needs from the caller next while routing one envelope.
#[derive(Clone, Copy, Debug, PartialEq, Eq)]
pub enum RouteAction {
    /// Evaluate dimension `dim` of entry `entry`; answer whether it rejected.
    EvaluateDim { entry: usize, dim: usize },
    /// Ask the consumer of `entry` whether it is available.
    CheckAvailable { entry: usize },
    /// Ask the consumer of `entry` whether it accepts the envelope.
    Validate { entry: usize },
    /// Hand the message to the consumer of `entry`; routing is over.
    Deliver { entry: usize },
    /// No consumer took the envelope; routing is over.
    Unhandled,
}

/// Feedback kinds sent to the dimensions of the consumers involved.
#[derive(Clone, Copy, Debug, PartialEq, Eq)]
pub enum EventKind {
    Vetoed,
    Consumed,
    Busy,
    Skipped,
}

/// Score-ordered selection of a winner among the planned candidates
/// (the decisions of `AffinityRouter::route`).
pub struct AffinitySelection {
    pub plan: Vec<Candidate>,
    pub pos: usize,
    pub available_checked: bool,
    pub pre_winner: Vec<(usize, bool)>,
    pub winner: Option<usize>,
}

impl AffinitySelection {
    pub open spec fn inv(&self) -> bool {
        &&& self.pos <= self.plan@.len()
        &&& self.pre_winner@.len() == self.pos
        &&& forall|k: int| 0 <= k < self.pos ==> (#[trigger] self.pre_winner@[k]).0 == self.plan@[k].idx
        &&& self.winner is Some ==> {
            &&& self.pos < self.plan@.len()
            &&& self.winner == Some(self.plan@[self.pos as int].idx)
            &&& self.available_checked
        }
        &&& self.available_checked ==> self.pos < self.plan@.len()
    }

    /// No further question has to be asked.
    pub open spec fn finished(&self) -> bool {
        self.winner is Some || self.pos == self.plan@.len()
    }

    pub open spec fn spec_action(&self) -> RouteAction {
        match self.winner {
            Some(w) => RouteAction::Deliver { entry: w },
            None => if self.pos == self.plan@.len() {
                RouteAction::Unhandled
            } else if !self.available_checked {
                RouteAction::CheckAvailable { entry: self.plan@[self.pos as int].idx }
            } else {
                RouteAction::Validate { entry: self.plan@[self.pos as int].idx }
            },
        }
    }

    /// Starts a selection over the ranked candidates.
    pub fn new(plan: Vec<Candidate>) -> (s: Self)
        ensures
            s.inv(),
            s.plan@ == plan@,
            s.pos == 0,
            !s.available_checked,
            s.winner is None,
    {
        AffinitySelection { plan, pos: 0, available_checked: false, pre_winner: Vec::new(), winner: None }
    }

    /// The next question, or the final decision.
    pub fn action(&self) -> (a: RouteAction)
        requires
            self.inv(),
        ensures
            a == self.spec_action(),
    {
        match self.winner {
            Some(w) => RouteAction::Deliver { entry: w },
            None => if self.pos == self.plan.len() {
                RouteAction::Unhandled
            } else if !self.available_checked {
                RouteAction::CheckAvailable { entry: self.plan[self.pos].idx }
            } else {
                RouteAction::Validate { entry: self.plan[self.pos].idx }
            },
        }
    }

    /// Records the answer to the pending `CheckAvailable` or `Validate` question.
    pub fn feed(&mut self, answer: bool)
        requires
            old(self).inv(),
            !old(self).finished(),
        ensures
            final(self).inv(),
            final(self).plan@ == old(self).plan@,
            ({
                let idx = old(self).plan@[old(self).pos as int].idx;
                if !old(self).available_checked {
                    if answer {
                        &&& final(self).available_checked
                        &&& final(self).pos == old(self).pos
                        &&& final(self).pre_winner@ == old(self).pre_winner@
                        &&& final(self).winner is None
                    } else {
                        &&& !final(self).available_checked
                        &&& final(self).pos == old(self).pos + 1
                        &&& final(self).pre_winner@ == old(self).pre_winner@.push((idx, true))
                        &&& final(self).winner is None
                    }
                } else {
                    if answer {
                        &&& final(self).available_checked
                        &&& final(self).pos == old(self).pos
                        &&& final(self).pre_winner@ == old(self).pre_winner@
                        &&& final(self).winner == Some(idx)
                    } else {
                        &&& !final(self).available_checked
                        &&& final(self).pos == old(self).pos + 1
                        &&& final(self).pre_winner@ == old(self).pre_winner@.push((idx, false))
                        &&& final(self).winner is None
                    }
                }
            }),
    {
        proof {
            // vector lengths fit in usize
            assert(self.plan.len() == self.plan@.len());
        }
        let idx = self.plan[self.pos].idx;
        if !self.available_checked {
            if answer {
                self.available_checked = true;
            } else {
                self.pre_winner.push((idx, true));
                self.pos = self.pos + 1;
            }
        } else {
            if answer {
                self.winner = Some(idx);
            } else {
                self.pre_winner.push((idx, false));
                self.pos = self.pos + 1;
                self.available_checked = false;
            }
        }
    }

    /// The feedback list once routing is over, one entry per planned candidate.
    pub open spec fn spec_events(&self) -> Seq<(usize, EventKind)> {
        Seq::new(
            self.plan@.len(),
            |k: int|
                if k < self.pos {
                    (self.plan@[k].idx, if self.pre_winner@[k].1 { EventKind::Busy } else { EventKind::Vetoed })
                } else if k < self.plan@.len() - 1 {
                    (self.plan@[k + 1].idx, EventKind::Skipped)
                } else {
                    (self.plan@[self.pos as int].idx, EventKind::Consumed)
                },
        )
    }

    /// Feedback for every planned candidate once routing is over: busy or
    /// vetoed for those tried before the winner, skipped for those ranked
    /// after it, and consumed (last) for the winner itself.
    pub fn events(&self) -> (ev: Vec<(usize, EventKind)>)
        requires
            self.inv(),
            self.finished(),
        ensures
            ev@ == self.spec_events(),
    {
        let mut ev: Vec<(usize, EventKind)> = Vec::new();
        let mut k: usize = 0;
        while k < self.pre_winner.len()
            invariant
                self.inv(),
                k <= self.pos,
                ev@.len() == k,
                forall|j: int|
                    0 <= j < k ==> #[trigger] ev@[j] == (
                        self.plan@[j].idx,
                        if self.pre_winner@[j].1 { EventKind::Busy } else { EventKind::Vetoed },
                    ),
            decreases self.pos - k,
        {
            let (idx, busy) = self.pre_winner[k];
            let kind = if busy { EventKind::Busy } else { EventKind::Vetoed };
            ev.push((idx, kind));
            k = k + 1;
        }
        if let Some(w) = self.winner {
            let n = self.plan.len();
            let mut j: usize = self.pos + 1;
            while j < n
                invariant
                    self.inv(),
                    self.winner == Some(w),
                    n == self.plan@.len(),
                    self.pos + 1 <= j <= n,
                    ev@.len() == j - 1,
                    forall|i: int|
                        0 <= i < self.pos ==> #[trigger] ev@[i] == (
                            self.plan@[i].idx,
                            if self.pre_winner@[i].1 { EventKind::Busy } else { EventKind::Vetoed },
                        ),
                    forall|i: int|
                        self.pos <= i < j - 1 ==> #[trigger] ev@[i] == (self.plan@[i + 1].idx, EventKind::Skipped),
                decreases n - j,
            {
                ev.push((self.plan[j].idx, EventKind::Skipped));
                j = j + 1;
            }
            ev.push((w, EventKind::Consumed));
        }
        assert(ev@ =~= self.spec_events());
        ev
    }
}

/// Why the in-order scan passed over an entry.
#[derive(Clone, Copy, Debug, PartialEq, Eq)]
pub enum SkipReason {
    HardRejected,
    Unavailable,
    Refused,
}

/// Where the scan stands inside the current entry.
#[derive(Clone, Copy, Debug, PartialEq, Eq)]
pub enum ScanStage {
    Dims,
    Available,
    Validate,
}

/// The indices of the dimensions whose miss rejects, in order.
pub open spec fn hard_indices<D>(dims: Seq<DimEntry<D>>, h: Seq<usize>) -> bool {
    &&& forall|a: int, b: int| 0 <= a < b < h.len() ==> h[a] < h[b]
    &&& forall|k: int| 0 <= k < h.len() ==> (#[trigger] h[k]) < dims.len() && dims[h[k] as int].reject_on_miss
    &&& forall|j: int|
        0 <= j < dims.len() && (#[trigger] dims[j]).reject_on_miss ==> exists|k: int| 0 <= k < h.len() && h[k] == j
}

/// In-order selection that honours only hard requirements
/// (the decisions of `BlindRouter::route`).
pub struct BlindScan {
    pub hard: Vec<Vec<usize>>,
    pub entry: usize,
    pub dim_pos: usize,
    pub stage: ScanStage,
    pub winner: Option<usize>,
    pub reasons: Ghost<Seq<SkipReason>>,
    /// The dimensions of the current entry that were evaluated and did not
    /// reject, in the order they were asked.
    pub passed: Ghost<Seq<usize>>,
}

impl BlindScan {
    pub open spec fn inv(&self) -> bool {
        &&& self.entry <= self.hard@.len()
        &&& self.reasons@.len() == self.entry
        &&& self.entry < self.hard@.len() ==> {
            &&& self.passed@ == self.hard@[self.entry as int]@.take(self.dim_pos as int)
            &&& self.stage == ScanStage::Dims ==> self.dim_pos < self.hard@[self.entry as int]@.len()
            &&& self.stage != ScanStage::Dims ==> self.dim_pos == self.hard@[self.entry as int]@.len()
        }
        &&& self.winner is Some ==> {
            &&& self.entry < self.hard@.len()
            &&& self.winner == Some(self.entry)
            &&& self.stage == ScanStage::Validate
        }
    }

    /// The scan was built from `registry` (one hard-index list per entry).
    pub open spec fn scans<C, D>(&self, registry: &Registry<C, D>) -> bool {
        &&& self.hard@.len() == registry.entries@.len()
        &&& forall|i: int|
            0 <= i < self.hard@.len() ==> hard_indices(
                registry.entries@[i].dims@,
                (#[trigger] self.hard@[i])@,
            )
    }

    pub open spec fn finished(&self) -> bool {
        self.winner is Some || self.entry == self.hard@.len()
    }

    pub open spec fn spec_action(&self) -> RouteAction {
        match self.winner {
            Some(w) => RouteAction::Deliver { entry: w },
            None => if self.entry == self.hard@.len() {
                RouteAction::Unhandled
            } else {
                match self.stage {
                    ScanStage::Dims => RouteAction::EvaluateDim {
                        entry: self.entry,
                        dim: self.hard@[self.entry as int]@[self.dim_pos as int],
                    },
                    ScanStage::Available => RouteAction::CheckAvailable { entry: self.entry },
                    ScanStage::Validate => RouteAction::Validate { entry: self.entry },
                }
            },
        }
    }

    /// Stage in which entry `e` starts: its first hard dimension, or the
    /// availability check when it has none.
    pub open spec fn start_stage(&self, e: int) -> ScanStage {
        if e < self.hard@.len() && self.hard@[e]@.len() > 0 {
            ScanStage::Dims
        } else {
            ScanStage::Available
        }
    }

    fn first_stage(hard: &Vec<Vec<usize>>, e: usize) -> (st: ScanStage)
        ensures
            st == (if e < hard@.len() && hard@[e as int]@.len() > 0 {
                ScanStage::Dims
            } else {
                ScanStage::Available
            }),
    {
        if e < hard.len() && hard[e].len() > 0 {
            ScanStage::Dims
        } else {
            ScanStage::Available
        }
    }

    /// Starts a scan over the entries of `registry`, in registration order.
    pub fn new<C, D>(registry: &Registry<C, D>) -> (s: Self)
        ensures
            s.inv(),
            s.scans(registry),
            s.entry == 0,
            s.dim_pos == 0,
            s.stage == s.start_stage(0),
            s.winner is None,
    {
        let n = registry.entries.len();
        let mut hard: Vec<Vec<usize>> = Vec::new();
        let mut i: usize = 0;
        while i < n
            invariant
                n == registry.entries@.len(),
                i <= n,
                hard@.len() == i,
                forall|k: int| 0 <= k < i ==> hard_indices(registry.entries@[k].dims@, (#[trigger] hard@[k])@),
            decreases n - i,
        {
            let dims = &registry.entries[i].dims;
            let m = dims.len();
            let mut h: Vec<usize> = Vec::new();
            let mut j: usize = 0;
            while j < m
                invariant
                    m == dims@.len(),
                    dims@ == registry.entries@[i as int].dims@,
                    j <= m,
                    forall|a: int, b: int| 0 <= a < b < h@.len() ==> h@[a] < h@[b],
                    forall|k: int| 0 <= k < h@.len() ==> (#[trigger] h@[k]) < j && dims@[h@[k] as int].reject_on_miss,
                    forall|x: int|
                        0 <= x < j && (#[trigger] dims@[x]).reject_on_miss ==> exists|k: int|
                            0 <= k < h@.len() && h@[k] == x,
                decreases m - j,
            {
                if dims[j].reject_on_miss {
                    let ghost before = h@;
                    h.push(j);
                    proof {
                        assert forall|x: int|
                            0 <= x < j + 1 && (#[trigger] dims@[x]).reject_on_miss implies exists|k: int|
                            0 <= k < h@.len() && h@[k] == x by {
                            if x == j {
                                assert(h@[before.len() as int] == x);
                            } else {
                                let k0 = choose|k: int| 0 <= k < before.len() && before[k] == x;
                                assert(h@[k0] == x);
                            }
                        }
                    }
                }
                j = j + 1;
            }
            hard.push(h);
            proof {
                assert forall|k: int| 0 <= k < i + 1 implies hard_indices(
                    registry.entries@[k].dims@,
                    (#[trigger] hard@[k])@,
                ) by {
                    if k < i {
                    }
                }
            }
            i = i + 1;
        }
        let stage = Self::first_stage(&hard, 0);
        let scan = BlindScan {
            hard,
            entry: 0,
            dim_pos: 0,
            stage,
            winner: None,
            reasons: Ghost(Seq::empty()),
            passed: Ghost(Seq::empty()),
        };
        proof {
            if scan.hard@.len() > 0 {
                assert(scan.hard@[0]@.take(0) =~= Seq::<usize>::empty());
            }
        }
        scan
    }

    /// The next question, or the final decision.
    pub fn action(&self) -> (a: RouteAction)
        requires
            self.inv(),
        ensures
            a == self.spec_action(),
    {
        match self.winner {
            Some(w) => RouteAction::Deliver { entry: w },
            None => if self.entry == self.hard.len() {
                RouteAction::Unhandled
            } else {
                match self.stage {
                    ScanStage::Dims => RouteAction::EvaluateDim {
                        entry: self.entry,
                        dim: self.hard[self.entry][self.dim_pos],
                    },
                    ScanStage::Available => RouteAction::CheckAvailable { entry: self.entry },
                    ScanStage::Validate => RouteAction::Validate { entry: self.entry },
                }
            },
        }
    }

    /// Records the answer to the pending question: for `EvaluateDim`, whether
    /// the dimension rejected; for `CheckAvailable`, whether the consumer is
    /// available; for `Validate`, whether it accepts the envelope.
    pub fn feed(&mut self, answer: bool)
        requires
            old(self).inv(),
            !old(self).finished(),
        ensures
            final(self).inv(),
            final(self).hard@ == old(self).hard@,
            ({
                let e = old(self).entry;
                let next_entry = {
                    &&& final(self).entry == e + 1
                    &&& final(self).dim_pos == 0
                    &&& final(self).stage == old(self).start_stage(e + 1)
                    &&& final(self).winner is None
                };
                match old(self).stage {
                    ScanStage::Dims => if answer {
                        &&& next_entry
                        &&& final(self).reasons@ == old(self).reasons@.push(SkipReason::HardRejected)
                    } else {
                        &&& final(self).entry == e
                        &&& final(self).dim_pos == old(self).dim_pos + 1
                        &&& final(self).stage == (if old(self).dim_pos + 1 < old(self).hard@[e as int]@.len() {
                            ScanStage::Dims
                        } else {
                            ScanStage::Available
                        })
                        &&& final(self).winner is None
                        &&& final(self).reasons@ == old(self).reasons@
                    },
                    ScanStage::Available => if answer {
                        &&& final(self).entry == e
                        &&& final(self).dim_pos == old(self).dim_pos
                        &&& final(self).stage == ScanStage::Validate
                        &&& final(self).winner is None
                        &&& final(self).reasons@ == old(self).reasons@
                    } else {
                        &&& next_entry
                        &&& final(self).reasons@ == old(self).reasons@.push(SkipReason::Unavailable)
                    },
                    ScanStage::Validate => if answer {
                        &&& final(self).entry == e
                        &&& final(self).dim_pos == old(self).dim_pos
                        &&& final(self).stage == ScanStage::Validate
                        &&& final(self).winner == Some(e)
                        &&& final(self).reasons@ == old(self).reasons@
                    } else {
                        &&& next_entry
                        &&& final(self).reasons@ == old(self).reasons@.push(SkipReason::Refused)
                    },
                }
            }),
    {
        let e = self.entry;
        // the dimension the pending question names, if it is an evaluation
        let ghost asked = match self.spec_action() {
            RouteAction::EvaluateDim { dim, .. } => dim,
            _ => 0,
        };
        proof {
            // vector lengths fit in usize
            assert(self.hard.len() == self.hard@.len());
            assert(self.hard@[e as int].len() == self.hard@[e as int]@.len());
        }
        match self.stage {
            ScanStage::Dims => {
                if answer {
                    self.entry = e + 1;
                    self.dim_pos = 0;
                    self.stage = Self::first_stage(&self.hard, e + 1);
                    self.reasons = Ghost(self.reasons@.push(SkipReason::HardRejected));
                    self.passed = Ghost(Seq::empty());
                } else {
                    proof {
                        assert(self.hard@[e as int]@.take(self.dim_pos + 1int) =~= self.passed@.push(asked));
                    }
                    self.passed = Ghost(self.passed@.push(asked));
                    self.dim_pos = self.dim_pos + 1;
                    if self.dim_pos >= self.hard[e].len() {
                        self.stage = ScanStage::Available;
                    }
                }
            },
            ScanStage::Available => {
                if answer {
                    self.stage = ScanStage::Validate;
                } else {
                    self.entry = e + 1;
                    self.dim_pos = 0;
                    self.stage = Self::first_stage(&self.hard, e + 1);
                    self.reasons = Ghost(self.reasons@.push(SkipReason::Unavailable));
                    self.passed = Ghost(Seq::empty());
                }
            },
            ScanStage::Validate => {
                if answer {
                    self.winner = Some(e);
                } else {
                    self.entry = e + 1;
                    self.dim_pos = 0;
                    self.stage = Self::first_stage(&self.hard, e + 1);
                    self.reasons = Ghost(self.reasons@.push(SkipReason::Refused));
                    self.passed = Ghost(Seq::empty());
                }
            },
        }
        proof {
            if self.entry < self.hard@.len() && self.dim_pos == 0 {
                assert(self.hard@[self.entry as int]@.take(0) =~= Seq::<usize>::empty());
            }
        }
    }
}

/// Law: the in-order router delivers to an entry only after every one of
/// its hard requirements was evaluated, in the order they were attached,
/// and none rejected; soft preferences are never evaluated by it.
pub proof fn lemma_blind_checks_every_hard_dim<C, D>(registry: &Registry<C, D>, scan: BlindScan)
    requires
        scan.inv(),
        scan.scans(registry),
        scan.winner is Some,
    ensures
        ({
            let e = scan.winner->0 as int;
            let dims = registry.entries@[e].dims@;
            &&& forall|j: int| 0 <= j < dims.len() && (#[trigger] dims[j]).reject_on_miss ==> scan.passed@.contains(
                j as usize,
            )
            &&& forall|k: int| 0 <= k < scan.passed@.len() ==> (#[trigger] scan.passed@[k]) < dims.len()
                && dims[scan.passed@[k] as int].reject_on_miss
            &&& forall|a: int, b: int| 0 <= a < b < scan.passed@.len() ==> scan.passed@[a] < scan.passed@[b]
        }),
{
    let e = scan.winner->0 as int;
    let h = scan.hard@[e]@;
    assert(h.take(h.len() as int) =~= h);
    let dims = registry.entries@[e].dims@;
    assert(hard_indices(dims, h));
    assert forall|j: int| 0 <= j < dims.len() && (#[trigger] dims[j]).reject_on_miss implies scan.passed@.contains(
        j as usize,
    ) by {
        let k = choose|k: int| 0 <= k < h.len() && h[k] == j;
        assert(scan.passed@[k] == j as usize);
    }
}

/// Law: the in-order router asks about the hard dimensions of an entry one
/// by one: each question names a hard dimension of the current entry that
/// comes after every one already passed.
pub proof fn lemma_blind_asks_next_hard_dim<C, D>(registry: &Registry<C, D>, scan: BlindScan, entry: usize, dim: usize)
    requires
        scan.inv(),
        scan.scans(registry),
        scan.spec_action() == (RouteAction::EvaluateDim { entry, dim }),
    ensures
        entry == scan.entry,
        dim < registry.entries@[entry as int].dims@.len(),
        registry.entries@[entry as int].dims@[dim as int].reject_on_miss,
        forall|k: int| 0 <= k < scan.passed@.len() ==> #[trigger] scan.passed@[k] < dim,
        !scan.passed@.contains(dim),
{
    let h = scan.hard@[entry as int]@;
    assert(hard_indices(registry.entries@[entry as int].dims@, h));
    assert(forall|k: int| 0 <= k < scan.passed@.len() ==> #[trigger] scan.passed@[k] == h[k]);
}

/// Routes each envelope to the best-scoring available consumer.
#[derive(Clone, Copy, Debug)]
pub struct AffinityRouter;

impl AffinityRouter {
    pub fn new() -> (r: Self) {
        AffinityRouter
    }
}

/// Routes each envelope to the first consumer, in registration order, that
/// passes its hard requirements, is available and accepts it.
#[derive(Clone, Copy, Debug)]
pub struct BlindRouter;

impl BlindRouter {
    pub fn new() -> (r: Self) {
        BlindRouter
    }
}

/// The candidate that entry `i` becomes when it qualifies.
pub open spec fn candidate_of<C, D>(registry: &Registry<C, D>, scores: Seq<EntryScore>, i: int) -> Candidate {
    Candidate { score_bits: clamped_bits(scores[i].score_bits), id: registry.entries@[i].id, idx: i as usize }
}

/// Law: the winner of score-ordered routing qualified, and every qualifying
/// consumer that outranks it (higher score, or equal score and earlier
/// registration) was asked first and found busy or refused the envelope.
pub proof fn lemma_winner_outranks_rest<C, D>(
    registry: &Registry<C, D>,
    scores: Seq<EntryScore>,
    sel: AffinitySelection,
    w: usize,
)
    requires
        registry.wf(),
        scores.len() == registry.entries@.len(),
        registry.plan_matches(scores, sel.plan@),
        sel.inv(),
        sel.winner == Some(w),
    ensures
        w < registry.entries@.len(),
        !scores[w as int].rejected,
        forall|i: int|
            0 <= i < registry.entries@.len() && !(#[trigger] scores[i]).rejected
                && ranks_before(candidate_of(registry, scores, i), candidate_of(registry, scores, w as int))
                ==> exists|j: int| 0 <= j < sel.pre_winner@.len() && sel.pre_winner@[j].0 == i,
{
    let pw = sel.plan@[sel.pos as int];
    assert(pw == candidate_of(registry, scores, w as int));
    assert forall|i: int|
        0 <= i < registry.entries@.len() && !(#[trigger] scores[i]).rejected
            && ranks_before(candidate_of(registry, scores, i), candidate_of(registry, scores, w as int))
            implies exists|j: int| 0 <= j < sel.pre_winner@.len() && sel.pre_winner@[j].0 == i by {
        let k = choose|k: int| 0 <= k < sel.plan@.len() && sel.plan@[k].idx == i;
        assert(sel.plan@[k] == candidate_of(registry, scores, i));
        if k > sel.pos {
            assert(ranks_before(sel.plan@[sel.pos as int], sel.plan@[k]));
        }
        assert(k != sel.pos);
        assert(sel.pre_winner@[k].0 == i);
    }
}

/// Law: once a consumer is deregistered no plan contains it, so it can
/// never be asked, chosen or given feedback again.
pub proof fn lemma_deregistered_never_planned<C, D>(
    registry: &Registry<C, D>,
    scores: Seq<EntryScore>,
    q: Seq<Candidate>,
    id: u64,
)
    requires
        registry.plan_matches(scores, q),
        forall|i: int| 0 <= i < registry.entries@.len() ==> #[trigger] registry.entries@[i].id != id,
    ensures
        forall|k: int| 0 <= k < q.len() ==> (#[trigger] q[k]).id != id,
{
    assert forall|k: int| 0 <= k < q.len() implies (#[trigger] q[k]).id != id by {
        assert(registry.entries@[q[k].idx as int].id != id);
    }
}

/// Law: after routing, every qualifying consumer receives exactly one
/// feedback event and no other consumer receives any.
pub proof fn lemma_events_cover_plan<C, D>(
    registry: &Registry<C, D>,
    scores: Seq<EntryScore>,
    sel: AffinitySelection,
)
    requires
        registry.plan_matches(scores, sel.plan@),
        sel.inv(),
        sel.finished(),
    ensures
        sel.spec_events().len() == sel.plan@.len(),
        forall|i: int|
            0 <= i < registry.entries@.len() ==> (!(#[trigger] scores[i]).rejected <==> exists|k: int|
                0 <= k < sel.spec_events().len() && sel.spec_events()[k].0 == i),
        forall|a: int, b: int|
            0 <= a < b < sel.spec_events().len() ==> sel.spec_events()[a].0 != sel.spec_events()[b].0,
{
    let ev = sel.spec_events();
    let n = sel.plan@.len();
    // position in the plan of the candidate that event `k` is about
    let src = |k: int| if sel.winner is None || k < sel.pos { k } else if k < n - 1 { k + 1 } else { sel.pos as int };
    assert forall|k: int| 0 <= k < ev.len() implies 0 <= #[trigger] src(k) < n && ev[k].0 == sel.plan@[src(k)].idx by {
        if sel.winner is None {
            assert(sel.pos == n);
        }
    }
    assert forall|a: int, b: int| 0 <= a < b < n implies sel.plan@[a].idx != sel.plan@[b].idx by {
        assert(ranks_before(sel.plan@[a], sel.plan@[b]));
    }
    assert forall|a: int, b: int| 0 <= a < b < ev.len() implies ev[a].0 != ev[b].0 by {
        assert(0 <= src(a) < n && 0 <= src(b) < n);
        assert(src(a) != src(b));
        if src(a) < src(b) {
            assert(ranks_before(sel.plan@[src(a)], sel.plan@[src(b)]));
        } else {
            assert(ranks_before(sel.plan@[src(b)], sel.plan@[src(a)]));
        }
    }
    assert forall|i: int| 0 <= i < registry.entries@.len() implies (!(#[trigger] scores[i]).rejected <==> exists|k: int|
        0 <= k < ev.len() && ev[k].0 == i) by {
        if !scores[i].rejected {
            let p = choose|p: int| 0 <= p < n && sel.plan@[p].idx == i;
            let k = if sel.winner is None || p < sel.pos { p } else if p == sel.pos { n - 1 } else { p - 1 };
            assert(ev[k].0 == i);
        }
        if exists|k: int| 0 <= k < ev.len() && ev[k].0 == i {
            let k = choose|k: int| 0 <= k < ev.len() && ev[k].0 == i;
            assert(0 <= src(k) < n);
            let c = sel.plan@[src(k)];
            assert(!scores[c.idx as int].rejected);
        }
    }
}

} // verus!
