use vstd::prelude::*;

verus! {

/// What the caller does next while handing a consumer its collected messages.
#[derive(Clone, Copy, Debug, PartialEq, Eq)]
pub enum DeliveryStep {
    /// Call the consumer's callback with item `index`.
    Deliver { index: usize },
    /// Nothing more is handed over in this round.
    Finished,
}

/// Hands the messages collected for one consumer to its callback in order,
/// stopping at the first call that fails; what was not delivered goes back
/// to the consumer's queue for the next round.
pub struct CallbackRound<T> {
    pub items: Vec<T>,
    pub delivered: usize,
    pub failed: bool,
}

impl<T> CallbackRound<T> {
    pub open spec fn inv(&self) -> bool {
        &&& self.delivered <= self.items@.len()
        &&& self.failed ==> self.delivered < self.items@.len()
    }

    /// A call failed, or every item was delivered.
    pub open spec fn finished(&self) -> bool {
        self.failed || self.delivered == self.items@.len()
    }

    pub open spec fn spec_step(&self) -> DeliveryStep {
        if self.finished() {
            DeliveryStep::Finished
        } else {
            DeliveryStep::Deliver { index: self.delivered }
        }
    }

    /// Starts a round over `items`, none delivered yet.
    pub fn new(items: Vec<T>) -> (r: Self)
        ensures
            r.inv(),
            r.items@ == items@,
            r.delivered == 0,
            !r.failed,
    {
        CallbackRound { items, delivered: 0, failed: false }
    }

    /// The next item to deliver, or the end of the round.
    pub fn step(&self) -> (s: DeliveryStep)
        requires
            self.inv(),
        ensures
            s == self.spec_step(),
    {
        if self.failed || self.delivered == self.items.len() {
            DeliveryStep::Finished
        } else {
            DeliveryStep::Deliver { index: self.delivered }
        }
    }

    /// Item `index` of the round.
    pub fn item(&self, index: usize) -> (r: &T)
        requires
            index < self.items@.len(),
        ensures
            *r == self.items@[index as int],
    {
        &self.items[index]
    }

    /// Records whether the callback took the item it was last handed.
    pub fn feed(&mut self, ok: bool)
        requires
            old(self).inv(),
            !old(self).finished(),
        ensures
            final(self).inv(),
            final(self).items == old(self).items,
            ok ==> final(self).delivered == old(self).delivered + 1 && !final(self).failed,
            !ok ==> final(self).delivered == old(self).delivered && final(self).failed,
    {
        proof {
            // vector lengths fit in usize
            assert(self.items.len() == self.items@.len());
        }
        if ok {
            self.delivered = self.delivered + 1;
        } else {
            self.failed = true;
        }
    }

    /// What goes back to the queue once the round is over: the item whose
    /// call failed and every item after it, in order; nothing when all
    /// were delivered.
    pub fn into_undelivered(self) -> (r: Vec<T>)
        requires
            self.inv(),
            self.finished(),
        ensures
            r@ == self.items@.skip(self.delivered as int),
    {
        let mut items = self.items;
        items.split_off(self.delivered)
    }
}

/// Law: a finished round loses nothing and reorders nothing: the delivered
/// items followed by those given back are the items collected, and after a
/// failure the first item given back is the one whose call failed.
pub proof fn lemma_round_keeps_every_item<T>(round: CallbackRound<T>)
    requires
        round.inv(),
        round.finished(),
    ensures
        round.items@.take(round.delivered as int) + round.items@.skip(round.delivered as int) == round.items@,
        round.failed ==> round.items@.skip(round.delivered as int)[0] == round.items@[round.delivered as int],
        !round.failed ==> round.items@.skip(round.delivered as int).len() == 0,
{
    assert(round.items@.take(round.delivered as int) + round.items@.skip(round.delivered as int) =~= round.items@);
}

} // verus!
