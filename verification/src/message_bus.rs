use vstd::prelude::*;

use std::collections::VecDeque;

use crate::message::{BaseMessage, Message};
use crate::uuids::{nil_uuid, uuid_version};

verus! {

/// A synchronous consumer: it decides whether it takes a message and then
/// takes it. Its decision depends on the consumer and the message alone.
pub trait Consumer {
    /// Whether this consumer takes `message`.
    spec fn accepts(&self, message: BaseMessage) -> bool;

    fn validate(&self, message: &BaseMessage) -> (r: bool)
        ensures
            r == self.accepts(*message),
    ;

    fn consume(&self, message: BaseMessage);
}

/// A synchronous bus: messages wait in a queue until a consumer accepts them.
pub struct MessageBus<C> {
    pub pending: VecDeque<BaseMessage>,
    pub consumers: Vec<C>,
}

/// No consumer of `consumers` takes `message`.
pub open spec fn unclaimed<C: Consumer>(consumers: Seq<C>, message: BaseMessage) -> bool {
    forall|i: int| 0 <= i < consumers.len() ==> !(#[trigger] consumers[i]).accepts(message)
}

/// The messages of `queue` that no consumer takes, in their order.
pub open spec fn left_over<C: Consumer>(consumers: Seq<C>, queue: Seq<BaseMessage>) -> Seq<BaseMessage> {
    queue.filter(|m: BaseMessage| unclaimed(consumers, m))
}

/// Consumer `i` is the first of `consumers` that takes `message`.
pub open spec fn first_taker<C: Consumer>(consumers: Seq<C>, message: BaseMessage, i: int) -> bool {
    &&& 0 <= i < consumers.len()
    &&& consumers[i].accepts(message)
    &&& forall|j: int| 0 <= j < i ==> !(#[trigger] consumers[j]).accepts(message)
}

/// Index of the first consumer that takes `message` (meaningful when one does).
pub open spec fn taker<C: Consumer>(consumers: Seq<C>, message: BaseMessage) -> int {
    choose|i: int| first_taker(consumers, message, i)
}

/// The messages of `queue` that some consumer takes, in their order, each
/// paired with the index of the first consumer that takes it.
pub open spec fn handed_out<C: Consumer>(consumers: Seq<C>, queue: Seq<BaseMessage>) -> Seq<(usize, BaseMessage)> {
    queue.filter(|m: BaseMessage| !unclaimed(consumers, m)).map_values(
        |m: BaseMessage| (taker(consumers, m) as usize, m),
    )
}

/// Every delivery names a consumer of the bus.
proof fn lemma_handed_out_to_consumer<C: Consumer>(consumers: Seq<C>, queue: Seq<BaseMessage>, k: int)
    requires
        0 <= k < handed_out(consumers, queue).len(),
    ensures
        handed_out(consumers, queue)[k].0 < consumers.len(),
{
    let take = |m: BaseMessage| !unclaimed(consumers, m);
    let f = queue.filter(take);
    let m = f[k];
    queue.lemma_filter_pred(take, k);
    let i = choose|i: int| 0 <= i < consumers.len() && (#[trigger] consumers[i]).accepts(m);
    lemma_some_first_taker(consumers, m, i);
}

/// When some consumer takes `message`, a first one does.
proof fn lemma_some_first_taker<C: Consumer>(consumers: Seq<C>, message: BaseMessage, i: int)
    requires
        0 <= i < consumers.len(),
        consumers[i].accepts(message),
    ensures
        first_taker(consumers, message, taker(consumers, message)),
    decreases i,
{
    if forall|j: int| 0 <= j < i ==> !(#[trigger] consumers[j]).accepts(message) {
        assert(first_taker(consumers, message, i));
    } else {
        let j = choose|j: int| 0 <= j < i && !!(#[trigger] consumers[j]).accepts(message);
        lemma_some_first_taker(consumers, message, j);
    }
}

proof fn lemma_first_taker_unique<C: Consumer>(consumers: Seq<C>, message: BaseMessage, i: int)
    requires
        first_taker(consumers, message, i),
    ensures
        taker(consumers, message) == i,
{
    let k = taker(consumers, message);
    assert(first_taker(consumers, message, k));
    if k < i {
        assert(!consumers[k].accepts(message));
    } else if k > i {
        assert(!consumers[i].accepts(message));
    }
}

impl<C: Consumer> MessageBus<C> {
    pub fn new() -> (b: Self)
        ensures
            b.pending@.len() == 0,
            b.consumers@.len() == 0,
    {
        MessageBus { pending: VecDeque::new(), consumers: Vec::new() }
    }

    /// Appends a consumer; earlier consumers are asked first.
    pub fn add_consumer(&mut self, consumer: C)
        ensures
            final(self).consumers@ == old(self).consumers@.push(consumer),
            final(self).pending == old(self).pending,
    {
        self.consumers.push(consumer);
    }

    /// Queues a message, giving it a fresh identifier when it has none, and
    /// returns its identifier.
    pub fn add_message(&mut self, message: BaseMessage) -> (id: u128)
        ensures
            id != nil_uuid(),
            message.uuid != nil_uuid() ==> id == message.uuid,
            message.uuid == nil_uuid() ==> uuid_version(id) == 4,
            final(self).pending@.len() == old(self).pending@.len() + 1,
            final(self).pending@.take(old(self).pending@.len() as int) == old(self).pending@,
            final(self).pending@.last().uuid == id,
            final(self).pending@.last().labels == message.labels,
            final(self).pending@.last().data == message.data,
            final(self).consumers == old(self).consumers,
    {
        let mut message = message;
        if message.get_uuid() == 0 {
            message.acquire_uuid();
        }
        let id = message.get_uuid();
        self.pending.push_back(message);
        proof {
            assert(self.pending@.take(old(self).pending@.len() as int) =~= old(self).pending@);
        }
        id
    }

    /// Nothing waits in the queue.
    pub fn done(&self) -> (r: bool)
        ensures
            r == (self.pending@.len() == 0),
    {
        self.pending.len() == 0
    }

    /// Index of the first consumer that accepts `message`, asking in order.
    fn first_accepting(&self, message: &BaseMessage) -> (r: Option<usize>)
        ensures
            match r {
                Some(i) => {
                    &&& i < self.consumers@.len()
                    &&& self.consumers@[i as int].accepts(*message)
                    &&& forall|j: int| 0 <= j < i ==> !(#[trigger] self.consumers@[j]).accepts(*message)
                },
                None => unclaimed(self.consumers@, *message),
            },
    {
        let n = self.consumers.len();
        let mut i: usize = 0;
        while i < n
            invariant
                n == self.consumers@.len(),
                i <= n,
                forall|j: int| 0 <= j < i ==> !(#[trigger] self.consumers@[j]).accepts(*message),
            decreases n - i,
        {
            if self.consumers[i].validate(message) {
                return Some(i);
            }
            i = i + 1;
        }
        None
    }

    /// Takes every queued message, oldest first: each one that some consumer
    /// accepts is handed out, paired with the index of the first consumer that
    /// accepts it; messages no consumer accepts stay queued in their order.
    pub fn take_deliveries(&mut self) -> (deliveries: Vec<(usize, BaseMessage)>)
        ensures
            deliveries@ == handed_out(old(self).consumers@, old(self).pending@),
            final(self).pending@ == left_over(old(self).consumers@, old(self).pending@),
            final(self).consumers == old(self).consumers,
    {
        let ghost all = self.pending@;
        let ghost cs = self.consumers@;
        let ghost keep = |m: BaseMessage| unclaimed(cs, m);
        let ghost take = |m: BaseMessage| !unclaimed(cs, m);
        let ghost pair = |m: BaseMessage| (taker(cs, m) as usize, m);
        let total = self.pending.len();
        let mut unprocessed: VecDeque<BaseMessage> = VecDeque::new();
        let mut deliveries: Vec<(usize, BaseMessage)> = Vec::new();
        let mut taken: usize = 0;
        proof {
            assert(all.take(0) =~= Seq::<BaseMessage>::empty());
            assert(all.take(0).filter(take).map_values(pair) =~= Seq::<(usize, BaseMessage)>::empty());
        }
        while self.pending.len() > 0
            invariant
                self.consumers == old(self).consumers,
                cs == self.consumers@,
                keep == (|m: BaseMessage| unclaimed(cs, m)),
                take == (|m: BaseMessage| !unclaimed(cs, m)),
                pair == (|m: BaseMessage| (taker(cs, m) as usize, m)),
                all.len() == total,
                taken + self.pending@.len() == all.len(),
                self.pending@ == all.subrange(taken as int, all.len() as int),
                unprocessed@ == all.take(taken as int).filter(keep),
                deliveries@ == all.take(taken as int).filter(take).map_values(pair),
            decreases self.pending@.len(),
        {
            let message = self.pending.pop_front().unwrap();
            let ghost prefix = all.take(taken as int);
            let ghost before = deliveries@;
            proof {
                assert(message == all[taken as int]);
                assert(all.take(taken as int + 1) =~= prefix.push(message));
                prefix.lemma_filter_push(message, keep);
                prefix.lemma_filter_push(message, take);
            }
            match self.first_accepting(&message) {
                Some(i) => {
                    proof {
                        lemma_first_taker_unique(cs, message, i as int);
                        assert(prefix.filter(take).push(message).map_values(pair) =~= before.push(pair(message)));
                    }
                    deliveries.push((i, message));
                },
                None => unprocessed.push_back(message),
            }
            taken = taken + 1;
            proof {
                assert(self.pending@ =~= all.subrange(taken as int, all.len() as int));
            }
        }
        proof {
            assert(all.take(total as int) =~= all);
        }
        let ghost rest = unprocessed@;
        while unprocessed.len() > 0
            invariant
                self.consumers == old(self).consumers,
                self.pending@ + unprocessed@ == rest,
            decreases unprocessed@.len(),
        {
            let m = unprocessed.pop_front().unwrap();
            let ghost before = self.pending@;
            self.pending.push_back(m);
            proof {
                assert(self.pending@ + unprocessed@ =~= before + seq![m] + unprocessed@);
                assert(before + seq![m] + unprocessed@ =~= rest);
            }
        }
        proof {
            assert(self.pending@ + unprocessed@ =~= self.pending@);
        }
        deliveries
    }

    /// Offers every queued message, oldest first, to the first consumer that
    /// accepts it, which consumes it; messages no consumer accepts stay
    /// queued in their order. Which consumer gets which message is the
    /// decision `take_deliveries` states.
    pub fn route_sync(&mut self)
        ensures
            final(self).pending@ == left_over(old(self).consumers@, old(self).pending@),
            final(self).consumers == old(self).consumers,
    {
        let deliveries = self.take_deliveries();
        let ghost d = deliveries@;
        let n = deliveries.len();
        let mut rest = deliveries;
        let mut k: usize = 0;
        while rest.len() > 0
            invariant
                self.consumers == old(self).consumers,
                self.pending@ == left_over(old(self).consumers@, old(self).pending@),
                d == handed_out(old(self).consumers@, old(self).pending@),
                d.len() == n,
                k + rest@.len() == n,
                rest@ == d.subrange(k as int, n as int),
            decreases rest@.len(),
        {
            let (i, m) = rest.remove(0);
            proof {
                assert(rest@ =~= d.subrange(k + 1, n as int));
                lemma_handed_out_to_consumer(old(self).consumers@, old(self).pending@, k as int);
            }
            self.consumers[i].consume(m);
            k = k + 1;
        }
    }
}

/// Routing again with the same consumers changes nothing: what one pass
/// leaves queued, no consumer takes.
pub proof fn lemma_route_sync_settles<C: Consumer>(consumers: Seq<C>, queue: Seq<BaseMessage>)
    ensures
        left_over(consumers, left_over(consumers, queue)) == left_over(consumers, queue),
{
    let keep = |m: BaseMessage| unclaimed(consumers, m);
    let once = queue.filter(keep);
    assert forall|i: int| 0 <= i < once.len() implies keep(#[trigger] once[i]) by {
        queue.lemma_filter_pred(keep, i);
    }
    lemma_filter_keeps_all(once, keep);
}

proof fn lemma_filter_keeps_all(s: Seq<BaseMessage>, p: spec_fn(BaseMessage) -> bool)
    requires
        forall|i: int| 0 <= i < s.len() ==> p(#[trigger] s[i]),
    ensures
        s.filter(p) == s,
    decreases s.len(),
{
    if s.len() > 0 {
        let front = s.drop_last();
        assert forall|i: int| 0 <= i < front.len() implies p(#[trigger] front[i]) by {
            assert(front[i] == s[i]);
        }
        lemma_filter_keeps_all(front, p);
        assert(front.push(s.last()) =~= s);
        front.lemma_filter_push(s.last(), p);
    }
}

/// Law: routing loses and duplicates nothing: every queued message is
/// either handed out or left queued, never both.
pub proof fn lemma_route_sync_loses_nothing<C: Consumer>(consumers: Seq<C>, queue: Seq<BaseMessage>)
    ensures
        handed_out(consumers, queue).len() + left_over(consumers, queue).len() == queue.len(),
        forall|k: int|
            0 <= k < queue.len() ==> (unclaimed(consumers, #[trigger] queue[k]) ==> left_over(consumers, queue).contains(
                queue[k],
            )),
    decreases queue.len(),
{
    let keep = |m: BaseMessage| unclaimed(consumers, m);
    let take = |m: BaseMessage| !unclaimed(consumers, m);
    if queue.len() > 0 {
        let front = queue.drop_last();
        let x = queue.last();
        lemma_route_sync_loses_nothing(consumers, front);
        assert(front.push(x) =~= queue);
        front.lemma_filter_push(x, keep);
        front.lemma_filter_push(x, take);
        assert forall|k: int|
            0 <= k < queue.len() && unclaimed(consumers, #[trigger] queue[k]) implies left_over(
            consumers,
            queue,
        ).contains(queue[k]) by {
            queue.lemma_filter_contains_rev(keep, queue[k]);
        }
    }
}

} // verus!
