//! The queue discipline the relay relies on at the broker.
//!
//! Each broker queue is a list: producers push payloads at the head, the
//! consumer pops from the tail, and every pop removes the entry it returns.
//! `BrokerQueue` is that list held in process, with the two transitions as
//! verified operations; the broker is relied upon only for performing the
//! same transitions atomically when several parties share one queue.  The
//! laws at the bottom state what the discipline gives the relay: a single
//! producer's payloads are drained in the order they were pushed, and
//! draining a queue of `M` entries yields exactly those `M` entries, each
//! once, leaving the queue empty.

use vstd::prelude::*;

use crate::fields::val_views;

verus! {

/// Pushing a payload at the head of a queue.
pub open spec fn lpush_model(q: Seq<Seq<char>>, p: Seq<char>) -> Seq<Seq<char>> {
    seq![p] + q
}

/// Pushing a whole sequence of payloads, first payload first.
pub open spec fn pushed_all(q: Seq<Seq<char>>, ms: Seq<Seq<char>>) -> Seq<Seq<char>>
    decreases ms.len(),
{
    if ms.len() == 0 {
        q
    } else {
        pushed_all(lpush_model(q, ms[0]), ms.drop_first())
    }
}

/// What popping from the tail until the queue is empty yields, in order.
pub open spec fn drained(q: Seq<Seq<char>>) -> Seq<Seq<char>>
    decreases q.len(),
{
    if q.len() == 0 {
        Seq::empty()
    } else {
        seq![q.last()] + drained(q.drop_last())
    }
}

/// One broker queue: entry 0 is the head, the last entry is the tail.
pub struct BrokerQueue {
    entries: Vec<String>,
}

impl View for BrokerQueue {
    type V = Seq<Seq<char>>;

    closed spec fn view(&self) -> Seq<Seq<char>> {
        val_views(self.entries@)
    }
}

impl BrokerQueue {
    /// An empty queue.
    pub fn new() -> (r: Self)
        ensures
            r@ == Seq::<Seq<char>>::empty(),
    {
        let r = BrokerQueue { entries: Vec::new() };
        proof {
            assert(r@ =~= Seq::<Seq<char>>::empty());
        }
        r
    }

    /// How many entries the queue holds.
    pub fn len(&self) -> (n: usize)
        ensures
            n == self@.len(),
    {
        self.entries.len()
    }

    /// Pushes one payload at the head.
    pub fn lpush(&mut self, p: String)
        ensures
            final(self)@ == lpush_model(old(self)@, p@),
    {
        self.entries.insert(0, p);
        proof {
            assert(self@ =~= seq![p@] + old(self)@);
        }
    }

    /// Pops the tail entry, removing exactly the entry it returns.
    pub fn rpop(&mut self) -> (r: Option<String>)
        ensures
            old(self)@.len() == 0 ==> r is None && final(self)@ == old(self)@,
            old(self)@.len() > 0 ==> (r matches Some(x) && x@ == old(self)@.last() && final(self)@
                == old(self)@.drop_last()),
    {
        let r = self.entries.pop();
        proof {
            if old(self)@.len() > 0 {
                assert(self@ =~= old(self)@.drop_last());
            }
        }
        r
    }

    /// Pops every entry, tail first, until the queue is empty.
    pub fn drain(&mut self) -> (r: Vec<String>)
        ensures
            val_views(r@) == drained(old(self)@),
            final(self)@ == Seq::<Seq<char>>::empty(),
    {
        let mut acc: Vec<String> = Vec::new();
        proof {
            assert(val_views(acc@) =~= Seq::<Seq<char>>::empty());
        }
        loop
            invariant
                drained(old(self)@) == val_views(acc@) + drained(self@),
            decreases self@.len(),
        {
            let ghost prev = self@;
            let ghost prev_acc = acc@;
            match self.rpop() {
                Some(x) => {
                    acc.push(x);
                    proof {
                        assert(val_views(acc@) =~= val_views(prev_acc).push(x@));
                        assert(drained(prev) == seq![prev.last()] + drained(prev.drop_last()));
                        assert(val_views(prev_acc) + (seq![x@] + drained(self@)) =~= val_views(
                            prev_acc,
                        ).push(x@) + drained(self@));
                    }
                },
                None => {
                    proof {
                        assert(drained(self@) =~= Seq::<Seq<char>>::empty());
                        assert(val_views(acc@) + Seq::<Seq<char>>::empty() =~= val_views(acc@));
                    }
                    return acc;
                },
            }
        }
    }
}

/// Pushing `ms` onto `q` stacks `ms` reversed on top of `q`.
proof fn lemma_pushed_all(q: Seq<Seq<char>>, ms: Seq<Seq<char>>)
    ensures
        pushed_all(q, ms) == ms.reverse() + q,
    decreases ms.len(),
{
    if ms.len() == 0 {
        assert(ms.reverse() + q =~= q);
    } else {
        lemma_pushed_all(lpush_model(q, ms[0]), ms.drop_first());
        assert(ms.drop_first().reverse() + (seq![ms[0]] + q) =~= ms.reverse() + q);
    }
}

/// Draining reads a queue back to front.
proof fn lemma_drained_reverse(q: Seq<Seq<char>>)
    ensures
        drained(q) == q.reverse(),
    decreases q.len(),
{
    if q.len() == 0 {
        assert(drained(q) =~= q.reverse());
    } else {
        lemma_drained_reverse(q.drop_last());
        assert(seq![q.last()] + q.drop_last().reverse() =~= q.reverse());
    }
}

/// Ordering: a single producer's payloads, pushed one after the other onto
/// an empty queue, are drained by the consumer in exactly the order they
/// were pushed.
pub proof fn lemma_fifo_order(ms: Seq<Seq<char>>)
    ensures
        drained(pushed_all(Seq::empty(), ms)) == ms,
{
    lemma_pushed_all(Seq::empty(), ms);
    assert(ms.reverse() + Seq::<Seq<char>>::empty() =~= ms.reverse());
    lemma_drained_reverse(ms.reverse());
    assert(ms.reverse().reverse() =~= ms);
}

/// Exact delivery: draining a queue of `M` entries yields exactly `M`
/// entries, and they are exactly the queue's entries, each delivered as
/// many times as it was queued — none twice, none dropped — with the queue
/// left empty.
pub proof fn lemma_drain_exact(q: Seq<Seq<char>>)
    ensures
        drained(q).len() == q.len(),
        drained(q).to_multiset() == q.to_multiset(),
{
    broadcast use vstd::seq_lib::group_seq_properties;

    lemma_drained_reverse(q);
    q.lemma_reverse_to_multiset();
    q.to_multiset_ensures();
    q.reverse().to_multiset_ensures();
}

} // verus!
