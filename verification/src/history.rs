//! Fixed-capacity history of one scalar metric: pushes append, and once the
//! buffer is full the oldest entry is evicted, so the buffer always holds the
//! most recent values in arrival order.

use vstd::prelude::*;

verus! {

/// What a history of capacity `cap` retains out of everything pushed so
/// far, oldest first: the whole log while it fits, else its last `cap`
/// entries.
pub open spec fn retained(cap: nat, log: Seq<u64>) -> Seq<u64> {
    if log.len() <= cap {
        log
    } else {
        log.skip(log.len() - cap)
    }
}

/// Bounded FIFO buffer for one metric. The ghost `log` records every value
/// ever pushed; the buffer always equals `retained(capacity, log)`.
pub struct MetricHistory {
    values: Vec<u64>,
    capacity: usize,
    log: Ghost<Seq<u64>>,
}

impl View for MetricHistory {
    type V = Seq<u64>;

    closed spec fn view(&self) -> Seq<u64> {
        self.values@
    }
}

impl MetricHistory {
    /// Configured capacity.
    pub closed spec fn spec_capacity(&self) -> nat {
        self.capacity as nat
    }

    /// Every value pushed since construction, in order.
    pub closed spec fn pushed(&self) -> Seq<u64> {
        self.log@
    }

    /// The buffer holds exactly the retained suffix of everything pushed.
    pub open spec fn wf(&self) -> bool {
        &&& self.spec_capacity() >= 1
        &&& self@ == retained(self.spec_capacity(), self.pushed())
    }

    pub fn new(capacity: usize) -> (h: MetricHistory)
        requires
            capacity >= 1,
        ensures
            h.wf(),
            h.spec_capacity() == capacity,
            h.pushed() == Seq::<u64>::empty(),
            h@ == Seq::<u64>::empty(),
    {
        MetricHistory { values: Vec::new(), capacity, log: Ghost(Seq::empty()) }
    }

    /// Appends `v`, evicting the oldest entry once the buffer is full.
    pub fn push(&mut self, v: u64)
        requires
            old(self).wf(),
        ensures
            final(self).wf(),
            final(self).spec_capacity() == old(self).spec_capacity(),
            final(self).pushed() == old(self).pushed().push(v),
            final(self)@ == retained(old(self).spec_capacity(), old(self).pushed().push(v)),
    {
        let ghost cap = self.spec_capacity();
        let ghost log0 = self.log@;
        if self.values.len() == self.capacity {
            self.values.remove(0);
            proof {
                assert(log0.len() >= cap);
                let k = log0.len() - cap;
                assert(log0.skip(k).skip(1) =~= log0.skip(k + 1));
                assert(self.values@ =~= log0.skip(k + 1));
            }
        }
        self.values.push(v);
        proof {
            self.log@ = log0.push(v);
            let log1 = log0.push(v);
            if log0.len() < cap {
                assert(self.values@ =~= log1);
            } else {
                let k = log0.len() - cap;
                assert(log1.skip(k + 1) =~= log0.skip(k + 1).push(v));
                assert(self.values@ =~= log1.skip(k + 1));
            }
        }
    }

    /// Number of entries currently held; never exceeds the capacity.
    pub fn len(&self) -> (n: usize)
        requires
            self.wf(),
        ensures
            n == self@.len(),
            n <= self.spec_capacity(),
    {
        self.values.len()
    }

    /// An immutable copy of the current contents, oldest first, so that a
    /// consumer never reads through the writer's buffer.
    pub fn contents(&self) -> (c: Vec<u64>)
        ensures
            c@ == self@,
    {
        let mut c: Vec<u64> = Vec::new();
        let mut i: usize = 0;
        while i < self.values.len()
            invariant
                0 <= i <= self.values@.len(),
                c@ =~= self.values@.take(i as int),
            decreases self.values@.len() - i,
        {
            c.push(self.values[i]);
            i = i + 1;
            proof {
                assert(c@ =~= self.values@.take(i as int));
            }
        }
        proof {
            assert(self.values@.take(self.values@.len() as int) =~= self.values@);
        }
        c
    }
}

/// After any number of pushes into a history of capacity `cap`, the buffer
/// holds exactly `min(len, cap)` entries, and they are the most recent
/// pushed values in arrival order.
pub proof fn lemma_history_holds_most_recent(cap: nat, log: Seq<u64>)
    requires
        cap >= 1,
    ensures
        retained(cap, log).len() == if log.len() <= cap { log.len() } else { cap },
        forall|i: int| 0 <= i < retained(cap, log).len()
            ==> retained(cap, log)[i] == log[log.len() - retained(cap, log).len() + i],
{
}

} // verus!
