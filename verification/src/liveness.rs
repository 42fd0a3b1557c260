//! The liveness tracker: which registry indices are currently believed
//! reachable. Modelled as a boolean table indexed by registry position, so
//! every member is a valid registry index by construction. Initially every
//! index is live; health sweeps and connect-failure eviction rewrite entries.

use vstd::prelude::*;

verus! {

/// The number of live entries in a liveness table.
pub open spec fn live_count(s: Seq<bool>) -> nat
    decreases s.len(),
{
    if s.len() == 0 {
        0
    } else {
        live_count(s.drop_last()) + (if s.last() {
            1nat
        } else {
            0nat
        })
    }
}

/// A liveness table is empty exactly when no index is live.
pub proof fn lemma_live_count_zero(s: Seq<bool>)
    ensures
        live_count(s) == 0 <==> (forall|i: int| 0 <= i < s.len() ==> !s[i]),
    decreases s.len(),
{
    if s.len() > 0 {
        lemma_live_count_zero(s.drop_last());
        if forall|i: int| 0 <= i < s.drop_last().len() ==> !s.drop_last()[i] {
            assert forall|i: int| 0 <= i < s.len() && i < s.len() - 1 implies !s[i] by {
                assert(s.drop_last()[i] == s[i]);
            }
        }
        if live_count(s) != 0 && live_count(s.drop_last()) != 0 {
            let i = choose|i: int| 0 <= i < s.drop_last().len() && s.drop_last()[i];
            assert(s[i]);
        }
    }
}

/// The live count never exceeds the table's length.
pub proof fn lemma_live_count_le_len(s: Seq<bool>)
    ensures
        live_count(s) <= s.len(),
    decreases s.len(),
{
    if s.len() > 0 {
        lemma_live_count_le_len(s.drop_last());
    }
}

/// The set of registry indices currently believed reachable.
pub struct LivenessSet {
    alive: Vec<bool>,
}

impl View for LivenessSet {
    type V = Seq<bool>;

    closed spec fn view(&self) -> Seq<bool> {
        self.alive@
    }
}

impl LivenessSet {
    /// Index `i` is currently believed reachable.
    pub open spec fn live(&self, i: int) -> bool {
        0 <= i < self@.len() && self@[i]
    }

    /// A fresh tracker over `n` upstreams, all initially live.
    pub fn new_all_live(n: usize) -> (r: LivenessSet)
        ensures
            r@.len() == n,
            forall|i: int| 0 <= i < n ==> r.live(i),
    {
        let mut alive: Vec<bool> = Vec::new();
        let mut idx: usize = 0;
        while idx < n
            invariant
                idx <= n,
                alive@.len() == idx,
                forall|i: int| 0 <= i < idx ==> alive@[i],
            decreases n - idx,
        {
            alive.push(true);
            idx += 1;
        }
        LivenessSet { alive }
    }

    /// The number of tracked upstreams (the registry size).
    pub fn len(&self) -> (r: usize)
        ensures
            r == self@.len(),
    {
        self.alive.len()
    }

    /// Whether index `i` is currently live.
    pub fn is_live(&self, i: usize) -> (r: bool)
        requires
            i < self@.len(),
        ensures
            r == self.live(i as int),
    {
        self.alive[i]
    }

    /// Sets index `i` live or dead, leaving every other entry unchanged.
    pub fn mark(&mut self, i: usize, healthy: bool)
        requires
            i < old(self)@.len(),
        ensures
            final(self)@ == old(self)@.update(i as int, healthy),
    {
        self.alive.set(i, healthy);
    }

    /// Counts the live indices.
    pub fn count_live(&self) -> (r: usize)
        ensures
            r == live_count(self@),
    {
        let mut count: usize = 0;
        let mut idx: usize = 0;
        while idx < self.alive.len()
            invariant
                idx <= self@.len(),
                count <= idx,
                count == live_count(self@.subrange(0, idx as int)),
            decreases self@.len() - idx,
        {
            proof {
                assert(self@.subrange(0, idx as int + 1).drop_last() =~= self@.subrange(
                    0,
                    idx as int,
                ));
                assert(self@.subrange(0, idx as int + 1).last() == self@[idx as int]);
            }
            if self.alive[idx] {
                count += 1;
            }
            idx += 1;
        }
        proof {
            assert(self@.subrange(0, self@.len() as int) =~= self@);
        }
        count
    }

    /// Returns the position of the `k`-th live index, in increasing order.
    pub fn nth_live(&self, k: usize) -> (r: usize)
        requires
            k < live_count(self@),
        ensures
            r < self@.len(),
            self.live(r as int),
    {
        let ghost whole = self@;
        let mut seen: usize = 0;
        let mut idx: usize = 0;
        proof {
            lemma_live_count_le_len(whole);
        }
        while idx < self.alive.len()
            invariant
                idx <= whole.len(),
                self@ == whole,
                k < live_count(whole),
                seen <= k,
                seen == live_count(whole.subrange(0, idx as int)),
            decreases whole.len() - idx,
        {
            proof {
                assert(whole.subrange(0, idx as int + 1).drop_last() =~= whole.subrange(
                    0,
                    idx as int,
                ));
                assert(whole.subrange(0, idx as int + 1).last() == whole[idx as int]);
            }
            if self.alive[idx] {
                if seen == k {
                    return idx;
                }
                seen += 1;
            }
            idx += 1;
        }
        proof {
            assert(whole.subrange(0, whole.len() as int) =~= whole);
            assert(false);
        }
        0
    }
}

} // verus!
