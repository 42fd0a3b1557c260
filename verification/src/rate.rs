//! The rate limiter: per-source request counters over a fixed window. A
//! counter is created lazily at the first request; absence means zero. The
//! whole ledger is cleared on a fixed period (a hard reset, not a sliding
//! window), by a timer that runs outside the library.

use vstd::prelude::*;

use std::collections::HashMap;

verus! {

broadcast use vstd::std_specs::hash::group_hash_axioms;

/// A count after one more request, held at the top of `usize` rather than
/// wrapping.
pub open spec fn bumped(c: nat) -> nat {
    if c + 1 <= usize::MAX {
        c + 1
    } else {
        usize::MAX as nat
    }
}

/// The admission rule: a threshold of zero admits everything without
/// counting; otherwise the request is counted and admitted exactly when the
/// new count stays within the threshold.
pub open spec fn admit_decision(prev: nat, threshold: usize) -> bool {
    threshold == 0 || bumped(prev) <= threshold
}

/// The counter a source reaches after `n` requests within one window,
/// starting from zero.
pub open spec fn count_after(n: nat) -> nat
    decreases n,
{
    if n == 0 {
        0
    } else {
        bumped(count_after((n - 1) as nat))
    }
}

/// Within one window with threshold `t > 0`, every request up to and
/// including the `t`-th from a source is admitted, and the `(t+1)`-th is
/// rejected. (`k` is the request's 1-based number; the `(t+1)`-th exists only
/// while the count can still rise, hence `t < usize::MAX`.)
pub proof fn lemma_rate_threshold(t: usize, k: nat)
    requires
        0 < t < usize::MAX,
        1 <= k <= t,
    ensures
        admit_decision(count_after((k - 1) as nat), t),
        !admit_decision(count_after(t as nat), t),
{
    lemma_count_after_exact((k - 1) as nat);
    lemma_count_after_exact(t as nat);
}

/// Until the counter saturates, `n` requests count exactly `n`.
pub proof fn lemma_count_after_exact(n: nat)
    requires
        n <= usize::MAX,
    ensures
        count_after(n) == n,
    decreases n,
{
    if n > 0 {
        lemma_count_after_exact((n - 1) as nat);
    }
}

/// After a window reset every counter is back at zero, so the first request
/// from any source — also one rejected before the reset — is admitted under
/// any positive threshold.
pub proof fn lemma_reset_readmits(t: usize)
    requires
        0 < t,
    ensures
        admit_decision(0, t),
{
}

/// Per-source request counters for the current window.
pub struct RateLedger {
    counts: HashMap<u64, usize>,
}

impl RateLedger {
    /// The count recorded for a source; an absent entry counts as zero.
    pub closed spec fn count_of(&self, src: u64) -> nat {
        if self.counts@.contains_key(src) {
            self.counts@[src] as nat
        } else {
            0
        }
    }

    /// A fresh ledger: every source at zero.
    pub fn new() -> (r: RateLedger)
        ensures
            forall|src: u64| r.count_of(src) == 0,
    {
        RateLedger { counts: HashMap::new() }
    }

    /// Admits or rejects one request from `src` under `threshold`. A zero
    /// threshold disables limiting: the request is admitted and nothing is
    /// counted. Otherwise the source's counter rises by one (held at the top
    /// of `usize`) and the request is admitted exactly when the new count is
    /// within the threshold; every other source's counter is untouched.
    pub fn try_admit(&mut self, src: u64, threshold: usize) -> (r: bool)
        ensures
            r == admit_decision(old(self).count_of(src), threshold),
            threshold == 0 ==> final(self).count_of(src) == old(self).count_of(src),
            threshold != 0 ==> final(self).count_of(src) == bumped(old(self).count_of(src)),
            forall|other: u64|
                other != src ==> final(self).count_of(other) == old(self).count_of(other),
    {
        if threshold == 0 {
            return true;
        }
        let prev: usize = match self.counts.get(&src) {
            Some(c) => *c,
            None => 0,
        };
        let next: usize = if prev < usize::MAX {
            prev + 1
        } else {
            usize::MAX
        };
        self.counts.insert(src, next);
        next <= threshold
    }

    /// Clears the whole ledger: afterwards every source is back at zero.
    pub fn reset(&mut self)
        ensures
            forall|src: u64| final(self).count_of(src) == 0,
    {
        self.counts.clear();
    }

    /// The acceptor's admission step for one inbound connection from `src`:
    /// an admitted connection gets no status and a session may start; a
    /// rejected one is owed a well-formed `429 Too Many Requests` response
    /// before it is dropped, and no session starts.
    pub fn screen_source(&mut self, src: u64, threshold: usize) -> (r: Option<u16>)
        ensures
            r is None <==> admit_decision(old(self).count_of(src), threshold),
            r is Some ==> r == Some(crate::relay::STATUS_TOO_MANY_REQUESTS),
            threshold == 0 ==> final(self).count_of(src) == old(self).count_of(src),
            threshold != 0 ==> final(self).count_of(src) == bumped(old(self).count_of(src)),
            forall|other: u64|
                other != src ==> final(self).count_of(other) == old(self).count_of(other),
    {
        if self.try_admit(src, threshold) {
            None
        } else {
            Some(crate::relay::STATUS_TOO_MANY_REQUESTS)
        }
    }
}

} // verus!
