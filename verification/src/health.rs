//! Health-sweep bookkeeping. A probe against an upstream yields an HTTP
//! status (or a sentinel for a failed probe); `200 OK` marks the upstream
//! healthy and anything else marks it unhealthy. The probing itself is
//! network I/O and happens outside the library; this module holds the
//! classification and the liveness-table update, one index at a time or as a
//! whole sweep.

use vstd::prelude::*;

use crate::liveness::LivenessSet;

verus! {

/// The status that marks an upstream healthy.
pub const HEALTHY_STATUS: u16 = 200;

/// Whether a probe outcome marks its upstream healthy: only a well-formed
/// `200 OK` response does; any other status, and any failed or malformed
/// probe, does not.
pub open spec fn spec_probe_is_healthy(status: u16) -> bool {
    status == HEALTHY_STATUS
}

/// Classifies one probe outcome.
pub fn probe_is_healthy(status: u16) -> (r: bool)
    ensures
        r == spec_probe_is_healthy(status),
{
    status == HEALTHY_STATUS
}

/// The liveness table that one sweep leaves behind: index `j` is live exactly
/// when its probe returned `200 OK`, whatever the table held before.
pub open spec fn sweep_table(prior: Seq<bool>, statuses: Seq<u16>) -> Seq<bool> {
    Seq::new(statuses.len(), |j: int| spec_probe_is_healthy(statuses[j]))
}

/// Records one probe outcome: a `200 OK` (re)adds the index, anything else
/// removes it; other indices are untouched.
pub fn record_probe(set: &mut LivenessSet, i: usize, status: u16)
    requires
        i < old(set)@.len(),
    ensures
        final(set)@ == old(set)@.update(i as int, spec_probe_is_healthy(status)),
{
    let healthy = probe_is_healthy(status);
    set.mark(i, healthy);
}

/// Applies one full sweep: afterwards index `j` is live exactly when
/// `statuses[j]` reported healthy. A failed probe against one upstream is one
/// entry of `statuses`; it never prevents the rest of the sweep.
pub fn apply_sweep(set: &mut LivenessSet, statuses: &Vec<u16>)
    requires
        statuses@.len() == old(set)@.len(),
    ensures
        final(set)@ == sweep_table(old(set)@, statuses@),
{
    let ghost prior = set@;
    let mut idx: usize = 0;
    while idx < statuses.len()
        invariant
            idx <= statuses@.len(),
            set@.len() == statuses@.len(),
            forall|j: int|
                0 <= j < idx ==> set@[j] == spec_probe_is_healthy(#[trigger] statuses@[j]),
            forall|j: int| idx <= j < statuses@.len() ==> set@[j] == prior[j],
        decreases statuses@.len() - idx,
    {
        record_probe(set, idx, statuses[idx]);
        idx += 1;
    }
    proof {
        assert(set@ =~= sweep_table(prior, statuses@));
    }
}

/// Sweeps are idempotent: the table a sweep leaves depends on the probe
/// statuses alone, so a second sweep with unchanged upstream state leaves the
/// table exactly as the first did.
pub proof fn lemma_sweep_idempotent(prior: Seq<bool>, statuses: Seq<u16>)
    ensures
        sweep_table(sweep_table(prior, statuses), statuses) == sweep_table(prior, statuses),
{
    assert(sweep_table(sweep_table(prior, statuses), statuses) =~= sweep_table(prior, statuses));
}

/// A sweep writes every entry: index `j` is live after the sweep exactly when
/// its probe returned `200 OK`, whether or not it was live before.
pub proof fn lemma_sweep_sets_membership(prior: Seq<bool>, statuses: Seq<u16>, j: int)
    requires
        0 <= j < statuses.len(),
    ensures
        sweep_table(prior, statuses)[j] == spec_probe_is_healthy(statuses[j]),
{
}

} // verus!
