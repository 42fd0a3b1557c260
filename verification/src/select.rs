//! The upstream selector: picks a live upstream uniformly at random among the
//! tracker's members, and evicts an upstream from the tracker the moment a
//! connect against it fails, so one dead upstream self-heals out of rotation
//! without waiting for the next sweep. Opening the connection itself is
//! socket work and happens outside the library; the caller reports a failure
//! back through `pick_after_failure`.

use vstd::prelude::*;

use crate::liveness::LivenessSet;
use crate::liveness::live_count;

verus! {

/// Why a selection failed.
#[derive(Clone, Copy, Debug, PartialEq, Eq, Structural)]
pub enum SelectError {
    /// No tracked upstream is live: nothing is left to try.
    NoUpstreamAvailable,
}

/// Relies on rand::random: draws a value from the thread-local generator;
/// nothing is promised of it.
#[verifier::external_body]
fn random_u64() -> u64 {
    rand::random::<u64>()
}

/// A draw below `n`, from the process's random generator.
pub(crate) fn random_below(n: usize) -> (r: usize)
    requires
        n > 0,
    ensures
        r < n,
{
    let draw = random_u64();
    let m = draw % (n as u64);
    assert(m < n as u64);
    m as usize
}

/// What `pick_upstream` promises of its result: a success is a live index
/// inside the registry, and a failure happens exactly when no index is live.
pub open spec fn pick_post(set: &LivenessSet, r: Result<usize, SelectError>) -> bool {
    match r {
        Ok(i) => i < set@.len() && set.live(i as int),
        Err(e) => e == SelectError::NoUpstreamAvailable && live_count(set@) == 0,
    }
}

/// Picks a live upstream index at random, or fails with
/// `NoUpstreamAvailable` exactly when the tracker is empty. A returned index
/// is always a valid registry index and live at call time.
pub fn pick_upstream(set: &LivenessSet) -> (r: Result<usize, SelectError>)
    ensures
        pick_post(set, r),
        r is Err <==> live_count(set@) == 0,
{
    let count = set.count_live();
    if count == 0 {
        return Err(SelectError::NoUpstreamAvailable);
    }
    let k = random_below(count);
    Ok(set.nth_live(k))
}

/// Evicts `failed` from the tracker, then picks again from the smaller set.
/// The eviction is immediate: it happens before the new pick, and the new
/// pick can therefore never return `failed`.
pub fn pick_after_failure(set: &mut LivenessSet, failed: usize) -> (r: Result<
    usize,
    SelectError,
>)
    requires
        failed < old(set)@.len(),
    ensures
        final(set)@ == old(set)@.update(failed as int, false),
        !final(set).live(failed as int),
        pick_post(final(set), r),
        r is Ok ==> r->Ok_0 != failed,
        r is Err <==> live_count(final(set)@) == 0,
{
    set.mark(failed, false);
    pick_upstream(set)
}

/// A selected index is always an address inside the registry: with the
/// tracker built over the registry's length, any successful pick is a valid
/// registry position.
pub proof fn lemma_pick_within_registry(
    set: &LivenessSet,
    reg_len: int,
    r: Result<usize, SelectError>,
)
    requires
        set@.len() == reg_len,
        pick_post(set, r),
    ensures
        r is Ok ==> 0 <= r->Ok_0 < reg_len,
{
}

/// A dead index is never selected: any result that meets the selector's
/// contract on a tracker where `i` is not live is either a failure or an
/// index other than `i`.
pub proof fn lemma_dead_never_selected(set: &LivenessSet, i: int, r: Result<usize, SelectError>)
    requires
        !set.live(i),
        pick_post(set, r),
    ensures
        r is Ok ==> r->Ok_0 != i,
{
}

/// On an empty tracker the selector must fail, and with
/// `NoUpstreamAvailable`: no result meeting its contract is a success.
pub proof fn lemma_empty_tracker_fails(set: &LivenessSet, r: Result<usize, SelectError>)
    requires
        forall|i: int| 0 <= i < set@.len() ==> !set.live(i),
        pick_post(set, r),
    ensures
        r == Err::<usize, SelectError>(SelectError::NoUpstreamAvailable),
{
    if r is Ok {
        assert(set.live(r->Ok_0 as int));
    }
}

} // verus!
