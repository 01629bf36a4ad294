//! Retry driver: a bounded attempt loop with a fixed inter-attempt delay,
//! used by the bulk read and bulk write operations. The driver itself only
//! counts attempts and decides when to stop; the delay and the attempt's
//! I/O are performed by the surrounding program between steps.

use vstd::prelude::*;

verus! {

/// Fixed policy of one retried operation: how many attempts at most, and
/// how many milliseconds to wait between them.
#[derive(Clone, Copy, Debug, PartialEq, Eq, Structural)]
pub struct RetryPolicy {
    pub max_attempts: u8,
    pub delay_ms: u64,
}

/// Policy of the bulk read of all six slots: three attempts, 50 ms apart.
pub fn bulk_read_policy() -> (p: RetryPolicy)
    ensures
        p.max_attempts == 3,
        p.delay_ms == 50,
{
    RetryPolicy { max_attempts: 3, delay_ms: 50 }
}

/// Policy of one slot's write during the bulk write: six attempts, 50 ms
/// apart (and one more delay after the slot, whatever the outcome).
pub fn slot_write_policy() -> (p: RetryPolicy)
    ensures
        p.max_attempts == 6,
        p.delay_ms == 50,
{
    RetryPolicy { max_attempts: 6, delay_ms: 50 }
}

/// Progress of one bounded attempt loop.
#[derive(Clone, Copy, Debug, PartialEq, Eq, Structural)]
pub struct RetryState {
    /// The bound the loop was started with.
    pub max_attempts: u8,
    /// Attempts performed so far.
    pub attempts: u8,
    /// No further attempt may be made: an attempt succeeded or the bound
    /// is reached.
    pub done: bool,
    /// The last recorded attempt succeeded.
    pub succeeded: bool,
}

/// The state a fresh loop starts in.
pub open spec fn retry_start_spec(max_attempts: u8) -> RetryState {
    RetryState { max_attempts, attempts: 0, done: max_attempts == 0, succeeded: false }
}

/// The state after recording one attempt's outcome.
pub open spec fn retry_step_spec(st: RetryState, success: bool) -> RetryState {
    RetryState {
        max_attempts: st.max_attempts,
        attempts: (st.attempts + 1) as u8,
        done: success || st.attempts + 1 == st.max_attempts,
        succeeded: success,
    }
}

/// The state is consistent: never more attempts than the bound, and an
/// unfinished loop still has attempts left.
pub open spec fn retry_wf(st: RetryState) -> bool {
    &&& st.attempts <= st.max_attempts
    &&& !st.done ==> st.attempts < st.max_attempts
}

/// Start a bounded attempt loop.
pub fn retry_start(policy: RetryPolicy) -> (st: RetryState)
    ensures
        st == retry_start_spec(policy.max_attempts),
        retry_wf(st),
{
    RetryState {
        max_attempts: policy.max_attempts,
        attempts: 0,
        done: policy.max_attempts == 0,
        succeeded: false,
    }
}

/// Whether another attempt may be made.
pub fn retry_more(st: &RetryState) -> (r: bool)
    ensures
        r == !st.done,
{
    !st.done
}

/// Record the outcome of one attempt. The loop finishes on the first
/// success, or when the bound is reached.
pub fn retry_record(st: &mut RetryState, success: bool)
    requires
        retry_wf(*old(st)),
        !old(st).done,
    ensures
        *final(st) == retry_step_spec(*old(st), success),
        retry_wf(*final(st)),
{
    st.attempts = st.attempts + 1;
    st.done = success || st.attempts == st.max_attempts;
    st.succeeded = success;
}

/// The state after recording a whole run of outcomes, stopping as soon as
/// the loop finishes.
pub open spec fn retry_run_spec(st: RetryState, outcomes: Seq<bool>) -> RetryState
    decreases outcomes.len(),
{
    if st.done || outcomes.len() == 0 {
        st
    } else {
        retry_run_spec(retry_step_spec(st, outcomes[0]), outcomes.drop_first())
    }
}

/// Retry termination: an operation whose attempts all fail is tried
/// exactly as many times as its bound says — the loop then reports itself
/// finished and unsuccessful, and no further attempt can be recorded.
pub proof fn lemma_retry_exhausts(st: RetryState, outcomes: Seq<bool>)
    requires
        retry_wf(st),
        outcomes.len() >= st.max_attempts - st.attempts,
        forall|k: int| 0 <= k < outcomes.len() ==> !outcomes[k],
    ensures
        retry_run_spec(st, outcomes).attempts == if st.done {
            st.attempts
        } else {
            st.max_attempts
        },
        retry_run_spec(st, outcomes).done,
        retry_run_spec(st, outcomes).succeeded == (st.done && st.succeeded),
    decreases outcomes.len(),
{
    if !st.done && outcomes.len() > 0 {
        assert(!outcomes[0]);
        let st2 = retry_step_spec(st, outcomes[0]);
        assert(forall|k: int|
            0 <= k < outcomes.drop_first().len() ==> !outcomes.drop_first()[k]) by {
            assert(forall|k: int|
                0 <= k < outcomes.drop_first().len() ==> outcomes.drop_first()[k] == outcomes[k
                    + 1]);
        }
        lemma_retry_exhausts(st2, outcomes.drop_first());
    }
}

/// Early stop: when the attempt at position `n` is the first to succeed
/// and the bound allows reaching it, the loop performs exactly the
/// attempts up to and including it, and finishes successful.
pub proof fn lemma_retry_stops_on_success(st: RetryState, outcomes: Seq<bool>, n: int)
    requires
        retry_wf(st),
        !st.done,
        0 <= n < outcomes.len(),
        n < st.max_attempts - st.attempts,
        outcomes[n],
        forall|k: int| 0 <= k < n ==> !outcomes[k],
    ensures
        retry_run_spec(st, outcomes).attempts == st.attempts + n + 1,
        retry_run_spec(st, outcomes).done,
        retry_run_spec(st, outcomes).succeeded,
    decreases n,
{
    let st2 = retry_step_spec(st, outcomes[0]);
    if n == 0 {
        assert(st2.done && st2.succeeded);
        assert(retry_run_spec(st2, outcomes.drop_first()) == st2);
        assert(retry_run_spec(st, outcomes) == st2);
    } else {
        assert(!outcomes[0]);
        assert(!st2.done);
        assert(forall|k: int|
            0 <= k < n - 1 ==> !outcomes.drop_first()[k]) by {
            assert(forall|k: int|
                0 <= k < n - 1 ==> outcomes.drop_first()[k] == outcomes[k + 1]);
        }
        assert(outcomes.drop_first()[n - 1] == outcomes[n]);
        lemma_retry_stops_on_success(st2, outcomes.drop_first(), n - 1);
    }
}

/// A slot write that always fails performs exactly six attempts before
/// the driver gives up.
pub proof fn lemma_slot_write_six_attempts(outcomes: Seq<bool>)
    requires
        outcomes.len() >= 6,
        forall|k: int| 0 <= k < outcomes.len() ==> !outcomes[k],
    ensures
        retry_run_spec(retry_start_spec(6), outcomes).attempts == 6,
        retry_run_spec(retry_start_spec(6), outcomes).done,
        !retry_run_spec(retry_start_spec(6), outcomes).succeeded,
{
    lemma_retry_exhausts(retry_start_spec(6), outcomes);
}

} // verus!
