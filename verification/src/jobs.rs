use vstd::prelude::*;

verus! {

/// The atomic counter of `portable_atomic`, opaque to the proofs.
#[verifier::external_type_specification]
#[verifier::external_body]
pub struct ExAtomicUsize(portable_atomic::AtomicUsize);

/// Calls `portable_atomic::AtomicUsize::new(v)`. Nothing is claimed of the
/// atomic that comes back: its contents are not visible to the proofs.
#[verifier::external_body]
fn atomic_new(v: usize) -> (a: portable_atomic::AtomicUsize) {
    portable_atomic::AtomicUsize::new(v)
}

/// Calls `portable_atomic::AtomicUsize::store` with relaxed ordering, which
/// that ordering admits without panicking. Nothing is claimed: the stored
/// value lives inside the atomic, which the proofs cannot see.
#[verifier::external_body]
fn atomic_store_relaxed(a: &portable_atomic::AtomicUsize, v: usize) {
    a.store(v, portable_atomic::Ordering::Relaxed)
}

/// Calls `portable_atomic::AtomicUsize::load` with relaxed ordering, which
/// that ordering admits without panicking. Nothing is claimed of the result:
/// other threads may change the atomic at any time.
#[verifier::external_body]
fn atomic_load_relaxed(a: &portable_atomic::AtomicUsize) -> (v: usize) {
    a.load(portable_atomic::Ordering::Relaxed)
}

/// Calls `portable_atomic::AtomicUsize::fetch_sub(1)` with relaxed ordering;
/// the outside source documents that it wraps around and returns the previous
/// value. Nothing is claimed of that value: other threads may change the
/// atomic at any time.
#[verifier::external_body]
fn atomic_fetch_sub_one_relaxed(a: &portable_atomic::AtomicUsize) -> (prev: usize) {
    a.fetch_sub(1, portable_atomic::Ordering::Relaxed)
}

/// What the waiting side does after it has looked at the number of jobs that
/// are not finished yet.
pub enum WaitStep {
    /// Jobs remain: give the processor to another thread and look again.
    Yield,
    /// No job remains: stop waiting.
    Done,
}

/// The step that the waiting side takes when `remaining` jobs are left.
pub open spec fn wait_step_spec(remaining: usize) -> WaitStep {
    if remaining > 0 {
        WaitStep::Yield
    } else {
        WaitStep::Done
    }
}

/// The count that a finished job leaves behind when `prev` jobs remained:
/// one less, wrapping around below zero as the atomic subtraction does.
pub open spec fn remaining_after_finish(prev: usize) -> usize {
    if prev == 0 {
        usize::MAX
    } else {
        (prev - 1) as usize
    }
}

/// The count after `k` jobs have finished, starting from `n` remaining.
pub open spec fn remaining_after_finishes(n: usize, k: nat) -> usize
    decreases k,
{
    if k == 0 {
        n
    } else {
        remaining_after_finish(remaining_after_finishes(n, (k - 1) as nat))
    }
}

/// The step that the waiting side takes when `remaining` jobs are left:
/// it keeps yielding while any job remains and is done at zero.
pub fn wait_step(remaining: usize) -> (step: WaitStep)
    ensures
        step == wait_step_spec(remaining),
{
    if remaining > 0 {
        WaitStep::Yield
    } else {
        WaitStep::Done
    }
}

/// The number of jobs that were handed out and have not finished yet,
/// shared between the thread that hands them out and the workers.
pub struct JobCounter {
    remaining: portable_atomic::AtomicUsize,
}

impl JobCounter {
    /// A counter with no job outstanding.
    pub fn new() -> (c: Self) {
        JobCounter { remaining: atomic_new(0) }
    }
}

/// Sets the number of outstanding jobs to `num`.
pub fn set_job_num(jobs: &JobCounter, num: usize) {
    atomic_store_relaxed(&jobs.remaining, num)
}

/// The number of outstanding jobs, as one relaxed load sees it.
pub fn jobs_remaining(jobs: &JobCounter) -> (n: usize) {
    atomic_load_relaxed(&jobs.remaining)
}

/// Marks one job as finished: the counter goes down by one, wrapping around
/// below zero. Returns the count that was there before.
pub fn finish_job(jobs: &JobCounter) -> (prev: usize) {
    atomic_fetch_sub_one_relaxed(&jobs.remaining)
}

/// Looks at the counter once and decides the waiting side's next step.
/// Returns the count seen and the step taken for it.
pub fn poll_jobs_done(jobs: &JobCounter) -> (r: (usize, WaitStep))
    ensures
        r.1 == wait_step_spec(r.0),
{
    let remaining = jobs_remaining(jobs);
    (remaining, wait_step(remaining))
}

/// In the model of the count that `remaining_after_finishes` gives (not the
/// shared atomic itself, whose contents the proofs cannot see): starting from
/// `n` outstanding jobs, after `k <= n` of them have finished the modelled
/// count is `n - k`, and the waiting side's decision on that count is `Done`
/// exactly when all `n` have finished.
pub proof fn lemma_jobs_drain(n: usize, k: nat)
    requires
        k <= n,
    ensures
        remaining_after_finishes(n, k) == n - k,
        wait_step_spec(remaining_after_finishes(n, k)) is Done <==> k == n,
    decreases k,
{
    if k > 0 {
        lemma_jobs_drain(n, (k - 1) as nat);
    }
}

/// In the same model of the count: one job more than were set wraps the
/// modelled count around to `usize::MAX`, and the waiting side's decision on
/// that count is `Yield`.
pub proof fn lemma_extra_finish_wraps(n: usize)
    ensures
        remaining_after_finishes(n, (n + 1) as nat) == usize::MAX,
        wait_step_spec(remaining_after_finishes(n, (n + 1) as nat)) is Yield,
{
    lemma_jobs_drain(n, n as nat);
}

} // verus!
