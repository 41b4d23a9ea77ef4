//! Drivers that take a batch from submission to a full result.
//!
//! The executor in [`crate::executor`] only decides; these drivers loop. They
//! run on the calling task as a cooperative scheduler: admit a job, execute
//! it through the caller-supplied [`JobRunner`], report its end, repeat. Any
//! other scheduling — a thread pool, an async runtime — can drive the same
//! executor through its public steps and inherits the same guarantees.

use vstd::prelude::*;
use crate::admission::ConfigurationError;
use crate::batch::BatchResult;
use crate::batch::JobDescriptor;
use crate::batch::attributes_all_jobs;
use crate::batch::ran_then_cancelled;
use crate::executor::BatchExecutor;
use crate::handle::ResourceHandle;

verus! {

/// The collaborator contract: the surrounding application supplies the one
/// operation that executes a job descriptor against the shared resource.
pub trait JobRunner<T> {
    /// Runs the job described by `desc` against the shared resource. `Ok`
    /// carries the job's success payload, `Err` its failure reason; the
    /// orchestrator never inspects either beyond recording it.
    fn execute(&self, desc: &JobDescriptor, resource: &T) -> Result<String, String>;
}

/// A caller-supplied cancellation signal, polled between steps of a drive
/// loop. What flips it — a deadline, a key press, a supervisor — is the
/// caller's business.
pub trait CancelSignal {
    /// True once the batch should stop admitting further jobs.
    fn is_cancelled(&self) -> bool;
}

/// Runs a whole batch on the calling task and returns one outcome per job.
///
/// Jobs run one at a time, in submission order, so completion order equals
/// submission order here; a failing job is recorded and its siblings still
/// run; no outcome is cancelled. An empty batch returns an empty result at
/// once. A concurrency cap of zero is rejected before any job runs.
pub fn run<T, R: JobRunner<T>>(
    handle: &ResourceHandle<T>,
    jobs: Vec<JobDescriptor>,
    concurrency: usize,
    runner: &R,
) -> (r: Result<BatchResult, ConfigurationError>)
    ensures
        concurrency == 0 <==> r is Err,
        r matches Err(e) ==> e is ZeroConcurrency,
        r matches Ok(b) ==> ({
            &&& b.outcomes@.len() == jobs@.len()
            &&& forall|k: int|
                0 <= k < jobs@.len() ==> (#[trigger] b.outcomes@[k]).id@ == jobs@[k].id@
            &&& forall|k: int|
                0 <= k < jobs@.len() ==> !((#[trigger] b.outcomes@[k]).kind is Cancelled)
            &&& attributes_all_jobs(b.outcomes@, jobs@)
        }),
{
    let ghost gjobs = jobs@;
    let mut exec = match BatchExecutor::new(jobs, concurrency) {
        Ok(e) => e,
        Err(e) => {
            return Err(e);
        },
    };
    let mut more = true;
    while more
        invariant
            exec.wf(),
            exec.jobs() == gjobs,
            !exec.is_cancelled(),
            exec.concurrency() == concurrency as int,
            concurrency >= 1,
            exec.running_count() == 0,
            exec.outcomes().len() == exec.admitted(),
            forall|k: int|
                0 <= k < exec.outcomes().len() ==> (#[trigger] exec.outcomes()[k]).id@
                    == gjobs[k].id@,
            forall|k: int|
                0 <= k < exec.outcomes().len() ==> !((#[trigger] exec.outcomes()[k]).kind
                    is Cancelled),
            !more ==> exec.admitted() == gjobs.len(),
        decreases gjobs.len() - exec.admitted() + (if more { 1int } else { 0int }),
    {
        match exec.admit_next() {
            Some(i) => {
                proof {
                    assert(exec.running_jobs()[exec.running_jobs().len() - 1] == i as int);
                }
                let outcome = runner.execute(exec.descriptor(i), handle.get());
                exec.complete(i, outcome);
            },
            None => {
                more = false;
            },
        }
    }
    let b = exec.finish();
    proof {
        assert(b.outcomes@ =~= exec.outcomes());
    }
    Ok(b)
}

/// Runs a batch like [`run`], but polls `signal` before each admission and
/// cancels the batch once it reports true.
///
/// The result is never truncated: jobs that completed before the
/// cancellation keep their outcomes, and every job not yet admitted is
/// recorded with an explicit cancelled outcome, so the result still holds
/// exactly one outcome per submitted job — a head of jobs that ran, then a
/// cancelled tail.
pub fn run_cancellable<T, R: JobRunner<T>, C: CancelSignal>(
    handle: &ResourceHandle<T>,
    jobs: Vec<JobDescriptor>,
    concurrency: usize,
    runner: &R,
    signal: &C,
) -> (r: Result<BatchResult, ConfigurationError>)
    ensures
        concurrency == 0 <==> r is Err,
        r matches Err(e) ==> e is ZeroConcurrency,
        r matches Ok(b) ==> ({
            &&& b.outcomes@.len() == jobs@.len()
            &&& forall|k: int|
                0 <= k < jobs@.len() ==> (#[trigger] b.outcomes@[k]).id@ == jobs@[k].id@
            &&& exists|m: int| ran_then_cancelled(b.outcomes@, m)
            &&& attributes_all_jobs(b.outcomes@, jobs@)
        }),
{
    let ghost gjobs = jobs@;
    let mut exec = match BatchExecutor::new(jobs, concurrency) {
        Ok(e) => e,
        Err(e) => {
            return Err(e);
        },
    };
    let mut more = true;
    while more
        invariant
            exec.wf(),
            exec.jobs() == gjobs,
            exec.concurrency() == concurrency as int,
            concurrency >= 1,
            exec.running_count() == 0,
            exec.outcomes().len() == exec.admitted(),
            forall|k: int|
                0 <= k < exec.outcomes().len() ==> (#[trigger] exec.outcomes()[k]).id@
                    == gjobs[k].id@,
            forall|k: int|
                0 <= k < exec.outcomes().len() ==> !((#[trigger] exec.outcomes()[k]).kind
                    is Cancelled),
            more ==> !exec.is_cancelled(),
            !more ==> (exec.is_cancelled() || exec.admitted() == gjobs.len()),
        decreases gjobs.len() - exec.admitted() + (if more { 1int } else { 0int }),
    {
        if signal.is_cancelled() {
            exec.cancel();
            more = false;
        } else {
            match exec.admit_next() {
                Some(i) => {
                    proof {
                        assert(exec.running_jobs()[exec.running_jobs().len() - 1] == i as int);
                    }
                    let outcome = runner.execute(exec.descriptor(i), handle.get());
                    exec.complete(i, outcome);
                },
                None => {
                    more = false;
                },
            }
        }
    }
    let ghost m = exec.admitted();
    let b = exec.finish();
    proof {
        assert forall|k: int| 0 <= k < gjobs.len() implies (#[trigger] b.outcomes@[k]).id@
            == gjobs[k].id@ by {
            if k < m {
                assert(b.outcomes@[k] == exec.outcomes()[k]);
            } else {
                assert(b.outcomes@[k] == crate::batch::cancelled_outcome(gjobs[k]));
            }
        }
        assert forall|k: int| 0 <= k < m implies !((#[trigger] b.outcomes@[k]).kind
            is Cancelled) by {
            assert(b.outcomes@[k] == exec.outcomes()[k]);
        }
        assert forall|k: int| m <= k < b.outcomes@.len() implies (#[trigger] b.outcomes@[k]).kind
            is Cancelled by {
            assert(b.outcomes@[k] == crate::batch::cancelled_outcome(gjobs[k]));
        }
        assert(ran_then_cancelled(b.outcomes@, m));
    }
    Ok(b)
}

} // verus!
