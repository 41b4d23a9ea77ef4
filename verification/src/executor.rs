//! The batch executor: a step-driven state machine that turns a list of job
//! descriptors into bounded-concurrency executions and aggregates outcomes.
//!
//! The executor itself performs no I/O. A driver loop asks it to admit the
//! next job ([`BatchExecutor::admit_next`]), runs the admitted job however it
//! likes, and reports how the job ended ([`BatchExecutor::complete`] or
//! [`BatchExecutor::complete_cancelled`]); events may be reported in any
//! order, and outcomes are recorded in exactly that completion order. Once
//! every admitted job has reported and either all jobs were admitted or the
//! batch was cancelled, [`BatchExecutor::finish`] assembles the
//! [`BatchResult`], with an explicit cancelled outcome for every job that was
//! never admitted — never a truncated, unexplained result set.

use vstd::prelude::*;
use crate::admission::AdmissionController;
use crate::admission::ConfigurationError;
use crate::admission::Permit;
use crate::batch::BatchResult;
use crate::batch::JobDescriptor;
use crate::batch::JobOutcome;
use crate::batch::OutcomeKind;
use crate::batch::attributes_all_jobs;
use crate::batch::cancelled_outcome;
use crate::batch::is_attribution;
use crate::batch::outcome_of;

verus! {

/// The state of one batch invocation.
///
/// Jobs are admitted in submission order, each one acquiring a permit from
/// the admission controller before it may run; at most the concurrency cap
/// are in flight at once. Outcomes are recorded in completion order.
pub struct BatchExecutor {
    jobs: Vec<JobDescriptor>,
    controller: AdmissionController,
    next_pending: usize,
    running: Vec<(usize, Permit)>,
    completed: Vec<usize>,
    outcomes: Vec<JobOutcome>,
    cancelled: bool,
}

impl BatchExecutor {
    /// The submitted jobs, in submission order.
    pub closed spec fn jobs(&self) -> Seq<JobDescriptor> {
        self.jobs@
    }

    /// The concurrency cap the batch was configured with.
    pub closed spec fn concurrency(&self) -> int {
        self.controller.cap()
    }

    /// How many jobs have been admitted so far. Admission is in submission
    /// order, so the admitted jobs are exactly positions `0 .. admitted()`.
    pub closed spec fn admitted(&self) -> int {
        self.next_pending as int
    }

    /// The positions of the jobs currently holding a permit, in admission order.
    pub closed spec fn running_jobs(&self) -> Seq<int> {
        self.running@.map_values(|e: (usize, Permit)| e.0 as int)
    }

    /// The positions of the completed jobs, in completion order.
    pub closed spec fn completed_jobs(&self) -> Seq<int> {
        self.completed@.map_values(|u: usize| u as int)
    }

    /// The outcomes recorded so far, in completion order.
    pub closed spec fn outcomes(&self) -> Seq<JobOutcome> {
        self.outcomes@
    }

    /// Whether the batch has been cancelled.
    pub closed spec fn is_cancelled(&self) -> bool {
        self.cancelled
    }

    /// The admission controller guarding this batch, for specification use.
    pub closed spec fn admission(&self) -> AdmissionController {
        self.controller
    }

    /// Permits granted since the batch was created.
    pub closed spec fn total_acquired(&self) -> int {
        self.controller.total_acquired()
    }

    /// Permits returned since the batch was created.
    pub closed spec fn total_released(&self) -> int {
        self.controller.total_released()
    }

    /// How many jobs are in flight right now.
    pub open spec fn running_count(&self) -> int {
        self.running_jobs().len() as int
    }

    /// Whether the job at position `j` is in flight.
    pub open spec fn is_running(&self, j: int) -> bool {
        self.running_jobs().contains(j)
    }

    /// The executor's invariant. Every operation preserves it, so it holds of
    /// every reachable state: permit accounting matches the set of in-flight
    /// jobs, every in-flight or completed job was admitted, no job is in both
    /// lists or in either twice, and each recorded outcome carries the
    /// identity of the job it completes.
    pub open spec fn wf(&self) -> bool {
        &&& self.admission().wf()
        &&& 0 <= self.admitted() <= self.jobs().len()
        &&& self.total_acquired() == self.admitted()
        &&& self.total_released() == self.completed_jobs().len()
        &&& self.admitted() == self.running_count() + self.completed_jobs().len()
        &&& self.outcomes().len() == self.completed_jobs().len()
        &&& forall|k: int|
            0 <= k < self.running_jobs().len() ==> 0 <= #[trigger] self.running_jobs()[k]
                < self.admitted()
        &&& forall|k: int|
            0 <= k < self.completed_jobs().len() ==> 0 <= #[trigger] self.completed_jobs()[k]
                < self.admitted()
        &&& forall|k1: int, k2: int|
            #![trigger self.running_jobs()[k1], self.running_jobs()[k2]]
            0 <= k1 < k2 < self.running_jobs().len() ==> self.running_jobs()[k1]
                != self.running_jobs()[k2]
        &&& forall|k1: int, k2: int|
            #![trigger self.completed_jobs()[k1], self.completed_jobs()[k2]]
            0 <= k1 < k2 < self.completed_jobs().len() ==> self.completed_jobs()[k1]
                != self.completed_jobs()[k2]
        &&& forall|k1: int, k2: int|
            #![trigger self.completed_jobs()[k1], self.running_jobs()[k2]]
            0 <= k1 < self.completed_jobs().len() && 0 <= k2 < self.running_jobs().len()
                ==> self.completed_jobs()[k1] != self.running_jobs()[k2]
        &&& forall|k: int|
            0 <= k < self.outcomes().len() ==> (#[trigger] self.outcomes()[k]).id@
                == self.jobs()[self.completed_jobs()[k]].id@
    }

    /// The batch is drained once no job is in flight and no further job will
    /// be admitted: all were admitted, or the batch was cancelled.
    pub open spec fn drained(&self) -> bool {
        &&& self.running_count() == 0
        &&& (self.is_cancelled() || self.admitted() == self.jobs().len())
    }

    /// Creates the executor for one batch. `jobs` may be empty; a concurrency
    /// cap of zero is a configuration error, rejected before any job runs.
    pub fn new(jobs: Vec<JobDescriptor>, concurrency: usize) -> (r: Result<
        BatchExecutor,
        ConfigurationError,
    >)
        ensures
            concurrency == 0 <==> r is Err,
            r matches Err(e) ==> e is ZeroConcurrency,
            r matches Ok(e) ==> ({
                &&& e.wf()
                &&& e.jobs() == jobs@
                &&& e.concurrency() == concurrency
                &&& e.admitted() == 0
                &&& e.running_count() == 0
                &&& e.completed_jobs() == Seq::<int>::empty()
                &&& e.outcomes() == Seq::<JobOutcome>::empty()
                &&& !e.is_cancelled()
                &&& e.total_acquired() == 0
                &&& e.total_released() == 0
            }),
    {
        let controller = match AdmissionController::new(concurrency) {
            Ok(c) => c,
            Err(e) => {
                return Err(e);
            },
        };
        let e = BatchExecutor {
            jobs,
            controller,
            next_pending: 0,
            running: Vec::new(),
            completed: Vec::new(),
            outcomes: Vec::new(),
            cancelled: false,
        };
        proof {
            assert(e.running_jobs() =~= Seq::<int>::empty());
            assert(e.completed_jobs() =~= Seq::<int>::empty());
        }
        Ok(e)
    }

    /// Admits the next pending job, in submission order, if one exists, the
    /// batch is not cancelled, and a permit is free. Returns the position of
    /// the admitted job, which now holds one permit; the driver should run it
    /// and later report its end. When nothing can be admitted — the cap is
    /// reached, all jobs were admitted, or the batch is cancelled — nothing
    /// changes and in particular no permit is acquired.
    pub fn admit_next(&mut self) -> (r: Option<usize>)
        requires
            old(self).wf(),
        ensures
            final(self).wf(),
            final(self).jobs() == old(self).jobs(),
            final(self).concurrency() == old(self).concurrency(),
            final(self).is_cancelled() == old(self).is_cancelled(),
            final(self).outcomes() == old(self).outcomes(),
            final(self).completed_jobs() == old(self).completed_jobs(),
            final(self).total_released() == old(self).total_released(),
            r is Some <==> ({
                &&& !old(self).is_cancelled()
                &&& old(self).admitted() < old(self).jobs().len()
                &&& old(self).running_count() < old(self).concurrency()
            }),
            r matches Some(i) ==> ({
                &&& i == old(self).admitted()
                &&& final(self).admitted() == old(self).admitted() + 1
                &&& final(self).running_jobs() == old(self).running_jobs().push(i as int)
                &&& final(self).total_acquired() == old(self).total_acquired() + 1
            }),
            r is None ==> *final(self) == *old(self),
    {
        if self.cancelled {
            return None;
        }
        if self.next_pending >= self.jobs.len() {
            return None;
        }
        proof {
            assert(self.controller.total_acquired() < usize::MAX);
        }
        let permit = match self.controller.try_acquire() {
            Some(p) => p,
            None => {
                return None;
            },
        };
        let i = self.next_pending;
        self.next_pending = self.next_pending + 1;
        self.running.push((i, permit));
        proof {
            assert(self.running_jobs() =~= old(self).running_jobs().push(i as int));
            assert forall|k: int| 0 <= k < self.running_jobs().len() implies 0 <= #[trigger] self.running_jobs()[k] < self.admitted() by {
                if k < old(self).running_jobs().len() {
                    assert(self.running_jobs()[k] == old(self).running_jobs()[k]);
                }
            }
        }
        Some(i)
    }

    /// Records how the in-flight job at position `job` ended: the driver hands
    /// in the job's own result, or a cancelled marker. The job's permit is
    /// released unconditionally — success, failure and cancellation all take
    /// the same exit path — and the outcome is appended in completion order.
    fn settle(&mut self, job: usize, kind: OutcomeKind)
        requires
            old(self).wf(),
            old(self).is_running(job as int),
        ensures
            final(self).wf(),
            final(self).jobs() == old(self).jobs(),
            final(self).concurrency() == old(self).concurrency(),
            final(self).is_cancelled() == old(self).is_cancelled(),
            final(self).admitted() == old(self).admitted(),
            final(self).total_acquired() == old(self).total_acquired(),
            final(self).total_released() == old(self).total_released() + 1,
            final(self).outcomes() == old(self).outcomes().push(
                (JobOutcome { id: old(self).jobs()[job as int].id, kind: kind }),
            ),
            final(self).completed_jobs() == old(self).completed_jobs().push(job as int),
            final(self).running_count() == old(self).running_count() - 1,
            !final(self).is_running(job as int),
    {
        // find the slot that holds `job`
        let mut k: usize = 0;
        while k < self.running.len() && self.running[k].0 != job
            invariant
                k <= self.running@.len(),
                forall|m: int| 0 <= m < k ==> (#[trigger] self.running@[m]).0 != job,
            decreases self.running@.len() - k,
        {
            k = k + 1;
        }
        proof {
            if k >= self.running@.len() {
                let m = choose|m: int|
                    0 <= m < old(self).running_jobs().len() && old(self).running_jobs()[m]
                        == job as int;
                assert(self.running@[m].0 == job);
                assert(false);
            }
            assert(old(self).running_jobs()[k as int] == job as int);
        }
        let ghost prev = *self;
        let (_slot, permit) = self.running.remove(k);
        proof {
            assert(self.running@ == prev.running@.remove(k as int));
            assert(self.running_jobs() =~= prev.running_jobs().remove(k as int)) by {
                prev.running_jobs().remove_ensures(k as int);
                prev.running@.remove_ensures(k as int);
            }
            assert(self.controller.in_flight() >= 1);
        }
        self.controller.release(permit);
        let id = self.jobs[job].id.clone();
        self.outcomes.push(JobOutcome { id, kind });
        self.completed.push(job);
        proof {
            assert(self.completed_jobs() =~= prev.completed_jobs().push(job as int));
            let oldr = prev.running_jobs();
            let newr = self.running_jobs();
            assert(newr =~= oldr.remove(k as int));
            oldr.remove_ensures(k as int);
            // every remaining in-flight job was already in flight before
            assert forall|m: int| 0 <= m < newr.len() implies (exists|n: int|
                0 <= n < oldr.len() && n != k && oldr[n] == #[trigger] newr[m]) by {
                if m < k {
                    assert(oldr[m] == newr[m]);
                } else {
                    assert(oldr[m + 1] == newr[m]);
                }
            }
            // the settled job is no longer in flight
            assert forall|m: int| 0 <= m < newr.len() implies #[trigger] newr[m] != job as int by {
                if m < k {
                    assert(oldr[m] == newr[m]);
                } else {
                    assert(oldr[m + 1] == newr[m]);
                }
            }
            assert(!final(self).is_running(job as int));
        }
    }

    /// Records the result a running job reported: `Ok` is its success payload,
    /// `Err` its failure reason. A failure never cancels sibling jobs.
    pub fn complete(&mut self, job: usize, result: Result<String, String>)
        requires
            old(self).wf(),
            old(self).is_running(job as int),
        ensures
            final(self).wf(),
            final(self).jobs() == old(self).jobs(),
            final(self).concurrency() == old(self).concurrency(),
            final(self).is_cancelled() == old(self).is_cancelled(),
            final(self).admitted() == old(self).admitted(),
            final(self).total_acquired() == old(self).total_acquired(),
            final(self).total_released() == old(self).total_released() + 1,
            final(self).outcomes() == old(self).outcomes().push(
                outcome_of(old(self).jobs()[job as int], result),
            ),
            final(self).completed_jobs() == old(self).completed_jobs().push(job as int),
            final(self).running_count() == old(self).running_count() - 1,
            !final(self).is_running(job as int),
    {
        let kind = match result {
            Ok(payload) => OutcomeKind::Success(payload),
            Err(reason) => OutcomeKind::Failure(reason),
        };
        self.settle(job, kind);
    }

    /// Records that a running job was interrupted by cancellation. Its permit
    /// is released like any other; the outcome is marked cancelled, distinctly
    /// from a failure.
    pub fn complete_cancelled(&mut self, job: usize)
        requires
            old(self).wf(),
            old(self).is_running(job as int),
        ensures
            final(self).wf(),
            final(self).jobs() == old(self).jobs(),
            final(self).concurrency() == old(self).concurrency(),
            final(self).is_cancelled() == old(self).is_cancelled(),
            final(self).admitted() == old(self).admitted(),
            final(self).total_acquired() == old(self).total_acquired(),
            final(self).total_released() == old(self).total_released() + 1,
            final(self).outcomes() == old(self).outcomes().push(
                cancelled_outcome(old(self).jobs()[job as int]),
            ),
            final(self).completed_jobs() == old(self).completed_jobs().push(job as int),
            final(self).running_count() == old(self).running_count() - 1,
            !final(self).is_running(job as int),
    {
        self.settle(job, OutcomeKind::Cancelled);
    }

    /// Cancels the batch: jobs not yet admitted will never be admitted.
    /// In-flight jobs are the driver's to wind down; it reports each of them
    /// through [`BatchExecutor::complete`] or
    /// [`BatchExecutor::complete_cancelled`], which releases their permits.
    pub fn cancel(&mut self)
        requires
            old(self).wf(),
        ensures
            final(self).wf(),
            final(self).is_cancelled(),
            final(self).jobs() == old(self).jobs(),
            final(self).concurrency() == old(self).concurrency(),
            final(self).admitted() == old(self).admitted(),
            final(self).running_jobs() == old(self).running_jobs(),
            final(self).completed_jobs() == old(self).completed_jobs(),
            final(self).outcomes() == old(self).outcomes(),
            final(self).total_acquired() == old(self).total_acquired(),
            final(self).total_released() == old(self).total_released(),
    {
        self.cancelled = true;
    }

    /// Whether the batch is drained: no job in flight, and no further job to
    /// admit (all admitted, or cancelled).
    pub fn is_drained(&self) -> (r: bool)
        requires
            self.wf(),
        ensures
            r == self.drained(),
    {
        self.running.len() == 0 && (self.cancelled || self.next_pending >= self.jobs.len())
    }

    /// Assembles the batch result once the batch is drained.
    ///
    /// The result holds exactly one outcome per submitted job: first the
    /// recorded outcomes in completion order, then one explicit cancelled
    /// outcome for each job that was never admitted, in submission order.
    /// At this point permit accounting balances: every acquire was matched by
    /// exactly one release, and no permit is outstanding.
    pub fn finish(self) -> (r: BatchResult)
        requires
            self.wf(),
            self.drained(),
        ensures
            r.outcomes@.len() == self.jobs().len(),
            r.outcomes@ == self.outcomes() + Seq::new(
                (self.jobs().len() - self.admitted()) as nat,
                |k: int| cancelled_outcome(self.jobs()[self.admitted() + k]),
            ),
            attributes_all_jobs(r.outcomes@, self.jobs()),
            self.total_acquired() == self.total_released(),
            self.jobs().len() == 0 ==> r.outcomes@.len() == 0 && self.total_acquired() == 0,
    {
        let ghost s = self;
        let BatchExecutor {
            jobs,
            controller: _controller,
            next_pending,
            running: _running,
            completed: _completed,
            outcomes: mut outs,
            cancelled: _cancelled,
        } = self;
        let n = jobs.len();
        let mut i: usize = next_pending;
        while i < n
            invariant
                next_pending <= i <= n,
                n == jobs@.len(),
                jobs@ == s.jobs(),
                next_pending == s.admitted(),
                outs@ == s.outcomes() + Seq::new(
                    (i - next_pending) as nat,
                    |k: int| cancelled_outcome(jobs@[next_pending + k]),
                ),
            decreases n - i,
        {
            let ghost before = outs@;
            outs.push(JobOutcome { id: jobs[i].id.clone(), kind: OutcomeKind::Cancelled });
            proof {
                assert(outs@ =~= s.outcomes() + Seq::new(
                    (i + 1 - next_pending) as nat,
                    |k: int| cancelled_outcome(jobs@[next_pending + k]),
                ));
            }
            i = i + 1;
        }
        proof {
            // the recorded outcomes are one per completed job, and every
            // admitted job completed, so the books balance
            assert(s.completed_jobs().len() == s.admitted());
            assert(outs@.len() == s.jobs().len());
            // witness: completed jobs in completion order, then the
            // never-admitted jobs in submission order
            let p = s.completed_jobs() + Seq::new(
                (s.jobs().len() - s.admitted()) as nat,
                |k: int| s.admitted() + k,
            );
            assert forall|k: int| 0 <= k < p.len() implies 0 <= #[trigger] p[k] < s.jobs().len() by {
                if k < s.completed_jobs().len() {
                    assert(p[k] == s.completed_jobs()[k]);
                }
            }
            assert forall|k1: int, k2: int|
                #![trigger p[k1], p[k2]]
                0 <= k1 < k2 < p.len() implies p[k1] != p[k2] by {
                let c = s.completed_jobs().len();
                if k1 < c && k2 < c {
                    assert(p[k1] == s.completed_jobs()[k1]);
                    assert(p[k2] == s.completed_jobs()[k2]);
                } else if k1 < c {
                    assert(p[k1] == s.completed_jobs()[k1]);
                    assert(p[k1] < s.admitted());
                    assert(p[k2] == s.admitted() + (k2 - c));
                } else {
                    assert(p[k1] == s.admitted() + (k1 - c));
                    assert(p[k2] == s.admitted() + (k2 - c));
                }
            }
            assert forall|k: int| 0 <= k < p.len() implies (#[trigger] outs@[k]).id@
                == s.jobs()[p[k]].id@ by {
                let c = s.completed_jobs().len();
                if k < c {
                    assert(outs@[k] == s.outcomes()[k]);
                    assert(p[k] == s.completed_jobs()[k]);
                } else {
                    assert(outs@[k] == cancelled_outcome(s.jobs()[s.admitted() + (k - c)]));
                    assert(p[k] == s.admitted() + (k - c));
                }
            }
            assert(is_attribution(p, outs@, s.jobs()));
        }
        BatchResult { outcomes: outs }
    }

    /// Whether the job at position `j` has completed and has its outcome
    /// recorded.
    pub open spec fn has_completed(&self, j: int) -> bool {
        self.completed_jobs().contains(j)
    }

    /// Assembles the batch result re-sorted into submission order: the
    /// opt-in stable-order mode. Plain [`BatchExecutor::finish`] keeps
    /// completion order; this mode re-sorts after full collection, so the
    /// outcome at position `k` is the recorded outcome of job `k`, or an
    /// explicit cancelled outcome if job `k` never completed.
    pub fn finish_in_submission_order(self) -> (r: BatchResult)
        requires
            self.wf(),
            self.drained(),
        ensures
            r.outcomes@.len() == self.jobs().len(),
            forall|k: int|
                0 <= k < r.outcomes@.len() ==> (#[trigger] r.outcomes@[k]).id@
                    == self.jobs()[k].id@,
            forall|k: int|
                0 <= k < r.outcomes@.len() && self.has_completed(k) ==> exists|j: int|
                    ({
                        &&& 0 <= j < self.completed_jobs().len()
                        &&& #[trigger] self.completed_jobs()[j] == k
                        &&& r.outcomes@[k] == self.outcomes()[j]
                    }),
            forall|k: int|
                0 <= k < r.outcomes@.len() && !self.has_completed(k)
                    ==> (#[trigger] r.outcomes@[k]) == cancelled_outcome(self.jobs()[k]),
            attributes_all_jobs(r.outcomes@, self.jobs()),
            self.total_acquired() == self.total_released(),
    {
        let ghost s = self;
        let BatchExecutor {
            jobs,
            controller: _controller,
            next_pending: _next_pending,
            running: _running,
            completed,
            outcomes: outs,
            cancelled: _cancelled,
        } = self;
        let n = jobs.len();
        let m = completed.len();
        let mut result: Vec<JobOutcome> = Vec::new();
        let mut i: usize = 0;
        while i < n
            invariant
                i <= n,
                n == jobs@.len(),
                m == completed@.len(),
                jobs@ == s.jobs(),
                outs@ == s.outcomes(),
                completed@.map_values(|u: usize| u as int) == s.completed_jobs(),
                s.wf(),
                result@.len() == i,
                forall|k: int|
                    0 <= k < i ==> (#[trigger] result@[k]).id@ == jobs@[k].id@,
                forall|k: int|
                    0 <= k < i && s.has_completed(k) ==> exists|j: int|
                        ({
                            &&& 0 <= j < s.completed_jobs().len()
                            &&& #[trigger] s.completed_jobs()[j] == k
                            &&& result@[k] == outs@[j]
                        }),
                forall|k: int|
                    0 <= k < i && !s.has_completed(k) ==> (#[trigger] result@[k])
                        == cancelled_outcome(jobs@[k]),
            decreases n - i,
        {
            let mut j: usize = 0;
            while j < m && completed[j] != i
                invariant
                    j <= m,
                    m == completed@.len(),
                    forall|t: int| 0 <= t < j ==> completed@[t] != i,
                decreases m - j,
            {
                j = j + 1;
            }
            if j < m {
                proof {
                    assert(s.completed_jobs()[j as int] == i as int);
                    assert(outs@[j as int].id@ == jobs@[i as int].id@);
                }
                let copied = outs[j].duplicate();
                result.push(copied);
            } else {
                proof {
                    if s.has_completed(i as int) {
                        let t = choose|t: int|
                            0 <= t < s.completed_jobs().len() && s.completed_jobs()[t]
                                == i as int;
                        assert(completed@[t] == i);
                        assert(false);
                    }
                }
                result.push(JobOutcome { id: jobs[i].id.clone(), kind: OutcomeKind::Cancelled });
            }
            i = i + 1;
        }
        proof {
            let p = Seq::new(n as nat, |k: int| k);
            assert(is_attribution(p, result@, s.jobs()));
        }
        BatchResult { outcomes: result }
    }

    /// The descriptor at position `i`, for a driver about to run that job.
    pub fn descriptor(&self, i: usize) -> (d: &JobDescriptor)
        requires
            i < self.jobs().len(),
        ensures
            *d == self.jobs()[i as int],
    {
        &self.jobs[i]
    }

    /// The number of submitted jobs, as an executable value.
    pub fn job_count(&self) -> (n: usize)
        ensures
            n == self.jobs().len(),
    {
        self.jobs.len()
    }

    /// The concurrency cap, as an executable value.
    pub fn concurrency_cap(&self) -> (n: usize)
        ensures
            n == self.concurrency(),
    {
        self.controller.capacity()
    }

    /// How many jobs are in flight right now, each holding one permit.
    pub fn in_flight_count(&self) -> (n: usize)
        ensures
            n == self.running_count(),
    {
        self.running.len()
    }

    /// How many permits were granted since the batch was created.
    pub fn acquired_count(&self) -> (n: usize)
        ensures
            n == self.total_acquired(),
    {
        self.controller.acquired_count()
    }

    /// How many permits were returned since the batch was created.
    pub fn released_count(&self) -> (n: usize)
        ensures
            n == self.total_released(),
    {
        self.controller.released_count()
    }

    /// Whether the batch has been cancelled, as an executable value.
    pub fn was_cancelled(&self) -> (c: bool)
        ensures
            c == self.is_cancelled(),
    {
        self.cancelled
    }
}

/// The concurrency cap is never exceeded: in every well-formed executor state
/// — and every operation of [`BatchExecutor`] both requires and preserves
/// well-formedness — the number of jobs concurrently in flight, each holding
/// one permit, lies between zero and the configured cap.
pub proof fn lemma_cap_never_exceeded(e: BatchExecutor)
    requires
        e.wf(),
    ensures
        0 <= e.running_count() <= e.concurrency(),
{
}

/// Permit accounting balances in every well-formed state with no job in
/// flight — in particular at the end of every run, cancelled or not: the
/// total number of acquires equals the total number of releases.
pub proof fn lemma_permits_balance_when_drained(e: BatchExecutor)
    requires
        e.wf(),
        e.running_count() == 0,
    ensures
        e.total_acquired() == e.total_released(),
{
}

} // verus!
