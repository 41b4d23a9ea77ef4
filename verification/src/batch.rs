//! The data model of a batch: job descriptors, recorded outcomes and the
//! aggregate result, together with the specification of outcome attribution.

use vstd::prelude::*;

verus! {

/// One unit of submitted work: an identity plus the parameters the job needs.
///
/// A descriptor is created by the caller before the batch starts and is not
/// mutated afterwards. Its identity should be unique within one batch so that
/// outcomes can be attributed; uniqueness across batches is not required.
#[derive(Clone, Debug)]
pub struct JobDescriptor {
    /// The job's identity within its batch, e.g. a file name or key.
    pub id: String,
    /// Opaque parameters handed to the job when it runs.
    pub params: String,
}

/// How one job ended.
#[derive(Clone, Debug)]
pub enum OutcomeKind {
    /// The job finished and produced this payload.
    Success(String),
    /// The job reported a failure with this reason. A failure never cancels
    /// sibling jobs; it is recorded and the batch goes on.
    Failure(String),
    /// The job was never started, or was interrupted, because the batch was
    /// cancelled. Recorded distinctly from a failure.
    Cancelled,
}

/// The recorded result of one job: the identity of its descriptor and how the
/// job ended. Each admitted job produces exactly one outcome.
#[derive(Clone, Debug)]
pub struct JobOutcome {
    /// The identity of the job this outcome belongs to.
    pub id: String,
    /// How the job ended.
    pub kind: OutcomeKind,
}

impl JobOutcome {
    /// An exact copy of this outcome.
    pub fn duplicate(&self) -> (r: JobOutcome)
        ensures
            r == *self,
    {
        let kind = match &self.kind {
            OutcomeKind::Success(payload) => OutcomeKind::Success(payload.clone()),
            OutcomeKind::Failure(reason) => OutcomeKind::Failure(reason.clone()),
            OutcomeKind::Cancelled => OutcomeKind::Cancelled,
        };
        JobOutcome { id: self.id.clone(), kind }
    }
}

/// The aggregate of all job outcomes of one batch invocation.
#[derive(Debug)]
pub struct BatchResult {
    /// Outcomes in completion order, first finished first; the executor does
    /// not reorder them by submission order. Jobs never admitted before a
    /// cancellation follow at the end, in submission order, marked cancelled.
    pub outcomes: Vec<JobOutcome>,
}

/// The outcome recorded for descriptor `d` when its execution returned
/// `result`: a success with the returned payload, or a failure with the
/// returned reason.
pub open spec fn outcome_of(d: JobDescriptor, result: Result<String, String>) -> JobOutcome {
    match result {
        Ok(payload) => (JobOutcome { id: d.id, kind: OutcomeKind::Success(payload) }),
        Err(reason) => (JobOutcome { id: d.id, kind: OutcomeKind::Failure(reason) }),
    }
}

/// The outcome recorded for descriptor `d` when the job was cancelled.
pub open spec fn cancelled_outcome(d: JobDescriptor) -> JobOutcome {
    JobOutcome { id: d.id, kind: OutcomeKind::Cancelled }
}

/// `p` attributes each outcome position to a distinct submitted job with the
/// same identity: `p` is injective into the job positions and the identities
/// agree pointwise.
pub open spec fn is_attribution(p: Seq<int>, outs: Seq<JobOutcome>, jobs: Seq<JobDescriptor>) -> bool {
    &&& p.len() == outs.len()
    &&& outs.len() == jobs.len()
    &&& forall|k: int| 0 <= k < p.len() ==> 0 <= #[trigger] p[k] < jobs.len()
    &&& forall|k1: int, k2: int|
        #![trigger p[k1], p[k2]]
        0 <= k1 < k2 < p.len() ==> p[k1] != p[k2]
    &&& forall|k: int| 0 <= k < p.len() ==> (#[trigger] outs[k]).id@ == jobs[p[k]].id@
}

/// The outcomes split at position `m` into a head of jobs that actually ran
/// (each a success or failure) and a tail of jobs recorded as cancelled.
pub open spec fn ran_then_cancelled(outs: Seq<JobOutcome>, m: int) -> bool {
    &&& 0 <= m <= outs.len()
    &&& forall|k: int| 0 <= k < m ==> !((#[trigger] outs[k]).kind is Cancelled)
    &&& forall|k: int| m <= k < outs.len() ==> (#[trigger] outs[k]).kind is Cancelled
}

/// Every submitted job is accounted for by exactly one outcome: there are as
/// many outcomes as jobs, and some one-to-one correspondence matches each
/// outcome to its own job, so no job is lost and none is counted twice.
pub open spec fn attributes_all_jobs(outs: Seq<JobOutcome>, jobs: Seq<JobDescriptor>) -> bool {
    exists|p: Seq<int>| is_attribution(p, outs, jobs)
}

} // verus!
