//! A bounded-concurrency work orchestrator.
//!
//! The crate executes a batch of independent jobs against one shared resource,
//! with a hard cap on how many jobs may be in flight at the same time, and
//! aggregates every job's outcome — success, failure or cancellation — with no
//! silent loss.
//!
//! The pieces compose top-down:
//!
//! - [`admission`] holds the admission controller ([`admission::AdmissionController`])
//!   that bounds how many jobs run at once. A slot is witnessed by a
//!   [`admission::Permit`], which is consumed on release, so a permit can
//!   neither be released twice nor forged.
//! - [`batch`] holds the data model: job descriptors, recorded outcomes and the
//!   aggregate [`batch::BatchResult`].
//! - [`executor`] holds the [`executor::BatchExecutor`], a step-driven state
//!   machine that admits jobs in submission order, records outcomes in
//!   completion order, and proves that no job is lost or duplicated and that
//!   every permit taken is returned.
//! - [`runner`] drives the executor to completion for a caller-supplied job
//!   implementation, with optional cooperative cancellation.
//! - [`handle`] is the shared-resource adaptor: a reference-counted handle that
//!   lets every job read the same resource.
//! - [`example`] is a small user-directory illustration of the crate's
//!   contract style.

pub mod admission;
pub mod batch;
pub mod example;
pub mod executor;
pub mod handle;
pub mod runner;
