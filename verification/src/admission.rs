//! Admission control: a counting barrier that bounds how many jobs are in flight.
//!
//! The controller is created with a fixed capacity of at least one slot. A job takes
//! a slot by acquiring a [`Permit`] and gives it back by releasing that permit.
//! Because a permit is consumed by [`AdmissionController::release`], releasing
//! it twice is unrepresentable; because [`Permit`] cannot be constructed
//! outside this module, a release without a prior acquire is too.

use vstd::prelude::*;

verus! {

/// An invalid orchestrator configuration, reported before any job runs.
#[derive(Clone, Copy, Debug)]
pub enum ConfigurationError {
    /// The concurrency cap was zero; admission needs room for at least one job.
    ZeroConcurrency,
}

/// A capability witnessing one occupied slot of an [`AdmissionController`].
///
/// Exactly one permit exists per in-flight job. A permit is granted by
/// [`AdmissionController::try_acquire`] and consumed by
/// [`AdmissionController::release`]; it cannot be copied, cloned, or built by
/// callers, so each permit is released at most once.
pub struct Permit {
    slot: (),
}

/// A counting admission barrier with a fixed capacity.
///
/// The controller keeps full accounting: besides the free slots it counts every
/// acquire and every release since construction, so a caller can check that
/// the books balance once a batch is over.
pub struct AdmissionController {
    capacity: usize,
    available: usize,
    acquired: usize,
    released: usize,
}

impl AdmissionController {
    /// The fixed capacity chosen at construction.
    pub closed spec fn cap(&self) -> int {
        self.capacity as int
    }

    /// The number of slots currently free.
    pub closed spec fn free_slots(&self) -> int {
        self.available as int
    }

    /// The number of permits granted since construction.
    pub closed spec fn total_acquired(&self) -> int {
        self.acquired as int
    }

    /// The number of permits returned since construction.
    pub closed spec fn total_released(&self) -> int {
        self.released as int
    }

    /// The number of permits currently held by jobs.
    pub open spec fn in_flight(&self) -> int {
        self.total_acquired() - self.total_released()
    }

    /// The controller's internal invariant: slot and permit accounting agree and
    /// never exceed the capacity.
    pub open spec fn wf(&self) -> bool {
        &&& 1 <= self.cap()
        &&& 0 <= self.free_slots() <= self.cap()
        &&& 0 <= self.total_released() <= self.total_acquired()
        &&& self.in_flight() == self.cap() - self.free_slots()
    }

    /// Creates a controller with `capacity` slots.
    ///
    /// A capacity of zero is a configuration error and is rejected here, at
    /// construction, not at the first job.
    pub fn new(capacity: usize) -> (r: Result<AdmissionController, ConfigurationError>)
        ensures
            capacity == 0 <==> r is Err,
            r matches Err(e) ==> e is ZeroConcurrency,
            r matches Ok(c) ==> ({
                &&& c.wf()
                &&& c.cap() == capacity
                &&& c.free_slots() == capacity
                &&& c.total_acquired() == 0
                &&& c.total_released() == 0
            }),
    {
        if capacity == 0 {
            Err(ConfigurationError::ZeroConcurrency)
        } else {
            Ok(AdmissionController { capacity, available: capacity, acquired: 0, released: 0 })
        }
    }

    /// Grants a permit if a slot is free; otherwise changes nothing.
    ///
    /// A permit is granted exactly when a slot is free, so a caller that
    /// retries after every release is never postponed forever under bounded
    /// total work.
    pub fn try_acquire(&mut self) -> (r: Option<Permit>)
        requires
            old(self).wf(),
            old(self).total_acquired() < usize::MAX,
        ensures
            final(self).wf(),
            final(self).cap() == old(self).cap(),
            r is Some <==> old(self).free_slots() > 0,
            r is Some ==> ({
                &&& final(self).free_slots() == old(self).free_slots() - 1
                &&& final(self).total_acquired() == old(self).total_acquired() + 1
                &&& final(self).total_released() == old(self).total_released()
            }),
            r is None ==> *final(self) == *old(self),
    {
        if self.available > 0 {
            self.available = self.available - 1;
            self.acquired = self.acquired + 1;
            Some(Permit { slot: () })
        } else {
            None
        }
    }

    /// Returns a slot to the pool, consuming the permit that held it.
    pub fn release(&mut self, permit: Permit)
        requires
            old(self).wf(),
            old(self).in_flight() >= 1,
        ensures
            final(self).wf(),
            final(self).cap() == old(self).cap(),
            final(self).free_slots() == old(self).free_slots() + 1,
            final(self).total_acquired() == old(self).total_acquired(),
            final(self).total_released() == old(self).total_released() + 1,
    {
        let Permit { slot: _ } = permit;
        self.available = self.available + 1;
        self.released = self.released + 1;
    }

    /// The capacity, as an executable value.
    pub fn capacity(&self) -> (n: usize)
        ensures
            n == self.cap(),
    {
        self.capacity
    }

    /// The number of permits currently held, as an executable value.
    pub fn in_flight_count(&self) -> (n: usize)
        requires
            self.wf(),
        ensures
            n == self.in_flight(),
    {
        self.capacity - self.available
    }

    /// The number of permits granted since construction, as an executable value.
    pub fn acquired_count(&self) -> (n: usize)
        ensures
            n == self.total_acquired(),
    {
        self.acquired
    }

    /// The number of permits returned since construction, as an executable value.
    pub fn released_count(&self) -> (n: usize)
        ensures
            n == self.total_released(),
    {
        self.released
    }
}

/// No more permits are ever in flight than the capacity allows: in every
/// well-formed state the number of held permits lies between zero and the cap.
pub proof fn lemma_in_flight_bounded(c: AdmissionController)
    requires
        c.wf(),
    ensures
        0 <= c.in_flight() <= c.cap(),
{
}

} // verus!
