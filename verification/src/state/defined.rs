//! The logic for a KVM worker in the [`Defined`] state.

use vstd::prelude::*;

use crate::error::{Error, ErrorView};
use crate::state::launched::{VirtError, VirtErrorKind};
use crate::state::{created_at, Created, Defined, KvmWorkerState};
use crate::time::{now, UtcTime};

verus! {

impl Defined {
    /// Proceed to the next state at a time.
    ///
    /// * `time` - The time at which the worker is created
    pub fn next_state_at(self, time: UtcTime) -> (r: Created)
        ensures
            r == created_at(self, time),
    {
        Created {
            worker: self.worker,
            guest_os: self.guest_os,
            overlay_path: self.overlay_path,
            domain_name: self.domain_name,
            created: time,
            last_launch_attempt: None,
            launch_attempts: 0,
        }
    }

    /// Create the worker at a time, spawning its domain in libvirt.
    ///
    /// * `spawned` - Whether the domain was spawned, or the message of libvirt's error
    /// * `time` - The time at which the domain was spawned
    pub fn create_at(self, spawned: Result<(), String>, time: UtcTime) -> (r: Result<
        Created,
        Error,
    >)
        ensures
            match spawned {
                Ok(_) => r == Ok::<Created, Error>(created_at(self, time)),
                Err(message) => r matches Err(e) && e@ == ErrorView::Virt(message@),
            },
    {
        match spawned {
            Ok(_) => Ok(self.next_state_at(time)),
            Err(message) => Err(Error::Virt(message)),
        }
    }

    /// Create the worker, spawning its domain in libvirt.
    ///
    /// * `spawned` - Whether the domain was spawned, or the message of libvirt's error
    pub fn create(self, spawned: Result<(), String>) -> (r: Result<Created, Error>)
        ensures
            match spawned {
                Ok(_) => r matches Ok(created) && created == created_at(self, created.created),
                Err(message) => r matches Err(e) && e@ == ErrorView::Virt(message@),
            },
    {
        let time: UtcTime = now();
        self.create_at(spawned, time)
    }

    /// Proceed to the next state as if we actually created the worker.
    pub fn mock_create(self) -> (r: Created)
        ensures
            r == created_at(self, r.created),
    {
        self.next_state(())
    }
}

/// How far the removal of a domain has come
#[derive(Debug)]
pub enum UndefineStep {
    /// The domain is to be looked up
    Lookup,
    /// Whether the domain is active is to be found out
    CheckActive,
    /// The active domain is to be shut down
    Shutdown,
    /// The domain is to be undefined, with everything related to it
    Undefine,
    /// There is no domain any more
    Gone,
    /// The domain could not be removed
    Failed(Error),
}

/// What came of a step in the removal of a domain: whether the domain is active, where
/// that was the question, or the error of libvirt.
pub type UndefineEvent = Result<bool, VirtError>;

/// Whether one step is the one that follows on another.
pub open spec fn undefine_leads_to(
    step: UndefineStep,
    event: UndefineEvent,
    next: UndefineStep,
) -> bool {
    match (step, event) {
        (UndefineStep::Lookup, Ok(_)) => next is CheckActive,
        (UndefineStep::Lookup, Err(error)) => if error.kind is NoDomain {
            next is Gone
        } else {
            next matches UndefineStep::Failed(e) && e@ == ErrorView::Virt(error.message@)
        },
        (UndefineStep::CheckActive, Ok(active)) => if active {
            next is Shutdown
        } else {
            next is Undefine
        },
        (UndefineStep::Shutdown, Ok(_)) => next is Undefine,
        (UndefineStep::Undefine, Ok(_)) => next is Gone,
        (UndefineStep::Gone, _) => next is Gone,
        (UndefineStep::Failed(error), _) => next == UndefineStep::Failed(error),
        (_, Err(error)) => next matches UndefineStep::Failed(e) && e@ == ErrorView::Virt(
            error.message@,
        ),
    }
}

/// The step in the removal of a domain that follows on what came of the last one. An
/// active domain is shut down before it is undefined. A domain that does not exist needs
/// no removal.
pub fn undefine_next(step: UndefineStep, event: UndefineEvent) -> (r: UndefineStep)
    ensures
        undefine_leads_to(step, event, r),
{
    match step {
        UndefineStep::Gone => UndefineStep::Gone,
        UndefineStep::Failed(error) => UndefineStep::Failed(error),
        UndefineStep::Lookup => match event {
            Ok(_) => UndefineStep::CheckActive,
            Err(error) => match error.kind {
                VirtErrorKind::NoDomain => UndefineStep::Gone,
                _ => UndefineStep::Failed(Error::Virt(error.message)),
            },
        },
        UndefineStep::CheckActive => match event {
            Ok(active) => if active {
                UndefineStep::Shutdown
            } else {
                UndefineStep::Undefine
            },
            Err(error) => UndefineStep::Failed(Error::Virt(error.message)),
        },
        UndefineStep::Shutdown => match event {
            Ok(_) => UndefineStep::Undefine,
            Err(error) => UndefineStep::Failed(Error::Virt(error.message)),
        },
        UndefineStep::Undefine => match event {
            Ok(_) => UndefineStep::Gone,
            Err(error) => UndefineStep::Failed(Error::Virt(error.message)),
        },
    }
}

/// A domain that is active is never undefined before it was shut down: the step behind
/// the answer that it is active is the shutdown.
pub proof fn law_active_domains_are_shut_down_first(next: UndefineStep)
    requires
        undefine_leads_to(UndefineStep::CheckActive, Ok(true), next),
    ensures
        next is Shutdown,
{
}

} // verus!
