//! The KVM worker state machine, describing the lifecycle of a worker in KVM.
//!
//! Logic for individual states can be found within the state's module.

use vstd::prelude::*;

use crate::args::Kvm;
use crate::error::{Error, ErrorView};
use crate::models::CommandOutput;
use crate::os_detector::GuestOs;
use crate::state::created::{attempted, launch_due, MAX_LAUNCH_ATTEMPTS};
use crate::state::init::{overlay_failure, overlay_path_of};
use crate::state::launched::{
    reported_state,
    AgentState,
    AgentStateView,
    StatusReply,
    DOMAIN_TIMEOUT,
    UNRESPONSIVE_DOMAIN_TIMEOUT,
};
use crate::state::overlayed::domain_name_of;
use crate::state::{
    created_at,
    domain_and_overlay,
    launched_at,
    planned_check,
    Created,
    Defined,
    DestroyAction,
    Init,
    KvmWorkerState,
    Launched,
    Overlayed,
};
use crate::time::UtcTime;

verus! {

/// A KVM worker associated with a single Domain and Thorium worker running in KVM
#[derive(Debug)]
pub struct KvmWorker<T> {
    /// The state of this worker (and any data associated to that state)
    pub state: T,
}

/// The error returned from launching, with the worker that attempted to launch
#[derive(Debug)]
pub struct LaunchError(pub KvmWorker<Created>, pub Error);

impl<T: KvmWorkerState> KvmWorker<T> {
    /// Proceed to the next state.
    ///
    /// * `next_state` - The next state and its data to proceed to
    fn next_state(next_state: T::NextState) -> (r: KvmWorker<T::NextState>)
        ensures
            r.state == next_state,
    {
        KvmWorker { state: next_state }
    }

    /// Destroy this worker and all of its related data: what there is to do.
    ///
    /// The destruction process is performed at the current state and cascades back the
    /// state machine until the first [`Init`] state.
    pub fn destroy(self) -> (r: Vec<DestroyAction>)
        ensures
            r@ == self.state.remains(),
    {
        self.state.destroy()
    }
}

impl KvmWorker<Init> {
    /// Initiate a new KVM worker, assigning it a Thorium worker.
    ///
    /// * `worker` - The name of the Thorium worker this KVM worker is responsible for
    pub fn init(worker: String) -> (r: KvmWorker<Init>)
        ensures
            r.state == (Init { worker }),
    {
        KvmWorker { state: Init { worker } }
    }

    /// Create a qcow2 overlay for this worker based on a golden image, saving on disk space
    /// and I/O by leveraging copy-on-write. See [`Init::overlay`].
    pub fn overlay(
        self,
        args: &Kvm,
        golden_path: &str,
        guest_os: Option<GuestOs>,
        output: Result<CommandOutput, String>,
    ) -> (r: Result<KvmWorker<Overlayed>, Error>)
        ensures
            match output {
                Err(message) => r matches Err(e) && e@ == ErrorView::IO(message@),
                Ok(out) => if out.success {
                    r matches Ok(overlayed) && {
                        &&& overlayed.state.worker == self.state.worker
                        &&& overlayed.state.guest_os == (match guest_os {
                            Some(os) => os,
                            None => GuestOs::Unknown,
                        })
                        &&& overlayed.state.overlay_path@ == overlay_path_of(
                            args.temp_dir@,
                            self.state.worker@,
                        )
                    }
                } else {
                    r matches Err(e) && e@ == overlay_failure(
                        golden_path@,
                        overlay_path_of(args.temp_dir@, self.state.worker@),
                        out.stderr@,
                    )
                },
            },
    {
        match self.state.overlay(args, golden_path, guest_os, output) {
            Ok(overlayed) => Ok(Self::next_state(overlayed)),
            Err(error) => Err(error),
        }
    }

    /// Proceed to the next state as if we actually overlayed the worker.
    ///
    /// * `args` - The KVM-specific args passed to the reactor
    pub fn mock_overlay(self, args: &Kvm) -> (r: KvmWorker<Overlayed>)
        ensures
            r.state.worker == self.state.worker,
            r.state.guest_os == GuestOs::Unknown,
            r.state.overlay_path@ == overlay_path_of(args.temp_dir@, self.state.worker@),
    {
        Self::next_state(self.state.mock_overlay(args))
    }
}

impl KvmWorker<Overlayed> {
    /// Define the worker, once its domain was defined. See [`Overlayed::define`].
    pub fn define(self, domain: Result<(), String>) -> (r: Result<KvmWorker<Defined>, Error>)
        ensures
            match domain {
                Ok(_) => r matches Ok(defined) && {
                    &&& self.state.leads_to(defined.state.domain_name, defined.state)
                    &&& defined.state.domain_name@ == domain_name_of(self.state.worker@)
                },
                Err(message) => r matches Err(e) && e@ == ErrorView::Virt(message@),
            },
    {
        match self.state.define(domain) {
            Ok(defined) => Ok(Self::next_state(defined)),
            Err(error) => Err(error),
        }
    }

    /// Proceed to the next state as if we actually defined the worker.
    pub fn mock_define(self) -> (r: KvmWorker<Defined>)
        ensures
            self.state.leads_to(r.state.domain_name, r.state),
            r.state.domain_name@ == domain_name_of(self.state.worker@),
    {
        Self::next_state(self.state.mock_define())
    }
}

impl KvmWorker<Defined> {
    /// Create the worker, spawning its domain in libvirt. See [`Defined::create`].
    pub fn create(self, spawned: Result<(), String>) -> (r: Result<KvmWorker<Created>, Error>)
        ensures
            match spawned {
                Ok(_) => r matches Ok(created) && created.state == created_at(
                    self.state,
                    created.state.created,
                ),
                Err(message) => r matches Err(e) && e@ == ErrorView::Virt(message@),
            },
    {
        match self.state.create(spawned) {
            Ok(created) => Ok(Self::next_state(created)),
            Err(error) => Err(error),
        }
    }

    /// Create the worker at a time. See [`Defined::create_at`].
    pub fn create_at(self, spawned: Result<(), String>, time: UtcTime) -> (r: Result<
        KvmWorker<Created>,
        Error,
    >)
        ensures
            match spawned {
                Ok(_) => r matches Ok(created) && created.state == created_at(self.state, time),
                Err(message) => r matches Err(e) && e@ == ErrorView::Virt(message@),
            },
    {
        match self.state.create_at(spawned, time) {
            Ok(created) => Ok(KvmWorker { state: created }),
            Err(error) => Err(error),
        }
    }

    /// Proceed to the next state as if we actually created the worker.
    pub fn mock_create(self) -> (r: KvmWorker<Created>)
        ensures
            r.state == created_at(self.state, r.state.created),
    {
        Self::next_state(self.state.mock_create())
    }
}

impl KvmWorker<Created> {
    /// Launch the worker by launching the Thorium agent on the target VM using QEMU guest
    /// agent.
    ///
    /// On error, the worker in its created state is returned with its launch attempts
    /// incremented, along with the error that occurred so we can maybe try to launch it again
    /// next time.
    ///
    /// * `outcome` - The PID of the agent that was launched, or the error that occurred
    pub fn launch(self, outcome: Result<u64, Error>) -> (r: Result<
        KvmWorker<Launched>,
        LaunchError,
    >)
        requires
            self.state.launch_attempts < u8::MAX,
        ensures
            match outcome {
                Ok(pid) => r matches Ok(launched) && self.state.leads_to(
                    Some(pid),
                    launched.state,
                ),
                Err(error) => r matches Err(LaunchError(created, e)) && {
                    &&& e == error
                    &&& created.state.last_launch_attempt is Some
                    &&& created.state == attempted(
                        self.state,
                        created.state.last_launch_attempt->0,
                    )
                },
            },
    {
        match self.state.launch(outcome) {
            Ok(launched) => Ok(Self::next_state(launched)),
            Err((created, error)) => Err(LaunchError(KvmWorker { state: created }, error)),
        }
    }

    /// Launch the worker at a time. See [`Created::launch_at`].
    pub fn launch_at(self, outcome: Result<u64, Error>, time: UtcTime) -> (r: Result<
        KvmWorker<Launched>,
        LaunchError,
    >)
        requires
            self.state.launch_attempts < u8::MAX,
        ensures
            match outcome {
                Ok(pid) => r matches Ok(launched) && launched_at(
                    self.state,
                    Some(pid),
                    time,
                    launched.state,
                ),
                Err(error) => r matches Err(LaunchError(created, e)) && {
                    &&& e == error
                    &&& created.state == attempted(self.state, time)
                },
            },
    {
        match self.state.launch_at(outcome, time) {
            Ok(launched) => Ok(KvmWorker { state: launched }),
            Err((created, error)) => Err(LaunchError(KvmWorker { state: created }, error)),
        }
    }

    /// Returns the domain name for this worker.
    pub fn domain_name(&self) -> (r: &str)
        ensures
            r@ == self.state.domain_name@,
    {
        self.state.domain_name.as_str()
    }

    /// Proceed to the next state as if we actually launched the worker.
    pub fn mock_launch(self) -> (r: KvmWorker<Launched>)
        ensures
            self.state.leads_to(None, r.state),
    {
        Self::next_state(self.state.mock_launch())
    }

    /// Returns whether this worker has attempted to launch the maximum
    /// number of times (or more).
    pub fn has_reached_max_attempts(&self) -> (r: bool)
        ensures
            r == (self.state.launch_attempts >= MAX_LAUNCH_ATTEMPTS),
    {
        self.state.has_reached_max_attempts()
    }

    /// Returns true if the domain is ready to attempt launch.
    pub fn ready_to_launch(&self) -> (r: bool)
        ensures
            exists|time: UtcTime| r == #[trigger] time.at_or_after(launch_due(self.state)),
    {
        self.state.ready_to_launch()
    }
}

impl KvmWorker<Launched> {
    /// Get the state of the Thorium agent in this worker.
    ///
    /// Update the heartbeat of the worker if we see the agent running.
    ///
    /// * `reply` - What came of the question for the agent's status
    pub fn agent_state(&mut self, reply: StatusReply) -> (r: Result<AgentState, Error>)
        ensures
            match reported_state(old(self).state.agent_pid, reply) {
                Ok(state) => r matches Ok(s) && s@ == state,
                Err(error) => r matches Err(e) && e@ == error,
            },
            final(self).state == (Launched {
                heartbeat: final(self).state.heartbeat,
                ..old(self).state
            }),
            reported_state(old(self).state.agent_pid, reply) != Ok::<AgentStateView, ErrorView>(
                AgentStateView::Running,
            ) ==> final(self).state == old(self).state,
    {
        self.state.agent_state(reply)
    }

    /// Returns whether this worker is due for a health check.
    pub fn is_health_check_due(&self) -> (r: bool)
        ensures
            exists|time: UtcTime| r == #[trigger] time.at_or_after(self.state.next_check),
    {
        self.state.is_health_check_due()
    }

    /// Schedule this worker for its next health check.
    pub fn schedule_next_health_check(&mut self)
        ensures
            final(self).state == (Launched {
                next_check: final(self).state.next_check,
                ..old(self).state
            }),
            exists|time: UtcTime| #[trigger] planned_check(time, final(self).state.next_check),
    {
        self.state.schedule_next_health_check()
    }

    /// Returns whether this worker has timed out completely.
    pub fn timed_out(&self) -> (r: bool)
        ensures
            exists|time: UtcTime|
                r == #[trigger] time.at_or_after(self.state.launched.later(DOMAIN_TIMEOUT as nat)),
    {
        self.state.timed_out()
    }

    /// Returns whether this unresponsive worker (missing agent) has timed out.
    pub fn timed_out_unresponsive(&self) -> (r: bool)
        ensures
            exists|time: UtcTime|
                r == #[trigger] time.at_or_after(
                    self.state.heartbeat.later(UNRESPONSIVE_DOMAIN_TIMEOUT as nat),
                ),
    {
        self.state.timed_out_unresponsive()
    }
}

/// Whether a worker is what we take for granted of one that we know by name alone: its
/// overlay and its domain are where they belong, its OS and its agent are unknown.
pub open spec fn presumed(
    args: Kvm,
    worker: Seq<char>,
    time: UtcTime,
    launched: Launched,
) -> bool {
    &&& launched.worker@ == worker
    &&& launched.guest_os == GuestOs::Unknown
    &&& launched.overlay_path@ == overlay_path_of(args.temp_dir@, worker)
    &&& launched.domain_name@ == domain_name_of(worker)
    &&& launched.agent_pid is None
    &&& launched.launched == time
    &&& launched.heartbeat == time
    &&& planned_check(time, launched.next_check)
}

/// A worker that we know by name alone, assuming that it's already been launched at a time.
///
/// * `worker` - The name of the worker
/// * `args` - The KVM-specific args passed to the reactor
/// * `time` - The time to take for that of the launch
pub fn presume_launched_at(worker: String, args: &Kvm, time: UtcTime) -> (r: KvmWorker<Launched>)
    ensures
        presumed(*args, worker@, time, r.state),
{
    let created: KvmWorker<Created> = KvmWorker::init(worker).mock_overlay(
        args,
    ).mock_define().mock_create();
    KvmWorker { state: created.state.next_state_at(None, time) }
}

/// A worker that we know by name alone, assuming that it's already been launched.
///
/// * `worker` - The name of the worker
/// * `args` - The KVM-specific args passed to the reactor
pub fn presume_launched(worker: String, args: &Kvm) -> (r: KvmWorker<Launched>)
    ensures
        presumed(*args, worker@, r.state.launched, r.state),
{
    KvmWorker::init(worker).mock_overlay(args).mock_define().mock_create().mock_launch()
}

/// A KVM worker that is running (active)
#[derive(Debug)]
pub enum RunningKvmWorker {
    /// A worker that is active, but the Thorium agent hasn't been launched
    Created(KvmWorker<Created>),
    /// A worker that is launched and the Thorium agent should be running
    Launched(KvmWorker<Launched>),
}

impl RunningKvmWorker {
    /// What is left of the worker to destroy, in the order in which it goes.
    pub open spec fn remains(self) -> Seq<DestroyAction> {
        match self {
            RunningKvmWorker::Created(worker) => domain_and_overlay(
                worker.state.domain_name,
                worker.state.overlay_path,
            ),
            RunningKvmWorker::Launched(worker) => domain_and_overlay(
                worker.state.domain_name,
                worker.state.overlay_path,
            ),
        }
    }

    /// Destroy this worker: what there is to do.
    pub fn destroy(self) -> (r: Vec<DestroyAction>)
        ensures
            r@ == self.remains(),
    {
        match self {
            RunningKvmWorker::Created(worker) => worker.destroy(),
            RunningKvmWorker::Launched(worker) => worker.destroy(),
        }
    }
}

/// A worker that we know by name alone is destroyed the same way as one that went through
/// all states under the same args.
pub proof fn law_presumed_workers_are_destroyed_alike(
    args: Kvm,
    overlayed: Overlayed,
    defined: Defined,
    created: Created,
    launched: Launched,
    known_by_name: Launched,
)
    requires
        overlayed.overlay_path@ == overlay_path_of(args.temp_dir@, overlayed.worker@),
        overlayed.leads_to(defined.domain_name, defined),
        defined.domain_name@ == domain_name_of(overlayed.worker@),
        defined.leads_to((), created),
        created.leads_to(launched.agent_pid, launched),
        presumed(args, overlayed.worker@, known_by_name.launched, known_by_name),
    ensures
        launched.remains().len() == 2,
        known_by_name.remains().len() == 2,
        launched.remains()[0] matches DestroyAction::UndefineDomain(a) && (
        known_by_name.remains()[0] matches DestroyAction::UndefineDomain(b) && a@ == b@),
        launched.remains()[1] matches DestroyAction::DeleteOverlay(a) && (
        known_by_name.remains()[1] matches DestroyAction::DeleteOverlay(b) && a@ == b@),
{
}

} // verus!
