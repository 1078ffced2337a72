//! The possible states of a KVM worker.
//!
//! A worker goes from [`Init`] to [`Launched`]; each state holds what the work so far has
//! left behind. The logic for individual states is in the state's module.

use vstd::prelude::*;

use crate::os_detector::GuestOs;
use crate::time::{now, UtcTime};

pub mod created;
pub mod defined;
pub mod init;
pub mod launched;
pub mod overlayed;

verus! {

/// Something to do in order to destroy a worker.
#[derive(Debug)]
pub enum DestroyAction {
    /// Undefine the domain of this name, after shutting it down if it is active
    UndefineDomain(String),
    /// Delete the overlay file at this path
    DeleteOverlay(String),
}

/// What there is to do in order to destroy a worker with a domain and an overlay.
pub open spec fn domain_and_overlay(domain_name: String, overlay_path: String) -> Seq<
    DestroyAction,
> {
    seq![
        DestroyAction::UndefineDomain(domain_name),
        DestroyAction::DeleteOverlay(overlay_path),
    ]
}

/// A state a KVM worker can be in, with any data associated with the state.
pub trait KvmWorkerState: Sized {
    /// The next state
    type NextState;

    /// The previous state
    type PreviousState;

    /// The new data to put in the next state
    type NextStateData;

    /// The name of the worker.
    spec fn worker_name(&self) -> Seq<char>;

    /// What is left of the worker to destroy, in the order in which it goes.
    spec fn remains(&self) -> Seq<DestroyAction>;

    /// Whether a state is one that follows on this one with the given data.
    spec fn leads_to(&self, data: Self::NextStateData, next: Self::NextState) -> bool;

    /// Whether a state is one that this one goes back to.
    spec fn goes_back_to(&self, previous: Self::PreviousState) -> bool;

    /// Proceed to the next state.
    ///
    /// * `next_state_data` - Any data relevant to the next state
    fn next_state(self, next_state_data: Self::NextStateData) -> (r: Self::NextState)
        ensures
            self.leads_to(next_state_data, r),
    ;

    /// Revert to the previous state.
    fn previous_state(self) -> (r: Self::PreviousState)
        ensures
            self.goes_back_to(r),
    ;

    /// Destroy this worker and all of its associated data: what there is to do, from this
    /// state back to the first.
    fn destroy(self) -> (r: Vec<DestroyAction>)
        ensures
            r@ == self.remains(),
    ;

    /// Get the Thorium worker this KVM worker is associated with.
    fn get_worker(&self) -> (r: &str)
        ensures
            r@ == self.worker_name(),
    ;
}

/// This worker has only been initiated and assigned a Thorium worker
#[derive(Debug)]
pub struct Init {
    /// The name of the worker
    pub worker: String,
}

/// This worker has an overlay disk image created and assigned
#[derive(Debug)]
pub struct Overlayed {
    /// The name of the worker
    pub worker: String,
    /// The detected OS of the guest
    pub guest_os: GuestOs,
    /// The path to the worker's overlay file
    pub overlay_path: String,
}

/// This worker has a defined domain and is ready to be launched
#[derive(Debug)]
pub struct Defined {
    /// The name of the worker
    pub worker: String,
    /// The detected OS of the guest
    pub guest_os: GuestOs,
    /// The path to the worker's overlay file
    pub overlay_path: String,
    /// The name of the worker's domain
    pub domain_name: String,
}

/// This worker is created in that its domain is defined *and* running
#[derive(Debug)]
pub struct Created {
    /// The name of the worker
    pub worker: String,
    /// The detected OS of the guest
    pub guest_os: GuestOs,
    /// The path to the worker's overlay file
    pub overlay_path: String,
    /// The name of the worker's domain
    pub domain_name: String,
    /// The time this domain was created
    pub created: UtcTime,
    /// The time this domain attempted a launch
    pub last_launch_attempt: Option<UtcTime>,
    /// The number of times we've attempted to launch this domain
    pub launch_attempts: u8,
}

/// This worker has been launched and the Thorium agent was started,
/// though it may have crashed or exited
#[derive(Debug)]
pub struct Launched {
    /// The name of the worker
    pub worker: String,
    /// The detected OS of the guest
    pub guest_os: GuestOs,
    /// The path to the worker's overlay file
    pub overlay_path: String,
    /// The name of the worker's domain
    pub domain_name: String,
    /// The PID of the Thorium agent running in the domain
    pub agent_pid: Option<u64>,
    /// The time this worker was launched
    pub launched: UtcTime,
    /// The time we should check the status of this worker next
    pub next_check: UtcTime,
    /// The last time we've heard from this worker's Thorium agent
    pub heartbeat: UtcTime,
}

impl KvmWorkerState for () {
    type NextState = ();

    type PreviousState = ();

    type NextStateData = ();

    open spec fn worker_name(&self) -> Seq<char> {
        ""@
    }

    open spec fn remains(&self) -> Seq<DestroyAction> {
        Seq::empty()
    }

    open spec fn leads_to(&self, data: (), next: ()) -> bool {
        true
    }

    open spec fn goes_back_to(&self, previous: ()) -> bool {
        true
    }

    fn next_state(self, _next_state_data: ()) -> (r: ()) {
    }

    fn previous_state(self) -> (r: ()) {
    }

    fn destroy(self) -> (r: Vec<DestroyAction>) {
        Vec::new()
    }

    fn get_worker(&self) -> (r: &str) {
        ""
    }
}

impl KvmWorkerState for Init {
    type NextState = Overlayed;

    type PreviousState = ();

    /// The detected guest OS and the path to the overlay
    type NextStateData = (GuestOs, String);

    open spec fn worker_name(&self) -> Seq<char> {
        self.worker@
    }

    open spec fn remains(&self) -> Seq<DestroyAction> {
        Seq::empty()
    }

    open spec fn leads_to(&self, data: (GuestOs, String), next: Overlayed) -> bool {
        next == (Overlayed { worker: self.worker, guest_os: data.0, overlay_path: data.1 })
    }

    open spec fn goes_back_to(&self, previous: ()) -> bool {
        true
    }

    fn next_state(self, next_state_data: (GuestOs, String)) -> (r: Overlayed) {
        let (guest_os, overlay_path) = next_state_data;
        Overlayed { worker: self.worker, guest_os, overlay_path }
    }

    fn previous_state(self) -> (r: ()) {
    }

    fn destroy(self) -> (r: Vec<DestroyAction>) {
        Vec::new()
    }

    fn get_worker(&self) -> (r: &str) {
        self.worker.as_str()
    }
}

impl KvmWorkerState for Overlayed {
    type NextState = Defined;

    type PreviousState = Init;

    /// The name of the defined domain
    type NextStateData = String;

    open spec fn worker_name(&self) -> Seq<char> {
        self.worker@
    }

    open spec fn remains(&self) -> Seq<DestroyAction> {
        seq![DestroyAction::DeleteOverlay(self.overlay_path)]
    }

    open spec fn leads_to(&self, data: String, next: Defined) -> bool {
        next == (Defined {
            worker: self.worker,
            guest_os: self.guest_os,
            overlay_path: self.overlay_path,
            domain_name: data,
        })
    }

    open spec fn goes_back_to(&self, previous: Init) -> bool {
        previous == (Init { worker: self.worker })
    }

    fn next_state(self, next_state_data: String) -> (r: Defined) {
        Defined {
            worker: self.worker,
            guest_os: self.guest_os,
            overlay_path: self.overlay_path,
            domain_name: next_state_data,
        }
    }

    fn previous_state(self) -> (r: Init) {
        Init { worker: self.worker }
    }

    fn destroy(self) -> (r: Vec<DestroyAction>) {
        let mut actions: Vec<DestroyAction> = Vec::new();
        actions.push(DestroyAction::DeleteOverlay(self.overlay_path.clone()));
        let mut rest: Vec<DestroyAction> = self.previous_state().destroy();
        actions.append(&mut rest);
        assert(actions@ =~= self.remains());
        actions
    }

    fn get_worker(&self) -> (r: &str) {
        self.worker.as_str()
    }
}

/// The created state of a defined worker.
pub open spec fn created_at(defined: Defined, time: UtcTime) -> Created {
    Created {
        worker: defined.worker,
        guest_os: defined.guest_os,
        overlay_path: defined.overlay_path,
        domain_name: defined.domain_name,
        created: time,
        last_launch_attempt: None,
        launch_attempts: 0,
    }
}

impl KvmWorkerState for Defined {
    type NextState = Created;

    type PreviousState = Overlayed;

    /// No new data is needed for the next state
    type NextStateData = ();

    open spec fn worker_name(&self) -> Seq<char> {
        self.worker@
    }

    open spec fn remains(&self) -> Seq<DestroyAction> {
        domain_and_overlay(self.domain_name, self.overlay_path)
    }

    open spec fn leads_to(&self, data: (), next: Created) -> bool {
        next == created_at(*self, next.created)
    }

    open spec fn goes_back_to(&self, previous: Overlayed) -> bool {
        previous == (Overlayed {
            worker: self.worker,
            guest_os: self.guest_os,
            overlay_path: self.overlay_path,
        })
    }

    fn next_state(self, _next_state_data: ()) -> (r: Created) {
        let time: UtcTime = now();
        self.next_state_at(time)
    }

    fn previous_state(self) -> (r: Overlayed) {
        Overlayed {
            worker: self.worker,
            guest_os: self.guest_os,
            overlay_path: self.overlay_path,
        }
    }

    fn destroy(self) -> (r: Vec<DestroyAction>) {
        let mut actions: Vec<DestroyAction> = Vec::new();
        actions.push(DestroyAction::UndefineDomain(self.domain_name.clone()));
        let mut rest: Vec<DestroyAction> = self.previous_state().destroy();
        actions.append(&mut rest);
        assert(actions@ =~= self.remains());
        actions
    }

    fn get_worker(&self) -> (r: &str) {
        self.worker.as_str()
    }
}

/// Whether a health check is planned for a time from 30 to 60 seconds after another.
pub open spec fn planned_check(from: UtcTime, next_check: UtcTime) -> bool {
    exists|wait: nat| 30 <= wait <= 60 && next_check == #[trigger] from.later(wait)
}

/// Whether a worker is what a created one comes to when it is launched at a time.
pub open spec fn launched_at(
    created: Created,
    agent_pid: Option<u64>,
    time: UtcTime,
    launched: Launched,
) -> bool {
    &&& launched.worker == created.worker
    &&& launched.guest_os == created.guest_os
    &&& launched.overlay_path == created.overlay_path
    &&& launched.domain_name == created.domain_name
    &&& launched.agent_pid == agent_pid
    &&& launched.launched == time
    &&& launched.heartbeat == time
    &&& planned_check(time, launched.next_check)
}

impl KvmWorkerState for Created {
    type NextState = Launched;

    type PreviousState = Defined;

    /// The PID of the Thorium agent
    type NextStateData = Option<u64>;

    open spec fn worker_name(&self) -> Seq<char> {
        self.worker@
    }

    open spec fn remains(&self) -> Seq<DestroyAction> {
        domain_and_overlay(self.domain_name, self.overlay_path)
    }

    open spec fn leads_to(&self, data: Option<u64>, next: Launched) -> bool {
        launched_at(*self, data, next.launched, next)
    }

    open spec fn goes_back_to(&self, previous: Defined) -> bool {
        previous == (Defined {
            worker: self.worker,
            guest_os: self.guest_os,
            overlay_path: self.overlay_path,
            domain_name: self.domain_name,
        })
    }

    fn next_state(self, next_state_data: Option<u64>) -> (r: Launched) {
        let time: UtcTime = now();
        self.next_state_at(next_state_data, time)
    }

    fn previous_state(self) -> (r: Defined) {
        Defined {
            worker: self.worker,
            guest_os: self.guest_os,
            overlay_path: self.overlay_path,
            domain_name: self.domain_name,
        }
    }

    fn destroy(self) -> (r: Vec<DestroyAction>) {
        self.previous_state().destroy()
    }

    fn get_worker(&self) -> (r: &str) {
        self.worker.as_str()
    }
}

impl KvmWorkerState for Launched {
    /// There is no state after launched
    type NextState = ();

    type PreviousState = Created;

    type NextStateData = ();

    open spec fn worker_name(&self) -> Seq<char> {
        self.worker@
    }

    open spec fn remains(&self) -> Seq<DestroyAction> {
        domain_and_overlay(self.domain_name, self.overlay_path)
    }

    open spec fn leads_to(&self, data: (), next: ()) -> bool {
        true
    }

    open spec fn goes_back_to(&self, previous: Created) -> bool {
        previous == (Created {
            worker: self.worker,
            guest_os: self.guest_os,
            overlay_path: self.overlay_path,
            domain_name: self.domain_name,
            created: previous.created,
            last_launch_attempt: None,
            launch_attempts: 0,
        })
    }

    fn next_state(self, _next_state_data: ()) -> (r: ()) {
    }

    fn previous_state(self) -> (r: Created) {
        let time: UtcTime = now();
        self.previous_state_at(time)
    }

    fn destroy(self) -> (r: Vec<DestroyAction>) {
        self.previous_state().destroy()
    }

    fn get_worker(&self) -> (r: &str) {
        self.worker.as_str()
    }
}

/// Going back a state and then forward again with what was lost on the way gives the
/// state back.
pub proof fn law_back_and_forth(overlayed: Overlayed, init: Init, defined: Defined)
    requires
        overlayed.goes_back_to(init),
        defined.goes_back_to(overlayed),
    ensures
        init.leads_to((overlayed.guest_os, overlayed.overlay_path), overlayed),
        overlayed.leads_to(defined.domain_name, defined),
{
}

/// Destruction cascades back through the states to the first. A launched or a created
/// worker leaves what the state before left, a defined one its domain and what the state
/// before left, an overlayed one its overlay, and an initiated one nothing.
pub proof fn law_destruction_cascades(
    launched: Launched,
    created: Created,
    defined: Defined,
    overlayed: Overlayed,
    init: Init,
)
    requires
        launched.goes_back_to(created),
        created.goes_back_to(defined),
        defined.goes_back_to(overlayed),
        overlayed.goes_back_to(init),
    ensures
        launched.remains() == created.remains(),
        created.remains() == defined.remains(),
        defined.remains() == seq![DestroyAction::UndefineDomain(defined.domain_name)]
            + overlayed.remains(),
        overlayed.remains() == seq![DestroyAction::DeleteOverlay(overlayed.overlay_path)]
            + init.remains(),
        init.remains() == Seq::<DestroyAction>::empty(),
{
    assert(defined.remains() =~= seq![DestroyAction::UndefineDomain(defined.domain_name)]
        + overlayed.remains());
    assert(overlayed.remains() =~= seq![DestroyAction::DeleteOverlay(overlayed.overlay_path)]
        + init.remains());
}

} // verus!
