//! Launches KVM VMs for Thorium.
//!
//! The KVM launcher creates a domain for each worker from a golden image disk, transfers
//! the Thorium agent and the user's keys over with the QEMU guest agent, then launches the
//! Thorium agent.

use vstd::prelude::*;

use crate::args;
use crate::error::{in_context, Error, ErrorView};
use crate::guest_agent::exec_status;
use crate::json::json_rendered;
use crate::kvm_worker::{
    presume_launched,
    presume_launched_at,
    presumed,
    KvmWorker,
    LaunchError,
    RunningKvmWorker,
};
use crate::lists::turn_round;
use crate::models::{Worker, WorkerDeleteMap};
use crate::names::{NameMap, NameSet};
use crate::paths::{join, joined};
use crate::state::created::{attempted, launch_due, AgentPaths, MAX_LAUNCH_ATTEMPTS};
use crate::state::init::overlay_path_of;
use crate::state::launched::{
    reported_state,
    AgentState,
    AgentStateView,
    StatusQuery,
    StatusReply,
    DOMAIN_TIMEOUT,
    UNRESPONSIVE_DOMAIN_TIMEOUT,
};
use crate::state::overlayed::domain_name_of;
use crate::state::{launched_at, planned_check, Created, DestroyAction, Launched};
use crate::text::{join3, to_owned};
use crate::time::UtcTime;

verus! {

/// The default timeout for QEMU agent commands in seconds
pub const QEMU_AGENT_TIMEOUT_SECONDS: i32 = 60;

/// The error for an agent binary that could not be looked for.
pub open spec fn agent_unchecked(path: Seq<char>, error: Seq<char>) -> ErrorView {
    in_context("Error checking that Thorium agent binary exists at '"@ + path + "'"@, error)
}

/// The error for an agent binary that is missing.
pub open spec fn agent_missing(start: Seq<char>, path: Seq<char>) -> ErrorView {
    ErrorView::Generic(start + path + "'"@)
}

/// Verify that an agent binary exists where it should.
fn check_agent(path: &str, found: Result<bool, String>, start: &str) -> (r: Result<(), Error>)
    ensures
        match found {
            Ok(true) => r is Ok,
            Ok(false) => r matches Err(e) && e@ == agent_missing(start@, path@),
            Err(error) => r matches Err(e) && e@ == agent_unchecked(path@, error@),
        },
{
    match found {
        Ok(true) => Ok(()),
        Ok(false) => Err(Error::Generic(join3(start, path, "'"))),
        Err(error) => {
            let context: String = join3(
                "Error checking that Thorium agent binary exists at '",
                path,
                "'",
            );
            Err(Error::with_context(context.as_str(), error.as_str()))
        },
    }
}

impl AgentPaths {
    /// The paths of the agent binaries in a directory.
    pub fn in_dir(agents_dir: &str) -> (r: AgentPaths)
        ensures
            r.linux@ == joined(agents_dir@, "thorium-agent"@),
            r.windows@ == joined(agents_dir@, "thorium-agent.exe"@),
    {
        AgentPaths {
            linux: join(agents_dir, "thorium-agent"),
            windows: join(agents_dir, "thorium-agent.exe"),
        }
    }

    /// Verifies that both of the agent binaries exist where they should.
    ///
    /// * `linux` - Whether the Linux agent exists, or the `Debug` text of the error in
    ///   finding out
    /// * `windows` - Whether the Windows agent exists, or the `Debug` text of the error in
    ///   finding out
    pub fn check_agents_exist(&self, linux: Result<bool, String>, windows: Result<
        bool,
        String,
    >) -> (r: Result<(), Error>)
        ensures
            match (linux, windows) {
                (Ok(false), _) => r matches Err(e) && e@ == agent_missing(
                    "Thorium agent for Linux is missing at path '"@,
                    self.linux@,
                ),
                (Err(error), _) => r matches Err(e) && e@ == agent_unchecked(
                    self.linux@,
                    error@,
                ),
                (Ok(true), Ok(false)) => r matches Err(e) && e@ == agent_missing(
                    "Thorium agent for Windows is missing at path '"@,
                    self.windows@,
                ),
                (Ok(true), Err(error)) => r matches Err(e) && e@ == agent_unchecked(
                    self.windows@,
                    error@,
                ),
                (Ok(true), Ok(true)) => r is Ok,
            },
    {
        match check_agent(
            self.linux.as_str(),
            linux,
            "Thorium agent for Linux is missing at path '",
        ) {
            Ok(_) => check_agent(
                self.windows.as_str(),
                windows,
                "Thorium agent for Windows is missing at path '",
            ),
            Err(error) => Err(error),
        }
    }
}

/// A launcher for KVM-based jobs
#[derive(Debug)]
pub struct Kvm {
    /// The kvm specific args
    pub args: args::Kvm,
    /// The KVM workers in flight
    pub running_workers: NameMap<RunningKvmWorker>,
    /// The path to the Thorium agent binaries on disk
    pub agent_paths: AgentPaths,
}

/// What the state of a domain asks for next
#[derive(Debug)]
pub enum NextStep {
    /// Nothing for now
    Settled,
    /// Launch this worker, which was taken out of the running ones
    Launch(KvmWorker<Created>),
    /// Ask for the status of the worker's agent, with this query if its process is known
    AskAgent(Option<StatusQuery>),
}

/// What came of an attempt to launch a worker
#[derive(Debug)]
pub enum LaunchAttempt {
    /// The worker's domain could not be looked up, with the libvirt error
    LookupFailed(String),
    /// The launch was tried, with the PID of the agent or the error
    Tried(Result<u64, Error>),
}

/// What to do with a running worker at a time
pub enum Verdict {
    /// Leave it as it is
    Keep,
    /// Shut it down
    ShutDown,
    /// Launch it
    Launch,
    /// Ask for the status of its agent
    AskAgent,
    /// Start to track it
    Reclaim,
}

/// What to do with a running worker at a time. A created worker that has been tried too
/// often is shut down, one that is ready is launched, and a launched one that is due is
/// checked. One that is not tracked is reclaimed.
pub open spec fn verdict(worker: Option<RunningKvmWorker>, time: UtcTime) -> Verdict {
    match worker {
        Some(RunningKvmWorker::Created(worker)) => if worker.state.launch_attempts
            >= MAX_LAUNCH_ATTEMPTS {
            Verdict::ShutDown
        } else if time.at_or_after(launch_due(worker.state)) {
            Verdict::Launch
        } else {
            Verdict::Keep
        },
        Some(RunningKvmWorker::Launched(worker)) => if time.at_or_after(worker.state.next_check) {
            Verdict::AskAgent
        } else {
            Verdict::Keep
        },
        None => Verdict::Reclaim,
    }
}

/// The worker of a name that is tracked.
pub open spec fn claimed(
    workers: Map<Seq<char>, RunningKvmWorker>,
    name: Seq<char>,
) -> Option<RunningKvmWorker> {
    if workers.dom().contains(name) {
        Some(workers[name])
    } else {
        None
    }
}

/// The active workers once a worker that is running was reclaimed.
pub open spec fn with_reclaimed(
    active: Map<Seq<char>, Worker>,
    name: Seq<char>,
    worker: Worker,
) -> Map<Seq<char>, Worker> {
    if active.dom().contains(name) {
        active
    } else {
        active.insert(name, worker)
    }
}

/// The state of a worker's agent, as far as it is known. Where it cannot be told, the agent
/// counts as missing.
pub open spec fn known_state(agent_pid: Option<u64>, reply: StatusReply) -> AgentStateView {
    match reported_state(agent_pid, reply) {
        Ok(state) => state,
        Err(_) => AgentStateView::Missing,
    }
}

/// The worker once its agent was checked at a time, but for the time of the next check.
pub open spec fn checked(worker: Launched, state: AgentStateView, time: UtcTime) -> Launched {
    Launched {
        heartbeat: if state is Running {
            time
        } else {
            worker.heartbeat
        },
        ..worker
    }
}

/// Whether a worker is to be shut down for the state of its agent at a time: when the agent
/// is over for whatever reason, when it has been missing for too long, and when it has been
/// running for too long.
pub open spec fn is_finished(worker: Launched, state: AgentStateView, time: UtcTime) -> bool {
    match state {
        AgentStateView::Missing => time.at_or_after(
            worker.heartbeat.later(UNRESPONSIVE_DOMAIN_TIMEOUT as nat),
        ),
        AgentStateView::Running => time.at_or_after(worker.launched.later(DOMAIN_TIMEOUT as nat)),
        AgentStateView::Exited => true,
        AgentStateView::Errored { .. } => true,
        AgentStateView::Completed => true,
    }
}

/// A set of names with one more, where that is called for.
pub open spec fn with_name(names: Set<Seq<char>>, called_for: bool, name: Seq<char>) -> Set<
    Seq<char>,
> {
    if called_for {
        names.insert(name)
    } else {
        names
    }
}

/// Whether a running worker is reconciled at a time: the launcher is as it was but for that
/// worker, and what is asked for next is what the verdict on the worker calls for.
///
/// * `args` - The args of the launcher
/// * `workers` - The tracked workers before and after
/// * `shutdowns` - The workers marked for shutdown before and after
/// * `active` - The reactor's active workers before and after
pub open spec fn is_reconciled(
    args: args::Kvm,
    workers: (Map<Seq<char>, RunningKvmWorker>, Map<Seq<char>, RunningKvmWorker>),
    name: Seq<char>,
    worker: Worker,
    shutdowns: (Set<Seq<char>>, Set<Seq<char>>),
    active: (Map<Seq<char>, Worker>, Map<Seq<char>, Worker>),
    time: UtcTime,
    step: NextStep,
) -> bool {
    let judged = verdict(claimed(workers.0, name), time);
    &&& shutdowns.1 == with_name(shutdowns.0, judged is ShutDown, name)
    &&& match judged {
        Verdict::Keep | Verdict::ShutDown => {
            &&& step is Settled
            &&& workers.1 == workers.0
            &&& active.1 == active.0
        },
        Verdict::Launch => {
            &&& step matches NextStep::Launch(created) && workers.0[name]
                == RunningKvmWorker::Created(created)
            &&& workers.1 == workers.0.remove(name)
            &&& active.1 == active.0
        },
        Verdict::AskAgent => {
            &&& step matches NextStep::AskAgent(query) && (workers.0[name] matches
                RunningKvmWorker::Launched(launched) && (query is Some
                <==> launched.state.agent_pid is Some) && (query matches Some(q)
                ==> q.domain_name@ == launched.state.domain_name@ && q.command@ == json_rendered(
                exec_status(launched.state.agent_pid->0 as nat),
            )))
            &&& workers.1 == workers.0
            &&& active.1 == active.0
        },
        Verdict::Reclaim => {
            &&& step is Settled
            &&& exists|launched: KvmWorker<Launched>|
                presumed(args, name, time, launched.state) && workers.1
                    == #[trigger] workers.0.insert(name, RunningKvmWorker::Launched(launched))
            &&& active.1 == with_reclaimed(active.0, name, worker)
        },
    }
}

/// Whether what came of the question for the status of a worker's agent is taken in at a time.
///
/// * `workers` - The tracked workers before and after
/// * `shutdowns` - The workers marked for shutdown before and after
/// * `deletes` - The workers to delete from the API before and after
/// * `known` - The state of the agent that is made known, where there is one
pub open spec fn is_taken_in(
    workers: (Map<Seq<char>, RunningKvmWorker>, Map<Seq<char>, RunningKvmWorker>),
    name: Seq<char>,
    reply: StatusReply,
    shutdowns: (Set<Seq<char>>, Set<Seq<char>>),
    deletes: (Set<Seq<char>>, Set<Seq<char>>),
    time: UtcTime,
    known: Option<AgentStateView>,
) -> bool {
    match claimed(workers.0, name) {
        Some(RunningKvmWorker::Launched(launched)) => {
            let state = known_state(launched.state.agent_pid, reply);
            let after = checked(launched.state, state, time);
            &&& known == Some(state)
            &&& exists|next_check: UtcTime| #[trigger]
                planned_check(time, next_check) && workers.1 == workers.0.insert(
                    name,
                    RunningKvmWorker::Launched(
                        KvmWorker { state: Launched { next_check, ..after } },
                    ),
                )
            &&& shutdowns.1 == with_name(shutdowns.0, is_finished(after, state, time), name)
            &&& deletes.1 == with_name(deletes.0, state is Completed, name)
        },
        _ => {
            &&& known is None
            &&& workers.1 == workers.0
            &&& shutdowns.1 == shutdowns.0
            &&& deletes.1 == deletes.0
        },
    }
}

impl Kvm {
    /// Create a new kvm connector.
    ///
    /// * `args` - The args for the kvm launcher
    /// * `agents_dir` - The directory of the agent binaries
    /// * `temp_dir` - Whether the temporary directory was created, or the `Debug` text of the
    ///   error
    /// * `linux` - Whether the Linux agent exists, or the `Debug` text of the error in
    ///   finding out
    /// * `windows` - Whether the Windows agent exists, or the `Debug` text of the error in
    ///   finding out
    pub fn new(
        args: args::Kvm,
        agents_dir: &str,
        temp_dir: Result<(), String>,
        linux: Result<bool, String>,
        windows: Result<bool, String>,
    ) -> (r: Result<Kvm, Error>)
        ensures
            match temp_dir {
                Err(error) => r matches Err(e) && e@ == in_context(
                    "Error creating temporary directory '"@ + args.temp_dir@ + "'"@,
                    error@,
                ),
                Ok(_) => match (linux, windows) {
                    (Ok(true), Ok(true)) => r matches Ok(kvm) && {
                        &&& kvm.args == args
                        &&& kvm.running_workers@ == Map::<Seq<char>, RunningKvmWorker>::empty()
                        &&& kvm.agent_paths.linux@ == joined(agents_dir@, "thorium-agent"@)
                        &&& kvm.agent_paths.windows@ == joined(agents_dir@, "thorium-agent.exe"@)
                    },
                    (Ok(false), _) => r matches Err(e) && e@ == agent_missing(
                        "Thorium agent for Linux is missing at path '"@,
                        joined(agents_dir@, "thorium-agent"@),
                    ),
                    (Err(error), _) => r matches Err(e) && e@ == agent_unchecked(
                        joined(agents_dir@, "thorium-agent"@),
                        error@,
                    ),
                    (Ok(true), Ok(false)) => r matches Err(e) && e@ == agent_missing(
                        "Thorium agent for Windows is missing at path '"@,
                        joined(agents_dir@, "thorium-agent.exe"@),
                    ),
                    (Ok(true), Err(error)) => r matches Err(e) && e@ == agent_unchecked(
                        joined(agents_dir@, "thorium-agent.exe"@),
                        error@,
                    ),
                },
            },
    {
        if let Err(error) = temp_dir {
            let context: String = join3(
                "Error creating temporary directory '",
                args.temp_dir.as_str(),
                "'",
            );
            return Err(Error::with_context(context.as_str(), error.as_str()));
        }
        let agent_paths: AgentPaths = AgentPaths::in_dir(agents_dir);
        match agent_paths.check_agents_exist(linux, windows) {
            Ok(_) => Ok(Kvm { args, running_workers: NameMap::new(), agent_paths }),
            Err(error) => Err(error),
        }
    }

    /// Check the status of a running KVM worker at a time, attempting to launch if ready or
    /// marking for shutdown.
    ///
    /// * `worker_name` - The name of the worker in Thorium
    /// * `worker` - The worker's data in Thorium
    /// * `shutdowns` - The set of workers marked for shutdown
    /// * `active` - The reactor's master map of active Thorium workers
    /// * `time` - The time of the check
    pub fn reconcile_running_worker(
        &mut self,
        worker_name: &str,
        worker: &Worker,
        shutdowns: &mut NameSet,
        active: &mut NameMap<Worker>,
        time: UtcTime,
    ) -> (r: NextStep)
        ensures
            final(self).args == old(self).args,
            final(self).agent_paths == old(self).agent_paths,
            is_reconciled(
                old(self).args,
                (old(self).running_workers@, final(self).running_workers@),
                worker_name@,
                *worker,
                (old(shutdowns)@, final(shutdowns)@),
                (old(active)@, final(active)@),
                time,
                r,
            ),
    {
        let step: Verdict = match self.running_workers.get(worker_name) {
            Some(RunningKvmWorker::Created(created)) => if created.has_reached_max_attempts() {
                Verdict::ShutDown
            } else if created.state.ready_to_launch_at(time) {
                Verdict::Launch
            } else {
                Verdict::Keep
            },
            Some(RunningKvmWorker::Launched(launched)) => {
                if launched.state.is_health_check_due_at(time) {
                    return NextStep::AskAgent(launched.state.status_query());
                }
                Verdict::Keep
            },
            None => Verdict::Reclaim,
        };
        match step {
            Verdict::Keep => NextStep::Settled,
            Verdict::ShutDown => {
                shutdowns.insert(worker_name);
                NextStep::Settled
            },
            Verdict::Launch => match self.running_workers.remove(worker_name) {
                Some(RunningKvmWorker::Created(created)) => NextStep::Launch(created),
                _ => NextStep::Settled,
            },
            _ => {
                self.reclaim_worker(worker_name, worker, active, time);
                NextStep::Settled
            },
        }
    }

    /// Take in what came of the question for the status of a worker's agent, marking the
    /// worker for shutdown on exit, error, or timeout.
    ///
    /// * `worker_name` - The name of the worker in Thorium
    /// * `reply` - What came of the question
    /// * `shutdowns` - The set of workers marked for shutdown
    /// * `worker_delete_map` - A map of workers to manually delete from the API
    /// * `time` - The time of the check
    pub fn agent_answered(
        &mut self,
        worker_name: &str,
        reply: StatusReply,
        shutdowns: &mut NameSet,
        worker_delete_map: &mut WorkerDeleteMap,
        time: UtcTime,
    ) -> (r: Option<AgentState>)
        ensures
            final(self).args == old(self).args,
            final(self).agent_paths == old(self).agent_paths,
            is_taken_in(
                (old(self).running_workers@, final(self).running_workers@),
                worker_name@,
                reply,
                (old(shutdowns)@, final(shutdowns)@),
                (old(worker_delete_map).workers@, final(worker_delete_map).workers@),
                time,
                match r {
                    Some(state) => Some(state@),
                    None => None,
                },
            ),
    {
        let ghost before = self.running_workers@;
        match self.running_workers.remove(worker_name) {
            Some(RunningKvmWorker::Launched(worker)) => {
                let mut launched: KvmWorker<Launched> = worker;
                let state: AgentState = match launched.state.agent_state_at(reply, time) {
                    Ok(state) => state,
                    Err(_) => AgentState::Missing,
                };
                launched.state.schedule_next_health_check_at(time);
                let shut_down: bool = match &state {
                    AgentState::Missing => launched.state.timed_out_unresponsive_at(time),
                    AgentState::Running => launched.state.timed_out_at(time),
                    AgentState::Exited => true,
                    AgentState::Errored { .. } => true,
                    AgentState::Completed => true,
                };
                if shut_down {
                    shutdowns.insert(worker_name);
                }
                if let AgentState::Completed = &state {
                    worker_delete_map.add_mut(worker_name);
                }
                let ghost next_check = launched.state.next_check;
                self.running_workers.insert(
                    to_owned(worker_name),
                    RunningKvmWorker::Launched(launched),
                );
                proof {
                    assert(planned_check(time, next_check));
                    assert(before.remove(worker_name@).insert(
                        worker_name@,
                        RunningKvmWorker::Launched(launched),
                    ) =~= before.insert(worker_name@, RunningKvmWorker::Launched(launched)));
                }
                Some(state)
            },
            Some(other) => {
                self.running_workers.insert(to_owned(worker_name), other);
                assert(self.running_workers@ =~= before);
                None
            },
            None => {
                assert(self.running_workers@ =~= before);
                None
            },
        }
    }

    /// Reclaim a running worker which we aren't currently tracking.
    ///
    /// * `worker_name` - The name of the worker
    /// * `worker` - The Thorium worker to reclaim
    /// * `active` - The map of active workers for the higher-level reactor to track
    /// * `time` - The time from which on the worker is tracked
    pub fn reclaim_worker(
        &mut self,
        worker_name: &str,
        worker: &Worker,
        active: &mut NameMap<Worker>,
        time: UtcTime,
    )
        ensures
            final(self).args == old(self).args,
            final(self).agent_paths == old(self).agent_paths,
            exists|launched: KvmWorker<Launched>|
                presumed(old(self).args, worker_name@, time, launched.state) && final(self).running_workers@ == #[trigger] old(self).running_workers@.insert(
                    worker_name@,
                    RunningKvmWorker::Launched(launched),
                ),
            final(active)@ == with_reclaimed(old(active)@, worker_name@, *worker),
    {
        if !active.contains_key(worker_name) {
            active.insert(to_owned(worker_name), worker.clone());
        }
        let launched: KvmWorker<Launched> = presume_launched_at(
            to_owned(worker_name),
            &self.args,
            time,
        );
        self.running_workers.insert(
            to_owned(worker_name),
            RunningKvmWorker::Launched(launched),
        );
    }

    /// Launch a [`KvmWorker`]. Where its domain was not found nothing was tried, so the
    /// attempt is not counted.
    ///
    /// * `kvm_worker` - The created [`KvmWorker`] to attempt to proceed to the [`Launched`]
    ///   state
    /// * `attempt` - What came of the attempt
    /// * `time` - The time of the attempt
    pub fn launch_kvm_worker(
        kvm_worker: KvmWorker<Created>,
        attempt: LaunchAttempt,
        time: UtcTime,
    ) -> (r: Result<KvmWorker<Launched>, LaunchError>)
        requires
            kvm_worker.state.launch_attempts < u8::MAX,
        ensures
            match attempt {
                LaunchAttempt::LookupFailed(message) => r matches Err(LaunchError(created, e)) && {
                    &&& created == kvm_worker
                    &&& e@ == ErrorView::Virt(message@)
                },
                LaunchAttempt::Tried(Ok(pid)) => r matches Ok(launched) && launched_at(
                    kvm_worker.state,
                    Some(pid),
                    time,
                    launched.state,
                ),
                LaunchAttempt::Tried(Err(error)) => r matches Err(LaunchError(created, e)) && {
                    &&& e == error
                    &&& created.state == attempted(kvm_worker.state, time)
                },
            },
    {
        match attempt {
            LaunchAttempt::LookupFailed(message) => Err(
                LaunchError(kvm_worker, Error::Virt(message)),
            ),
            LaunchAttempt::Tried(outcome) => kvm_worker.launch_at(outcome, time),
        }
    }

    /// Track what came of the launch of a worker. A worker that failed to launch is tracked
    /// again and may be tried again later.
    ///
    /// * `worker_name` - The name of the worker
    /// * `result` - The launched worker, or the created one and the error
    pub fn resolve_launch(&mut self, worker_name: String, result: Result<
        KvmWorker<Launched>,
        LaunchError,
    >) -> (r: Option<Error>)
        ensures
            final(self).args == old(self).args,
            final(self).agent_paths == old(self).agent_paths,
            match result {
                Ok(launched) => {
                    &&& r is None
                    &&& final(self).running_workers@ == old(self).running_workers@.insert(
                        worker_name@,
                        RunningKvmWorker::Launched(launched),
                    )
                },
                Err(LaunchError(created, error)) => {
                    &&& r == Some(error)
                    &&& final(self).running_workers@ == old(self).running_workers@.insert(
                        worker_name@,
                        RunningKvmWorker::Created(created),
                    )
                },
            },
    {
        match result {
            Ok(launched) => {
                self.running_workers.insert(worker_name, RunningKvmWorker::Launched(launched));
                None
            },
            Err(LaunchError(created, error)) => {
                self.running_workers.insert(worker_name, RunningKvmWorker::Created(created));
                Some(error)
            },
        }
    }

    /// Track a batch of created workers.
    ///
    /// * `launches` - The names of the workers and the created workers
    pub fn resolve_launches(&mut self, launches: Vec<(String, KvmWorker<Created>)>)
        ensures
            final(self).args == old(self).args,
            final(self).agent_paths == old(self).agent_paths,
            final(self).running_workers@ == with_created(
                old(self).running_workers@,
                launches@,
            ),
    {
        let ghost before = self.running_workers@;
        let ghost all = launches@;
        let mut turned: Vec<(String, KvmWorker<Created>)> = turn_round(launches);
        assert(all.take(0) =~= Seq::<(String, KvmWorker<Created>)>::empty());
        while turned.len() > 0
            invariant
                turned@.len() <= all.len(),
                self.args == old(self).args,
                self.agent_paths == old(self).agent_paths,
                self.running_workers@ == with_created(
                    before,
                    all.take(all.len() - turned@.len()),
                ),
                forall|i: int|
                    0 <= i < turned@.len() ==> #[trigger] turned@[i] == all[all.len() - 1 - i],
            decreases turned.len(),
        {
            let ghost done = all.len() - turned@.len();
            match turned.pop() {
                Some((name, created)) => {
                    proof {
                        assert(all[done] == (name, created));
                        assert(all.take(done + 1).drop_last() =~= all.take(done));
                    }
                    self.running_workers.insert(name, RunningKvmWorker::Created(created));
                },
                None => {},
            }
        }
        assert(all.take(all.len() as int) =~= all);
    }

    /// Shut down workers: what there is to do to destroy each of them. A worker that is not
    /// tracked is destroyed as one that was launched.
    ///
    /// * `workers` - The names of the workers
    pub fn shutdown(&mut self, workers: &NameSet) -> (r: Vec<(String, Vec<DestroyAction>)>)
        ensures
            final(self).args == old(self).args,
            final(self).agent_paths == old(self).agent_paths,
            final(self).running_workers@ == old(self).running_workers@.remove_keys(workers@),
            forall|name: Seq<char>|
                workers@.contains(name) <==> exists|i: int|
                    0 <= i < r@.len() && (#[trigger] r@[i]).0@ == name,
            forall|i: int, j: int|
                0 <= i < j < r@.len() ==> (#[trigger] r@[i]).0@ != (#[trigger] r@[j]).0@,
            forall|i: int|
                0 <= i < r@.len() ==> is_destruction(
                    old(self).args,
                    claimed(old(self).running_workers@, (#[trigger] r@[i]).0@),
                    r@[i].0@,
                    r@[i].1@,
                ),
    {
        let names: Vec<String> = workers.names();
        let mut out: Vec<(String, Vec<DestroyAction>)> = Vec::new();
        let ghost before = self.running_workers@;
        let ghost mut gone: Set<Seq<char>> = Set::empty();
        assert(before.remove_keys(Set::empty()) =~= before);
        for i in 0..names.len()
            invariant
                self.args == old(self).args,
                self.agent_paths == old(self).agent_paths,
                before == old(self).running_workers@,
                self.running_workers@ == before.remove_keys(gone),
                out@.len() == i,
                forall|name: Seq<char>|
                    gone.contains(name) <==> exists|j: int|
                        0 <= j < i && (#[trigger] names@[j])@ == name,
                forall|j: int, k: int|
                    0 <= j < k < names@.len() ==> (#[trigger] names@[j])@ != (
                    #[trigger] names@[k])@,
                forall|j: int| 0 <= j < i ==> (#[trigger] out@[j]).0@ == names@[j]@,
                forall|j: int|
                    0 <= j < i ==> is_destruction(
                        old(self).args,
                        claimed(before, (#[trigger] out@[j]).0@),
                        out@[j].0@,
                        out@[j].1@,
                    ),
        {
            let name: String = to_owned(names[i].as_str());
            let ghost key = name@;
            assert(key == names@[i as int]@);
            assert(!gone.contains(key)) by {
                if gone.contains(key) {
                    let j = choose|j: int| 0 <= j < i && (#[trigger] names@[j])@ == key;
                    assert(names@[j]@ != names@[i as int]@);
                }
            }
            let actions: Vec<DestroyAction> = match self.running_workers.remove(name.as_str()) {
                Some(worker) => worker.destroy(),
                None => presume_launched(to_owned(name.as_str()), &self.args).destroy(),
            };
            out.push((name, actions));
            proof {
                let earlier = gone;
                gone = gone.insert(key);
                assert(self.running_workers@ =~= before.remove_keys(gone));
                assert forall|n: Seq<char>| gone.contains(n) implies exists|j: int|
                    0 <= j < i + 1 && (#[trigger] names@[j])@ == n by {
                    if n == key {
                        assert(names@[i as int]@ == n);
                    } else {
                        assert(earlier.contains(n));
                        let j = choose|j: int| 0 <= j < i && (#[trigger] names@[j])@ == n;
                        assert(0 <= j < i + 1 && names@[j]@ == n);
                    }
                }
            }
        }
        proof {
            assert(gone =~= workers@);
            assert forall|name: Seq<char>| workers@.contains(name) implies exists|i: int|
                0 <= i < out@.len() && (#[trigger] out@[i]).0@ == name by {
                let i = choose|i: int| 0 <= i < names@.len() && (#[trigger] names@[i])@ == name;
                assert(out@[i].0@ == name);
            }
            assert forall|i: int| 0 <= i < out@.len() implies workers@.contains(
                (#[trigger] out@[i]).0@,
            ) by {
                assert(names@[i]@ == out@[i].0@);
            }
            assert forall|i: int, j: int| 0 <= i < j < out@.len() implies (#[trigger] out@[i]).0@
                != (#[trigger] out@[j]).0@ by {
                assert(names@[i]@ != names@[j]@);
            }
        }
        out
    }
}

/// The tracked workers once a batch of created ones was added.
pub open spec fn with_created(
    workers: Map<Seq<char>, RunningKvmWorker>,
    launches: Seq<(String, KvmWorker<Created>)>,
) -> Map<Seq<char>, RunningKvmWorker>
    decreases launches.len(),
{
    if launches.len() == 0 {
        workers
    } else {
        with_created(workers, launches.drop_last()).insert(
            launches.last().0@,
            RunningKvmWorker::Created(launches.last().1),
        )
    }
}

/// Whether actions are what there is to do to destroy a worker.
pub open spec fn is_destruction(
    args: args::Kvm,
    worker: Option<RunningKvmWorker>,
    name: Seq<char>,
    actions: Seq<DestroyAction>,
) -> bool {
    match worker {
        Some(running) => actions == running.remains(),
        None => {
            &&& actions.len() == 2
            &&& actions[0] matches DestroyAction::UndefineDomain(domain) && domain@
                == domain_name_of(name)
            &&& actions[1] matches DestroyAction::DeleteOverlay(path) && path@ == overlay_path_of(
                args.temp_dir@,
                name,
            )
        },
    }
}

/// A created worker once its launch was tried at each of the given times and failed.
pub open spec fn after_attempts(created: Created, times: Seq<UtcTime>) -> Created
    decreases times.len(),
{
    if times.len() == 0 {
        created
    } else {
        attempted(after_attempts(created, times.drop_last()), times.last())
    }
}

proof fn lemma_attempts_are_counted(created: Created, times: Seq<UtcTime>)
    requires
        created.launch_attempts == 0,
        times.len() <= MAX_LAUNCH_ATTEMPTS,
    ensures
        after_attempts(created, times).launch_attempts == times.len(),
    decreases times.len(),
{
    if times.len() > 0 {
        lemma_attempts_are_counted(created, times.drop_last());
    }
}

/// A worker is shut down once its launch has failed the maximum number of times, and not
/// before that, whenever the launches were tried and whenever it is looked at.
pub proof fn law_failing_launches_are_given_up(
    created: Created,
    times: Seq<UtcTime>,
    time: UtcTime,
)
    requires
        created.launch_attempts == 0,
        times.len() <= MAX_LAUNCH_ATTEMPTS,
    ensures
        verdict(
            Some(
                RunningKvmWorker::Created(KvmWorker { state: after_attempts(created, times) }),
            ),
            time,
        ) is ShutDown <==> times.len() == MAX_LAUNCH_ATTEMPTS,
{
    lemma_attempts_are_counted(created, times);
}

/// A worker whose fail-safe timeout has passed, and whose agent was last heard from longer ago
/// than an unresponsive one may be, is shut down by the next check of its agent, whatever
/// comes of that.
pub proof fn law_no_worker_outlives_its_timeouts(
    worker: Launched,
    reply: StatusReply,
    time: UtcTime,
)
    requires
        time.at_or_after(worker.launched.later(DOMAIN_TIMEOUT as nat)),
        time.at_or_after(worker.heartbeat.later(UNRESPONSIVE_DOMAIN_TIMEOUT as nat)),
    ensures
        is_finished(
            checked(worker, known_state(worker.agent_pid, reply), time),
            known_state(worker.agent_pid, reply),
            time,
        ),
{
}

} // verus!
