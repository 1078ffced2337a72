//! Reconciling the domains on a node with the workers that the API has for it.

use vstd::prelude::*;

use crate::args;
use crate::error::{Error, ErrorView};
use crate::kvm::{
    checked,
    claimed,
    is_destruction,
    is_finished,
    is_reconciled,
    is_taken_in,
    known_state,
    verdict,
    with_name,
    Kvm,
    NextStep,
    Verdict,
};
use crate::kvm_worker::RunningKvmWorker;
use crate::models::{Node, Worker, WorkerDeleteMap, WorkerStatus};
use crate::names::{lemma_one_more, NameMap, NameSet};
use crate::state::launched::{AgentStateView, StatusReply};
use crate::state::overlayed::WORKER_DOMAIN_NAME_PREFIX;
use crate::state::DestroyAction;
use crate::text::{strip_prefix, without_prefix};
use crate::time::UtcTime;

verus! {

/// What has been found out about the domains on a node so far
#[derive(Debug)]
pub struct Reconciliation {
    /// The workers that have a domain, active or not
    pub all_workers: NameSet,
    /// The workers that are marked for shutdown
    pub shutdowns: NameSet,
    /// The workers to delete from the API
    pub worker_delete_map: WorkerDeleteMap,
}

/// What is left to be done once all domains on a node have been looked at
#[derive(Debug)]
pub struct Conclusion {
    /// The workers to destroy, and how
    pub shutdowns: Vec<(String, Vec<DestroyAction>)>,
    /// The workers to delete from the API, if there are any
    pub deletes: WorkerDeleteMap,
}

/// The workers among those marked for shutdown that the API has not set to shut down anyway.
pub open spec fn to_shut_down(
    shutdowns: Set<Seq<char>>,
    workers: Map<Seq<char>, Worker>,
) -> Set<Seq<char>> {
    Set::new(
        |name: Seq<char>|
            shutdowns.contains(name) && !(workers.dom().contains(name) && workers[name].status
                == WorkerStatus::Shutdown),
    )
}

/// The workers that the API has for a node but that have no domain there.
pub open spec fn missing_workers(
    all_workers: Set<Seq<char>>,
    workers: Map<Seq<char>, Worker>,
) -> Set<Seq<char>> {
    workers.dom().difference(all_workers)
}

/// The workers among those marked for shutdown that the API has not set to shut down anyway.
fn select_shutdowns(shutdowns: &NameSet, info: &Node) -> (r: NameSet)
    ensures
        r@ == to_shut_down(shutdowns@, info.workers@),
{
    let names: Vec<String> = shutdowns.names();
    let mut out: NameSet = NameSet::new();
    let ghost wanted = to_shut_down(shutdowns@, info.workers@);
    for i in 0..names.len()
        invariant
            wanted == to_shut_down(shutdowns@, info.workers@),
            forall|j: int| 0 <= j < names@.len() ==> shutdowns@.contains((#[trigger] names@[j])@),
            forall|name: Seq<char>| #[trigger]
                out@.contains(name) <==> wanted.contains(name) && exists|j: int|
                    0 <= j < i && (#[trigger] names@[j])@ == name,
    {
        let name: &str = names[i].as_str();
        let set_to_shut_down: bool = match info.workers.get(name) {
            Some(worker) => worker.status == WorkerStatus::Shutdown,
            None => false,
        };
        let ghost before = out@;
        if !set_to_shut_down {
            out.insert(name);
        }
        proof {
            assert(wanted.contains(name@) == !set_to_shut_down);
            lemma_one_more(names@, i as int, before, out@, wanted);
        }
    }
    assert(out@ =~= wanted);
    out
}

/// The workers that the API has for a node but that have no domain there.
fn select_missing(all_workers: &NameSet, info: &Node) -> (r: NameSet)
    ensures
        r@ == missing_workers(all_workers@, info.workers@),
{
    let names: Vec<String> = info.workers.keys();
    let mut out: NameSet = NameSet::new();
    let ghost wanted = missing_workers(all_workers@, info.workers@);
    for i in 0..names.len()
        invariant
            wanted == missing_workers(all_workers@, info.workers@),
            forall|j: int|
                0 <= j < names@.len() ==> info.workers@.dom().contains((#[trigger] names@[j])@),
            forall|name: Seq<char>| #[trigger]
                out@.contains(name) <==> wanted.contains(name) && exists|j: int|
                    0 <= j < i && (#[trigger] names@[j])@ == name,
    {
        let name: &str = names[i].as_str();
        let seen: bool = all_workers.contains(name);
        let ghost before = out@;
        if !seen {
            out.insert(name);
        }
        proof {
            assert(info.workers@.dom().contains(names@[i as int]@));
            assert(wanted.contains(name@) == !seen);
            lemma_one_more(names@, i as int, before, out@, wanted);
        }
    }
    assert(out@ =~= wanted);
    out
}

/// The workers among those to delete that the API knows.
fn select_known(deletes: &NameSet, info: &Node) -> (r: NameSet)
    ensures
        r@ == deletes@.intersect(info.workers@.dom()),
{
    let names: Vec<String> = deletes.names();
    let mut out: NameSet = NameSet::new();
    let ghost wanted = deletes@.intersect(info.workers@.dom());
    for i in 0..names.len()
        invariant
            wanted == deletes@.intersect(info.workers@.dom()),
            forall|j: int| 0 <= j < names@.len() ==> deletes@.contains((#[trigger] names@[j])@),
            forall|name: Seq<char>| #[trigger]
                out@.contains(name) <==> wanted.contains(name) && exists|j: int|
                    0 <= j < i && (#[trigger] names@[j])@ == name,
    {
        let name: &str = names[i].as_str();
        let known: bool = info.workers.contains_key(name);
        let ghost before = out@;
        if known {
            out.insert(name);
        }
        proof {
            assert(deletes@.contains(names@[i as int]@));
            assert(wanted.contains(name@) == known);
            lemma_one_more(names@, i as int, before, out@, wanted);
        }
    }
    assert(out@ =~= wanted);
    out
}

impl Reconciliation {
    /// Nothing has been found out yet.
    pub fn new() -> (r: Reconciliation)
        ensures
            r.all_workers@ == Set::<Seq<char>>::empty(),
            r.shutdowns@ == Set::<Seq<char>>::empty(),
            r.worker_delete_map.workers@ == Set::<Seq<char>>::empty(),
    {
        Reconciliation {
            all_workers: NameSet::new(),
            shutdowns: NameSet::new(),
            worker_delete_map: WorkerDeleteMap::new(),
        }
    }

    /// Take in that there is a domain. Returns the name of its worker if the domain is managed
    /// by Thorium.
    ///
    /// * `domain_name` - The name of the domain
    pub fn see_domain(&mut self, domain_name: &str) -> (r: Option<String>)
        ensures
            final(self).shutdowns == old(self).shutdowns,
            final(self).worker_delete_map == old(self).worker_delete_map,
            match without_prefix(domain_name@, WORKER_DOMAIN_NAME_PREFIX@) {
                Some(worker) => {
                    &&& r matches Some(name) && name@ == worker
                    &&& final(self).all_workers@ == old(self).all_workers@.insert(worker)
                },
                None => r is None && final(self).all_workers@ == old(self).all_workers@,
            },
    {
        match strip_prefix(domain_name, WORKER_DOMAIN_NAME_PREFIX) {
            Some(name) => {
                self.all_workers.insert(name.as_str());
                Some(name)
            },
            None => None,
        }
    }
}

/// Whether the worker of a domain is reconciled at a time. One whose domain is not running, or
/// that no longer exists in the API, is marked for shutdown and left as it is else.
///
/// * `args` - The args of the launcher
/// * `workers` - The tracked workers before and after
/// * `info` - The workers that the API has for the node
/// * `shutdowns` - The workers marked for shutdown before and after
/// * `active` - The reactor's active workers before and after
pub open spec fn is_looked_at(
    args: args::Kvm,
    workers: (Map<Seq<char>, RunningKvmWorker>, Map<Seq<char>, RunningKvmWorker>),
    name: Seq<char>,
    is_active: bool,
    info: Map<Seq<char>, Worker>,
    shutdowns: (Set<Seq<char>>, Set<Seq<char>>),
    active: (Map<Seq<char>, Worker>, Map<Seq<char>, Worker>),
    time: UtcTime,
    step: NextStep,
) -> bool {
    if !is_active || !info.dom().contains(name) {
        &&& step is Settled
        &&& workers.1 == workers.0
        &&& shutdowns.1 == shutdowns.0.insert(name)
        &&& active.1 == active.0
    } else {
        is_reconciled(args, workers, name, info[name], shutdowns, active, time, step)
    }
}

impl Kvm {
    /// Reconcile the worker of a domain at a time. A worker whose domain is not running, or
    /// that no longer exists in the API, is marked for shutdown.
    ///
    /// * `found` - What has been found out so far
    /// * `worker_name` - The name of the worker
    /// * `is_active` - Whether the domain is active
    /// * `info` - Info about our node and its workers
    /// * `active` - The reactor's master map of active Thorium workers
    /// * `time` - The time of the check
    pub fn reconcile_domain(
        &mut self,
        found: &mut Reconciliation,
        worker_name: &str,
        is_active: bool,
        info: &Node,
        active: &mut NameMap<Worker>,
        time: UtcTime,
    ) -> (r: NextStep)
        ensures
            final(self).args == old(self).args,
            final(self).agent_paths == old(self).agent_paths,
            final(found).all_workers == old(found).all_workers,
            final(found).worker_delete_map == old(found).worker_delete_map,
            is_looked_at(
                old(self).args,
                (old(self).running_workers@, final(self).running_workers@),
                worker_name@,
                is_active,
                info.workers@,
                (old(found).shutdowns@, final(found).shutdowns@),
                (old(active)@, final(active)@),
                time,
                r,
            ),
    {
        if !is_active {
            found.shutdowns.insert(worker_name);
            return NextStep::Settled;
        }
        match info.workers.get(worker_name) {
            None => {
                found.shutdowns.insert(worker_name);
                NextStep::Settled
            },
            Some(worker) => self.reconcile_running_worker(
                worker_name,
                worker,
                &mut found.shutdowns,
                active,
                time,
            ),
        }
    }

    /// Draw the conclusions once all domains have been looked at.
    ///
    /// The workers that are marked for shutdown are destroyed, but for those that the API has
    /// set to shut down: those will be shut down later anyway. They leave the active workers,
    /// and so do the workers that have no domain. Only workers that the API knows are deleted
    /// from it.
    ///
    /// * `found` - What has been found out
    /// * `info` - Info about our node and its workers
    /// * `active` - The reactor's master map of active Thorium workers
    pub fn conclude(
        &mut self,
        found: Reconciliation,
        info: &Node,
        active: &mut NameMap<Worker>,
    ) -> (r: Conclusion)
        ensures
            final(self).args == old(self).args,
            final(self).agent_paths == old(self).agent_paths,
            ({
                let flagged = to_shut_down(found.shutdowns@, info.workers@);
                let missing = missing_workers(found.all_workers@, info.workers@);
                &&& final(self).running_workers@ == old(self).running_workers@.remove_keys(
                    flagged,
                ).remove_keys(missing)
                &&& final(active)@ == old(active)@.remove_keys(flagged).remove_keys(missing)
                &&& r.deletes.workers@ == found.worker_delete_map.workers@.intersect(
                    info.workers@.dom(),
                )
                &&& forall|name: Seq<char>|
                    flagged.contains(name) <==> exists|i: int|
                        0 <= i < r.shutdowns@.len() && (#[trigger] r.shutdowns@[i]).0@ == name
                &&& forall|i: int, j: int|
                    0 <= i < j < r.shutdowns@.len() ==> (#[trigger] r.shutdowns@[i]).0@ != (
                    #[trigger] r.shutdowns@[j]).0@
                &&& forall|i: int|
                    0 <= i < r.shutdowns@.len() ==> is_destruction(
                        old(self).args,
                        claimed(old(self).running_workers@, (#[trigger] r.shutdowns@[i]).0@),
                        r.shutdowns@[i].0@,
                        r.shutdowns@[i].1@,
                    )
            }),
    {
        let missing: NameSet = select_missing(&found.all_workers, info);
        let flagged: NameSet = select_shutdowns(&found.shutdowns, info);
        let shutdowns: Vec<(String, Vec<DestroyAction>)> = self.shutdown(&flagged);
        active.remove_names(&flagged);
        active.remove_names(&missing);
        self.running_workers.remove_names(&missing);
        let known: NameSet = select_known(&found.worker_delete_map.workers, info);
        Conclusion { shutdowns, deletes: WorkerDeleteMap { workers: known } }
    }
}

/// `http::StatusCode::NOT_FOUND`: the status of a response that says that what was asked for
/// does not exist is 404.
#[verifier::external_body]
fn not_found_status() -> (r: u16)
    ensures
        r == 404,
{
    http::StatusCode::NOT_FOUND.as_u16()
}

/// What came of the deletion of workers from the API. That one of them was not found is no
/// error: it was deleted at some point.
///
/// * `failure` - The status of the response, if there is one, and the message of the error
pub fn check_delete(failure: Option<(Option<u16>, String)>) -> (r: Result<(), Error>)
    ensures
        match failure {
            None => r is Ok,
            Some((status, message)) => if status == Some(404u16) {
                r is Ok
            } else {
                r matches Err(e) && e@ == ErrorView::Thorium(message@)
            },
        },
{
    match failure {
        None => Ok(()),
        Some((Some(status), message)) => if status == not_found_status() {
            Ok(())
        } else {
            Err(Error::Thorium(message))
        },
        Some((None, message)) => Err(Error::Thorium(message)),
    }
}

/// The workers that are dropped by a reconciliation leave the active workers and the
/// tracked ones alike, and no others leave.
pub proof fn law_dropped_workers_leave_both_maps(
    running: Map<Seq<char>, RunningKvmWorker>,
    active: Map<Seq<char>, Worker>,
    flagged: Set<Seq<char>>,
    missing: Set<Seq<char>>,
    name: Seq<char>,
)
    ensures
        running.remove_keys(flagged).remove_keys(missing).dom().contains(name) <==> (
        running.dom().contains(name) && !flagged.contains(name) && !missing.contains(name)),
        active.remove_keys(flagged).remove_keys(missing).dom().contains(name) <==> (
        active.dom().contains(name) && !flagged.contains(name) && !missing.contains(name)),
{
}

/// A worker that the API has set to shut down is never destroyed by a reconciliation, however
/// it was marked: the API's own shutdown takes care of it.
pub proof fn law_shutdown_is_left_to_the_api(
    shutdowns: Set<Seq<char>>,
    workers: Map<Seq<char>, Worker>,
    name: Seq<char>,
)
    requires
        workers.dom().contains(name),
        workers[name].status == WorkerStatus::Shutdown,
    ensures
        !to_shut_down(shutdowns, workers).contains(name),
{
}

/// Thorium finds its own domains: the domain name of a worker leads back to the worker.
pub proof fn law_domain_names_lead_back(worker: Seq<char>)
    ensures
        without_prefix(
            crate::state::overlayed::domain_name_of(worker),
            WORKER_DOMAIN_NAME_PREFIX@,
        ) == Some(worker),
{
    let name = crate::state::overlayed::domain_name_of(worker);
    let prefix = WORKER_DOMAIN_NAME_PREFIX@;
    assert(name.subrange(0, prefix.len() as int) =~= prefix);
    assert(name.skip(prefix.len() as int) =~= worker);
}

/// What there is to know of a domain in a reconciliation
pub struct DomainReport {
    /// The name of the domain
    pub name: Seq<char>,
    /// Whether the domain is active
    pub is_active: bool,
    /// The time at which the domain is looked at
    pub time: UtcTime,
    /// What came of the question for the status of the agent, where it is asked
    pub reply: StatusReply,
    /// The time at which that is taken in
    pub reply_time: UtcTime,
}

/// How far a reconciliation has come
pub struct Progress {
    /// The args of the launcher
    pub args: args::Kvm,
    /// The tracked workers
    pub workers: Map<Seq<char>, RunningKvmWorker>,
    /// The reactor's active workers
    pub active: Map<Seq<char>, Worker>,
    /// The workers that have a domain
    pub all_workers: Set<Seq<char>>,
    /// The workers that are marked for shutdown
    pub shutdowns: Set<Seq<char>>,
    /// The workers to delete from the API
    pub deletes: Set<Seq<char>>,
}

/// The worker of a domain, if the domain is managed by Thorium.
pub open spec fn worker_of(domain_name: Seq<char>) -> Option<Seq<char>> {
    without_prefix(domain_name, WORKER_DOMAIN_NAME_PREFIX@)
}

/// Whether one state of a reconciliation is the one that follows on another once the worker of
/// a domain was looked at.
pub open spec fn look_leads_to(
    info: Map<Seq<char>, Worker>,
    before: Progress,
    name: Seq<char>,
    report: DomainReport,
    step: NextStep,
    after: Progress,
) -> bool {
    &&& after.args == before.args
    &&& after.all_workers == before.all_workers.insert(name)
    &&& after.deletes == before.deletes
    &&& is_looked_at(
        before.args,
        (before.workers, after.workers),
        name,
        report.is_active,
        info,
        (before.shutdowns, after.shutdowns),
        (before.active, after.active),
        report.time,
        step,
    )
}

/// Whether one state of a reconciliation is the one that follows on another once what the look
/// at a worker called for was done: where the agent was asked, what came of it was taken in.
/// What comes of a launch is taken in later.
pub open spec fn answer_leads_to(
    before: Progress,
    name: Seq<char>,
    report: DomainReport,
    step: NextStep,
    after: Progress,
) -> bool {
    if step is AskAgent {
        &&& after.args == before.args
        &&& after.active == before.active
        &&& after.all_workers == before.all_workers
        &&& exists|known: Option<AgentStateView>| #[trigger]
            is_taken_in(
                (before.workers, after.workers),
                name,
                report.reply,
                (before.shutdowns, after.shutdowns),
                (before.deletes, after.deletes),
                report.reply_time,
                known,
            )
    } else {
        after == before
    }
}

/// Whether one state of a reconciliation is the one that follows on another once a domain was
/// dealt with. Domains that Thorium does not manage change nothing.
pub open spec fn domain_leads_to(
    info: Map<Seq<char>, Worker>,
    before: Progress,
    report: DomainReport,
    after: Progress,
) -> bool {
    match worker_of(report.name) {
        None => after == before,
        Some(name) => exists|middle: Progress, step: NextStep| #[trigger]
            look_leads_to(info, before, name, report, step, middle) && answer_leads_to(
                middle,
                name,
                report,
                step,
                after,
            ),
    }
}

/// Whether states of a reconciliation follow on each other as the domains are dealt with.
pub open spec fn reconciliation_runs(
    info: Map<Seq<char>, Worker>,
    states: Seq<Progress>,
    reports: Seq<DomainReport>,
) -> bool {
    &&& states.len() == reports.len() + 1
    &&& forall|i: int|
        0 <= i < reports.len() ==> domain_leads_to(
            info,
            states[i],
            #[trigger] reports[i],
            states[i + 1],
        )
}

/// Whether a worker that is known to the API and whose domain is active is to be shut down by
/// what is known of it: a created one that has been tried too often, and a launched one whose
/// agent was asked and is over, or has been missing or running for too long.
pub open spec fn is_flagged(worker: Option<RunningKvmWorker>, report: DomainReport) -> bool {
    match verdict(worker, report.time) {
        Verdict::ShutDown => true,
        Verdict::AskAgent => worker matches Some(RunningKvmWorker::Launched(launched)) && {
            let state = known_state(launched.state.agent_pid, report.reply);
            is_finished(
                checked(launched.state, state, report.reply_time),
                state,
                report.reply_time,
            )
        },
        _ => false,
    }
}

/// Whether the agent of a worker was asked and has completed.
pub open spec fn is_completed(worker: Option<RunningKvmWorker>, report: DomainReport) -> bool {
    verdict(worker, report.time) is AskAgent && (worker matches Some(
        RunningKvmWorker::Launched(launched),
    ) && known_state(launched.state.agent_pid, report.reply) is Completed)
}

/// Whether a report is on a worker that the API knows and whose domain is active.
pub open spec fn is_in_use(
    info: Map<Seq<char>, Worker>,
    name: Seq<char>,
    report: DomainReport,
) -> bool {
    report.is_active && info.dom().contains(name)
}

/// Whether a report on a worker calls for its shutdown: its domain is not active, the API does
/// not know it, or it is flagged.
pub open spec fn calls_for_shutdown(
    info: Map<Seq<char>, Worker>,
    workers: Map<Seq<char>, RunningKvmWorker>,
    name: Seq<char>,
    report: DomainReport,
) -> bool {
    ||| !report.is_active
    ||| !info.dom().contains(name)
    ||| is_flagged(claimed(workers, name), report)
}

/// What a domain does to what was found out, and that it leaves the other workers alone.
proof fn lemma_domain_step(
    info: Map<Seq<char>, Worker>,
    before: Progress,
    report: DomainReport,
    after: Progress,
)
    requires
        domain_leads_to(info, before, report, after),
    ensures
        match worker_of(report.name) {
            None => after == before,
            Some(name) => {
                &&& after.all_workers == before.all_workers.insert(name)
                &&& after.shutdowns == with_name(
                    before.shutdowns,
                    calls_for_shutdown(info, before.workers, name, report),
                    name,
                )
                &&& after.deletes == with_name(
                    before.deletes,
                    is_in_use(info, name, report) && is_completed(
                        claimed(before.workers, name),
                        report,
                    ),
                    name,
                )
                &&& forall|other: Seq<char>|
                    other != name ==> #[trigger] claimed(after.workers, other) == claimed(
                        before.workers,
                        other,
                    )
            },
        },
{
    if let Some(name) = worker_of(report.name) {
        let (middle, step) = choose|middle: Progress, step: NextStep| #[trigger]
            look_leads_to(info, before, name, report, step, middle) && answer_leads_to(
                middle,
                name,
                report,
                step,
                after,
            );
        assert(look_leads_to(info, before, name, report, step, middle));
    }
}

/// Once all domains were dealt with, exactly these workers are shut down, but for those that
/// the API has set to shut down anyway: the ones with a domain that is not active, the ones
/// that the API does not know, and the ones that were flagged when their domain was looked at.
/// The workers that were seen are those of the domains that Thorium manages, and the ones to
/// delete from the API are those in use whose agent has completed.
pub proof fn law_reconciliations_shut_down_what_the_domains_call_for(
    info: Map<Seq<char>, Worker>,
    states: Seq<Progress>,
    reports: Seq<DomainReport>,
    name: Seq<char>,
)
    requires
        reconciliation_runs(info, states, reports),
        states[0].all_workers == Set::<Seq<char>>::empty(),
        states[0].shutdowns == Set::<Seq<char>>::empty(),
        states[0].deletes == Set::<Seq<char>>::empty(),
    ensures
        to_shut_down(states.last().shutdowns, info).contains(name) <==> {
            &&& !(info.dom().contains(name) && info[name].status == WorkerStatus::Shutdown)
            &&& exists|i: int|
                0 <= i < reports.len() && worker_of((#[trigger] reports[i]).name) == Some(name)
                    && calls_for_shutdown(info, states[i].workers, name, reports[i])
        },
        states.last().all_workers.contains(name) <==> exists|i: int|
            0 <= i < reports.len() && worker_of((#[trigger] reports[i]).name) == Some(name),
        states.last().deletes.contains(name) <==> exists|i: int|
            0 <= i < reports.len() && worker_of((#[trigger] reports[i]).name) == Some(name)
                && is_in_use(info, name, reports[i]) && is_completed(
                claimed(states[i].workers, name),
                reports[i],
            ),
{
    lemma_findings(info, states, reports, reports.len(), name);
}

/// What was found out once some of the domains were dealt with.
proof fn lemma_findings(
    info: Map<Seq<char>, Worker>,
    states: Seq<Progress>,
    reports: Seq<DomainReport>,
    n: nat,
    name: Seq<char>,
)
    requires
        reconciliation_runs(info, states, reports),
        states[0].all_workers == Set::<Seq<char>>::empty(),
        states[0].shutdowns == Set::<Seq<char>>::empty(),
        states[0].deletes == Set::<Seq<char>>::empty(),
        n <= reports.len(),
    ensures
        states[n as int].shutdowns.contains(name) <==> exists|i: int|
            0 <= i < n && worker_of((#[trigger] reports[i]).name) == Some(name)
                && calls_for_shutdown(info, states[i].workers, name, reports[i]),
        states[n as int].all_workers.contains(name) <==> exists|i: int|
            0 <= i < n && worker_of((#[trigger] reports[i]).name) == Some(name),
        states[n as int].deletes.contains(name) <==> exists|i: int|
            0 <= i < n && worker_of((#[trigger] reports[i]).name) == Some(name) && is_in_use(
                info,
                name,
                reports[i],
            ) && is_completed(claimed(states[i].workers, name), reports[i]),
    decreases n,
{
    if n > 0 {
        let m = n - 1;
        lemma_findings(info, states, reports, m as nat, name);
        assert(domain_leads_to(info, states[m], reports[m], states[m + 1]));
        lemma_domain_step(info, states[m], reports[m], states[m + 1]);
        let mine = worker_of(reports[m].name) == Some(name);
        if mine && calls_for_shutdown(info, states[m].workers, name, reports[m]) {
            assert(states[n as int].shutdowns.contains(name));
        }
        if mine && is_in_use(info, name, reports[m]) && is_completed(
            claimed(states[m].workers, name),
            reports[m],
        ) {
            assert(states[n as int].deletes.contains(name));
        }
    }
}

/// Where no two domains have the same name, they do not affect each other: which workers are
/// shut down can be told from the workers as they were before the first domain was looked at.
pub proof fn law_domains_do_not_affect_each_other(
    info: Map<Seq<char>, Worker>,
    states: Seq<Progress>,
    reports: Seq<DomainReport>,
    name: Seq<char>,
)
    requires
        reconciliation_runs(info, states, reports),
        states[0].all_workers == Set::<Seq<char>>::empty(),
        states[0].shutdowns == Set::<Seq<char>>::empty(),
        states[0].deletes == Set::<Seq<char>>::empty(),
        forall|j: int, k: int|
            0 <= j < k < reports.len() ==> (#[trigger] reports[j]).name != (
            #[trigger] reports[k]).name,
    ensures
        to_shut_down(states.last().shutdowns, info).contains(name) <==> {
            &&& !(info.dom().contains(name) && info[name].status == WorkerStatus::Shutdown)
            &&& exists|i: int|
                0 <= i < reports.len() && worker_of((#[trigger] reports[i]).name) == Some(name)
                    && calls_for_shutdown(info, states[0].workers, name, reports[i])
        },
{
    law_reconciliations_shut_down_what_the_domains_call_for(info, states, reports, name);
    assert forall|i: int|
        0 <= i < reports.len() && worker_of((#[trigger] reports[i]).name) == Some(
            name,
        ) implies calls_for_shutdown(info, states[i].workers, name, reports[i])
        == calls_for_shutdown(info, states[0].workers, name, reports[i]) by {
        lemma_untouched_before(info, states, reports, i, i, name);
    }
}

/// Up to a domain, the worker of that domain stays as it was.
proof fn lemma_untouched_before(
    info: Map<Seq<char>, Worker>,
    states: Seq<Progress>,
    reports: Seq<DomainReport>,
    i: int,
    n: int,
    name: Seq<char>,
)
    requires
        reconciliation_runs(info, states, reports),
        forall|j: int, k: int|
            0 <= j < k < reports.len() ==> (#[trigger] reports[j]).name != (
            #[trigger] reports[k]).name,
        0 <= n <= i < reports.len(),
        worker_of(reports[i].name) == Some(name),
    ensures
        claimed(states[n].workers, name) == claimed(states[0].workers, name),
    decreases n,
{
    if n > 0 {
        lemma_untouched_before(info, states, reports, i, n - 1, name);
        assert(domain_leads_to(info, states[n - 1], reports[n - 1], states[n]));
        lemma_domain_step(info, states[n - 1], reports[n - 1], states[n]);
        assert(worker_of(reports[n - 1].name) != Some(name)) by {
            assert(reports[n - 1].name != reports[i].name);
            if worker_of(reports[n - 1].name) == Some(name) {
                lemma_prefixed(reports[n - 1].name, name);
                lemma_prefixed(reports[i].name, name);
            }
        }
    }
}

/// A domain name is the prefix and the name of its worker.
proof fn lemma_prefixed(domain_name: Seq<char>, worker: Seq<char>)
    requires
        worker_of(domain_name) == Some(worker),
    ensures
        domain_name == WORKER_DOMAIN_NAME_PREFIX@ + worker,
{
    let prefix = WORKER_DOMAIN_NAME_PREFIX@;
    assert(domain_name =~= domain_name.subrange(0, prefix.len() as int) + domain_name.skip(
        prefix.len() as int,
    ));
}

} // verus!
