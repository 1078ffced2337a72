//! Workers that run in virtual machines: how they are looked after, and what is shut down.

use vstd::prelude::*;

use crate::args;
use crate::error::{Error, ErrorView};
use crate::kvm::{claimed, Kvm, LaunchAttempt, NextStep};
use crate::kvm_worker::{presume_launched_at, KvmWorker, LaunchError, RunningKvmWorker};
use crate::laws::health::{is_time, nanos_of};
use crate::models::{Node, Worker, WorkerDeleteMap, WorkerStatus};
use crate::names::{NameMap, NameSet};
use crate::os_detector::GuestOs;
use crate::reconcile::{check_delete, Conclusion, Reconciliation};
use crate::state::created::AgentPaths;
use crate::state::init::overlay_path_of;
use crate::state::launched::{AgentState, StatusReply};
use crate::state::{Created, DestroyAction, Launched};
use crate::text::texts;
use crate::time::UtcTime;

verus! {

/// The agents are those of their names in their directory, the one for Windows with the extension
/// of a Windows program.
pub proof fn law_agents_are_in_their_directory(agents_dir: &str, paths: AgentPaths)
    requires
        agents_dir@.len() > 0,
        agents_dir@.last() != '/',
        call_ensures(AgentPaths::in_dir, (agents_dir,), paths),
    ensures
        paths.linux@ == agents_dir@ + "/thorium-agent"@,
        paths.windows@ == agents_dir@ + "/thorium-agent.exe"@,
{
    reveal_strlit("thorium-agent");
    reveal_strlit("thorium-agent.exe");
    reveal_strlit("/thorium-agent");
    reveal_strlit("/thorium-agent.exe");
    assert(agents_dir@ + seq!['/'] + "thorium-agent"@ =~= agents_dir@ + "/thorium-agent"@);
    assert(agents_dir@ + seq!['/'] + "thorium-agent.exe"@ =~= agents_dir@ + "/thorium-agent.exe"@);
}

/// Both agents have to be there, and the first that is not is named.
pub proof fn law_both_agents_have_to_be_there(
    paths: AgentPaths,
    linux: Result<bool, String>,
    windows: Result<bool, String>,
    r: Result<(), Error>,
)
    requires
        call_ensures(AgentPaths::check_agents_exist, (&paths, linux, windows), r),
    ensures
        r is Ok <==> linux == Ok::<bool, String>(true) && windows == Ok::<bool, String>(true),
        linux == Ok::<bool, String>(false) ==> (r matches Err(e) && e@ == ErrorView::Generic(
            "Thorium agent for Linux is missing at path '"@ + paths.linux@ + "'"@,
        )),
        linux == Ok::<bool, String>(true) && windows == Ok::<bool, String>(false) ==> (
        r matches Err(e) && e@ == ErrorView::Generic(
            "Thorium agent for Windows is missing at path '"@ + paths.windows@ + "'"@,
        )),
        linux matches Err(error) ==> (r matches Err(e) && e@ == ErrorView::Generic(
            "Error checking that Thorium agent binary exists at '"@ + paths.linux@ + "'"@ + ": "@
                + error@,
        )),
        linux == Ok::<bool, String>(true) ==> (windows matches Err(error) ==> (r matches Err(e)
            && e@ == ErrorView::Generic(
            "Error checking that Thorium agent binary exists at '"@ + paths.windows@ + "'"@ + ": "@
                + error@,
        ))),
{
}

/// A launcher needs its temporary directory and both agents. It starts without workers.
pub proof fn law_launchers_need_their_files(
    args: args::Kvm,
    agents_dir: &str,
    temp_dir: Result<(), String>,
    linux: Result<bool, String>,
    windows: Result<bool, String>,
    paths: AgentPaths,
    agents: Result<(), Error>,
    r: Result<Kvm, Error>,
    name: Seq<char>,
)
    requires
        call_ensures(Kvm::new, (args, agents_dir, temp_dir, linux, windows), r),
        call_ensures(AgentPaths::in_dir, (agents_dir,), paths),
        call_ensures(AgentPaths::check_agents_exist, (&paths, linux, windows), agents),
    ensures
        r is Ok <==> temp_dir is Ok && agents is Ok,
        temp_dir matches Err(error) ==> (r matches Err(e) && e@ == ErrorView::Generic(
            "Error creating temporary directory '"@ + args.temp_dir@ + "'"@ + ": "@ + error@,
        )),
        temp_dir is Ok ==> (agents matches Err(error) ==> (r matches Err(e) && e@ == error@)),
        r matches Ok(kvm) ==> {
            &&& kvm.args == args
            &&& !kvm.running_workers@.dom().contains(name)
            &&& kvm.agent_paths.linux@ == paths.linux@
            &&& kvm.agent_paths.windows@ == paths.windows@
        },
{
}

/// A worker whose launch has failed ten times is marked for shutdown. One that may be launched is
/// taken out to be launched. One whose time has not come is left alone.
pub proof fn law_created_workers_are_launched_or_given_up(
    kvm: &mut Kvm,
    name: &str,
    worker: Worker,
    shutdowns: &mut NameSet,
    active: &mut NameMap<Worker>,
    time: UtcTime,
    step: NextStep,
    created: KvmWorker<Created>,
    ready: bool,
)
    requires
        call_ensures(
            Kvm::reconcile_running_worker,
            (kvm, name, &worker, shutdowns, active, time),
            step,
        ),
        kvm.running_workers@.contains_pair(name@, RunningKvmWorker::Created(created)),
        call_ensures(Created::ready_to_launch_at, (&created.state, time), ready),
    ensures
        created.state.launch_attempts >= 10 ==> {
            &&& step is Settled
            &&& final(shutdowns)@ == old(shutdowns)@.insert(name@)
            &&& final(kvm).running_workers@ == old(kvm).running_workers@
        },
        created.state.launch_attempts < 10 && ready ==> {
            &&& step == NextStep::Launch(created)
            &&& final(shutdowns)@ == old(shutdowns)@
            &&& final(kvm).running_workers@ == old(kvm).running_workers@.remove(name@)
        },
        created.state.launch_attempts < 10 && !ready ==> {
            &&& step is Settled
            &&& final(shutdowns)@ == old(shutdowns)@
            &&& final(kvm).running_workers@ == old(kvm).running_workers@
        },
        final(active)@ == old(active)@,
        final(kvm).args == old(kvm).args,
        final(kvm).agent_paths == old(kvm).agent_paths,
{
}

/// The agent of a launched worker is asked for once its check is due, and by its own query.
pub proof fn law_launched_workers_are_asked_when_due(
    kvm: &mut Kvm,
    name: &str,
    worker: Worker,
    shutdowns: &mut NameSet,
    active: &mut NameMap<Worker>,
    time: UtcTime,
    step: NextStep,
    launched: KvmWorker<Launched>,
    due: bool,
)
    requires
        call_ensures(
            Kvm::reconcile_running_worker,
            (kvm, name, &worker, shutdowns, active, time),
            step,
        ),
        kvm.running_workers@.contains_pair(name@, RunningKvmWorker::Launched(launched)),
        call_ensures(Launched::is_health_check_due_at, (&launched.state, time), due),
    ensures
        step is AskAgent <==> due,
        step is Settled <==> !due,
        step matches NextStep::AskAgent(query) ==> {
            &&& query is Some <==> launched.state.agent_pid is Some
            &&& query matches Some(asked) ==> asked.domain_name@ == launched.state.domain_name@
        },
        final(shutdowns)@ == old(shutdowns)@,
        final(kvm).running_workers@ == old(kvm).running_workers@,
        final(active)@ == old(active)@,
{
}

/// A running worker that is not tracked is taken for one that was launched then, with its domain
/// and its overlay where they belong, and becomes active unless it is.
pub proof fn law_untracked_workers_are_reclaimed(
    kvm: &mut Kvm,
    name: &str,
    worker: Worker,
    shutdowns: &mut NameSet,
    active: &mut NameMap<Worker>,
    time: UtcTime,
    step: NextStep,
    other: Seq<char>,
)
    requires
        call_ensures(
            Kvm::reconcile_running_worker,
            (kvm, name, &worker, shutdowns, active, time),
            step,
        ),
        !kvm.running_workers@.dom().contains(name@),
    ensures
        step is Settled,
        final(shutdowns)@ == old(shutdowns)@,
        claimed(final(kvm).running_workers@, name@) matches Some(RunningKvmWorker::Launched(found))
            && {
            &&& found.state.worker@ == name@
            &&& found.state.domain_name@ == "thorium_"@ + name@
            &&& found.state.overlay_path@ == overlay_path_of(old(kvm).args.temp_dir@, name@)
            &&& found.state.guest_os == GuestOs::Unknown
            &&& found.state.agent_pid is None
            &&& found.state.launched == time
            &&& found.state.heartbeat == time
        },
        other != name@ ==> claimed(final(kvm).running_workers@, other) == claimed(
            old(kvm).running_workers@,
            other,
        ),
        final(active)@.dom().contains(name@),
        old(active)@.dom().contains(name@) ==> final(active)@ == old(active)@,
        !old(active)@.dom().contains(name@) ==> final(active)@ == old(active)@.insert(
            name@,
            worker,
        ),
{
}

/// Reclaiming a worker by itself does the same.
pub proof fn law_reclaimed_workers_are_tracked(
    kvm: &mut Kvm,
    name: &str,
    worker: Worker,
    active: &mut NameMap<Worker>,
    time: UtcTime,
    given: String,
    args: args::Kvm,
    presumed: KvmWorker<Launched>,
)
    requires
        call_ensures(Kvm::reclaim_worker, (kvm, name, &worker, active, time), ()),
        given@ == name@,
        args == kvm.args,
        call_ensures(presume_launched_at, (given, &args, time), presumed),
    ensures
        claimed(final(kvm).running_workers@, name@) matches Some(RunningKvmWorker::Launched(found))
            && {
            &&& found.state.worker@ == presumed.state.worker@
            &&& found.state.domain_name@ == presumed.state.domain_name@
            &&& found.state.overlay_path@ == presumed.state.overlay_path@
            &&& found.state.agent_pid == presumed.state.agent_pid
            &&& found.state.launched == presumed.state.launched
            &&& found.state.heartbeat == presumed.state.heartbeat
        },
        presumed.state.domain_name@ == "thorium_"@ + name@,
        presumed.state.agent_pid is None,
        presumed.state.launched == time,
        final(active)@.dom().contains(name@),
        old(active)@.dom().contains(name@) ==> final(active)@ == old(active)@,
        !old(active)@.dom().contains(name@) ==> final(active)@[name@] == worker,
{
}

/// A worker whose agent is over is shut down, however it ended, and one whose agent has completed
/// is deleted from the API as well.
pub proof fn law_finished_agents_are_shut_down(
    kvm: &mut Kvm,
    name: &str,
    reply: StatusReply,
    shutdowns: &mut NameSet,
    deletes: &mut WorkerDeleteMap,
    time: UtcTime,
    r: Option<AgentState>,
)
    requires
        call_ensures(Kvm::agent_answered, (kvm, name, reply, shutdowns, deletes, time), r),
    ensures
        r is Some <==> (claimed(old(kvm).running_workers@, name@) matches Some(found)
            && found is Launched),
        r matches Some(state) ==> (state is Exited || state is Errored || state is Completed
            ==> final(shutdowns)@ == old(shutdowns)@.insert(name@)),
        final(deletes).workers@ == (if r matches Some(state) && state is Completed {
            old(deletes).workers@.insert(name@)
        } else {
            old(deletes).workers@
        }),
        r is None ==> final(shutdowns)@ == old(shutdowns)@ && final(kvm).running_workers@ == old(
            kvm
        ).running_workers@,
{
}

/// A worker whose agent runs is shut down after three hours, and one whose agent is missing ten
/// minutes after it was last seen running. Until then both are left alone.
pub proof fn law_workers_are_shut_down_in_time(
    kvm: &mut Kvm,
    name: &str,
    reply: StatusReply,
    shutdowns: &mut NameSet,
    deletes: &mut WorkerDeleteMap,
    time: UtcTime,
    launched: KvmWorker<Launched>,
    state: AgentState,
)
    requires
        call_ensures(
            Kvm::agent_answered,
            (kvm, name, reply, shutdowns, deletes, time),
            Some(state),
        ),
        kvm.running_workers@.contains_pair(name@, RunningKvmWorker::Launched(launched)),
        is_time(time) && is_time(launched.state.launched) && is_time(launched.state.heartbeat),
        launched.state.launched.secs + 10_800 <= 8_210_266_876_799,
        launched.state.heartbeat.secs + 600 <= 8_210_266_876_799,
    ensures
        state is Running && nanos_of(time) >= nanos_of(launched.state.launched)
            + 10_800_000_000_000 ==> final(shutdowns)@ == old(shutdowns)@.insert(name@),
        state is Running && nanos_of(time) < nanos_of(launched.state.launched)
            + 10_800_000_000_000 ==> final(shutdowns)@ == old(shutdowns)@,
        state is Missing && nanos_of(time) >= nanos_of(launched.state.heartbeat)
            + 600_000_000_000 ==> final(shutdowns)@ == old(shutdowns)@.insert(name@),
        state is Missing && nanos_of(time) < nanos_of(launched.state.heartbeat)
            + 600_000_000_000 ==> final(shutdowns)@ == old(shutdowns)@,
{
}

/// What is told of an agent is what its worker says of it, and an agent that cannot be told of is
/// missing.
pub proof fn law_agents_are_taken_for_what_they_say(
    kvm: &mut Kvm,
    name: &str,
    reply: StatusReply,
    shutdowns: &mut NameSet,
    deletes: &mut WorkerDeleteMap,
    time: UtcTime,
    launched: KvmWorker<Launched>,
    state: AgentState,
    alone: &mut Launched,
    said: Result<AgentState, Error>,
    other: Seq<char>,
)
    requires
        call_ensures(
            Kvm::agent_answered,
            (kvm, name, reply, shutdowns, deletes, time),
            Some(state),
        ),
        kvm.running_workers@.contains_pair(name@, RunningKvmWorker::Launched(launched)),
        *alone == launched.state,
        call_ensures(Launched::agent_state_at, (alone, reply, time), said),
    ensures
        said matches Ok(own) ==> state@ == own@,
        said is Err ==> state is Missing,
        claimed(final(kvm).running_workers@, name@) matches Some(RunningKvmWorker::Launched(found))
            && {
            &&& found.state.heartbeat == final(alone).heartbeat
            &&& found.state.agent_pid == launched.state.agent_pid
            &&& found.state.launched == launched.state.launched
            &&& found.state.worker == launched.state.worker
            &&& found.state.domain_name == launched.state.domain_name
            &&& found.state.overlay_path == launched.state.overlay_path
        },
        other != name@ ==> claimed(final(kvm).running_workers@, other) == claimed(
            old(kvm).running_workers@,
            other,
        ),
{
}

/// A check of an agent puts the next one off by half a minute to a minute.
pub proof fn law_the_next_check_is_put_off(
    kvm: &mut Kvm,
    name: &str,
    reply: StatusReply,
    shutdowns: &mut NameSet,
    deletes: &mut WorkerDeleteMap,
    time: UtcTime,
    state: AgentState,
)
    requires
        call_ensures(
            Kvm::agent_answered,
            (kvm, name, reply, shutdowns, deletes, time),
            Some(state),
        ),
        time.secs + 60 <= 8_210_266_876_799,
    ensures
        claimed(final(kvm).running_workers@, name@) matches Some(RunningKvmWorker::Launched(found))
            && nanos_of(time) + 30_000_000_000 <= nanos_of(found.state.next_check) <= nanos_of(time)
            + 60_000_000_000,
{
}

/// A launch that was tried counts. One whose domain was not found was not tried and does not.
pub proof fn law_only_launches_that_were_tried_count(
    worker: KvmWorker<Created>,
    attempt: LaunchAttempt,
    time: UtcTime,
    r: Result<KvmWorker<Launched>, LaunchError>,
)
    requires
        worker.state.launch_attempts < u8::MAX,
        call_ensures(Kvm::launch_kvm_worker, (worker, attempt, time), r),
    ensures
        attempt matches LaunchAttempt::LookupFailed(message) ==> (r matches Err(
            LaunchError(back, e),
        ) && back == worker && e@ == ErrorView::Virt(message@)),
        attempt matches LaunchAttempt::Tried(Err(error)) ==> (r matches Err(LaunchError(back, e))
            && e == error && back.state.launch_attempts == worker.state.launch_attempts + 1
            && back.state.last_launch_attempt == Some(time) && back.state.domain_name
            == worker.state.domain_name && back.state.overlay_path == worker.state.overlay_path),
        attempt matches LaunchAttempt::Tried(Ok(pid)) ==> (r matches Ok(launched)
            && launched.state.agent_pid == Some(pid) && launched.state.launched == time
            && launched.state.domain_name == worker.state.domain_name
            && launched.state.overlay_path == worker.state.overlay_path
            && launched.state.worker == worker.state.worker),
{
}

/// What came of a launch is tracked under the name of the worker, whether it went well or not, and
/// the error of one that did not is handed on.
pub proof fn law_launches_are_tracked(
    kvm: &mut Kvm,
    name: String,
    result: Result<KvmWorker<Launched>, LaunchError>,
    r: Option<Error>,
    other: Seq<char>,
)
    requires
        call_ensures(Kvm::resolve_launch, (kvm, name, result), r),
    ensures
        r is Some <==> result is Err,
        result matches Ok(launched) ==> claimed(final(kvm).running_workers@, name@) == Some(
            RunningKvmWorker::Launched(launched),
        ),
        result matches Err(LaunchError(created, error)) ==> r == Some(error) && claimed(
            final(kvm).running_workers@,
            name@,
        ) == Some(RunningKvmWorker::Created(created)),
        other != name@ ==> claimed(final(kvm).running_workers@, other) == claimed(
            old(kvm).running_workers@,
            other,
        ),
        final(kvm).args == old(kvm).args && final(kvm).agent_paths == old(kvm).agent_paths,
{
}

/// Created workers are tracked under their names, the last one of a name, and no tracked worker of
/// another name is touched.
pub proof fn law_created_workers_are_tracked(
    kvm: &mut Kvm,
    launches: Vec<(String, KvmWorker<Created>)>,
    i: int,
    other: Seq<char>,
)
    requires
        call_ensures(Kvm::resolve_launches, (kvm, launches), ()),
    ensures
        0 <= i < launches@.len() && (forall|j: int|
            i < j < launches@.len() ==> (#[trigger] launches@[j]).0@ != launches@[i].0@) ==> claimed(
            final(kvm).running_workers@,
            launches@[i].0@,
        ) == Some(RunningKvmWorker::Created(launches@[i].1)),
        (forall|j: int| 0 <= j < launches@.len() ==> (#[trigger] launches@[j]).0@ != other)
            ==> claimed(final(kvm).running_workers@, other) == claimed(
            old(kvm).running_workers@,
            other,
        ),
{
    let workers = old(kvm).running_workers@;
    if 0 <= i < launches@.len() && (forall|j: int|
        i < j < launches@.len() ==> (#[trigger] launches@[j]).0@ != launches@[i].0@) {
        lemma_last_created(workers, launches@, i);
    }
    if forall|j: int| 0 <= j < launches@.len() ==> (#[trigger] launches@[j]).0@ != other {
        lemma_others_stay(workers, launches@, other);
    }
}

/// The last creation of a worker is the one that is kept.
proof fn lemma_last_created(
    workers: Map<Seq<char>, RunningKvmWorker>,
    launches: Seq<(String, KvmWorker<Created>)>,
    i: int,
)
    requires
        0 <= i < launches.len(),
        forall|j: int| i < j < launches.len() ==> (#[trigger] launches[j]).0@ != launches[i].0@,
    ensures
        claimed(crate::kvm::with_created(workers, launches), launches[i].0@) == Some(
            RunningKvmWorker::Created(launches[i].1),
        ),
    decreases launches.len(),
{
    if i < launches.len() - 1 {
        let rest = launches.drop_last();
        assert(rest[i] == launches[i]);
        assert forall|j: int| i < j < rest.len() implies (#[trigger] rest[j]).0@ != rest[i].0@ by {
            assert(rest[j] == launches[j]);
        }
        lemma_last_created(workers, rest, i);
        assert(launches[launches.len() - 1].0@ != launches[i].0@);
    }
}

/// Workers that are not among the created ones stay as they are.
proof fn lemma_others_stay(
    workers: Map<Seq<char>, RunningKvmWorker>,
    launches: Seq<(String, KvmWorker<Created>)>,
    other: Seq<char>,
)
    requires
        forall|j: int| 0 <= j < launches.len() ==> (#[trigger] launches[j]).0@ != other,
    ensures
        claimed(crate::kvm::with_created(workers, launches), other) == claimed(workers, other),
    decreases launches.len(),
{
    if launches.len() > 0 {
        let rest = launches.drop_last();
        assert forall|j: int| 0 <= j < rest.len() implies (#[trigger] rest[j]).0@ != other by {
            assert(rest[j] == launches[j]);
        }
        lemma_others_stay(workers, rest, other);
        assert(launches[launches.len() - 1].0@ != other);
    }
}

/// Each worker to shut down is destroyed once, with its own domain and its own overlay, and is
/// tracked no more. One that is not tracked has them where they belong.
pub proof fn law_shut_down_workers_are_destroyed(
    kvm: &mut Kvm,
    workers: NameSet,
    r: Vec<(String, Vec<DestroyAction>)>,
    name: Seq<char>,
    i: int,
    j: int,
)
    requires
        call_ensures(Kvm::shutdown, (kvm, &workers), r),
    ensures
        workers@.contains(name) ==> exists|k: int| 0 <= k < r@.len() && (#[trigger] r@[k]).0@ == name,
        0 <= i < r@.len() ==> workers@.contains(r@[i].0@),
        0 <= i < j < r@.len() ==> r@[i].0@ != r@[j].0@,
        final(kvm).running_workers@.dom().contains(name) <==> old(
            kvm
        ).running_workers@.dom().contains(name) && !workers@.contains(name),
        final(kvm).running_workers@.dom().contains(name) ==> final(kvm).running_workers@[name]
            == old(kvm).running_workers@[name],
        0 <= i < r@.len() ==> {
            let actions = r@[i].1@;
            &&& actions.len() == 2
            &&& actions[0] is UndefineDomain
            &&& actions[1] is DeleteOverlay
            &&& claimed(old(kvm).running_workers@, r@[i].0@) matches Some(
                RunningKvmWorker::Created(found),
            ) ==> actions[0] == DestroyAction::UndefineDomain(found.state.domain_name)
                && actions[1] == DestroyAction::DeleteOverlay(found.state.overlay_path)
            &&& claimed(old(kvm).running_workers@, r@[i].0@) matches Some(
                RunningKvmWorker::Launched(found),
            ) ==> actions[0] == DestroyAction::UndefineDomain(found.state.domain_name)
                && actions[1] == DestroyAction::DeleteOverlay(found.state.overlay_path)
            &&& claimed(old(kvm).running_workers@, r@[i].0@) is None ==> (
            actions[0] matches DestroyAction::UndefineDomain(domain) && domain@ == "thorium_"@
                + r@[i].0@) && (actions[1] matches DestroyAction::DeleteOverlay(path) && path@
                == overlay_path_of(old(kvm).args.temp_dir@, r@[i].0@))
        },
{
    if workers@.contains(name) {
        let k = choose|k: int| 0 <= k < r@.len() && (#[trigger] r@[k]).0@ == name;
        assert(r@[k].0@ == name);
    }
    if 0 <= i < r@.len() {
        let own = r@[i].0@;
        assert(exists|k: int| 0 <= k < r@.len() && (#[trigger] r@[k]).0@ == own);
    }
}

/// Domains of Thorium are told by their prefix, and lead to their worker, which is seen then.
pub proof fn law_domains_of_thorium_are_seen(
    found: &mut Reconciliation,
    domain: &str,
    worker: Seq<char>,
    r: Option<String>,
    name: Seq<char>,
)
    requires
        call_ensures(Reconciliation::see_domain, (found, domain), r),
    ensures
        domain@ == "thorium_"@ + worker ==> (r matches Some(own) && own@ == worker) && final(
            found
        ).all_workers@.contains(worker),
        r matches Some(own) ==> domain@ == "thorium_"@ + own@,
        final(found).all_workers@.contains(name) <==> old(found).all_workers@.contains(name) || (
        r matches Some(own) && own@ == name),
        final(found).shutdowns == old(found).shutdowns,
        final(found).worker_delete_map == old(found).worker_delete_map,
{
    let prefix = "thorium_"@;
    let n = prefix.len() as int;
    if domain@ == prefix + worker {
        assert(domain@.subrange(0, n) =~= prefix);
        assert(domain@.skip(n) =~= worker);
    }
    if r is Some {
        assert(domain@ =~= domain@.subrange(0, n) + domain@.skip(n));
    }
}

/// A worker is marked for shutdown where its domain is not active or the API does not know it, and
/// nothing else is done to it then.
pub proof fn law_useless_domains_are_marked(
    kvm: &mut Kvm,
    found: &mut Reconciliation,
    name: &str,
    is_active: bool,
    info: Node,
    active: &mut NameMap<Worker>,
    time: UtcTime,
    step: NextStep,
)
    requires
        call_ensures(
            Kvm::reconcile_domain,
            (kvm, found, name, is_active, &info, active, time),
            step,
        ),
    ensures
        !is_active || !info.workers@.dom().contains(name@) ==> {
            &&& step is Settled
            &&& final(found).shutdowns@ == old(found).shutdowns@.insert(name@)
            &&& final(kvm).running_workers@ == old(kvm).running_workers@
            &&& final(active)@ == old(active)@
        },
        final(found).all_workers == old(found).all_workers,
        final(found).worker_delete_map == old(found).worker_delete_map,
{
}

/// A domain in use is looked after as its worker is.
pub proof fn law_domains_in_use_are_looked_after(
    kvm: &mut Kvm,
    found: &mut Reconciliation,
    name: &str,
    info: Node,
    active: &mut NameMap<Worker>,
    time: UtcTime,
    step: NextStep,
    created: KvmWorker<Created>,
    launched: KvmWorker<Launched>,
    ready: bool,
    due: bool,
)
    requires
        call_ensures(Kvm::reconcile_domain, (kvm, found, name, true, &info, active, time), step),
        info.workers@.dom().contains(name@),
        call_ensures(Created::ready_to_launch_at, (&created.state, time), ready),
        call_ensures(Launched::is_health_check_due_at, (&launched.state, time), due),
    ensures
        claimed(old(kvm).running_workers@, name@) == Some(RunningKvmWorker::Created(created)) ==> {
            &&& created.state.launch_attempts >= 10 ==> step is Settled && final(
                found
            ).shutdowns@ == old(found).shutdowns@.insert(name@)
            &&& created.state.launch_attempts < 10 ==> final(found).shutdowns@ == old(
                found
            ).shutdowns@
            &&& created.state.launch_attempts < 10 && ready ==> step == NextStep::Launch(created)
            &&& created.state.launch_attempts < 10 && !ready ==> step is Settled
        },
        claimed(old(kvm).running_workers@, name@) == Some(RunningKvmWorker::Launched(launched))
            ==> {
            &&& step is AskAgent <==> due
            &&& step is Settled <==> !due
            &&& final(found).shutdowns@ == old(found).shutdowns@
        },
        claimed(old(kvm).running_workers@, name@) is None ==> {
            &&& step is Settled
            &&& final(found).shutdowns@ == old(found).shutdowns@
            &&& final(kvm).running_workers@.dom().contains(name@)
            &&& final(active)@.dom().contains(name@)
        },
{
}

/// Of what was found out, these are the conclusions: the workers that are marked are destroyed, but
/// for those that the API shuts down anyway. They, and those without a domain, are active and
/// tracked no more. What the API does not know is not deleted from it.
pub proof fn law_conclusions_follow_from_what_was_found(
    kvm: &mut Kvm,
    found: Reconciliation,
    info: Node,
    active: &mut NameMap<Worker>,
    r: Conclusion,
    name: Seq<char>,
)
    requires
        call_ensures(Kvm::conclude, (kvm, found, &info, active), r),
    ensures
        ({
            let destroyed = found.shutdowns@.contains(name) && !(info.workers@.dom().contains(name)
                && info.workers@[name].status == WorkerStatus::Shutdown);
            let missing = info.workers@.dom().contains(name) && !found.all_workers@.contains(name);
            &&& destroyed <==> exists|i: int|
                0 <= i < r.shutdowns@.len() && (#[trigger] r.shutdowns@[i]).0@ == name
            &&& final(active)@.dom().contains(name) <==> old(active)@.dom().contains(name)
                && !destroyed && !missing
            &&& final(kvm).running_workers@.dom().contains(name) <==> old(
                kvm
            ).running_workers@.dom().contains(name) && !destroyed && !missing
        }),
        final(active)@.dom().contains(name) ==> final(active)@[name] == old(active)@[name],
        final(kvm).running_workers@.dom().contains(name) ==> final(kvm).running_workers@[name]
            == old(kvm).running_workers@[name],
        r.deletes.workers@.contains(name) <==> found.worker_delete_map.workers@.contains(name)
            && info.workers@.dom().contains(name),
{
    let flagged = crate::reconcile::to_shut_down(found.shutdowns@, info.workers@);
    assert(flagged.contains(name) <==> exists|i: int|
        0 <= i < r.shutdowns@.len() && (#[trigger] r.shutdowns@[i]).0@ == name);
}

/// The workers that are destroyed in the end are each destroyed once, with the domain and the
/// overlay that they are tracked with. One that is not tracked has them where they belong.
pub proof fn law_marked_workers_are_destroyed_with_what_is_theirs(
    kvm: &mut Kvm,
    found: Reconciliation,
    info: Node,
    active: &mut NameMap<Worker>,
    r: Conclusion,
    i: int,
    j: int,
)
    requires
        call_ensures(Kvm::conclude, (kvm, found, &info, active), r),
        0 <= i < r.shutdowns@.len(),
    ensures
        ({
            let name = r.shutdowns@[i].0@;
            let actions = r.shutdowns@[i].1@;
            let known = claimed(old(kvm).running_workers@, name);
            &&& actions.len() == 2
            &&& known matches Some(RunningKvmWorker::Created(worker)) ==> actions == seq![
                DestroyAction::UndefineDomain(worker.state.domain_name),
                DestroyAction::DeleteOverlay(worker.state.overlay_path),
            ]
            &&& known matches Some(RunningKvmWorker::Launched(worker)) ==> actions == seq![
                DestroyAction::UndefineDomain(worker.state.domain_name),
                DestroyAction::DeleteOverlay(worker.state.overlay_path),
            ]
            &&& known is None ==> (actions[0] matches DestroyAction::UndefineDomain(domain)
                && domain@ == "thorium_"@ + name) && (
            actions[1] matches DestroyAction::DeleteOverlay(path) && path@ == overlay_path_of(
                old(kvm).args.temp_dir@,
                name,
            ))
        }),
        i < j < r.shutdowns@.len() ==> r.shutdowns@[i].0@ != r.shutdowns@[j].0@,
{
}

/// Workers that the API has deleted already are no error. Any other failure is.
pub proof fn law_deleted_workers_are_no_error(
    failure: Option<(Option<u16>, String)>,
    r: Result<(), Error>,
)
    requires
        call_ensures(check_delete, (failure,), r),
    ensures
        r is Ok <==> failure is None || (failure matches Some((status, _)) && status == Some(
            404u16,
        )),
        failure matches Some((status, message)) ==> (r matches Err(e) ==> e@ == ErrorView::Thorium(
            message@,
        )),
{
}

/// What is put under a name is found there until it is taken out, and nothing else is touched.
pub proof fn law_names_lead_to_their_values<V>(
    map: &mut NameMap<V>,
    name: String,
    value: V,
    taken: &mut NameMap<V>,
    gone: &str,
    was: Option<V>,
    cleared: &mut NameMap<V>,
    names: NameSet,
    other: Seq<char>,
)
    requires
        call_ensures(NameMap::<V>::insert, (map, name, value), ()),
        call_ensures(NameMap::<V>::remove, (taken, gone), was),
        call_ensures(NameMap::<V>::remove_names, (cleared, &names), ()),
    ensures
        final(map)@.contains_pair(name@, value),
        other != name@ ==> final(map)@.dom().contains(other) == old(map)@.dom().contains(other),
        other != name@ && old(map)@.dom().contains(other) ==> final(map)@[other] == old(
            map
        )@[other],
        !final(taken)@.dom().contains(gone@),
        was is Some <==> old(taken)@.dom().contains(gone@),
        was matches Some(v) ==> v == old(taken)@[gone@],
        other != gone@ ==> final(taken)@.dom().contains(other) == old(taken)@.dom().contains(
            other,
        ),
        other != gone@ && old(taken)@.dom().contains(other) ==> final(taken)@[other] == old(
            taken
        )@[other],
        final(cleared)@.dom().contains(other) <==> old(cleared)@.dom().contains(other)
            && !names@.contains(other),
        final(cleared)@.dom().contains(other) ==> final(cleared)@[other] == old(cleared)@[other],
{
}

/// A set of names holds what was put in, until it is taken out.
pub proof fn law_sets_hold_what_was_put_in(
    set: &mut NameSet,
    name: &str,
    less: &mut NameSet,
    gone: &str,
    asked: NameSet,
    question: &str,
    answer: bool,
    empty: bool,
    new: NameSet,
    other: Seq<char>,
)
    requires
        call_ensures(NameSet::new, (), new),
        call_ensures(NameSet::insert, (set, name), ()),
        call_ensures(NameSet::remove, (less, gone), ()),
        call_ensures(NameSet::contains, (&asked, question), answer),
        call_ensures(NameSet::is_empty, (&asked,), empty),
    ensures
        !new@.contains(other),
        final(set)@.contains(other) <==> old(set)@.contains(other) || other == name@,
        final(less)@.contains(other) <==> old(less)@.contains(other) && other != gone@,
        answer <==> asked@.contains(question@),
        answer ==> !empty,
        empty ==> !asked@.contains(other),
{
}

/// A map tells what is under its names: each of them is listed once, and leads to its value.
pub proof fn law_maps_tell_their_names<V>(
    new: NameMap<V>,
    map: NameMap<V>,
    name: &str,
    known: bool,
    value: Option<&V>,
    keys: Vec<String>,
    empty: bool,
    len: usize,
    i: int,
    j: int,
)
    requires
        call_ensures(NameMap::<V>::new, (), new),
        call_ensures(NameMap::<V>::contains_key, (&map, name), known),
        call_ensures(NameMap::<V>::get, (&map, name), value),
        call_ensures(NameMap::<V>::keys, (&map,), keys),
        call_ensures(NameMap::<V>::is_empty, (&map,), empty),
        call_ensures(NameMap::<V>::len, (&map,), len),
        map@.dom().finite(),
    ensures
        !new@.dom().contains(name@),
        known <==> map@.dom().contains(name@),
        known <==> value is Some,
        known <==> exists|k: int| 0 <= k < keys@.len() && (#[trigger] keys@[k])@ == name@,
        value matches Some(v) ==> *v == map@[name@],
        0 <= i < j < keys@.len() ==> keys@[i]@ != keys@[j]@,
        empty <==> keys@.len() == 0,
        empty <==> len == 0,
        keys@.len() == len,
{
    let list = keys@.map_values(|key: String| key@);
    assert(list.no_duplicates()) by {
        assert forall|a: int, b: int| 0 <= a < list.len() && 0 <= b < list.len() && a
            != b implies list[a] != list[b] by {
            assert(list[a] == keys@[a]@ && list[b] == keys@[b]@);
        }
    }
    list.unique_seq_to_set();
    assert(list.to_set() =~= map@.dom()) by {
        assert forall|key: Seq<char>| list.to_set().contains(key) == map@.dom().contains(key) by {
            if map@.dom().contains(key) {
                let k = choose|k: int| 0 <= k < keys@.len() && (#[trigger] keys@[k])@ == key;
                assert(list[k] == key);
            }
            if list.contains(key) {
                let k = choose|k: int| 0 <= k < list.len() && list[k] == key;
                assert(keys@[k]@ == key);
            }
        }
    }
    if keys@.len() > 0 {
        assert(map@.dom().contains(keys@[0]@));
    }
}

/// A set lists each of its names once.
pub proof fn law_sets_tell_their_names(
    set: NameSet,
    names: Vec<String>,
    name: &str,
    answer: bool,
    i: int,
    j: int,
)
    requires
        call_ensures(NameSet::names, (&set,), names),
        call_ensures(NameSet::contains, (&set, name), answer),
    ensures
        answer <==> exists|k: int| 0 <= k < names@.len() && (#[trigger] names@[k])@ == name@,
        0 <= i < j < names@.len() ==> names@[i]@ != names@[j]@,
{
    let list = texts(names@);
    if answer {
        assert(list.to_set().contains(name@));
        let k = choose|k: int| 0 <= k < list.len() && list[k] == name@;
        assert(names@[k]@ == name@);
    }
    if exists|k: int| 0 <= k < names@.len() && (#[trigger] names@[k])@ == name@ {
        let k = choose|k: int| 0 <= k < names@.len() && (#[trigger] names@[k])@ == name@;
        assert(list[k] == name@);
        assert(list.to_set().contains(name@));
    }
}

} // verus!
