//! The daemon: what it updates, which workers it starts, and when it stops.

use vstd::prelude::*;
use vstd::utf8::{decode_utf8, valid_utf8};

use crate::encoding::utf8_error_text;
use crate::error::{Error, ErrorView};
use crate::models::{CommandOutput, Node, Worker, WorkerStatus};
use crate::names::{NameMap, NameSet};
use crate::number::signed_decimal;
use crate::reactor::{
    agent_updates,
    agent_version,
    launch_failures,
    launched_data,
    last_word,
    named_data,
    update_views,
    with_launched,
    AgentKind,
    Phase,
    Poll,
    Reactor,
    UpdateEvent,
    UpdateStep,
};
use crate::text::{lemma_pieces_joined, trimmed};
use crate::version::{same_version, version_parsed, Version, VersionView};

verus! {

/// Two versions are the same where all their parts are, the build metadata too.
pub proof fn law_versions_are_compared_in_full(a: Version, b: Version, same: bool)
    requires
        call_ensures(same_version, (&a, &b), same),
    ensures
        same <==> a.major == b.major && a.minor == b.minor && a.patch == b.patch && a.pre@ == b.pre@
            && a.build@ == b.build@,
{
}

/// An outdated reactor updates itself: behind an agent that needs no update or can get none,
/// and behind agents that were updated, the update of the reactor is next where its version is
/// another one than that of the API, unless it skips that. No new workers are spawned then.
pub proof fn law_outdated_reactors_are_updated(
    reactor: &mut Reactor,
    current: &str,
    api_version: Version,
    step: UpdateStep,
    event: UpdateEvent,
    output: Result<CommandOutput, String>,
    list: Vec<(AgentKind, String)>,
    r: Result<UpdateStep, Error>,
)
    requires
        call_ensures(
            Reactor::check_update_agents,
            (&*reactor, &api_version, output),
            Ok::<Vec<(AgentKind, String)>, Error>(list),
        ),
        list@.len() == 0,
        step == UpdateStep::RunAgent && event == UpdateEvent::AgentRan(output) || step
            is UpdateAgents && (event matches UpdateEvent::AgentsUpdated(outcome) && outcome is Ok),
        call_ensures(Reactor::check_update, (reactor, current, &api_version, step, event), r),
    ensures
        !old(reactor).args.skip_self_update && (version_parsed(current@) matches Ok(version) && version
            != api_version@) ==> {
            &&& r == Ok::<UpdateStep, Error>(UpdateStep::UpdateReactor)
            &&& final(reactor).halt_spawning
        },
        old(reactor).args.skip_self_update || version_parsed(current@) == Ok::<
            VersionView,
            (Seq<char>, Seq<char>),
        >(api_version@) ==> {
            &&& r == Ok::<UpdateStep, Error>(UpdateStep::Done)
            &&& final(reactor).halt_spawning == old(reactor).halt_spawning
        },
        !old(reactor).args.skip_self_update && version_parsed(current@) is Err ==> (r matches Err(e)
            && e@ == ErrorView::Semver(version_parsed(current@)->Err_0.0)),
{
    assert(update_views(list@).len() == 0);
}

/// Agents that were updated are followed by the reactor in the same way, whatever the agents
/// were.
pub proof fn law_the_reactor_follows_its_agents(
    reactor: &mut Reactor,
    current: &str,
    api_version: Version,
    list: Vec<(AgentKind, String)>,
    outcome: Result<(), String>,
    r: Result<UpdateStep, Error>,
)
    requires
        call_ensures(
            Reactor::check_update,
            (
                reactor,
                current,
                &api_version,
                UpdateStep::UpdateAgents(list),
                UpdateEvent::AgentsUpdated(outcome),
            ),
            r,
        ),
    ensures
        outcome is Ok && !old(reactor).args.skip_self_update && (version_parsed(current@) matches Ok(
            version,
        ) && version != api_version@) ==> {
            &&& r == Ok::<UpdateStep, Error>(UpdateStep::UpdateReactor)
            &&& final(reactor).halt_spawning
        },
        outcome is Ok && old(reactor).args.skip_self_update ==> r == Ok::<UpdateStep, Error>(
            UpdateStep::Done,
        ),
        outcome matches Err(message) ==> (r matches Err(e) && e@ == ErrorView::Thorium(message@))
            && *final(reactor) == *old(reactor),
{
}

/// An update that comes to its end leaves nothing outdated behind: the reactor was updated and
/// is marked for shutdown, or it skips that, or it has the version of the API.
pub proof fn law_updates_leave_nothing_outdated(
    reactor: &mut Reactor,
    current: &str,
    api_version: Version,
    step: UpdateStep,
    event: UpdateEvent,
)
    requires
        !(step is Done),
        call_ensures(
            Reactor::check_update,
            (reactor, current, &api_version, step, event),
            Ok::<UpdateStep, Error>(UpdateStep::Done),
        ),
    ensures
        ({
            ||| step is UpdateReactor && (event matches UpdateEvent::ReactorUpdated(outcome)
                && outcome is Ok) && final(reactor).shutdown
            ||| old(reactor).args.skip_self_update
            ||| version_parsed(current@) == Ok::<VersionView, (Seq<char>, Seq<char>)>(
                api_version@,
            )
        }),
        !(step is UpdateReactor) ==> final(reactor).shutdown == old(reactor).shutdown,
{
}

/// What an update changes of a reactor is that it stops to spawn workers, once it has to be
/// updated itself, and that it is to shut down, once it was. All else stays.
pub proof fn law_updates_change_only_the_marks(
    reactor: &mut Reactor,
    current: &str,
    api_version: Version,
    step: UpdateStep,
    event: UpdateEvent,
    r: Result<UpdateStep, Error>,
)
    requires
        call_ensures(Reactor::check_update, (reactor, current, &api_version, step, event), r),
    ensures
        final(reactor).args == old(reactor).args,
        final(reactor).active == old(reactor).active,
        final(reactor).tasks == old(reactor).tasks,
        final(reactor).name == old(reactor).name,
        final(reactor).cluster == old(reactor).cluster,
        r is Err ==> *final(reactor) == *old(reactor),
        final(reactor).halt_spawning == (old(reactor).halt_spawning || (!(step is UpdateReactor)
            && r == Ok::<UpdateStep, Error>(UpdateStep::UpdateReactor))),
        final(reactor).shutdown == (old(reactor).shutdown || (step is UpdateReactor && r == Ok::<
            UpdateStep,
            Error,
        >(UpdateStep::Done))),
{
}

/// A reactor that was updated is marked for shutdown, so that it is restarted. One that could
/// not be updated reports why.
pub proof fn law_updated_reactors_restart(
    reactor: &mut Reactor,
    current: &str,
    api_version: Version,
    outcome: Result<(), String>,
    r: Result<UpdateStep, Error>,
)
    requires
        call_ensures(
            Reactor::check_update,
            (
                reactor,
                current,
                &api_version,
                UpdateStep::UpdateReactor,
                UpdateEvent::ReactorUpdated(outcome),
            ),
            r,
        ),
    ensures
        outcome is Ok ==> r == Ok::<UpdateStep, Error>(UpdateStep::Done) && final(reactor).shutdown,
        outcome matches Err(message) ==> (r matches Err(e) && e@ == ErrorView::Thorium(message@)),
{
}

/// The two halves of the update of the reactor itself do the same as the whole: it begins where
/// the versions differ and it is not skipped, and it ends with the mark for shutdown.
pub proof fn law_the_reactor_updates_itself_in_two_halves(
    reactor: &mut Reactor,
    current: &str,
    api_version: Version,
    needed: Result<bool, Error>,
    updated: &mut Reactor,
    outcome: Result<(), String>,
    r: Result<(), Error>,
)
    requires
        call_ensures(Reactor::begin_update, (reactor, current, &api_version), needed),
        call_ensures(Reactor::finish_update, (updated, outcome), r),
    ensures
        needed == Ok::<bool, Error>(true) <==> !old(reactor).args.skip_self_update && (version_parsed(
            current@,
        ) matches Ok(version) && version != api_version@),
        needed is Err <==> !old(reactor).args.skip_self_update && version_parsed(current@) is Err,
        needed == Ok::<bool, Error>(true) ==> final(reactor).halt_spawning,
        needed != Ok::<bool, Error>(true) ==> *final(reactor) == *old(reactor),
        r is Ok <==> outcome is Ok,
        r is Ok ==> final(updated).shutdown,
        r is Err ==> *final(updated) == *old(updated),
        final(updated).halt_spawning == old(updated).halt_spawning,
        final(updated).active == old(updated).active,
{
}

/// The agents of an idle node are updated together where the Linux agent has another version
/// than the API: the one for Linux and the one for Windows, each at its path.
pub proof fn law_both_agents_are_updated(
    reactor: Reactor,
    api_version: Version,
    output: CommandOutput,
    version: VersionView,
    r: Result<Vec<(AgentKind, String)>, Error>,
)
    requires
        output.success,
        valid_utf8(output.stdout@),
        version_parsed(last_word(decode_utf8(output.stdout@))) == Ok::<
            VersionView,
            (Seq<char>, Seq<char>),
        >(version),
        call_ensures(Reactor::check_update_agents, (&reactor, &api_version, Ok(output)), r),
    ensures
        r is Ok,
        version == api_version@ ==> r->Ok_0@.len() == 0,
        (exists|name: Seq<char>| #[trigger] reactor.active@.dom().contains(name))
            ==> r->Ok_0@.len() == 0,
        version != api_version@ && (forall|name: Seq<char>|
            !#[trigger] reactor.active@.dom().contains(name)) ==> {
            &&& r->Ok_0@.len() == 2
            &&& r->Ok_0@[0].0 == AgentKind::Linux
            &&& r->Ok_0@[0].1@ == reactor.args.agents_dir@ + "/thorium-agent"@
            &&& r->Ok_0@[1].0 == AgentKind::Windows
            &&& r->Ok_0@[1].1@ == reactor.args.agents_dir@ + "/thorium-agent.exe"@
        },
{
    let views = update_views(r->Ok_0@);
    assert(views.len() == r->Ok_0@.len());
    assert(forall|i: int|
        0 <= i < views.len() ==> #[trigger] views[i] == (r->Ok_0@[i].0, r->Ok_0@[i].1@));
}

/// Which agents are updated does not depend on anything but the two versions and the directory.
pub proof fn law_agents_go_to_their_directory(
    agents_dir: &str,
    version: Version,
    api_version: Version,
    r: Vec<(AgentKind, String)>,
)
    requires
        call_ensures(agent_updates, (agents_dir, &version, &api_version), r),
    ensures
        version@ == api_version@ ==> r@.len() == 0,
        version@ != api_version@ ==> {
            &&& r@.len() == 2
            &&& r@[0].0 == AgentKind::Linux && r@[0].1@ == agents_dir@ + "/thorium-agent"@
            &&& r@[1].0 == AgentKind::Windows && r@[1].1@ == agents_dir@ + "/thorium-agent.exe"@
        },
{
    let views = update_views(r@);
    assert(views.len() == r@.len());
    assert(forall|i: int| 0 <= i < views.len() ==> #[trigger] views[i] == (r@[i].0, r@[i].1@));
}

/// An agent update is handed on as it was found to be needed, before anything else is done.
pub proof fn law_needed_agent_updates_come_next(
    reactor: &mut Reactor,
    current: &str,
    api_version: Version,
    output: Result<CommandOutput, String>,
    found: Result<Vec<(AgentKind, String)>, Error>,
    r: Result<UpdateStep, Error>,
)
    requires
        call_ensures(Reactor::check_update_agents, (&*reactor, &api_version, output), found),
        call_ensures(
            Reactor::check_update,
            (reactor, current, &api_version, UpdateStep::RunAgent, UpdateEvent::AgentRan(output)),
            r,
        ),
    ensures
        found matches Ok(list) ==> (list@.len() > 0 ==> (r matches Ok(UpdateStep::UpdateAgents(next))
            && update_views(next@) == update_views(list@)) && *final(reactor) == *old(reactor)),
        found matches Err(error) ==> (r matches Err(e) && e@ == error@),
{
    if let Ok(list) = found {
        assert(update_views(list@).len() == list@.len());
    }
}

/// An agent that could not be asked for its version is an error, which says what went wrong:
/// what it wrote to its standard error, else its exit code.
pub proof fn law_agents_that_do_not_tell_their_version_are_errors(
    path: &str,
    output: Result<CommandOutput, String>,
    r: Result<Version, Error>,
)
    requires
        call_ensures(agent_version, (path, output), r),
    ensures
        output matches Err(error) ==> (r matches Err(e) && e@ == ErrorView::Generic(
            "Error checking version of Thorium agent at '"@ + path@ + "'"@ + ": "@ + error@,
        )),
        output matches Ok(out) ==> (!out.success ==> (r matches Err(e) && e@ == ErrorView::Generic(
            "Checking for Thorium agent version exited in error: "@ + (if out.stderr@.len() > 0
                && valid_utf8(out.stderr@) {
                decode_utf8(out.stderr@)
            } else if out.code is Some {
                "exit code "@ + signed_decimal(out.code->0 as int)
            } else {
                "An unknown error occurred"@
            }),
        ))),
        output matches Ok(out) ==> (out.success && !valid_utf8(out.stdout@) ==> (r matches Err(e)
            && e@ == ErrorView::Generic(
            "Error checking Thorium agent version: agent command output is not valid UTF-8"@ + ": "@
                + utf8_error_text(out.stdout@),
        ))),
        output matches Ok(out) ==> (out.success && valid_utf8(out.stdout@) ==> {
            let word = last_word(decode_utf8(out.stdout@));
            &&& r is Ok <==> version_parsed(word) is Ok
            &&& r matches Ok(version) ==> version_parsed(word) == Ok::<
                VersionView,
                (Seq<char>, Seq<char>),
            >(version@)
            &&& r matches Err(e) ==> e@ == ErrorView::Generic(
                "Error checking Thorium agent version: agent output '"@ + word
                    + "' is not a valid semver version"@ + ": "@ + version_parsed(word)->Err_0.1,
            )
        }),
{
}

/// The version is what stands behind the last space of what an agent says.
pub proof fn law_the_version_is_the_last_word(output: Seq<char>, before: Seq<char>, word: Seq<char>)
    requires
        trimmed(output) == before.push(' ') + word || trimmed(output) == word,
        forall|i: int| 0 <= i < word.len() ==> #[trigger] word[i] != ' ',
    ensures
        last_word(output) == word,
{
    crate::laws::text::lemma_one_piece(word, ' ');
    lemma_pieces_joined(before, word, ' ');
}

/// The workers to shut down are those that the API wants gone, and the new ones are those that
/// it wants and that are not active yet, as the API describes them.
pub proof fn law_polls_bring_the_node_to_the_state_of_the_api(
    reactor: Reactor,
    info: Node,
    poll: Poll,
    name: Seq<char>,
)
    requires
        call_ensures(Reactor::poll, (&reactor, info), poll),
    ensures
        poll.shutdowns@.contains(name) <==> info.workers@.dom().contains(name)
            && info.workers@[name].status == WorkerStatus::Shutdown,
        poll.changes@.dom().contains(name) <==> info.workers@.dom().contains(name)
            && info.workers@[name].status != WorkerStatus::Shutdown
            && !reactor.active@.dom().contains(name),
        poll.changes@.dom().contains(name) ==> poll.changes@[name] == info.workers@[name],
{
}

/// The keys of all users are set up that have a worker, be it active or new, and of no others.
pub proof fn law_every_user_of_a_worker_gets_keys(
    reactor: Reactor,
    changes: NameMap<Worker>,
    users: NameSet,
)
    requires
        call_ensures(Reactor::users, (&reactor, &changes), users),
    ensures
        forall|name: Seq<char>| #[trigger]
            reactor.active@.dom().contains(name) ==> users@.contains(
                reactor.active@[name].user@,
            ),
        forall|name: Seq<char>| #[trigger]
            changes@.dom().contains(name) ==> users@.contains(changes@[name].user@),
        forall|user: Seq<char>| #[trigger]
            users@.contains(user) ==> exists|name: Seq<char>|
                (reactor.active@.dom().contains(name) && reactor.active@[name].user@ == user) || (
                changes@.dom().contains(name) && (#[trigger] changes@[name]).user@ == user),
{
    assert forall|user: Seq<char>| #[trigger] users@.contains(user) implies exists|
        name: Seq<char>,
    |
        (reactor.active@.dom().contains(name) && reactor.active@[name].user@ == user) || (
        changes@.dom().contains(name) && (#[trigger] changes@[name]).user@ == user) by {
        if exists|name: Seq<char>| #[trigger]
            reactor.active@.dom().contains(name) && reactor.active@[name].user@ == user {
            let name = choose|name: Seq<char>| #[trigger]
                reactor.active@.dom().contains(name) && reactor.active@[name].user@ == user;
            let w = changes@[name];
        } else {
            let name = choose|name: Seq<char>| #[trigger]
                changes@.dom().contains(name) && changes@[name].user@ == user;
            let w = changes@[name];
        }
    }
}

/// Exactly the new workers of users without keys are dropped.
pub proof fn law_workers_without_keys_are_dropped(
    changes: &mut NameMap<Worker>,
    bans: NameSet,
    name: Seq<char>,
)
    requires
        call_ensures(Reactor::drop_banned, (changes, &bans), ()),
    ensures
        final(changes)@.dom().contains(name) <==> old(changes)@.dom().contains(name)
            && !bans@.contains(old(changes)@[name].user@),
        final(changes)@.dom().contains(name) ==> final(changes)@[name] == old(changes)@[name],
{
}

/// A reactor that is to be updated launches nothing, any other one all that is new.
pub proof fn law_halted_reactors_launch_nothing(
    reactor: Reactor,
    new: NameMap<Worker>,
    r: NameMap<Worker>,
    name: Seq<char>,
)
    requires
        call_ensures(Reactor::to_launch, (&reactor, new), r),
    ensures
        reactor.halt_spawning ==> !r@.dom().contains(name),
        !reactor.halt_spawning ==> r@ == new@,
{
}

/// Every launch counts once: as a worker that is tracked and active from then on, or as a
/// failure that is reported.
pub proof fn law_every_launch_is_taken_in<D>(
    reactor: &mut Reactor,
    results: Vec<Result<(Worker, D), (String, Error)>>,
    r: (Vec<(String, D)>, Vec<(String, Error)>),
)
    requires
        call_ensures(Reactor::launch::<D>, (reactor, results), r),
    ensures
        r.0@.len() + r.1@.len() == results@.len(),
        forall|i: int|
            0 <= i < results@.len() && (#[trigger] results@[i]) is Ok ==> {
                let (worker, data) = results@[i]->Ok_0;
                &&& final(reactor).active@.dom().contains(worker.name@)
                &&& exists|k: int|
                    0 <= k < r.0@.len() && (#[trigger] r.0@[k]).0@ == worker.name@ && r.0@[k].1
                        == data
            },
        forall|i: int|
            0 <= i < results@.len() && (#[trigger] results@[i]) is Err ==> r.1@.contains(
                results@[i]->Err_0,
            ),
        forall|name: Seq<char>| #[trigger]
            old(reactor).active@.dom().contains(name) ==> final(reactor).active@.dom().contains(
                name,
            ),
        forall|name: Seq<char>| #[trigger]
            final(reactor).active@.dom().contains(name) && !(exists|i: int|
                0 <= i < results@.len() && (#[trigger] results@[i] matches Ok((w, _)) && w.name@
                    == name)) ==> old(reactor).active@.dom().contains(name) && final(reactor).active@[name] == old(reactor).active@[name],
        final(reactor).halt_spawning == old(reactor).halt_spawning,
        final(reactor).shutdown == old(reactor).shutdown,
{
    lemma_launches(old(reactor).active@, results@);
    assert(named_data(r.0@).len() == r.0@.len());
    assert(forall|k: int|
        0 <= k < r.0@.len() ==> named_data(r.0@)[k] == ((#[trigger] r.0@[k]).0@, r.0@[k].1));
    assert forall|i: int| 0 <= i < results@.len() && (#[trigger] results@[i]) is Ok implies {
        let (worker, data) = results@[i]->Ok_0;
        &&& final(reactor).active@.dom().contains(worker.name@)
        &&& exists|k: int|
            0 <= k < r.0@.len() && (#[trigger] r.0@[k]).0@ == worker.name@ && r.0@[k].1 == data
    } by {
        let (worker, data) = results@[i]->Ok_0;
        let k = choose|k: int|
            0 <= k < launched_data(results@).len() && #[trigger] launched_data(results@)[k] == (
                worker.name@,
                data,
            );
        assert(r.0@[k].0@ == worker.name@ && r.0@[k].1 == data);
    }
}

/// Each launch is taken in, or is told of as a failure.
proof fn lemma_launches<D>(
    active: Map<Seq<char>, Worker>,
    results: Seq<Result<(Worker, D), (String, Error)>>,
)
    ensures
        launched_data(results).len() + launch_failures(results).len() == results.len(),
        forall|i: int|
            0 <= i < results.len() && (#[trigger] results[i]) is Ok ==> {
                let (worker, data) = results[i]->Ok_0;
                &&& with_launched(active, results).dom().contains(worker.name@)
                &&& exists|k: int|
                    0 <= k < launched_data(results).len() && #[trigger] launched_data(results)[k]
                        == (worker.name@, data)
            },
        forall|i: int|
            0 <= i < results.len() && (#[trigger] results[i]) is Err ==> launch_failures(
                results,
            ).contains(results[i]->Err_0),
        forall|name: Seq<char>| #[trigger]
            active.dom().contains(name) ==> with_launched(active, results).dom().contains(name),
        forall|name: Seq<char>| #[trigger]
            with_launched(active, results).dom().contains(name) && !(exists|i: int|
                0 <= i < results.len() && (#[trigger] results[i] matches Ok((w, _)) && w.name@
                    == name)) ==> active.dom().contains(name) && with_launched(
                active,
                results,
            )[name] == active[name],
    decreases results.len(),
{
    if results.len() > 0 {
        let rest = results.drop_last();
        let n = rest.len() as int;
        lemma_launches(active, rest);
        assert forall|i: int| 0 <= i < results.len() && (#[trigger] results[i]) is Ok implies {
            let (worker, data) = results[i]->Ok_0;
            &&& with_launched(active, results).dom().contains(worker.name@)
            &&& exists|k: int|
                0 <= k < launched_data(results).len() && #[trigger] launched_data(results)[k] == (
                    worker.name@,
                    data,
                )
        } by {
            let (worker, data) = results[i]->Ok_0;
            if i < n {
                assert(rest[i] == results[i]);
                let k = choose|k: int|
                    0 <= k < launched_data(rest).len() && #[trigger] launched_data(rest)[k] == (
                        worker.name@,
                        data,
                    );
                assert(launched_data(results)[k] == (worker.name@, data));
            } else {
                assert(launched_data(results)[launched_data(rest).len() as int] == (
                    worker.name@,
                    data,
                ));
            }
        }
        assert forall|i: int|
            0 <= i < results.len() && (#[trigger] results[i]) is Err implies launch_failures(
            results,
        ).contains(results[i]->Err_0) by {
            if i < n {
                assert(rest[i] == results[i]);
                let k = launch_failures(rest).index_of(results[i]->Err_0);
                assert(launch_failures(results)[k] == results[i]->Err_0);
            } else {
                assert(launch_failures(results)[launch_failures(rest).len() as int]
                    == results[i]->Err_0);
            }
        }
        assert forall|name: Seq<char>| #[trigger]
            with_launched(active, results).dom().contains(name) && !(exists|i: int|
                0 <= i < results.len() && (#[trigger] results[i] matches Ok((w, _)) && w.name@
                    == name)) implies active.dom().contains(name) && with_launched(
            active,
            results,
        )[name] == active[name] by {
            assert(!(exists|i: int|
                0 <= i < rest.len() && (#[trigger] rest[i] matches Ok((w, _)) && w.name@ == name)))
                by {
                if exists|i: int|
                    0 <= i < rest.len() && (#[trigger] rest[i] matches Ok((w, _)) && w.name@
                        == name) {
                    let i = choose|i: int|
                        0 <= i < rest.len() && (#[trigger] rest[i] matches Ok((w, _)) && w.name@
                            == name);
                    assert(results[i] == rest[i]);
                }
            }
            assert(!(results[n] matches Ok((w, _)) && w.name@ == name));
            assert(with_launched(active, rest).dom().contains(name));
        }
    }
}

/// A worker that was launched is active as it was launched, where no later one has its name.
pub proof fn law_launched_workers_are_active<D>(
    reactor: &mut Reactor,
    results: Vec<Result<(Worker, D), (String, Error)>>,
    r: (Vec<(String, D)>, Vec<(String, Error)>),
    i: int,
    worker: Worker,
    data: D,
)
    requires
        call_ensures(Reactor::launch::<D>, (reactor, results), r),
        0 <= i < results@.len(),
        results@[i] == Ok::<(Worker, D), (String, Error)>((worker, data)),
        forall|j: int|
            i < j < results@.len() ==> !(#[trigger] results@[j] matches Ok((w, _)) && w.name@
                == worker.name@),
    ensures
        final(reactor).active@.contains_pair(worker.name@, worker),
{
    lemma_last_launch(old(reactor).active@, results@, i);
}

/// The last launch of a worker is the one that counts.
proof fn lemma_last_launch<D>(
    active: Map<Seq<char>, Worker>,
    results: Seq<Result<(Worker, D), (String, Error)>>,
    i: int,
)
    requires
        0 <= i < results.len(),
        results[i] is Ok,
        forall|j: int|
            i < j < results.len() ==> !(#[trigger] results[j] matches Ok((w, _)) && w.name@
                == results[i]->Ok_0.0.name@),
    ensures
        with_launched(active, results).contains_pair(
            results[i]->Ok_0.0.name@,
            results[i]->Ok_0.0,
        ),
    decreases results.len(),
{
    if i < results.len() - 1 {
        let rest = results.drop_last();
        assert(rest[i] == results[i]);
        assert forall|j: int| i < j < rest.len() implies !(#[trigger] rest[j] matches Ok((w, _))
            && w.name@ == rest[i]->Ok_0.0.name@) by {
            assert(rest[j] == results[j]);
        }
        lemma_last_launch(active, rest, i);
        assert(!(results[results.len() - 1] matches Ok((w, _)) && w.name@
            == results[i]->Ok_0.0.name@));
    }
}

/// A reactor checks for updates first, unless it skips that. It then goes round: tasks, the
/// state of the API, keys, launches and a rest. It stops behind its launches, once it is marked
/// for shutdown.
pub proof fn law_the_daemon_goes_round(
    reactor: Reactor,
    first: Phase,
    phase: Phase,
    next: Phase,
)
    requires
        call_ensures(Reactor::first_phase, (&reactor,), first),
        call_ensures(Reactor::next_phase, (&reactor, phase), next),
    ensures
        first == Phase::CheckUpdate <==> !reactor.args.skip_update,
        first == Phase::UpdateResources <==> reactor.args.skip_update,
        next == Phase::UpdateResources <==> phase == Phase::CheckUpdate,
        next == Phase::SpawnTasks <==> phase == Phase::UpdateResources || phase == Phase::Sleep,
        next == Phase::Poll <==> phase == Phase::SpawnTasks,
        next == Phase::SetupKeys <==> phase == Phase::Poll,
        next == Phase::Launch <==> phase == Phase::SetupKeys,
        next == Phase::Sleep <==> phase == Phase::Launch && !reactor.shutdown,
        next == Phase::Stopped <==> phase == Phase::Stopped || (phase == Phase::Launch
            && reactor.shutdown),
{
}

} // verus!
