//! Workers that run directly on the host: their processes, their files and what is cleaned up
//! behind them.

use vstd::prelude::*;

use crate::bare_metal::{
    agent_args,
    cleanup_command,
    first_stuck,
    injected,
    isolate,
    isolated,
    is_plain,
    kill_targets,
    killable,
    lemma_last_segment,
    lemma_nothing_trails,
    purge_target,
    purge_targets,
    ActiveWorker,
    BareMetal,
    ChildStatus,
    CleanupPlan,
};
use crate::error::{Error, ErrorView};
use crate::models::{ArgStrategy, Cleanup, Image, Node, Worker, WorkerDeleteMap, WorkerStatus};
use crate::names::{NameMap, NameSet};
use crate::paths::{has_root, lead_len, same_path_as, trunk, without_trailing};
use crate::text::texts;

verus! {

/// Whether a path ends with a plain name, behind a separator or alone.
pub open spec fn ends_plainly(path: Seq<char>, before: Seq<char>, name: Seq<char>) -> bool {
    &&& path == before + name
    &&& before.len() == 0 || before.last() == '/'
    &&& is_plain(name)
}

/// A path is isolated for a job by the id of the job before its final segment. The default
/// directory has the id behind it.
pub proof fn law_paths_are_isolated_by_the_id(
    raw: &str,
    id: &str,
    r: Result<String, Error>,
    dir: Seq<char>,
    before: Seq<char>,
    last: Seq<char>,
    name: Seq<char>,
)
    requires
        call_ensures(isolate, (raw, id), r),
        is_plain(id@),
    ensures
        ends_plainly(dir, before, last) && is_plain(name) && raw@ == dir.push('/') + name
            && !same_path_as(raw@, "/tmp/thorium"@) ==> (r matches Ok(path) && path@ == dir.push(
            '/',
        ) + id@.push('/') + name),
        same_path_as(raw@, "/tmp/thorium"@) && raw@.last() != '/' ==> (r matches Ok(path) && path@
            == raw@.push('/') + id@),
        r matches Err(e) ==> e@ == ErrorView::Generic(raw@ + " cannot be isolated by job"@),
{
    assert(!has_root(id@)) by {
        if has_root(id@) {
            assert(id@.contains(id@[0]));
        }
    }
    if same_path_as(raw@, "/tmp/thorium"@) {
        reveal_strlit("/tmp/thorium");
        assert(has_root("/tmp/thorium"@));
        assert(raw@ + seq!['/'] + id@ =~= raw@.push('/') + id@);
    } else if ends_plainly(dir, before, last) && is_plain(name) && raw@ == dir.push('/') + name {
        lemma_parent_and_name(raw@, dir, before, last, name);
        assert(!has_root(name)) by {
            if has_root(name) {
                assert(name.contains(name[0]));
            }
        }
        assert(last.contains(last.last()));
        assert(id@.contains(id@.last()));
        assert(dir.last() == last.last());
        let job = dir + seq!['/'] + id@;
        assert(job.last() == id@.last());
        assert(job + seq!['/'] + name =~= dir.push('/') + id@.push('/') + name);
    }
}

/// The parent and the name of a path that has both plainly.
pub proof fn lemma_parent_and_name(
    path: Seq<char>,
    dir: Seq<char>,
    before: Seq<char>,
    last: Seq<char>,
    name: Seq<char>,
)
    requires
        ends_plainly(dir, before, last),
        is_plain(name),
        path == dir.push('/') + name,
    ensures
        crate::paths::parent_of(path) == Some(dir),
        crate::paths::file_name_of(path) == Some(name),
{
    let base = dir.push('/');
    lemma_last_segment(base, name);
    lemma_nothing_trails(base, name, lead_len(path));
    assert(trunk(path) == path);
    assert(path.take(base.len() as int) =~= base);
    assert(path.skip(base.len() as int) =~= name);
    assert(base.drop_last() =~= dir);
    lemma_nothing_trails(before, last, lead_len(path));
    assert(without_trailing(base, lead_len(path)) == dir);
}

/// How many words a value takes that is passed as a strategy says.
pub open spec fn words_for(strategy: ArgStrategy) -> int {
    match strategy {
        ArgStrategy::Skip => 0,
        ArgStrategy::Append => 1,
        ArgStrategy::Kwarg(_) => 2,
    }
}

/// Whether a value is passed as a strategy says, behind the words of a line up to a place: as
/// the next word, or as the one behind its keyword.
pub open spec fn is_passed(
    line: Seq<String>,
    place: int,
    value: Seq<char>,
    strategy: ArgStrategy,
) -> bool {
    match strategy {
        ArgStrategy::Skip => true,
        ArgStrategy::Append => line[place]@ == value,
        ArgStrategy::Kwarg(key) => line[place]@ == key@ && line[place + 1]@ == value,
    }
}

/// The script that cleans up behind a job is given the id of the job, the job's path of the
/// results and the job's path of the result files, in this order, each as its strategy says.
pub proof fn law_cleanup_scripts_are_given_the_paths_of_the_job(
    clean_up: Cleanup,
    image: Image,
    job_id: &str,
    r: Result<Vec<String>, Error>,
    results_path: &str,
    files_path: &str,
    results: String,
    files: String,
)
    requires
        call_ensures(cleanup_command, (&clean_up, &image, job_id), r),
        results_path@ == image.output_collection.results@,
        files_path@ == image.output_collection.result_files@,
        call_ensures(isolate, (results_path, job_id), Ok::<String, Error>(results)),
        call_ensures(isolate, (files_path, job_id), Ok::<String, Error>(files)),
    ensures
        r is Ok,
        ({
            let line = r->Ok_0@;
            let first = 1 + words_for(clean_up.job_id);
            let second = first + words_for(clean_up.results);
            &&& line.len() == second + words_for(clean_up.result_files_dir)
            &&& line[0]@ == clean_up.script@
            &&& is_passed(line, 1, job_id@, clean_up.job_id)
            &&& is_passed(line, first, results@, clean_up.results)
            &&& is_passed(line, second, files@, clean_up.result_files_dir)
            &&& !(clean_up.result_files_dir is Skip) ==> line.last()@ == files@
            &&& clean_up.result_files_dir matches ArgStrategy::Kwarg(key) ==> line[line.len()
                - 2]@ == key@
        }),
{
    let line = r->Ok_0@;
    let t = texts(line);
    assert(t.len() == line.len());
    assert(forall|i: int| 0 <= i < line.len() ==> (#[trigger] line[i])@ == t[i]);
    let zero = seq![clean_up.script@];
    let one = injected(zero, job_id@, clean_up.job_id);
    let two = injected(one, results@, clean_up.results);
    assert(one.len() == 1 + words_for(clean_up.job_id));
    assert(two.len() == one.len() + words_for(clean_up.results));
    assert(t == injected(two, files@, clean_up.result_files_dir));
    assert(forall|i: int| 0 <= i < two.len() ==> t[i] == two[i]);
    assert(forall|i: int| 0 <= i < one.len() ==> two[i] == one[i]);
    assert(one[0] == zero[0]);
}

/// A script whose paths cannot be isolated for the job is not run, and the error is the one of
/// the first such path.
pub proof fn law_cleanup_scripts_need_their_paths(
    clean_up: Cleanup,
    image: Image,
    job_id: &str,
    r: Result<Vec<String>, Error>,
    results_path: &str,
    files_path: &str,
    results: Result<String, Error>,
    files: Result<String, Error>,
)
    requires
        call_ensures(cleanup_command, (&clean_up, &image, job_id), r),
        results_path@ == image.output_collection.results@,
        files_path@ == image.output_collection.result_files@,
        call_ensures(isolate, (results_path, job_id), results),
        call_ensures(isolate, (files_path, job_id), files),
    ensures
        r is Ok <==> results is Ok && files is Ok,
        results matches Err(error) ==> (r matches Err(e) && e@ == error@),
        results is Ok ==> (files matches Err(error) ==> (r matches Err(e) && e@ == error@)),
{
}

/// One argument is passed as its strategy says, behind those that are there.
pub proof fn law_arguments_are_passed_as_the_strategy_says(
    args: &mut Vec<String>,
    value: String,
    strategy: ArgStrategy,
)
    requires
        call_ensures(crate::bare_metal::inject_arg, (args, value, strategy), ()),
    ensures
        final(args)@.len() == old(args)@.len() + words_for(strategy),
        forall|i: int| 0 <= i < old(args)@.len() ==> (#[trigger] final(args)@[i])@ == old(args)@[i]@,
        is_passed(final(args)@, old(args)@.len() as int, value@, strategy),
{
    let t = texts(final(args)@);
    let before = texts(old(args)@);
    assert(t.len() == final(args)@.len() && before.len() == old(args)@.len());
    assert(forall|i: int| 0 <= i < t.len() ==> (#[trigger] final(args)@[i])@ == t[i]);
    assert(forall|i: int| 0 <= i < before.len() ==> #[trigger] before[i] == old(args)@[i]@);
    assert forall|i: int| 0 <= i < old(args)@.len() implies (#[trigger] final(args)@[i])@ == old(
        args
    )@[i]@ by {
        assert(t[i] == before[i]);
    }
}

/// What is removed behind a path is the directory it is in, unless that is the default
/// directory, where only the path itself is removed.
pub proof fn law_only_what_is_of_the_job_is_removed(
    path: &str,
    dir: Seq<char>,
    before: Seq<char>,
    last: Seq<char>,
    name: Seq<char>,
    target: String,
)
    requires
        ends_plainly(dir, before, last),
        is_plain(name),
        path@ == dir.push('/') + name,
        call_ensures(purge_target, (path,), target),
    ensures
        same_path_as(dir, "/tmp/thorium"@) ==> target@ == path@,
        !same_path_as(dir, "/tmp/thorium"@) ==> target@ == dir,
{
    lemma_parent_and_name(path@, dir, before, last, name);
}

/// All eight paths of a job are cleaned up: those of its dependencies and those of its output.
pub proof fn law_all_paths_of_a_job_are_removed(
    image: Image,
    job_id: &str,
    targets: Vec<String>,
    path: &str,
    own: String,
    own_path: &str,
    target: String,
)
    requires
        call_ensures(purge_targets, (&image, job_id), Ok::<Vec<String>, Error>(targets)),
        call_ensures(isolate, (path, job_id), Ok::<String, Error>(own)),
        own_path@ == own@,
        call_ensures(purge_target, (own_path,), target),
    ensures
        targets@.len() == 8,
        path@ == image.dependencies.samples@ ==> targets@[0]@ == target@,
        path@ == image.dependencies.ephemeral@ ==> targets@[1]@ == target@,
        path@ == image.dependencies.repos@ ==> targets@[2]@ == target@,
        path@ == image.output_collection.results@ ==> targets@[3]@ == target@,
        path@ == image.output_collection.result_files@ ==> targets@[4]@ == target@,
        path@ == image.dependencies.results@ ==> targets@[5]@ == target@,
        path@ == image.output_collection.tags@ ==> targets@[6]@ == target@,
        path@ == image.output_collection.children@ ==> targets@[7]@ == target@,
{
    let t = texts(targets@);
    assert(t.len() == targets@.len());
    assert(forall|i: int| 0 <= i < t.len() ==> #[trigger] t[i] == targets@[i]@);
}

/// Nothing is removed where a path of the job cannot be isolated for it.
pub proof fn law_a_path_that_cannot_be_isolated_keeps_all(
    image: Image,
    job_id: &str,
    r: Result<Vec<String>, Error>,
    path: &str,
    own: Result<String, Error>,
)
    requires
        call_ensures(purge_targets, (&image, job_id), r),
        call_ensures(isolate, (path, job_id), own),
        path@ == image.dependencies.samples@ || path@ == image.dependencies.ephemeral@ || path@
            == image.dependencies.repos@ || path@ == image.dependencies.results@ || path@
            == image.output_collection.results@ || path@ == image.output_collection.result_files@
            || path@ == image.output_collection.tags@ || path@ == image.output_collection.children@,
    ensures
        own is Err ==> r is Err,
        path@ == image.dependencies.samples@ ==> (own matches Err(error) ==> (r matches Err(e)
            && e@ == error@)),
{
    reveal_with_fuel(first_stuck, 9);
}

/// Where every path of the job can be isolated for it, all is cleaned up.
pub proof fn law_paths_that_can_be_isolated_are_removed(
    image: Image,
    job_id: &str,
    r: Result<Vec<String>, Error>,
)
    requires
        call_ensures(purge_targets, (&image, job_id), r),
        isolated(image.dependencies.samples@, job_id@) is Some,
        isolated(image.dependencies.ephemeral@, job_id@) is Some,
        isolated(image.dependencies.repos@, job_id@) is Some,
        isolated(image.dependencies.results@, job_id@) is Some,
        isolated(image.output_collection.results@, job_id@) is Some,
        isolated(image.output_collection.result_files@, job_id@) is Some,
        isolated(image.output_collection.tags@, job_id@) is Some,
        isolated(image.output_collection.children@, job_id@) is Some,
    ensures
        r is Ok,
{
    reveal_with_fuel(first_stuck, 9);
}

/// A clean up runs the script of the image, if it has one, and then removes the paths of the
/// job. Without its script there is no clean up.
pub proof fn law_a_cleanup_is_the_script_and_the_removals(
    image: Image,
    job_id: &str,
    plan: Result<CleanupPlan, Error>,
    line: Result<Vec<String>, Error>,
    targets: Result<Vec<String>, Error>,
)
    requires
        call_ensures(BareMetal::cleanup, (&image, job_id), plan),
        image.clean_up matches Some(clean_up) ==> call_ensures(
            cleanup_command,
            (&clean_up, &image, job_id),
            line,
        ),
        call_ensures(purge_targets, (&image, job_id), targets),
    ensures
        plan is Err <==> image.clean_up is Some && line is Err,
        image.clean_up is Some ==> (line matches Err(error) ==> (plan matches Err(e) && e@
            == error@)),
        plan matches Ok(todo) ==> {
            &&& todo.script is Some <==> image.clean_up is Some
            &&& todo.script matches Some(script) ==> texts(script@) == texts(line->Ok_0@)
            &&& todo.purges is Ok <==> targets is Ok
            &&& todo.purges matches Ok(list) ==> texts(list@) == texts(targets->Ok_0@)
            &&& todo.purges matches Err(e) ==> e@ == targets->Err_0@
        },
{
}

/// The agent is told which worker it works for and where the keys are.
pub proof fn law_agents_on_the_host_are_told_their_worker(
    worker: Worker,
    keys: &str,
    args: Vec<String>,
)
    requires
        call_ensures(agent_args, (&worker, keys), args),
    ensures
        args@.len() == 13,
        args@[0]@ == "--cluster"@ && args@[1]@ == worker.cluster@,
        args@[2]@ == "--group"@ && args@[3]@ == worker.group@,
        args@[4]@ == "--pipeline"@ && args@[5]@ == worker.pipeline@,
        args@[6]@ == "--stage"@ && args@[7]@ == worker.stage@,
        args@[8]@ == "--name"@ && args@[9]@ == worker.name@,
        args@[10]@ == "--keys"@ && args@[11]@ == keys@,
        args@[12]@ == "bare-metal"@,
{
    let told = texts(args@);
    assert(told.len() == args@.len());
    assert(forall|i: int| 0 <= i < told.len() ==> #[trigger] args@[i]@ == told[i]);
}

/// A worker is dead where its process has exited or, where its process is not ours, nothing
/// is left in its control group.
pub proof fn law_workers_live_as_long_as_their_processes(worker: ActiveWorker, alive: bool)
    requires
        call_ensures(ActiveWorker::alive, (&worker,), alive),
    ensures
        !alive <==> worker.child == Some(ChildStatus::Exited) || (worker.child is None
            && !worker.has_procs),
{
}

/// Every process of a control group is killed, in order, but for the ones without an id.
pub proof fn law_all_processes_are_killed(pids: Vec<u64>, targets: Vec<i32>)
    requires
        forall|i: int| 0 <= i < pids@.len() ==> #[trigger] pids@[i] <= i32::MAX,
        call_ensures(kill_targets, (&pids,), targets),
    ensures
        exists|places: Seq<int>|
            {
                &&& #[trigger] names_processes(pids@, pids@.len() as int, places)
                &&& places.len() == targets@.len()
                &&& forall|k: int|
                    0 <= k < places.len() ==> targets@[k] == pids@[#[trigger] places[k]]
            },
{
    let places = lemma_processes(pids@, pids@.len());
    assert(names_processes(pids@, pids@.len() as int, places));
}

/// Whether places name the processes with an id among the first ones, each once and in order.
pub open spec fn names_processes(pids: Seq<u64>, n: int, places: Seq<int>) -> bool {
    &&& forall|k: int|
        0 <= k < places.len() ==> 0 <= #[trigger] places[k] < n && pids[places[k]] != 0
    &&& forall|j: int, k: int|
        0 <= j < k < places.len() ==> #[trigger] places[j] < #[trigger] places[k]
    &&& forall|i: int| 0 <= i < n && #[trigger] pids[i] != 0 ==> places.contains(i)
}

/// Where the processes among the first `n` stand.
proof fn lemma_processes(pids: Seq<u64>, n: nat) -> (places: Seq<int>)
    requires
        n <= pids.len(),
        forall|i: int| 0 <= i < pids.len() ==> #[trigger] pids[i] <= i32::MAX,
    ensures
        names_processes(pids, n as int, places),
        places.len() == killable(pids, n).len(),
        forall|k: int|
            0 <= k < places.len() ==> killable(pids, n)[k] == pids[#[trigger] places[k]],
    decreases n,
{
    if n == 0 {
        Seq::empty()
    } else {
        let m = n - 1;
        let before = lemma_processes(pids, m as nat);
        let places = if pids[m] != 0 {
            before.push(m)
        } else {
            before
        };
        assert forall|i: int| 0 <= i < n && #[trigger] pids[i] != 0 implies places.contains(i) by {
            if i < m {
                let k = before.index_of(i);
                assert(places[k] == i);
            } else {
                assert(places[before.len() as int] == m);
            }
        }
        places
    }
}

/// A launcher starts without workers. It tracks the workers that were launched from then on, and
/// the others that it had, until they are killed.
pub proof fn law_launched_workers_are_tracked_until_they_are_killed(
    cluster: String,
    node: String,
    new: BareMetal,
    launcher: &mut BareMetal,
    launches: Vec<String>,
    killer: &mut BareMetal,
    killed: &str,
    known: bool,
    name: Seq<char>,
)
    requires
        call_ensures(BareMetal::new, (cluster, node), new),
        call_ensures(BareMetal::resolve_launches, (launcher, &launches), ()),
        call_ensures(BareMetal::kill, (killer, killed), known),
    ensures
        !new.active@.contains(name),
        new.cluster == cluster && new.node == node,
        final(launcher).active@.contains(name) <==> old(launcher).active@.contains(name) || exists|
            i: int,
        |
            0 <= i < launches@.len() && (#[trigger] launches@[i])@ == name,
        final(launcher).cluster == old(launcher).cluster,
        final(launcher).node == old(launcher).node,
        known <==> old(killer).active@.contains(killed@),
        final(killer).active@.contains(name) <==> old(killer).active@.contains(name) && name
            != killed@,
{
    let t = texts(launches@);
    if t.to_set().contains(name) {
        let i = choose|i: int| 0 <= i < t.len() && t[i] == name;
        assert(launches@[i]@ == name);
    }
    if exists|i: int| 0 <= i < launches@.len() && (#[trigger] launches@[i])@ == name {
        let i = choose|i: int| 0 <= i < launches@.len() && (#[trigger] launches@[i])@ == name;
        assert(t[i] == name);
    }
}

/// A worker is recovered where the node should have it, it has processes, and it is not known
/// yet. Where some were, all workers of the node that are known then become active as the node
/// describes them, and are looked at no more.
pub proof fn law_workers_with_processes_are_recovered(
    launcher: &mut BareMetal,
    info: &mut Node,
    active: &mut NameMap<Worker>,
    with_procs: NameSet,
    r: Vec<String>,
    name: Seq<char>,
    i: int,
    j: int,
)
    requires
        call_ensures(BareMetal::recover_workers, (launcher, info, active, &with_procs), r),
    ensures
        (exists|i: int| 0 <= i < r@.len() && (#[trigger] r@[i])@ == name) <==> old(
            info
        ).workers@.dom().contains(name) && with_procs@.contains(name) && !old(
            launcher
        ).active@.contains(name),
        final(launcher).active@.contains(name) <==> old(launcher).active@.contains(name) || (old(
            info
        ).workers@.dom().contains(name) && with_procs@.contains(name)),
        0 <= i < j < r@.len() ==> r@[i]@ != r@[j]@,
        r@.len() == 0 ==> final(active)@ == old(active)@ && final(info).workers@ == old(
            info
        ).workers@,
        r@.len() > 0 && old(info).workers@.dom().contains(name) && final(
            launcher
        ).active@.contains(name) ==> final(active)@.contains_pair(name, old(info).workers@[name])
            && !final(info).workers@.dom().contains(name),
        !(old(info).workers@.dom().contains(name) && final(launcher).active@.contains(name)) ==> {
            &&& final(active)@.dom().contains(name) == old(active)@.dom().contains(name)
            &&& old(active)@.dom().contains(name) ==> final(active)@[name] == old(active)@[name]
            &&& final(info).workers@.dom().contains(name) == old(info).workers@.dom().contains(name)
        },
{
    let found = crate::bare_metal::recovered(
        old(launcher).active@,
        old(info).workers@,
        with_procs@,
    );
    assert(found.contains(name) <==> old(info).workers@.dom().contains(name)
        && with_procs@.contains(name) && !old(launcher).active@.contains(name));
    if r@.len() > 0 {
        assert(found.contains(r@[0]@));
    } else {
        assert(found =~= Set::<Seq<char>>::empty()) by {
            assert forall|n: Seq<char>| !found.contains(n) by {
                if found.contains(n) {
                    let i = choose|i: int| 0 <= i < r@.len() && (#[trigger] r@[i])@ == n;
                }
            }
        }
        assert(old(info).workers@.remove_keys(Set::empty()) =~= old(info).workers@);
        assert(final(active)@ =~= old(active)@);
    }
}

/// A worker that is dead is dropped everywhere and deleted from the API, and so is one that the
/// API has as running but that is not on the node. All other workers stay.
pub proof fn law_dead_workers_are_dropped(
    launcher: &mut BareMetal,
    info: Node,
    active: &mut NameMap<Worker>,
    dead: NameSet,
    deletes: WorkerDeleteMap,
    name: Seq<char>,
)
    requires
        call_ensures(BareMetal::check_helper, (launcher, &info, active, &dead), deletes),
    ensures
        final(launcher).active@.contains(name) <==> old(launcher).active@.contains(name)
            && !dead@.contains(name),
        final(active)@.dom().contains(name) <==> old(active)@.dom().contains(name) && !(old(
            launcher
        ).active@.contains(name) && dead@.contains(name)),
        final(active)@.dom().contains(name) ==> final(active)@[name] == old(active)@[name],
        old(launcher).active@.contains(name) && dead@.contains(name) && old(
            active
        )@.dom().contains(name) ==> deletes.workers@.contains(old(active)@[name].name@),
        info.workers@.dom().contains(name) && info.workers@[name].status == WorkerStatus::Running
            && !final(launcher).active@.contains(name) ==> deletes.workers@.contains(name),
        deletes.workers@.contains(name) ==> {
            ||| info.workers@.dom().contains(name) && info.workers@[name].status
                == WorkerStatus::Running && !final(launcher).active@.contains(name)
            ||| exists|key: Seq<char>| #[trigger]
                old(active)@.dom().contains(key) && old(launcher).active@.contains(key)
                    && dead@.contains(key) && old(active)@[key].name@ == name
        },
{
    let gone = old(launcher).active@.intersect(dead@);
    if old(launcher).active@.contains(name) && dead@.contains(name) && old(active)@.dom().contains(
        name,
    ) {
        assert(gone.contains(name));
        assert(crate::bare_metal::died(gone, old(active)@, old(active)@[name].name@));
    }
    if deletes.workers@.contains(name) && crate::bare_metal::died(gone, old(active)@, name) {
        let key = choose|key: Seq<char>|
            gone.contains(key) && #[trigger] old(active)@.dom().contains(key) && old(
                active
            )@[key].name@ == name;
        assert(old(active)@.dom().contains(key));
    }
}

} // verus!
