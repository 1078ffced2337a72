//! Launches bare metal jobs.

use vstd::prelude::*;

use crate::error::{Error, ErrorView};
use crate::models::{ArgStrategy, Cleanup, Image, Node, Worker, WorkerDeleteMap, WorkerStatus};
use crate::names::{lemma_one_more, NameMap, NameSet};
use crate::paths::{
    components_among,
    components_of,
    file_name,
    file_name_of,
    has_root,
    is_component,
    join,
    joined,
    last_start,
    lead_len,
    lemma_last_start,
    lemma_without_trailing,
    parent,
    parent_of,
    same_path,
    same_path_as,
    trunk,
    without_trailing,
};
use crate::text::{join2, lemma_pieces_push, pieces, texts, to_owned};

verus! {

/// The directory of the jobs' files by default
pub const DEFAULT_DIR: &'static str = "/tmp/thorium";

/// The arguments with one more that is passed as a strategy says.
pub open spec fn injected(
    args: Seq<Seq<char>>,
    value: Seq<char>,
    strategy: ArgStrategy,
) -> Seq<Seq<char>> {
    match strategy {
        ArgStrategy::Skip => args,
        ArgStrategy::Append => args.push(value),
        ArgStrategy::Kwarg(key) => args.push(key@).push(value),
    }
}

/// Inject a single argument.
///
/// * `args` - The args to append too
/// * `value` - The value to add to our args
/// * `strategy` - The arg strategy to use
pub fn inject_arg(args: &mut Vec<String>, value: String, strategy: ArgStrategy)
    ensures
        texts(final(args)@) == injected(texts(old(args)@), value@, strategy),
{
    let ghost before = args@;
    match strategy {
        ArgStrategy::Skip => {},
        ArgStrategy::Append => {
            args.push(value);
            assert(texts(args@) =~= texts(before).push(value@));
        },
        ArgStrategy::Kwarg(key) => {
            args.push(key);
            args.push(value);
            assert(texts(args@) =~= texts(before).push(key@).push(value@));
        },
    }
}

/// A path, isolated for a job: with the job's id before its final segment, or behind it
/// where the path is just the default directory.
pub open spec fn isolated(path: Seq<char>, id: Seq<char>) -> Option<Seq<char>> {
    if same_path_as(path, DEFAULT_DIR@) {
        Some(joined(path, id))
    } else {
        match file_name_of(path) {
            Some(name) => Some(joined(joined(parent_of(path)->0, id), name)),
            None => None,
        }
    }
}

/// Isolate a path to target folder or file.
///
/// * `raw` - The path to isolate
/// * `id` - The job id to append
pub fn isolate(raw: &str, id: &str) -> (r: Result<String, Error>)
    ensures
        match isolated(raw@, id@) {
            Some(path) => r matches Ok(p) && p@ == path,
            None => r matches Err(e) && e@ == ErrorView::Generic(
                raw@ + " cannot be isolated by job"@,
            ),
        },
{
    if same_path(raw, DEFAULT_DIR) {
        return Ok(join(raw, id));
    }
    match file_name(raw) {
        Some(name) => {
            proof {
                lemma_named_paths_have_parents(raw@);
            }
            match parent(raw) {
                Some(dir) => {
                    let job_dir: String = join(dir.as_str(), id);
                    Ok(join(job_dir.as_str(), name.as_str()))
                },
                None => Err(Error::Generic(join2(raw, " cannot be isolated by job"))),
            }
        },
        None => Err(Error::Generic(join2(raw, " cannot be isolated by job"))),
    }
}

/// A path with a file name has a parent.
proof fn lemma_named_paths_have_parents(path: Seq<char>)
    requires
        file_name_of(path) is Some,
    ensures
        parent_of(path) is Some,
{
    lemma_without_trailing(path, lead_len(path));
}

/// Whether a name is a plain one: not empty, without separators, and no component that
/// stands for a directory by itself.
pub open spec fn is_plain(name: Seq<char>) -> bool {
    &&& name.len() > 0
    &&& !name.contains('/')
    &&& name != seq!['.']
    &&& name != seq!['.', '.']
}

/// What is to be removed to clean up behind an isolated path: the directory it is in, or the
/// path itself where that directory is the default one.
pub open spec fn purge_target_of(path: Seq<char>) -> Seq<char> {
    let dir = parent_of(path)->0;
    if same_path_as(dir, DEFAULT_DIR@) {
        path
    } else {
        dir
    }
}

/// What is to be removed to clean up behind an isolated path.
///
/// * `path` - The isolated path
pub fn purge_target(path: &str) -> (r: String)
    requires
        parent_of(path@) is Some,
    ensures
        r@ == purge_target_of(path@),
{
    match parent(path) {
        Some(dir) => if same_path(dir.as_str(), DEFAULT_DIR) {
            to_owned(path)
        } else {
            dir
        },
        None => to_owned(path),
    }
}

/// The directory of a job for a path.
pub open spec fn job_dir(path: Seq<char>, id: Seq<char>) -> Seq<char> {
    if same_path_as(path, DEFAULT_DIR@) {
        joined(path, id)
    } else {
        joined(parent_of(path)->0, id)
    }
}

/// A plain name behind a separator is the last segment.
pub proof fn lemma_last_segment(s: Seq<char>, name: Seq<char>)
    requires
        s.len() == 0 || s.last() == '/',
        name.len() > 0,
        !name.contains('/'),
    ensures
        last_start(s + name) == s.len(),
    decreases name.len(),
{
    let whole = s + name;
    assert(whole.last() == name.last());
    assert(name.contains(name.last()));
    if name.len() == 1 {
        assert(whole.drop_last() =~= s);
        assert(last_start(s) == s.len());
    } else {
        assert(whole.drop_last() =~= s + name.drop_last());
        assert(!name.drop_last().contains('/')) by {
            if name.drop_last().contains('/') {
                let i = choose|i: int| 0 <= i < name.drop_last().len() && name.drop_last()[i] == '/';
                assert(name[i] == '/');
            }
        }
        lemma_last_segment(s, name.drop_last());
    }
}

/// A path that ends with a plain name has nothing trailing.
pub proof fn lemma_nothing_trails(s: Seq<char>, name: Seq<char>, lead: int)
    requires
        s.len() == 0 || s.last() == '/',
        name.len() > 0,
        !name.contains('/'),
        name != seq!['.'],
    ensures
        without_trailing(s + name, lead) == s + name,
{
    let whole = s + name;
    lemma_last_segment(s, name);
    assert(whole.last() == name.last());
    assert(name.contains(name.last()));
    if whole.last() == '.' && last_start(whole) == whole.len() - 1 {
        assert(name =~= seq!['.']);
    }
}

/// The file name of a path is a plain name.
pub proof fn lemma_file_names_are_plain(path: Seq<char>)
    requires
        file_name_of(path) is Some,
    ensures
        is_plain(file_name_of(path)->0),
{
    let t = trunk(path);
    let name = file_name_of(path)->0;
    let lead = lead_len(path);
    lemma_last_start(t);
    lemma_trunk_is_trimmed(path, lead);
    assert(!name.contains('/')) by {
        if name.contains('/') {
            let i = choose|i: int| 0 <= i < name.len() && name[i] == '/';
            assert(t[last_start(t) + i] == '/');
        }
    }
    if name =~= seq!['.'] {
        assert(t.last() == name[0]);
    }
}

/// What is left of a path has nothing trailing.
proof fn lemma_trunk_is_trimmed(s: Seq<char>, lead: int)
    ensures
        ({
            let t = without_trailing(s, lead);
            t.len() > lead && t.len() > 0 ==> t.last() != '/' && !(t.last() == '.' && last_start(t)
                == t.len() - 1)
        }),
    decreases s.len(),
{
    if s.len() <= lead || s.len() == 0 {
    } else if s.last() == '/' || (s.last() == '.' && last_start(s) == s.len() - 1) {
        lemma_trunk_is_trimmed(s.drop_last(), lead);
    }
}

/// A path without what it ends with has the same components.
proof fn lemma_trunk_has_the_components(s: Seq<char>, lead: int)
    requires
        lead == 1,
        has_root(s),
    ensures
        components_of(without_trailing(s, lead)) == components_of(s),
        has_root(without_trailing(s, lead)),
    decreases s.len(),
{
    if s.len() <= lead {
    } else if s.last() == '/' {
        let t = s.drop_last();
        lemma_trunk_has_the_components(t, lead);
        assert(t.push('/') =~= s);
        lemma_separator_adds_nothing(t);
    } else if s.last() == '.' && last_start(s) == s.len() - 1 {
        let t = s.drop_last();
        lemma_trunk_has_the_components(t, lead);
        assert(t.push('.') =~= s);
        lemma_last_start(s);
        assert(s[s.len() - 2] == '/');
        let u = t.drop_last();
        assert(u.push('/') =~= t);
        lemma_pieces_push(u, '/', '/');
        lemma_pieces_push(t, '.', '/');
        let p = pieces(u, '/');
        let q = pieces(t, '/');
        let w = pieces(s, '/');
        assert(q == p.push(Seq::empty()));
        assert(w =~= p.push(seq!['.']));
        lemma_same_components(p, q, p.len());
        lemma_same_components(p, w, p.len());
        assert(p.len() >= 1);
        assert(!is_component(q, p.len() as int));
        assert(!is_component(w, p.len() as int));
    }
}

/// A separator at the end of a path adds no component.
proof fn lemma_separator_adds_nothing(s: Seq<char>)
    ensures
        components_of(s.push('/')) == components_of(s),
{
    lemma_pieces_push(s, '/', '/');
    let p = pieces(s, '/');
    let q = pieces(s.push('/'), '/');
    assert(q == p.push(Seq::empty()));
    lemma_same_components(p, q, p.len());
    assert(!is_component(q, p.len() as int));
}

/// The components among pieces depend on those pieces alone.
proof fn lemma_same_components(p: Seq<Seq<char>>, q: Seq<Seq<char>>, n: nat)
    requires
        n <= p.len(),
        n <= q.len(),
        forall|i: int| 0 <= i < n ==> p[i] == q[i],
    ensures
        components_among(p, n) == components_among(q, n),
    decreases n,
{
    if n > 0 {
        lemma_same_components(p, q, (n - 1) as nat);
    }
}

/// Cleaning up behind a job removes the job's own directory and nothing around it.
pub proof fn law_purging_stays_in_the_job_dir(path: Seq<char>, id: Seq<char>)
    requires
        is_plain(id),
        isolated(path, id) is Some,
        !same_path_as(job_dir(path, id), DEFAULT_DIR@),
    ensures
        parent_of(isolated(path, id)->0) is Some,
        purge_target_of(isolated(path, id)->0) == job_dir(path, id),
{
    let iso = isolated(path, id)->0;
    let dir = DEFAULT_DIR@;
    if same_path_as(path, dir) {
        reveal_strlit("/tmp/thorium");
        assert(has_root(dir));
        assert(has_root(path));
        assert(!has_root(id)) by {
            if has_root(id) {
                assert(id.contains(id[0]));
            }
        }
        let base = if path.last() == '/' {
            path
        } else {
            path.push('/')
        };
        assert(iso =~= base + id);
        lemma_last_segment(base, id);
        assert(lead_len(iso) == 1);
        lemma_nothing_trails(base, id, 1);
        assert(trunk(iso) == iso);
        assert(iso.take(base.len() as int) =~= base);
        assert(parent_of(iso) == Some(without_trailing(base, 1)));
        if path.last() != '/' {
            lemma_separator_adds_nothing(path);
        }
        lemma_trunk_has_the_components(base, 1);
        assert(same_path_as(without_trailing(base, 1), dir));
    } else {
        lemma_named_paths_have_parents(path);
        lemma_file_names_are_plain(path);
        let name = file_name_of(path)->0;
        let up = parent_of(path)->0;
        let job = joined(up, id);
        assert(!has_root(id)) by {
            if has_root(id) {
                assert(id.contains(id[0]));
            }
        }
        assert(!has_root(name)) by {
            if has_root(name) {
                assert(name.contains(name[0]));
            }
        }
        assert(id.contains(id.last()));
        assert(job.len() > 0 && job.last() == id.last());
        let base = job.push('/');
        assert(iso =~= base + name);
        lemma_last_segment(base, name);
        lemma_nothing_trails(base, name, lead_len(iso));
        assert(trunk(iso) == iso);
        assert(iso.take(base.len() as int) =~= base);
        assert(iso.len() > 1);
        assert(parent_of(iso) == Some(without_trailing(base, lead_len(iso))));
        assert(base.drop_last() =~= job);
        let before = if up.len() == 0 {
            Seq::empty()
        } else if up.last() == '/' {
            up
        } else {
            up.push('/')
        };
        assert(job =~= before + id);
        lemma_nothing_trails(before, id, lead_len(iso));
        assert(without_trailing(base, lead_len(iso)) == job);
    }
}

/// An isolated path has a parent, for plain ids.
proof fn lemma_isolated_paths_have_parents(path: Seq<char>, id: Seq<char>)
    requires
        is_plain(id),
        isolated(path, id) is Some,
    ensures
        parent_of(isolated(path, id)->0) is Some,
{
    let iso = isolated(path, id)->0;
    let last = if same_path_as(path, DEFAULT_DIR@) {
        id
    } else {
        lemma_file_names_are_plain(path);
        file_name_of(path)->0
    };
    let up = if same_path_as(path, DEFAULT_DIR@) {
        path
    } else {
        joined(parent_of(path)->0, id)
    };
    assert(!has_root(last)) by {
        if has_root(last) {
            assert(last.contains(last[0]));
        }
    }
    let before = if up.len() == 0 {
        Seq::empty()
    } else if up.last() == '/' {
        up
    } else {
        up.push('/')
    };
    assert(iso =~= before + last);
    lemma_nothing_trails(before, last, lead_len(iso));
    assert(trunk(iso) == iso);
    assert(iso.last() == last.last());
    assert(last.contains(last.last()));
}

/// The first of some paths that cannot be isolated by job, if there is one.
pub open spec fn first_stuck(paths: Seq<Seq<char>>, id: Seq<char>, i: nat) -> Option<Seq<char>>
    decreases paths.len() - i,
{
    if i >= paths.len() {
        None
    } else if isolated(paths[i as int], id) is None {
        Some(paths[i as int])
    } else {
        first_stuck(paths, id, i + 1)
    }
}

/// The error for a path that cannot be isolated by job.
pub open spec fn stuck(path: Seq<char>) -> ErrorView {
    ErrorView::Generic(path + " cannot be isolated by job"@)
}

/// Isolate paths, up to the first that cannot be isolated.
fn isolate_all(paths: &Vec<String>, id: &str) -> (r: Result<Vec<String>, Error>)
    ensures
        match first_stuck(texts(paths@), id@, 0) {
            Some(path) => r matches Err(e) && e@ == stuck(path),
            None => r matches Ok(list) && list@.len() == paths@.len() && (forall|i: int|
                0 <= i < paths@.len() ==> isolated(paths@[i]@, id@) == Some(
                    (#[trigger] list@[i])@,
                )),
        },
{
    let mut out: Vec<String> = Vec::new();
    let ghost all = texts(paths@);
    for i in 0..paths.len()
        invariant
            all == texts(paths@),
            out@.len() == i,
            first_stuck(all, id@, 0) == first_stuck(all, id@, i as nat),
            forall|j: int|
                0 <= j < i ==> isolated(paths@[j]@, id@) == Some((#[trigger] out@[j])@),
    {
        assert(all[i as int] == paths@[i as int]@);
        match isolate(paths[i].as_str(), id) {
            Ok(path) => out.push(path),
            Err(error) => return Err(error),
        }
    }
    Ok(out)
}

/// The paths that a job's files are under, in the order in which they are isolated.
pub open spec fn job_paths(image: Image) -> Seq<Seq<char>> {
    seq![
        image.dependencies.samples@,
        image.dependencies.ephemeral@,
        image.dependencies.repos@,
        image.dependencies.results@,
        image.output_collection.results@,
        image.output_collection.result_files@,
        image.output_collection.tags@,
        image.output_collection.children@,
    ]
}

/// What is to be removed for a path of a job.
pub open spec fn purge_of(path: Seq<char>, id: Seq<char>) -> Seq<char> {
    purge_target_of(isolated(path, id)->0)
}

/// What is to be removed to clean up behind a job, in the order in which it goes.
pub open spec fn purges(image: Image, id: Seq<char>) -> Seq<Seq<char>> {
    seq![
        purge_of(image.dependencies.samples@, id),
        purge_of(image.dependencies.ephemeral@, id),
        purge_of(image.dependencies.repos@, id),
        purge_of(image.output_collection.results@, id),
        purge_of(image.output_collection.result_files@, id),
        purge_of(image.dependencies.results@, id),
        purge_of(image.output_collection.tags@, id),
        purge_of(image.output_collection.children@, id),
    ]
}

/// What is to be removed, if it exists, to clean up behind a job.
///
/// * `image` - The image of the job
/// * `job_id` - The id of the job
pub fn purge_targets(image: &Image, job_id: &str) -> (r: Result<Vec<String>, Error>)
    requires
        is_plain(job_id@),
    ensures
        match first_stuck(job_paths(*image), job_id@, 0) {
            Some(path) => r matches Err(e) && e@ == stuck(path),
            None => r matches Ok(list) && texts(list@) == purges(*image, job_id@),
        },
{
    let paths: Vec<String> =
        vec![
        image.dependencies.samples.clone(),
        image.dependencies.ephemeral.clone(),
        image.dependencies.repos.clone(),
        image.dependencies.results.clone(),
        image.output_collection.results.clone(),
        image.output_collection.result_files.clone(),
        image.output_collection.tags.clone(),
        image.output_collection.children.clone(),
    ];
    assert(texts(paths@) =~= job_paths(*image));
    let iso: Vec<String> = match isolate_all(&paths, job_id) {
        Ok(list) => list,
        Err(error) => return Err(error),
    };
    proof {
        assert forall|i: int| 0 <= i < 8 implies parent_of((#[trigger] iso@[i])@) is Some by {
            lemma_isolated_paths_have_parents(paths@[i]@, job_id@);
        }
    }
    let targets: Vec<String> =
        vec![
        purge_target(iso[0].as_str()),
        purge_target(iso[1].as_str()),
        purge_target(iso[2].as_str()),
        purge_target(iso[4].as_str()),
        purge_target(iso[5].as_str()),
        purge_target(iso[3].as_str()),
        purge_target(iso[6].as_str()),
        purge_target(iso[7].as_str()),
    ];
    assert(texts(targets@) =~= purges(*image, job_id@));
    Ok(targets)
}

/// The strategy to pass an argument with, as another owner of it.
fn copy_strategy(strategy: &ArgStrategy) -> (r: ArgStrategy)
    ensures
        r == *strategy,
{
    match strategy {
        ArgStrategy::Skip => ArgStrategy::Skip,
        ArgStrategy::Append => ArgStrategy::Append,
        ArgStrategy::Kwarg(key) => ArgStrategy::Kwarg(key.clone()),
    }
}

/// The command line of the script that cleans up behind a job.
pub open spec fn cleanup_line(
    clean_up: Cleanup,
    job_id: Seq<char>,
    results: Seq<char>,
    result_files: Seq<char>,
) -> Seq<Seq<char>> {
    injected(
        injected(
            injected(seq![clean_up.script@], job_id, clean_up.job_id),
            results,
            clean_up.results,
        ),
        result_files,
        clean_up.result_files_dir,
    )
}

/// The command line of the script that cleans up behind a job.
///
/// * `clean_up` - The script and how its arguments are passed
/// * `image` - The image of the job
/// * `job_id` - The id of the job
pub fn cleanup_command(clean_up: &Cleanup, image: &Image, job_id: &str) -> (r: Result<
    Vec<String>,
    Error,
>)
    ensures
        match (
            isolated(image.output_collection.results@, job_id@),
            isolated(image.output_collection.result_files@, job_id@),
        ) {
            (None, _) => r matches Err(e) && e@ == stuck(image.output_collection.results@),
            (Some(_), None) => r matches Err(e) && e@ == stuck(
                image.output_collection.result_files@,
            ),
            (Some(results), Some(result_files)) => r matches Ok(line) && texts(line@)
                == cleanup_line(*clean_up, job_id@, results, result_files),
        },
{
    let mut line: Vec<String> = Vec::new();
    line.push(clean_up.script.clone());
    assert(texts(line@) =~= seq![clean_up.script@]);
    inject_arg(&mut line, to_owned(job_id), copy_strategy(&clean_up.job_id));
    let results: String = match isolate(image.output_collection.results.as_str(), job_id) {
        Ok(path) => path,
        Err(error) => return Err(error),
    };
    let result_files: String = match isolate(
        image.output_collection.result_files.as_str(),
        job_id,
    ) {
        Ok(path) => path,
        Err(error) => return Err(error),
    };
    inject_arg(&mut line, results, copy_strategy(&clean_up.results));
    inject_arg(&mut line, result_files, copy_strategy(&clean_up.result_files_dir));
    Ok(line)
}

/// What it takes to clean up behind a job
#[derive(Debug)]
pub struct CleanupPlan {
    /// The command line of the script to run first, if one is configured
    pub script: Option<Vec<String>>,
    /// What is to be removed after that, if it exists, or the error to end with
    pub purges: Result<Vec<String>, Error>,
}

/// The path that keeps the script of a job from being run: it is to be given paths that cannot
/// be isolated by job.
pub open spec fn script_stuck(image: Image, id: Seq<char>) -> Option<Seq<char>> {
    if image.clean_up is None {
        None
    } else if isolated(image.output_collection.results@, id) is None {
        Some(image.output_collection.results@)
    } else if isolated(image.output_collection.result_files@, id) is None {
        Some(image.output_collection.result_files@)
    } else {
        None
    }
}

/// The arguments to spawn the agent of a worker with.
pub open spec fn agent_args_of(worker: Worker, keys: Seq<char>) -> Seq<Seq<char>> {
    seq![
        "--cluster"@,
        worker.cluster@,
        "--group"@,
        worker.group@,
        "--pipeline"@,
        worker.pipeline@,
        "--stage"@,
        worker.stage@,
        "--name"@,
        worker.name@,
        "--keys"@,
        keys,
        "bare-metal"@,
    ]
}

/// The arguments to spawn the agent of a worker with.
///
/// * `worker` - The worker
/// * `keys` - The path to the keys of the worker's user
pub fn agent_args(worker: &Worker, keys: &str) -> (r: Vec<String>)
    ensures
        texts(r@) == agent_args_of(*worker, keys@),
{
    let args: Vec<String> =
        vec![
        to_owned("--cluster"),
        worker.cluster.clone(),
        to_owned("--group"),
        worker.group.clone(),
        to_owned("--pipeline"),
        worker.pipeline.clone(),
        to_owned("--stage"),
        worker.stage.clone(),
        to_owned("--name"),
        worker.name.clone(),
        to_owned("--keys"),
        to_owned(keys),
        to_owned("bare-metal"),
    ];
    assert(texts(args@) =~= agent_args_of(*worker, keys@));
    args
}

/// What is known of the process that was spawned for a worker
#[derive(Debug, Clone, Copy, PartialEq, Eq, Structural)]
pub enum ChildStatus {
    /// The process has exited
    Exited,
    /// The process has not exited yet
    Running,
    /// It could not be found out whether the process has exited
    Unknown,
}

/// A currently active bare metal worker, as far as it is known at some point in time
#[derive(Debug, Clone, Copy, PartialEq, Eq, Structural)]
pub struct ActiveWorker {
    /// The status of the process that was spawned for the worker, if we spawned it
    pub child: Option<ChildStatus>,
    /// Whether there are processes in the worker's control group
    pub has_procs: bool,
}

/// Whether a worker is alive: its process has not exited or, where we did not spawn it, its
/// control group has processes. A process that nothing can be found out about counts as alive.
pub open spec fn is_alive(worker: ActiveWorker) -> bool {
    match worker.child {
        Some(ChildStatus::Exited) => false,
        Some(ChildStatus::Running) => true,
        Some(ChildStatus::Unknown) => true,
        None => worker.has_procs,
    }
}

impl ActiveWorker {
    /// Checks if this worker is alive still.
    pub fn alive(&self) -> (r: bool)
        ensures
            r == is_alive(*self),
    {
        match self.child {
            Some(ChildStatus::Exited) => false,
            Some(ChildStatus::Running) => true,
            Some(ChildStatus::Unknown) => true,
            None => self.has_procs,
        }
    }
}

/// `rustix::process::Pid::from_raw`: a number that is not negative is the id of a process
/// unless it is zero.
#[verifier::external_body]
fn is_pid(raw: i32) -> (r: bool)
    requires
        raw >= 0,
    ensures
        r == (raw != 0),
{
    rustix::process::Pid::from_raw(raw).is_some()
}

/// The processes among the first `n` of a control group that can be killed.
pub open spec fn killable(pids: Seq<u64>, n: nat) -> Seq<i32>
    decreases n,
{
    if n == 0 {
        Seq::empty()
    } else {
        let before = killable(pids, (n - 1) as nat);
        if pids[n - 1] != 0 {
            before.push(pids[n - 1] as i32)
        } else {
            before
        }
    }
}

/// The processes of a control group to kill: those with a valid id.
///
/// * `pids` - The ids of the processes in the control group
pub fn kill_targets(pids: &Vec<u64>) -> (r: Vec<i32>)
    requires
        forall|i: int| 0 <= i < pids@.len() ==> #[trigger] pids@[i] <= i32::MAX,
    ensures
        r@ == killable(pids@, pids@.len()),
{
    let mut out: Vec<i32> = Vec::new();
    for i in 0..pids.len()
        invariant
            forall|j: int| 0 <= j < pids@.len() ==> #[trigger] pids@[j] <= i32::MAX,
            out@ == killable(pids@, i as nat),
    {
        let pid: u64 = pids[i];
        let raw: i32 = pid as i32;
        if is_pid(raw) {
            out.push(raw);
        }
    }
    out
}

/// Handles launching jobs on bare metal nodes
#[derive(Debug)]
pub struct BareMetal {
    /// The name of the cluster we are on
    pub cluster: String,
    /// The name of the node we are on
    pub node: String,
    /// The names of the currently active workers
    pub active: NameSet,
}

/// The workers to delete from the API when workers of a node are found dead: those that the
/// reactor has as active, by the names they go by, and those that the API has as running but
/// the node does not.
pub open spec fn deletes_for(
    dead: Set<Seq<char>>,
    active: Map<Seq<char>, Worker>,
    info: Map<Seq<char>, Worker>,
    alive: Set<Seq<char>>,
) -> Set<Seq<char>> {
    Set::new(
        |name: Seq<char>|
            died(dead, active, name) || (info.dom().contains(name) && info[name].status
                == WorkerStatus::Running && !alive.contains(name)),
    )
}

/// Whether a name is that of an active worker that was found dead.
pub open spec fn died(
    dead: Set<Seq<char>>,
    active: Map<Seq<char>, Worker>,
    name: Seq<char>,
) -> bool {
    exists|key: Seq<char>|
        dead.contains(key) && #[trigger] active.dom().contains(key) && active[key].name@ == name
}

/// The workers that are recovered: those of the node that have processes, but for the ones that
/// we know about.
pub open spec fn recovered(
    known: Set<Seq<char>>,
    workers: Map<Seq<char>, Worker>,
    with_procs: Set<Seq<char>>,
) -> Set<Seq<char>> {
    workers.dom().intersect(with_procs).difference(known)
}

/// The workers of the node that are put in the reactor's active map: none where none was
/// recovered, and else all that we know about then.
pub open spec fn moved_workers(
    known: Set<Seq<char>>,
    workers: Map<Seq<char>, Worker>,
    with_procs: Set<Seq<char>>,
) -> Set<Seq<char>> {
    let found = recovered(known, workers, with_procs);
    if found == Set::<Seq<char>>::empty() {
        Set::empty()
    } else {
        workers.dom().intersect(known.union(found))
    }
}

/// The reactor's active workers once workers of the node were put among them, in place of what
/// was there under their names.
pub open spec fn with_moved(
    active: Map<Seq<char>, Worker>,
    workers: Map<Seq<char>, Worker>,
    moved: Set<Seq<char>>,
) -> Map<Seq<char>, Worker> {
    active.union_prefer_right(workers.restrict(moved))
}

/// A worker that was recovered is in the reactor's active map with the node's info on it.
pub proof fn law_recovered_workers_are_active(
    known: Set<Seq<char>>,
    active: Map<Seq<char>, Worker>,
    workers: Map<Seq<char>, Worker>,
    with_procs: Set<Seq<char>>,
    name: Seq<char>,
)
    requires
        workers.dom().contains(name),
        with_procs.contains(name),
        !known.contains(name),
    ensures
        ({
            let after = with_moved(active, workers, moved_workers(known, workers, with_procs));
            after.dom().contains(name) && after[name] == workers[name]
        }),
{
    assert(recovered(known, workers, with_procs).contains(name));
}

impl BareMetal {
    /// Create a new bare metal launcher.
    ///
    /// * `cluster` - The cluster we are in
    /// * `node` - The node we are on
    pub fn new(cluster: String, node: String) -> (r: BareMetal)
        ensures
            r.cluster == cluster,
            r.node == node,
            r.active@ == Set::<Seq<char>>::empty(),
    {
        BareMetal { cluster, node, active: NameSet::new() }
    }

    /// Recover the workers that should exist on this node, that we don't know about, and that
    /// have processes. Returns their names, each once.
    ///
    /// Where some were recovered, all our workers are put in the reactor's active map, with the
    /// node's info on them. They are then not to be looked at again as workers of the node.
    ///
    /// * `info` - Info about our node and its workers
    /// * `active` - The currently active workers in the reactor
    /// * `with_procs` - The workers whose control group has processes
    pub fn recover_workers(
        &mut self,
        info: &mut Node,
        active: &mut NameMap<Worker>,
        with_procs: &NameSet,
    ) -> (r: Vec<String>)
        ensures
            final(self).cluster == old(self).cluster,
            final(self).node == old(self).node,
            final(self).active@ == old(self).active@.union(
                recovered(old(self).active@, old(info).workers@, with_procs@),
            ),
            forall|name: Seq<char>|
                (exists|i: int| 0 <= i < r@.len() && (#[trigger] r@[i])@ == name)
                    <==> #[trigger] recovered(
                    old(self).active@,
                    old(info).workers@,
                    with_procs@,
                ).contains(name),
            forall|i: int, j: int|
                0 <= i < j < r@.len() ==> (#[trigger] r@[i])@ != (#[trigger] r@[j])@,
            ({
                let moved = moved_workers(old(self).active@, old(info).workers@, with_procs@);
                &&& final(active)@ == with_moved(old(active)@, old(info).workers@, moved)
                &&& final(info).workers@ == old(info).workers@.remove_keys(moved)
            }),
    {
        let names: Vec<String> = info.workers.keys();
        let mut out: Vec<String> = Vec::new();
        let ghost before = self.active@;
        let ghost workers = info.workers@;
        let ghost had = active@;
        let ghost mut done: Set<Seq<char>> = Set::empty();
        for i in 0..names.len()
            invariant
                self.cluster == old(self).cluster,
                self.node == old(self).node,
                before == old(self).active@,
                info.workers@ == workers,
                active@ == had,
                forall|j: int, k: int|
                    0 <= j < k < names@.len() ==> (#[trigger] names@[j])@ != (
                    #[trigger] names@[k])@,
                forall|name: Seq<char>|
                    done.contains(name) <==> exists|j: int|
                        0 <= j < i && (#[trigger] names@[j])@ == name,
                forall|name: Seq<char>| #[trigger]
                    self.active@.contains(name) <==> before.contains(name) || (done.contains(name)
                        && with_procs@.contains(name)),
                forall|j: int|
                    0 <= j < out@.len() ==> done.contains((#[trigger] out@[j])@)
                        && with_procs@.contains(out@[j]@) && !before.contains(out@[j]@),
                forall|name: Seq<char>|
                    done.contains(name) && with_procs@.contains(name) && !before.contains(name)
                        ==> exists|j: int| 0 <= j < out@.len() && (#[trigger] out@[j])@ == name,
                forall|j: int, k: int|
                    0 <= j < k < out@.len() ==> (#[trigger] out@[j])@ != (#[trigger] out@[k])@,
        {
            let name: &str = names[i].as_str();
            let known: bool = self.active.contains(name);
            let running: bool = with_procs.contains(name);
            let ghost earlier = done;
            let ghost listed = out@;
            assert(!earlier.contains(name@)) by {
                if earlier.contains(name@) {
                    let j = choose|j: int| 0 <= j < i && (#[trigger] names@[j])@ == name@;
                    assert(names@[j]@ != names@[i as int]@);
                }
            }
            if !known && running {
                self.active.insert(name);
                out.push(to_owned(name));
            }
            proof {
                done = done.insert(name@);
                assert forall|n: Seq<char>| done.contains(n) implies exists|j: int|
                    0 <= j < i + 1 && (#[trigger] names@[j])@ == n by {
                    if n == name@ {
                        assert(names@[i as int]@ == n);
                    } else {
                        assert(earlier.contains(n));
                        let j = choose|j: int| 0 <= j < i && (#[trigger] names@[j])@ == n;
                        assert(0 <= j < i + 1 && names@[j]@ == n);
                    }
                }
                assert forall|n: Seq<char>|
                    done.contains(n) && with_procs@.contains(n) && !before.contains(
                        n,
                    ) implies exists|j: int| 0 <= j < out@.len() && (#[trigger] out@[j])@ == n by {
                    if n == name@ {
                        assert(out@[out@.len() - 1]@ == n);
                    } else {
                        assert(earlier.contains(n));
                        let j = choose|j: int| 0 <= j < listed.len() && (#[trigger] listed[j])@ == n;
                        assert(out@[j]@ == n);
                    }
                }
            }
        }
        let ghost found = recovered(before, workers, with_procs@);
        proof {
            assert(done =~= workers.dom());
            assert(self.active@ =~= before.union(found));
            if out@.len() > 0 {
                assert(found.contains(out@[0]@));
            } else {
                assert(found =~= Set::<Seq<char>>::empty());
            }
        }
        let ghost mut moved: Set<Seq<char>> = Set::empty();
        assert(workers.remove_keys(moved) =~= workers);
        assert(with_moved(had, workers, moved) =~= had);
        if out.len() > 0 {
            for i in 0..names.len()
                invariant
                    self.cluster == old(self).cluster,
                    self.node == old(self).node,
                    self.active@ == before.union(found),
                    forall|j: int|
                        0 <= j < names@.len() ==> workers.dom().contains((#[trigger] names@[j])@),
                    forall|j: int, k: int|
                        0 <= j < k < names@.len() ==> (#[trigger] names@[j])@ != (
                        #[trigger] names@[k])@,
                    forall|name: Seq<char>| #[trigger]
                        moved.contains(name) <==> self.active@.contains(name) && exists|j: int|
                            0 <= j < i && (#[trigger] names@[j])@ == name,
                    info.workers@ == workers.remove_keys(moved),
                    active@ == with_moved(had, workers, moved),
            {
                let name: &str = names[i].as_str();
                let ghost earlier = moved;
                assert(!earlier.contains(name@)) by {
                    if earlier.contains(name@) {
                        let j = choose|j: int| 0 <= j < i && (#[trigger] names@[j])@ == name@;
                        assert(names@[j]@ != names@[i as int]@);
                    }
                }
                if self.active.contains(name) {
                    if let Some(worker) = info.workers.remove(name) {
                        active.insert(to_owned(name), worker);
                    }
                    proof {
                        moved = moved.insert(name@);
                        assert(info.workers@ =~= workers.remove_keys(moved));
                        assert(active@ =~= with_moved(had, workers, moved));
                    }
                }
                proof {
                    lemma_one_more(names@, i as int, earlier, moved, self.active@);
                }
            }
            assert(moved =~= moved_workers(before, workers, with_procs@));
        }
        out
    }

    /// Drop the workers that have completed. Returns the workers to delete from the API: the
    /// ones that were dropped, and the ones that the API has as running but that are not on
    /// our node.
    ///
    /// * `info` - Info about our node and its workers
    /// * `active` - The currently active workers in the reactor
    /// * `dead` - The workers that are not alive any more
    pub fn check_helper(&mut self, info: &Node, active: &mut NameMap<Worker>, dead: &NameSet) -> (r:
        WorkerDeleteMap)
        ensures
            final(self).cluster == old(self).cluster,
            final(self).node == old(self).node,
            final(self).active@ == old(self).active@.difference(dead@),
            final(active)@ == old(active)@.remove_keys(old(self).active@.intersect(dead@)),
            r.workers@ == deletes_for(
                old(self).active@.intersect(dead@),
                old(active)@,
                info.workers@,
                final(self).active@,
            ),
    {
        let mut deletes: WorkerDeleteMap = WorkerDeleteMap::new();
        let names: Vec<String> = self.active.names();
        let ghost known = self.active@;
        let ghost had = active@;
        let ghost mut gone: Set<Seq<char>> = Set::empty();
        assert(had.remove_keys(Set::empty()) =~= had);
        assert(known.difference(Set::empty()) =~= known);
        for i in 0..names.len()
            invariant
                self.cluster == old(self).cluster,
                self.node == old(self).node,
                known == old(self).active@,
                had == old(active)@,
                self.active@ == known.difference(gone),
                active@ == had.remove_keys(gone),
                forall|name: Seq<char>| #[trigger]
                    gone.contains(name) <==> dead@.contains(name) && exists|j: int|
                        0 <= j < i && (#[trigger] names@[j])@ == name,
                forall|name: Seq<char>| #[trigger]
                    deletes.workers@.contains(name) <==> died(gone, had, name),
                forall|j: int, k: int|
                    0 <= j < k < names@.len() ==> (#[trigger] names@[j])@ != (
                    #[trigger] names@[k])@,
        {
            let name: &str = names[i].as_str();
            let ghost earlier = gone;
            let ghost deleted = deletes.workers@;
            assert(!earlier.contains(name@)) by {
                if earlier.contains(name@) {
                    let j = choose|j: int| 0 <= j < i && (#[trigger] names@[j])@ == name@;
                    assert(names@[j]@ != names@[i as int]@);
                }
            }
            if dead.contains(name) {
                if let Some(worker) = active.remove(name) {
                    deletes.add_mut(worker.name.as_str());
                }
                self.active.remove(name);
                proof {
                    gone = gone.insert(name@);
                    assert(self.active@ =~= known.difference(gone));
                    assert(active@ =~= had.remove_keys(gone));
                }
            }
            proof {
                lemma_one_more(names@, i as int, earlier, gone, dead@);
                assert forall|n: Seq<char>| #[trigger]
                    deletes.workers@.contains(n) <==> died(gone, had, n) by {
                    if died(earlier, had, n) {
                        let key = choose|key: Seq<char>|
                            earlier.contains(key) && #[trigger] had.dom().contains(key)
                                && had[key].name@ == n;
                        assert(gone.contains(key) && had.dom().contains(key));
                    }
                    if died(gone, had, n) {
                        let key = choose|key: Seq<char>|
                            gone.contains(key) && #[trigger] had.dom().contains(key)
                                && had[key].name@ == n;
                        if key != name@ {
                            assert(earlier.contains(key) && had.dom().contains(key));
                        }
                    }
                    if dead@.contains(name@) && had.dom().contains(name@) && had[name@].name@ == n {
                        assert(gone.contains(name@) && had.dom().contains(name@));
                    }
                    assert(deleted.contains(n) <==> died(earlier, had, n));
                }
            }
        }
        proof {
            assert(gone =~= known.intersect(dead@));
            assert(self.active@ =~= known.difference(dead@));
        }
        let listed: Vec<String> = info.workers.keys();
        let ghost dropped = deletes.workers@;
        let ghost stray = Set::new(
            |name: Seq<char>|
                info.workers@.dom().contains(name) && info.workers@[name].status
                    == WorkerStatus::Running && !self.active@.contains(name),
        );
        let ghost mut added: Set<Seq<char>> = Set::empty();
        for i in 0..listed.len()
            invariant
                stray == Set::new(
                    |name: Seq<char>|
                        info.workers@.dom().contains(name) && info.workers@[name].status
                            == WorkerStatus::Running && !self.active@.contains(name),
                ),
                forall|j: int|
                    0 <= j < listed@.len() ==> info.workers@.dom().contains(
                        (#[trigger] listed@[j])@,
                    ),
                forall|name: Seq<char>| #[trigger]
                    added.contains(name) <==> stray.contains(name) && exists|j: int|
                        0 <= j < i && (#[trigger] listed@[j])@ == name,
                deletes.workers@ == dropped.union(added),
        {
            let name: &str = listed[i].as_str();
            let running: bool = match info.workers.get(name) {
                Some(worker) => worker.status == WorkerStatus::Running,
                None => false,
            };
            let here: bool = self.active.contains(name);
            let ghost earlier = added;
            if running && !here {
                deletes.add_mut(name);
                proof {
                    added = added.insert(name@);
                    assert(deletes.workers@ =~= dropped.union(added));
                }
            }
            proof {
                assert(info.workers@.dom().contains(listed@[i as int]@));
                assert(stray.contains(name@) == (running && !here));
                lemma_one_more(listed@, i as int, earlier, added, stray);
            }
        }
        proof {
            assert(added =~= stray);
            assert(deletes.workers@ =~= deletes_for(
                known.intersect(dead@),
                had,
                info.workers@,
                self.active@,
            ));
        }
        deletes
    }

    /// What it takes to clean up behind the active job of a killed worker. Nothing is done
    /// where the script cannot be given its paths. Where another path cannot be isolated, the
    /// script is run before that is an error.
    ///
    /// * `image` - The image of the job
    /// * `job_id` - The id of the job
    pub fn cleanup(image: &Image, job_id: &str) -> (r: Result<CleanupPlan, Error>)
        requires
            is_plain(job_id@),
        ensures
            match script_stuck(*image, job_id@) {
                Some(path) => r matches Err(e) && e@ == stuck(path),
                None => r matches Ok(plan) && {
                    &&& match image.clean_up {
                        Some(clean_up) => plan.script matches Some(line) && texts(line@)
                            == cleanup_line(
                            clean_up,
                            job_id@,
                            isolated(image.output_collection.results@, job_id@)->0,
                            isolated(image.output_collection.result_files@, job_id@)->0,
                        ),
                        None => plan.script is None,
                    }
                    &&& match first_stuck(job_paths(*image), job_id@, 0) {
                        Some(path) => plan.purges matches Err(e) && e@ == stuck(path),
                        None => plan.purges matches Ok(list) && texts(list@) == purges(
                            *image,
                            job_id@,
                        ),
                    }
                },
            },
    {
        let script: Option<Vec<String>> = match &image.clean_up {
            Some(clean_up) => match cleanup_command(clean_up, image, job_id) {
                Ok(line) => Some(line),
                Err(error) => return Err(error),
            },
            None => None,
        };
        Ok(CleanupPlan { script, purges: purge_targets(image, job_id) })
    }

    /// Stop to track a worker that is to be killed. Returns whether it was active.
    ///
    /// * `name` - The name of the worker to kill
    pub fn kill(&mut self, name: &str) -> (r: bool)
        ensures
            final(self).cluster == old(self).cluster,
            final(self).node == old(self).node,
            r == old(self).active@.contains(name@),
            final(self).active@ == old(self).active@.remove(name@),
    {
        let known: bool = self.active.contains(name);
        self.active.remove(name);
        known
    }

    /// Track a batch of launched workers.
    ///
    /// * `launches` - The names of the workers
    pub fn resolve_launches(&mut self, launches: &Vec<String>)
        ensures
            final(self).cluster == old(self).cluster,
            final(self).node == old(self).node,
            final(self).active@ == old(self).active@.union(texts(launches@).to_set()),
    {
        let ghost before = self.active@;
        for i in 0..launches.len()
            invariant
                self.cluster == old(self).cluster,
                self.node == old(self).node,
                before == old(self).active@,
                forall|name: Seq<char>| #[trigger]
                    self.active@.contains(name) <==> before.contains(name) || exists|j: int|
                        0 <= j < i && (#[trigger] launches@[j])@ == name,
        {
            let ghost earlier = self.active@;
            self.active.insert(launches[i].as_str());
            proof {
                assert forall|name: Seq<char>| #[trigger] self.active@.contains(name) <==> (
                before.contains(name) || exists|j: int|
                    0 <= j < i + 1 && (#[trigger] launches@[j])@ == name) by {
                    if launches@[i as int]@ == name {
                        assert(0 <= i < i + 1);
                    }
                    if earlier.contains(name) && !before.contains(name) {
                        let j = choose|j: int| 0 <= j < i && (#[trigger] launches@[j])@ == name;
                        assert(0 <= j < i + 1 && launches@[j]@ == name);
                    }
                    if exists|j: int| 0 <= j < i + 1 && (#[trigger] launches@[j])@ == name {
                        let j = choose|j: int| 0 <= j < i + 1 && (#[trigger] launches@[j])@ == name;
                        if j < i {
                            assert(earlier.contains(name));
                        }
                    }
                }
            }
        }
        proof {
            let added = texts(launches@).to_set();
            assert forall|name: Seq<char>| added.contains(name) <==> exists|j: int|
                0 <= j < launches@.len() && (#[trigger] launches@[j])@ == name by {
                if added.contains(name) {
                    let j = choose|j: int|
                        0 <= j < texts(launches@).len() && texts(launches@)[j] == name;
                    assert(launches@[j]@ == name);
                }
                if exists|j: int| 0 <= j < launches@.len() && (#[trigger] launches@[j])@ == name {
                    let j = choose|j: int|
                        0 <= j < launches@.len() && (#[trigger] launches@[j])@ == name;
                    assert(texts(launches@)[j] == name);
                }
            }
            assert(self.active@ =~= before.union(added));
        }
    }
}

} // verus!
