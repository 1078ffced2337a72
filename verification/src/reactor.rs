//! The daemon that monitors a node's workers and spawns them.

use vstd::prelude::*;
use vstd::utf8::{decode_utf8, valid_utf8};

use crate::args::{bad_hostname, Args};
use crate::encoding::{text_from_utf8, utf8_error_text};
use crate::error::{in_context, Error, ErrorView};
use crate::lists::turn_round;
use crate::models::{CommandOutput, Node, Worker, WorkerStatus};
use crate::names::{NameMap, NameSet};
use crate::number::{signed_decimal, signed_decimal_text};
use crate::paths::{join, joined};
use crate::tasks::{first_queue, TaskQueue, Tasks};
use crate::text::{join2, join3, pieces, split, texts, to_owned, trim, trimmed};
use crate::time::UtcTime;
use crate::version::{parse_version, same_version, version_parsed, Version, VersionView};

verus! {

/// The daemon that will monitor this nodes worker and spawn them
#[derive(Debug)]
pub struct Reactor {
    /// The name of the cluster this node is in
    pub cluster: String,
    /// The name of this node
    pub name: String,
    /// A map of currently active workers on this node
    pub active: NameMap<Worker>,
    /// A queue of tasks to complete sorted by the time to start executing them
    pub tasks: TaskQueue,
    /// The args used to start this reactor
    pub args: Args,
    /// Stop spawning new agents as an update is needed
    pub halt_spawning: bool,
    /// shutdown this reactor and exit
    pub shutdown: bool,
}

/// What a poll of the API asks for
#[derive(Debug)]
pub struct Poll {
    /// The workers to shut down
    pub shutdowns: NameSet,
    /// The new workers to spawn
    pub changes: NameMap<Worker>,
}

/// The workers of a node that the API has registered for shutdown.
pub open spec fn registered_for_shutdown(workers: Map<Seq<char>, Worker>) -> Set<Seq<char>> {
    Set::new(
        |name: Seq<char>|
            workers.dom().contains(name) && workers[name].status == WorkerStatus::Shutdown,
    )
}

/// The workers of a node that need to be spawned still.
pub open spec fn to_spawn(
    workers: Map<Seq<char>, Worker>,
    active: Map<Seq<char>, Worker>,
) -> Map<Seq<char>, Worker> {
    workers.remove_keys(registered_for_shutdown(workers)).remove_keys(active.dom())
}

/// Whether a name is that of a user of some worker.
pub open spec fn is_user(workers: Map<Seq<char>, Worker>, user: Seq<char>) -> bool {
    exists|name: Seq<char>| #[trigger]
        workers.dom().contains(name) && workers[name].user@ == user
}

/// The workers of users that are banned.
pub open spec fn of_banned(workers: Map<Seq<char>, Worker>, bans: Set<Seq<char>>) -> Set<
    Seq<char>,
> {
    Set::new(|name: Seq<char>| workers.dom().contains(name) && bans.contains(workers[name].user@))
}

/// The active workers once those that were launched were added.
pub open spec fn with_launched<D>(
    active: Map<Seq<char>, Worker>,
    results: Seq<Result<(Worker, D), (String, Error)>>,
) -> Map<Seq<char>, Worker>
    decreases results.len(),
{
    if results.len() == 0 {
        active
    } else {
        let earlier = with_launched(active, results.drop_last());
        match results.last() {
            Ok((worker, _)) => earlier.insert(worker.name@, worker),
            Err(_) => earlier,
        }
    }
}

/// The workers that were launched, with their data, in order.
pub open spec fn launched_data<D>(results: Seq<Result<(Worker, D), (String, Error)>>) -> Seq<
    (Seq<char>, D),
>
    decreases results.len(),
{
    if results.len() == 0 {
        Seq::empty()
    } else {
        let earlier = launched_data(results.drop_last());
        match results.last() {
            Ok((worker, data)) => earlier.push((worker.name@, data)),
            Err(_) => earlier,
        }
    }
}

/// The workers that failed to launch, with the errors, in order.
pub open spec fn launch_failures<D>(results: Seq<Result<(Worker, D), (String, Error)>>) -> Seq<
    (String, Error),
>
    decreases results.len(),
{
    if results.len() == 0 {
        Seq::empty()
    } else {
        let earlier = launch_failures(results.drop_last());
        match results.last() {
            Ok(_) => earlier,
            Err(failure) => earlier.push(failure),
        }
    }
}

/// The names and the data of workers, with the names as sequences of characters.
pub open spec fn named_data<D>(list: Seq<(String, D)>) -> Seq<(Seq<char>, D)> {
    list.map_values(|pair: (String, D)| (pair.0@, pair.1))
}

impl Reactor {
    /// Create a new reactor.
    ///
    /// * `args` - The args passed to this reactor
    pub fn new(args: Args) -> (r: Result<Reactor, Error>)
        ensures
            args.name is Some ==> r is Ok,
            match r {
                Ok(reactor) => {
                    &&& reactor.cluster@ == args.cluster@
                    &&& args.name matches Some(given) ==> reactor.name@ == given@
                    &&& reactor.active@ == Map::<Seq<char>, Worker>::empty()
                    &&& exists|update_base: UtcTime, resources_base: UtcTime|
                        reactor.tasks.entries() == #[trigger] first_queue(
                            args.skip_update,
                            update_base,
                            resources_base,
                        )
                    &&& reactor.args == args
                    &&& !reactor.halt_spawning
                    &&& !reactor.shutdown
                },
                Err(e) => exists|shown: Seq<char>| e@ == #[trigger] bad_hostname(shown),
            },
    {
        let name: String = match args.node() {
            Ok(name) => name,
            Err(error) => return Err(error),
        };
        Ok(
            Reactor {
                cluster: args.cluster.clone(),
                name,
                active: NameMap::new(),
                tasks: Tasks::setup_queue(&args),
                args,
                halt_spawning: false,
                shutdown: false,
            },
        )
    }

    /// Find out what the desired state of this node asks for: the workers to shut down, and
    /// the workers that are neither registered for shutdown nor active yet.
    ///
    /// * `info` - Info about our node and its workers
    pub fn poll(&self, info: Node) -> (r: Poll)
        ensures
            r.shutdowns@ == registered_for_shutdown(info.workers@),
            r.changes@ == to_spawn(info.workers@, self.active@),
    {
        let ghost all = info.workers@;
        let names: Vec<String> = info.workers.keys();
        let mut workers: NameMap<Worker> = info.workers;
        let mut shutdowns: NameSet = NameSet::new();
        let mut known: NameSet = NameSet::new();
        let ghost wanted = registered_for_shutdown(all);
        for i in 0..names.len()
            invariant
                workers@ == all,
                wanted == registered_for_shutdown(all),
                forall|j: int| 0 <= j < names@.len() ==> all.dom().contains((#[trigger] names@[j])@),
                forall|name: Seq<char>| #[trigger]
                    shutdowns@.contains(name) <==> wanted.contains(name) && exists|j: int|
                        0 <= j < i && (#[trigger] names@[j])@ == name,
                forall|name: Seq<char>| #[trigger]
                    known@.contains(name) <==> self.active@.dom().contains(name) && exists|j: int|
                        0 <= j < i && (#[trigger] names@[j])@ == name,
        {
            let name: &str = names[i].as_str();
            let shut_down: bool = match workers.get(name) {
                Some(worker) => worker.status == WorkerStatus::Shutdown,
                None => false,
            };
            let active: bool = self.active.contains_key(name);
            let ghost before = shutdowns@;
            let ghost known_before = known@;
            if shut_down {
                shutdowns.insert(name);
            }
            if active {
                known.insert(name);
            }
            proof {
                assert(all.dom().contains(names@[i as int]@));
                assert(wanted.contains(name@) == shut_down);
                crate::names::lemma_one_more(names@, i as int, before, shutdowns@, wanted);
                crate::names::lemma_one_more(
                    names@,
                    i as int,
                    known_before,
                    known@,
                    self.active@.dom(),
                );
            }
        }
        assert(shutdowns@ =~= wanted);
        workers.remove_names(&shutdowns);
        workers.remove_names(&known);
        assert(workers@ =~= to_spawn(all, self.active@));
        Poll { shutdowns, changes: workers }
    }

    /// The users whose keys have to be set up: those of the active workers and those of the
    /// new ones.
    ///
    /// * `changes` - The changes to the current workers to apply this loop
    pub fn users(&self, changes: &NameMap<Worker>) -> (r: NameSet)
        ensures
            forall|user: Seq<char>| #[trigger]
                r@.contains(user) <==> is_user(self.active@, user) || is_user(changes@, user),
    {
        let mut out: NameSet = NameSet::new();
        add_users(&mut out, &self.active);
        add_users(&mut out, changes);
        out
    }

    /// Drop the new workers of users whose keys could not be set up.
    ///
    /// * `changes` - The changes to the current workers to apply this loop
    /// * `bans` - The users whose keys could not be set up
    pub fn drop_banned(changes: &mut NameMap<Worker>, bans: &NameSet)
        ensures
            final(changes)@ == old(changes)@.remove_keys(of_banned(old(changes)@, bans@)),
    {
        let names: Vec<String> = changes.keys();
        let ghost all = changes@;
        let mut banned: NameSet = NameSet::new();
        let ghost wanted = of_banned(all, bans@);
        for i in 0..names.len()
            invariant
                changes@ == all,
                wanted == of_banned(all, bans@),
                forall|j: int| 0 <= j < names@.len() ==> all.dom().contains((#[trigger] names@[j])@),
                forall|name: Seq<char>| #[trigger]
                    banned@.contains(name) <==> wanted.contains(name) && exists|j: int|
                        0 <= j < i && (#[trigger] names@[j])@ == name,
        {
            let name: &str = names[i].as_str();
            let is_banned: bool = match changes.get(name) {
                Some(worker) => bans.contains(worker.user.as_str()),
                None => false,
            };
            let ghost before = banned@;
            if is_banned {
                banned.insert(name);
            }
            proof {
                assert(all.dom().contains(names@[i as int]@));
                assert(wanted.contains(name@) == is_banned);
                crate::names::lemma_one_more(names@, i as int, before, banned@, wanted);
            }
        }
        assert(banned@ =~= wanted);
        changes.remove_names(&banned);
    }

    /// The workers to launch: all new ones, unless spawning has been halted.
    ///
    /// * `new` - The new workers to launch
    pub fn to_launch(&self, new: NameMap<Worker>) -> (r: NameMap<Worker>)
        ensures
            r@ == (if self.halt_spawning {
                Map::empty()
            } else {
                new@
            }),
    {
        if self.halt_spawning {
            NameMap::new()
        } else {
            new
        }
    }

    /// Take in what came of the launches. The workers that were launched become active.
    /// Returns them with their data for the launcher, and the ones that failed to launch with
    /// the errors.
    ///
    /// * `results` - What came of each launch
    pub fn launch<D>(&mut self, results: Vec<Result<(Worker, D), (String, Error)>>) -> (r: (
        Vec<(String, D)>,
        Vec<(String, Error)>,
    ))
        ensures
            final(self).active@ == with_launched(old(self).active@, results@),
            named_data(r.0@) == launched_data(results@),
            r.1@ == launch_failures(results@),
            final(self).cluster == old(self).cluster,
            final(self).name == old(self).name,
            final(self).tasks == old(self).tasks,
            final(self).args == old(self).args,
            final(self).halt_spawning == old(self).halt_spawning,
            final(self).shutdown == old(self).shutdown,
    {
        let ghost all = results@;
        let ghost active = self.active@;
        let mut turned: Vec<Result<(Worker, D), (String, Error)>> = turn_round(results);
        let mut data: Vec<(String, D)> = Vec::new();
        let mut failures: Vec<(String, Error)> = Vec::new();
        proof {
            assert(all.take(0) =~= Seq::<Result<(Worker, D), (String, Error)>>::empty());
            assert(named_data(data@) =~= Seq::<(Seq<char>, D)>::empty());
        }
        while turned.len() > 0
            invariant
                turned@.len() <= all.len(),
                self.cluster == old(self).cluster,
                self.name == old(self).name,
                self.tasks == old(self).tasks,
                self.args == old(self).args,
                self.halt_spawning == old(self).halt_spawning,
                self.shutdown == old(self).shutdown,
                self.active@ == with_launched(active, all.take(all.len() - turned@.len())),
                named_data(data@) == launched_data(all.take(all.len() - turned@.len())),
                failures@ == launch_failures(all.take(all.len() - turned@.len())),
                forall|i: int|
                    0 <= i < turned@.len() ==> #[trigger] turned@[i] == all[all.len() - 1 - i],
            decreases turned.len(),
        {
            let ghost done = all.len() - turned@.len();
            match turned.pop() {
                Some(result) => {
                    proof {
                        assert(all[done] == result);
                        assert(all.take(done + 1).drop_last() =~= all.take(done));
                        assert(all.take(done + 1).last() == result);
                    }
                    match result {
                        Ok((worker, item)) => {
                            let name: String = worker.name.clone();
                            let ghost earlier = data@;
                            self.active.insert(worker.name.clone(), worker);
                            data.push((name, item));
                            assert(named_data(data@) =~= named_data(earlier).push((name@, item)));
                        },
                        Err(failure) => failures.push(failure),
                    }
                },
                None => {},
            }
        }
        assert(all.take(all.len() as int) =~= all);
        (data, failures)
    }

    /// Start to update the reactor itself if its version is another one than that of the API.
    /// Returns whether an update is needed. No new agents are spawned from then on.
    ///
    /// * `current` - The version of the reactor
    /// * `api_version` - The version of the API
    pub fn begin_update(&mut self, current: &str, api_version: &Version) -> (r: Result<
        bool,
        Error,
    >)
        ensures
            if old(self).args.skip_self_update {
                r == Ok::<bool, Error>(false)
            } else {
                match version_parsed(current@) {
                    Ok(version) => r == Ok::<bool, Error>(api_version@ != version),
                    Err((message, _)) => r matches Err(e) && e@ == ErrorView::Semver(message),
                }
            },
            *final(self) == (Reactor {
                halt_spawning: old(self).halt_spawning || r == Ok::<bool, Error>(true),
                ..*old(self)
            }),
    {
        if self.args.skip_self_update {
            return Ok(false);
        }
        match parse_version(current) {
            Ok(version) => {
                let needed: bool = !same_version(api_version, &version);
                if needed {
                    self.halt_spawning = true;
                }
                Ok(needed)
            },
            Err(error) => Err(Error::Semver(error.message)),
        }
    }

    /// Take in what came of the update of the reactor. Once it is updated it shuts down to be
    /// restarted.
    ///
    /// * `outcome` - Whether the reactor was updated, or the message of the error
    pub fn finish_update(&mut self, outcome: Result<(), String>) -> (r: Result<(), Error>)
        ensures
            match outcome {
                Ok(_) => r is Ok && *final(self) == (Reactor { shutdown: true, ..*old(self) }),
                Err(message) => {
                    &&& r matches Err(e) && e@ == ErrorView::Thorium(message@)
                    &&& *final(self) == *old(self)
                },
            },
    {
        match outcome {
            Ok(_) => {
                self.shutdown = true;
                Ok(())
            },
            Err(message) => Err(Error::Thorium(message)),
        }
    }
}

/// Put the users of workers into a set.
fn add_users(users: &mut NameSet, workers: &NameMap<Worker>)
    ensures
        forall|user: Seq<char>| #[trigger]
            final(users)@.contains(user) <==> old(users)@.contains(user) || is_user(
                workers@,
                user,
            ),
{
    let names: Vec<String> = workers.keys();
    let ghost before = users@;
    for i in 0..names.len()
        invariant
            before == old(users)@,
            forall|j: int| 0 <= j < names@.len() ==> workers@.dom().contains((#[trigger] names@[j])@),
            forall|user: Seq<char>| #[trigger]
                users@.contains(user) <==> before.contains(user) || exists|j: int|
                    0 <= j < i && workers@[(#[trigger] names@[j])@].user@ == user,
    {
        let name: &str = names[i].as_str();
        let ghost earlier = users@;
        match workers.get(name) {
            Some(worker) => users.insert(worker.user.as_str()),
            None => {},
        }
        proof {
            assert(workers@.dom().contains(names@[i as int]@));
            let added = workers@[names@[i as int]@].user@;
            assert forall|user: Seq<char>| #[trigger] users@.contains(user) <==> (before.contains(
                user,
            ) || exists|j: int| 0 <= j < i + 1 && workers@[(#[trigger] names@[j])@].user@ == user)
                by {
                if user == added {
                    assert(workers@[names@[i as int]@].user@ == user);
                }
                if earlier.contains(user) && !before.contains(user) {
                    let j = choose|j: int|
                        0 <= j < i && workers@[(#[trigger] names@[j])@].user@ == user;
                    assert(0 <= j < i + 1 && workers@[names@[j]@].user@ == user);
                }
                if exists|j: int| 0 <= j < i + 1 && workers@[(#[trigger] names@[j])@].user@ == user {
                    let j = choose|j: int|
                        0 <= j < i + 1 && workers@[(#[trigger] names@[j])@].user@ == user;
                    if j < i {
                        assert(earlier.contains(user));
                    }
                }
            }
        }
    }
    proof {
        assert forall|user: Seq<char>| #[trigger] users@.contains(user) <==> (before.contains(user)
            || is_user(workers@, user)) by {
            if is_user(workers@, user) {
                let name = choose|name: Seq<char>| #[trigger]
                    workers@.dom().contains(name) && workers@[name].user@ == user;
                let j = choose|j: int| 0 <= j < names@.len() && (#[trigger] names@[j])@ == name;
                assert(workers@[names@[j]@].user@ == user);
            }
            if exists|j: int|
                0 <= j < names@.len() && workers@[(#[trigger] names@[j])@].user@ == user {
                let j = choose|j: int|
                    0 <= j < names@.len() && workers@[(#[trigger] names@[j])@].user@ == user;
                assert(workers@.dom().contains(names@[j]@));
            }
        }
    }
}

/// What went wrong with a command that failed: what it wrote to its standard error, else its
/// exit code.
pub open spec fn failure_text(output: CommandOutput) -> Seq<char> {
    if output.stderr@.len() > 0 && valid_utf8(output.stderr@) {
        decode_utf8(output.stderr@)
    } else {
        match output.code {
            Some(code) => "exit code "@ + signed_decimal(code as int),
            None => "An unknown error occurred"@,
        }
    }
}

/// What went wrong with a command that failed.
fn describe_failure(code: Option<i32>, stderr: Vec<u8>) -> (r: String)
    ensures
        r@ == (if stderr@.len() > 0 && valid_utf8(stderr@) {
            decode_utf8(stderr@)
        } else {
            match code {
                Some(c) => "exit code "@ + signed_decimal(c as int),
                None => "An unknown error occurred"@,
            }
        }),
{
    if stderr.len() > 0 {
        if let Ok(text) = text_from_utf8(stderr) {
            return text;
        }
    }
    match code {
        Some(c) => {
            let digits: String = signed_decimal_text(c as i64);
            join2("exit code ", digits.as_str())
        },
        None => to_owned("An unknown error occurred"),
    }
}

/// The last word of the output of a command, which ends it.
pub open spec fn last_word(output: Seq<char>) -> Seq<char> {
    pieces(trimmed(output), ' ').last()
}

/// The last word of the output of a command.
pub fn last_word_of(output: &str) -> (r: String)
    ensures
        r@ == last_word(output@),
{
    let text: String = trim(output);
    let mut words: Vec<String> = split(text.as_str(), ' ');
    let ghost all = words@;
    match words.pop() {
        Some(word) => {
            proof {
                assert(texts(all).last() == all.last()@);
            }
            word
        },
        None => String::new(),
    }
}

/// The version of an agent by what came of the question for it.
pub open spec fn agent_version_of(path: Seq<char>, output: Result<CommandOutput, String>) -> Result<
    VersionView,
    ErrorView,
> {
    match output {
        Err(error) => Err(
            in_context("Error checking version of Thorium agent at '"@ + path + "'"@, error@),
        ),
        Ok(out) => if !out.success {
            Err(
                ErrorView::Generic(
                    "Checking for Thorium agent version exited in error: "@ + failure_text(out),
                ),
            )
        } else if !valid_utf8(out.stdout@) {
            Err(
                in_context(
                    "Error checking Thorium agent version: agent command output is not valid UTF-8"@,
                    utf8_error_text(out.stdout@),
                ),
            )
        } else {
            let word = last_word(decode_utf8(out.stdout@));
            match version_parsed(word) {
                Ok(version) => Ok(version),
                Err((_, debug)) => Err(not_a_version(word, debug)),
            }
        },
    }
}

/// The error for an output that ends with no version.
pub open spec fn not_a_version(word: Seq<char>, debug: Seq<char>) -> ErrorView {
    in_context(
        "Error checking Thorium agent version: agent output '"@ + word
            + "' is not a valid semver version"@,
        debug,
    )
}

/// The version of an agent by what came of the question for it.
///
/// * `path` - The path of the agent
/// * `output` - What came of the agent that was run with `--version`, or the `Debug` text of
///   the error in running it
pub fn agent_version(path: &str, output: Result<CommandOutput, String>) -> (r: Result<
    Version,
    Error,
>)
    ensures
        match agent_version_of(path@, output) {
            Ok(version) => r matches Ok(v) && v@ == version,
            Err(error) => r matches Err(e) && e@ == error,
        },
{
    let out: CommandOutput = match output {
        Ok(out) => out,
        Err(error) => {
            let context: String = join3("Error checking version of Thorium agent at '", path, "'");
            return Err(Error::with_context(context.as_str(), error.as_str()));
        },
    };
    if !out.success {
        let reason: String = describe_failure(out.code, out.stderr);
        return Err(
            Error::Generic(
                join2("Checking for Thorium agent version exited in error: ", reason.as_str()),
            ),
        );
    }
    let text: String = match text_from_utf8(out.stdout) {
        Ok(text) => text,
        Err(error) => return Err(
            Error::with_context(
                "Error checking Thorium agent version: agent command output is not valid UTF-8",
                error.as_str(),
            ),
        ),
    };
    let word: String = last_word_of(text.as_str());
    match parse_version(word.as_str()) {
        Ok(version) => Ok(version),
        Err(error) => {
            let context: String = join3(
                "Error checking Thorium agent version: agent output '",
                word.as_str(),
                "' is not a valid semver version",
            );
            Err(Error::with_context(context.as_str(), error.debug.as_str()))
        },
    }
}

/// The agents that are updated
#[derive(Debug, Clone, Copy, PartialEq, Eq, Structural)]
pub enum AgentKind {
    /// The agent for Linux
    Linux,
    /// The agent for Windows
    Windows,
}

/// The agents to update and the paths to write them to, when the version of an agent is known.
pub open spec fn agent_updates_of(
    agents_dir: Seq<char>,
    version: VersionView,
    api_version: VersionView,
) -> Seq<(AgentKind, Seq<char>)> {
    if version == api_version {
        Seq::empty()
    } else {
        seq![
            (AgentKind::Linux, agents_dir + "/thorium-agent"@),
            (AgentKind::Windows, agents_dir + "/thorium-agent.exe"@),
        ]
    }
}

/// The agents of a list and their paths, with the paths as sequences of characters.
pub open spec fn update_views(list: Seq<(AgentKind, String)>) -> Seq<(AgentKind, Seq<char>)> {
    list.map_values(|pair: (AgentKind, String)| (pair.0, pair.1@))
}

/// The agents to update and the paths to write them to. If the Linux agent has another version
/// than the API, we assume the Windows agent also needs updating.
///
/// * `agents_dir` - The directory of the agents
/// * `version` - The version of the Linux agent
/// * `api_version` - The version of the API
pub fn agent_updates(agents_dir: &str, version: &Version, api_version: &Version) -> (r: Vec<
    (AgentKind, String),
>)
    ensures
        update_views(r@) == agent_updates_of(agents_dir@, version@, api_version@),
{
    let mut out: Vec<(AgentKind, String)> = Vec::new();
    if !same_version(version, api_version) {
        out.push((AgentKind::Linux, join2(agents_dir, "/thorium-agent")));
        out.push((AgentKind::Windows, join2(agents_dir, "/thorium-agent.exe")));
    }
    assert(update_views(out@) =~= agent_updates_of(agents_dir@, version@, api_version@));
    out
}

/// The path of the agent whose version is asked for.
pub open spec fn agent_path_of(agents_dir: Seq<char>) -> Seq<char> {
    joined(agents_dir, "thorium-agent"@)
}

impl Reactor {
    /// The path of the agent whose version is asked for.
    pub fn agent_path(&self) -> (r: String)
        ensures
            r@ == agent_path_of(self.args.agents_dir@),
    {
        join(self.args.agents_dir.as_str(), "thorium-agent")
    }

    /// Check if the agents need an update and can get one, which they cannot while jobs are
    /// running. Returns the agents to update and the paths to write them to.
    ///
    /// * `api_version` - The version returned from the API
    /// * `output` - What came of the Linux agent that was run with `--version`, or the `Debug`
    ///   text of the error in running it
    pub fn check_update_agents(&self, api_version: &Version, output: Result<
        CommandOutput,
        String,
    >) -> (r: Result<Vec<(AgentKind, String)>, Error>)
        ensures
            match agents_to_update(*self, api_version@, output) {
                Ok(updates) => r matches Ok(list) && update_views(list@) == updates,
                Err(error) => r matches Err(e) && e@ == error,
            },
    {
        let path: String = self.agent_path();
        match agent_version(path.as_str(), output) {
            Ok(version) => if !self.active.is_empty() {
                let none: Vec<(AgentKind, String)> = Vec::new();
                assert(update_views(none@) =~= Seq::<(AgentKind, Seq<char>)>::empty());
                Ok(none)
            } else {
                Ok(agent_updates(self.args.agents_dir.as_str(), &version, api_version))
            },
            Err(error) => Err(error),
        }
    }

    /// Go on with an update: the agents first, then the reactor itself.
    ///
    /// * `current` - The version of the reactor
    /// * `api_version` - The version of the API
    /// * `step` - How far the update has come
    /// * `event` - What came of the last step
    pub fn check_update(
        &mut self,
        current: &str,
        api_version: &Version,
        step: UpdateStep,
        event: UpdateEvent,
    ) -> (r: Result<UpdateStep, Error>)
        ensures
            update_leads_to(
                *old(self),
                *final(self),
                current@,
                api_version@,
                step,
                event,
                r,
            ),
    {
        match (step, event) {
            (UpdateStep::RunAgent, UpdateEvent::AgentRan(output)) => {
                let list: Vec<(AgentKind, String)> = match self.check_update_agents(
                    api_version,
                    output,
                ) {
                    Ok(list) => list,
                    Err(error) => return Err(error),
                };
                assert(update_views(list@).len() == list@.len());
                if list.len() > 0 {
                    Ok(UpdateStep::UpdateAgents(list))
                } else {
                    self.check_update_self(current, api_version)
                }
            },
            (UpdateStep::UpdateAgents(_), UpdateEvent::AgentsUpdated(outcome)) => match outcome {
                Ok(_) => self.check_update_self(current, api_version),
                Err(message) => Err(Error::Thorium(message)),
            },
            (UpdateStep::UpdateReactor, UpdateEvent::ReactorUpdated(outcome)) => {
                match self.finish_update(outcome) {
                    Ok(_) => Ok(UpdateStep::Done),
                    Err(error) => Err(error),
                }
            },
            (step, _) => Ok(step),
        }
    }

    /// Go on with the update of the reactor itself.
    fn check_update_self(&mut self, current: &str, api_version: &Version) -> (r: Result<
        UpdateStep,
        Error,
    >)
        ensures
            self_update_begins(*old(self), *final(self), current@, api_version@, r),
    {
        match self.begin_update(current, api_version) {
            Ok(true) => Ok(UpdateStep::UpdateReactor),
            Ok(false) => Ok(UpdateStep::Done),
            Err(error) => Err(error),
        }
    }
}

/// The reactor itself is updated only once the agents were updated, or where they need or can
/// get no update.
pub proof fn law_agents_are_updated_first(
    before: Reactor,
    after: Reactor,
    current: Seq<char>,
    api_version: VersionView,
    step: UpdateStep,
    event: UpdateEvent,
)
    requires
        update_leads_to(
            before,
            after,
            current,
            api_version,
            step,
            event,
            Ok(UpdateStep::UpdateReactor),
        ),
        step != UpdateStep::UpdateReactor,
    ensures
        match (step, event) {
            (UpdateStep::UpdateAgents(_), UpdateEvent::AgentsUpdated(outcome)) => outcome is Ok,
            (UpdateStep::RunAgent, UpdateEvent::AgentRan(output)) => agents_to_update(
                before,
                api_version,
                output,
            ) == Ok::<Seq<(AgentKind, Seq<char>)>, ErrorView>(Seq::empty()),
            _ => false,
        },
{
    if let (UpdateStep::RunAgent, UpdateEvent::AgentRan(output)) = (step, event) {
        if let Ok(updates) = agents_to_update(before, api_version, output) {
            if updates.len() == 0 {
                assert(updates =~= Seq::<(AgentKind, Seq<char>)>::empty());
            }
        }
    }
}

/// An update marks the reactor for shutdown only once the reactor itself was updated.
pub proof fn law_only_updated_reactors_shut_down(
    before: Reactor,
    after: Reactor,
    current: Seq<char>,
    api_version: VersionView,
    step: UpdateStep,
    event: UpdateEvent,
    r: Result<UpdateStep, Error>,
)
    requires
        update_leads_to(before, after, current, api_version, step, event, r),
        after.shutdown,
        !before.shutdown,
    ensures
        step == UpdateStep::UpdateReactor,
        event matches UpdateEvent::ReactorUpdated(outcome) && outcome is Ok,
{
}

/// No agent is updated while jobs are running.
pub proof fn law_agents_of_running_jobs_are_kept(
    reactor: Reactor,
    api_version: VersionView,
    output: Result<CommandOutput, String>,
    name: Seq<char>,
)
    requires
        reactor.active@.dom().contains(name),
    ensures
        agents_to_update(reactor, api_version, output) matches Ok(updates) ==> updates.len() == 0,
{
}

/// Whether there is a worker.
pub open spec fn has_workers(active: Map<Seq<char>, Worker>) -> bool {
    exists|name: Seq<char>| #[trigger] active.dom().contains(name)
}

/// The agents to update and the paths to write them to, by what came of the Linux agent that
/// was asked for its version. There are none while jobs are running.
pub open spec fn agents_to_update(
    reactor: Reactor,
    api_version: VersionView,
    output: Result<CommandOutput, String>,
) -> Result<Seq<(AgentKind, Seq<char>)>, ErrorView> {
    match agent_version_of(agent_path_of(reactor.args.agents_dir@), output) {
        Ok(version) => Ok(
            if has_workers(reactor.active@) {
                Seq::empty()
            } else {
                agent_updates_of(reactor.args.agents_dir@, version, api_version)
            },
        ),
        Err(error) => Err(error),
    }
}

/// How far an update has come
#[derive(Debug)]
pub enum UpdateStep {
    /// The Linux agent is to be run with `--version`
    RunAgent,
    /// These agents are to be updated and written to these paths
    UpdateAgents(Vec<(AgentKind, String)>),
    /// The reactor is to be updated
    UpdateReactor,
    /// There is nothing left to update
    Done,
}

/// What came of the last step of an update
#[derive(Debug)]
pub enum UpdateEvent {
    /// What came of the agent, or the `Debug` text of the error in running it
    AgentRan(Result<CommandOutput, String>),
    /// Whether the agents were updated, or the message of the error
    AgentsUpdated(Result<(), String>),
    /// Whether the reactor was updated, or the message of the error
    ReactorUpdated(Result<(), String>),
}

/// Whether the update of the reactor itself is begun where its version is another one than
/// that of the API, unless that is to be skipped. No new agents are spawned from then on.
pub open spec fn self_update_begins(
    before: Reactor,
    after: Reactor,
    current: Seq<char>,
    api_version: VersionView,
    r: Result<UpdateStep, Error>,
) -> bool {
    if before.args.skip_self_update {
        r == Ok::<UpdateStep, Error>(UpdateStep::Done) && after == before
    } else {
        match version_parsed(current) {
            Ok(version) => if api_version != version {
                &&& r == Ok::<UpdateStep, Error>(UpdateStep::UpdateReactor)
                &&& after == (Reactor { halt_spawning: true, ..before })
            } else {
                r == Ok::<UpdateStep, Error>(UpdateStep::Done) && after == before
            },
            Err((message, _)) => {
                &&& r matches Err(e) && e@ == ErrorView::Semver(message)
                &&& after == before
            },
        }
    }
}

/// Whether one step of an update is the one that follows on another. What does not fit the
/// step that it is to follow on changes nothing.
pub open spec fn update_leads_to(
    before: Reactor,
    after: Reactor,
    current: Seq<char>,
    api_version: VersionView,
    step: UpdateStep,
    event: UpdateEvent,
    r: Result<UpdateStep, Error>,
) -> bool {
    match (step, event) {
        (UpdateStep::RunAgent, UpdateEvent::AgentRan(output)) => match agents_to_update(
            before,
            api_version,
            output,
        ) {
            Err(error) => (r matches Err(e) && e@ == error) && after == before,
            Ok(updates) => if updates.len() > 0 {
                &&& r matches Ok(UpdateStep::UpdateAgents(list)) && update_views(list@) == updates
                &&& after == before
            } else {
                self_update_begins(before, after, current, api_version, r)
            },
        },
        (UpdateStep::UpdateAgents(_), UpdateEvent::AgentsUpdated(Ok(_))) => self_update_begins(
            before,
            after,
            current,
            api_version,
            r,
        ),
        (UpdateStep::UpdateAgents(_), UpdateEvent::AgentsUpdated(Err(text))) => {
            &&& r matches Err(e) && e@ == ErrorView::Thorium(text@)
            &&& after == before
        },
        (UpdateStep::UpdateReactor, UpdateEvent::ReactorUpdated(Ok(_))) => {
            &&& r == Ok::<UpdateStep, Error>(UpdateStep::Done)
            &&& after == (Reactor { shutdown: true, ..before })
        },
        (UpdateStep::UpdateReactor, UpdateEvent::ReactorUpdated(Err(text))) => {
            &&& r matches Err(e) && e@ == ErrorView::Thorium(text@)
            &&& after == before
        },
        _ => r == Ok::<UpdateStep, Error>(step) && after == before,
    }
}

/// What a reactor does at a time while it runs
#[derive(Debug, Clone, Copy, PartialEq, Eq, Structural)]
pub enum Phase {
    /// Check if an update is needed and apply it if possible
    CheckUpdate,
    /// Tell the API which resources this node has
    UpdateResources,
    /// Execute the tasks that are due
    SpawnTasks,
    /// Ask the API for the desired state of this node
    Poll,
    /// Set up the keys of the users
    SetupKeys,
    /// Launch the new workers
    Launch,
    /// Wait for the configured time
    Sleep,
    /// Nothing, the reactor has come to its end
    Stopped,
}

/// What a reactor does first: updates are skipped where the args ask for that.
pub open spec fn first_phase_of(skip_update: bool) -> Phase {
    if skip_update {
        Phase::UpdateResources
    } else {
        Phase::CheckUpdate
    }
}

/// What a reactor does after a phase that went well. It stops once it is marked for shutdown
/// and its workers were launched, and else goes on after a while.
pub open spec fn phase_after(phase: Phase, shutdown: bool) -> Phase {
    match phase {
        Phase::CheckUpdate => Phase::UpdateResources,
        Phase::UpdateResources => Phase::SpawnTasks,
        Phase::SpawnTasks => Phase::Poll,
        Phase::Poll => Phase::SetupKeys,
        Phase::SetupKeys => Phase::Launch,
        Phase::Launch => if shutdown {
            Phase::Stopped
        } else {
            Phase::Sleep
        },
        Phase::Sleep => Phase::SpawnTasks,
        Phase::Stopped => Phase::Stopped,
    }
}

/// What a reactor does a number of phases later.
pub open spec fn phase_later(phase: Phase, shutdown: bool, count: nat) -> Phase
    decreases count,
{
    if count == 0 {
        phase
    } else {
        phase_after(phase_later(phase, shutdown, (count - 1) as nat), shutdown)
    }
}

impl Reactor {
    /// What this reactor does first.
    pub fn first_phase(&self) -> (r: Phase)
        ensures
            r == first_phase_of(self.args.skip_update),
    {
        if self.args.skip_update {
            Phase::UpdateResources
        } else {
            Phase::CheckUpdate
        }
    }

    /// What this reactor does after a phase that went well.
    ///
    /// * `phase` - The phase that is over
    pub fn next_phase(&self, phase: Phase) -> (r: Phase)
        ensures
            r == phase_after(phase, self.shutdown),
    {
        match phase {
            Phase::CheckUpdate => Phase::UpdateResources,
            Phase::UpdateResources => Phase::SpawnTasks,
            Phase::SpawnTasks => Phase::Poll,
            Phase::Poll => Phase::SetupKeys,
            Phase::SetupKeys => Phase::Launch,
            Phase::Launch => if self.shutdown {
                Phase::Stopped
            } else {
                Phase::Sleep
            },
            Phase::Sleep => Phase::SpawnTasks,
            Phase::Stopped => Phase::Stopped,
        }
    }
}

/// A reactor runs on for as long as it is not marked for shutdown.
pub proof fn law_unmarked_reactors_run_on(phase: Phase, count: nat)
    requires
        phase != Phase::Stopped,
    ensures
        phase_later(phase, false, count) != Phase::Stopped,
    decreases count,
{
    if count > 0 {
        law_unmarked_reactors_run_on(phase, (count - 1) as nat);
    }
}

/// A reactor that is marked for shutdown stops within one pass of its loop, and stays
/// stopped. It does not sleep on the way.
pub proof fn law_marked_reactors_stop(phase: Phase, count: nat)
    requires
        phase != Phase::Sleep,
    ensures
        count >= 6 ==> phase_later(phase, true, count) == Phase::Stopped,
        phase_later(phase, true, count) != Phase::Sleep,
    decreases count,
{
    if count > 6 {
        law_marked_reactors_stop(phase, (count - 1) as nat);
    } else {
        reveal_with_fuel(phase_later, 7);
    }
}

/// No worker is spawned that is active already or that the API has registered for shutdown,
/// and every other worker is.
pub proof fn law_spawned_workers_are_new(
    workers: Map<Seq<char>, Worker>,
    active: Map<Seq<char>, Worker>,
    name: Seq<char>,
)
    ensures
        to_spawn(workers, active).dom().contains(name) <==> (workers.dom().contains(name)
            && workers[name].status != WorkerStatus::Shutdown && !active.dom().contains(name)),
        to_spawn(workers, active).dom().contains(name) ==> to_spawn(workers, active)[name]
            == workers[name],
{
}

/// A worker that was launched is not spawned again by the next poll, whatever the API says of
/// the node.
pub proof fn law_launched_workers_are_not_spawned_again<D>(
    active: Map<Seq<char>, Worker>,
    results: Seq<Result<(Worker, D), (String, Error)>>,
    i: int,
    workers: Map<Seq<char>, Worker>,
)
    requires
        0 <= i < results.len(),
        results[i] is Ok,
    ensures
        !to_spawn(workers, with_launched(active, results)).dom().contains(
            results[i]->Ok_0.0.name@,
        ),
{
    lemma_launched_are_active(active, results, i);
}

proof fn lemma_launched_are_active<D>(
    active: Map<Seq<char>, Worker>,
    results: Seq<Result<(Worker, D), (String, Error)>>,
    i: int,
)
    requires
        0 <= i < results.len(),
        results[i] is Ok,
    ensures
        with_launched(active, results).dom().contains(results[i]->Ok_0.0.name@),
    decreases results.len(),
{
    if i < results.len() - 1 {
        assert(results.drop_last()[i] == results[i]);
        lemma_launched_are_active(active, results.drop_last(), i);
    }
}

} // verus!
