//! The reactor: its tasks, its polls and its updates.

use thorium_reactor::args::{Args, Launchers};
use thorium_reactor::error::Error;
use thorium_reactor::models::{
    CommandOutput, ImageScaler, Node, Resources, Worker, WorkerStatus,
};
use thorium_reactor::names::{NameMap, NameSet};
use thorium_reactor::reactor::{
    agent_updates, agent_version, last_word_of, AgentKind, Phase, Reactor, UpdateEvent, UpdateStep,
};
use thorium_reactor::tasks::{get_resources, Disk, TaskQueue, Tasks};
use thorium_reactor::time::UtcTime;
use thorium_reactor::version::{same_version, Version};

fn at(secs: i64) -> UtcTime {
    UtcTime { secs, nanos: 0 }
}

fn args(skip_update: bool) -> Args {
    Args {
        keys: "keys.yml".to_string(),
        trace: "/opt/thorium/tracing.yml".to_string(),
        agents_dir: "/opt/thorium".to_string(),
        scaler: ImageScaler::BareMetal,
        cluster: "corn".to_string(),
        name: Some("node-1".to_string()),
        dwell_time: 2,
        skip_update,
        skip_self_update: false,
        launchers: Launchers::BareMetal,
    }
}

fn worker(name: &str, user: &str, status: WorkerStatus) -> Worker {
    Worker {
        cluster: "c".to_string(),
        node: "n".to_string(),
        group: "g".to_string(),
        pipeline: "p".to_string(),
        stage: "s".to_string(),
        name: name.to_string(),
        user: user.to_string(),
        resources: Resources {
            cpu: 0,
            memory: 0,
            ephemeral_storage: 0,
            worker_slots: 0,
            nvidia_gpu: 0,
            amd_gpu: 0,
        },
        status,
        active_job: None,
    }
}

fn version(major: u64, pre: &str, build: &str) -> Version {
    Version { major, minor: 2, patch: 3, pre: pre.to_string(), build: build.to_string() }
}

fn entries(queue: &TaskQueue) -> Vec<(UtcTime, Tasks)> {
    (0..queue.len()).map(|i| queue.get(i).unwrap()).collect()
}

#[test]
fn tasks_have_names_and_delays() {
    assert_eq!(Tasks::Update.delay(), 31);
    assert_eq!(Tasks::Resources.delay(), 18);
    assert_eq!(Tasks::Update.as_str(), "Update");
    assert_eq!(Tasks::Resources.as_str(), "Resources");
}

#[test]
fn queues_start_with_their_tasks() {
    let queue = Tasks::setup_queue_at(false, at(100), at(100));
    assert_eq!(entries(&queue), vec![(at(118), Tasks::Resources), (at(131), Tasks::Update)]);
    let queue = Tasks::setup_queue_at(true, at(100), at(100));
    assert_eq!(entries(&queue), vec![(at(118), Tasks::Resources)]);
    // a task that starts at the same time takes the place of the one before
    let queue = Tasks::setup_queue_at(false, at(100), at(113));
    assert_eq!(entries(&queue), vec![(at(131), Tasks::Resources)]);
    let before = chrono::Utc::now().timestamp();
    let queue = Tasks::setup_queue(&args(false));
    let after = chrono::Utc::now().timestamp();
    assert_eq!(queue.len(), 2);
    let (start, task) = queue.get(0).unwrap();
    assert_eq!(task, Tasks::Resources);
    assert!(before + 18 <= start.secs && start.secs <= after + 18);
    assert!(queue.get(2).is_none());
}

#[test]
fn added_tasks_take_a_free_second() {
    let mut queue = TaskQueue::new();
    queue.add_task(Tasks::Resources, at(100));
    queue.add_task(Tasks::Resources, at(100));
    queue.add_task(Tasks::Resources, at(100));
    let starts: Vec<_> = entries(&queue).iter().map(|(time, _)| time.secs).collect();
    assert_eq!(starts, vec![118, 119, 120]);
    assert!(queue.is_taken(at(119)));
    assert!(!queue.is_taken(at(121)));
    // the nanoseconds count
    queue.add_task(Tasks::Update, UtcTime { secs: 88, nanos: 1 });
    assert_eq!(queue.get(2).unwrap(), (UtcTime { secs: 119, nanos: 1 }, Tasks::Update));
    assert_eq!(queue.len(), 4);
}

#[test]
fn due_tasks_are_the_ones_before_now() {
    let mut queue = TaskQueue::new();
    queue.insert(at(30), Tasks::Update);
    queue.insert(at(10), Tasks::Resources);
    queue.insert(at(20), Tasks::Update);
    assert_eq!(queue.take_due(at(10)), Vec::new());
    assert_eq!(queue.take_due(at(21)), vec![Tasks::Resources, Tasks::Update]);
    assert_eq!(entries(&queue), vec![(at(30), Tasks::Update)]);
    assert_eq!(queue.take_due(at(30)), Vec::new());
    assert_eq!(queue.take_due(at(31)), vec![Tasks::Update]);
    assert_eq!(queue.len(), 0);
}

fn disk(mount_point: &str, mib: u64) -> Disk {
    Disk { mount_point: mount_point.to_string(), available_space: mib << 20 }
}

#[test]
fn resources_are_reserved_for_the_host() {
    let r = get_resources(8, 16 << 30, &vec![disk("/", 50_000)]);
    assert_eq!(r.cpu, 6_500);
    assert_eq!(r.memory, 16_384 - 2_048);
    assert_eq!(r.ephemeral_storage, 50_000 - 8_192);
    assert_eq!((r.worker_slots, r.nvidia_gpu, r.amd_gpu), (100, 0, 0));
    // too little is nothing
    let r = get_resources(1, 1 << 30, &vec![disk("/", 8_000)]);
    assert_eq!((r.cpu, r.memory, r.ephemeral_storage), (0, 0, 0));
}

#[test]
fn storage_is_that_of_tmp_or_else_of_the_root() {
    let storage = |disks: Vec<Disk>| get_resources(0, 0, &disks).ephemeral_storage + 8_192;
    assert_eq!(storage(vec![disk("/", 10_000), disk("/home", 90_000)]), 10_000);
    assert_eq!(storage(vec![disk("/", 10_000), disk("/tmp", 20_000), disk("/", 30_000)]), 20_000);
    assert_eq!(storage(vec![disk("/tmp/", 20_000), disk("/", 10_000)]), 20_000);
    assert_eq!(storage(vec![disk("/", 10_000), disk("/", 30_000)]), 30_000);
    assert_eq!(storage(vec![disk("/home", 90_000)]), 8_192);
}

#[test]
fn reactors_start_without_workers() {
    let reactor = Reactor::new(args(true)).unwrap();
    assert_eq!(reactor.cluster, "corn");
    assert_eq!(reactor.name, "node-1");
    assert_eq!(reactor.active.len(), 0);
    assert_eq!(reactor.tasks.len(), 1);
    assert!(!reactor.halt_spawning && !reactor.shutdown);
    assert_eq!(reactor.agent_path(), "/opt/thorium/thorium-agent");
}

fn node(workers: &[(&str, WorkerStatus)]) -> Node {
    let mut map = NameMap::new();
    for (name, status) in workers {
        map.insert(name.to_string(), worker(name, "u", *status));
    }
    Node { workers: map }
}

#[test]
fn polls_sort_the_workers_of_a_node() {
    let mut reactor = Reactor::new(args(true)).unwrap();
    reactor.active.insert("active".to_string(), worker("active", "u", WorkerStatus::Running));
    let poll = reactor.poll(node(&[
        ("active", WorkerStatus::Running),
        ("new", WorkerStatus::Spawning),
        ("old", WorkerStatus::Shutdown),
    ]));
    assert_eq!(poll.shutdowns.names(), vec!["old"]);
    assert_eq!(poll.changes.keys(), vec!["new"]);
}

#[test]
fn users_without_keys_have_no_workers() {
    let mut reactor = Reactor::new(args(true)).unwrap();
    reactor.active.insert("a".to_string(), worker("a", "ann", WorkerStatus::Running));
    let mut changes = NameMap::new();
    changes.insert("b".to_string(), worker("b", "bob", WorkerStatus::Spawning));
    changes.insert("c".to_string(), worker("c", "cat", WorkerStatus::Spawning));
    changes.insert("d".to_string(), worker("d", "bob", WorkerStatus::Spawning));
    let mut users = reactor.users(&changes).names();
    users.sort();
    assert_eq!(users, vec!["ann", "bob", "cat"]);
    let mut bans = NameSet::new();
    bans.insert("bob");
    Reactor::drop_banned(&mut changes, &bans);
    assert_eq!(changes.keys(), vec!["c"]);
}

#[test]
fn launched_workers_become_active() {
    let mut reactor = Reactor::new(args(true)).unwrap();
    let results: Vec<Result<(Worker, u32), (String, Error)>> = vec![
        Ok((worker("a", "u", WorkerStatus::Spawning), 1)),
        Err(("b".to_string(), Error::new("no"))),
        Ok((worker("c", "u", WorkerStatus::Spawning), 3)),
    ];
    let (data, failures) = reactor.launch(results);
    assert_eq!(data, vec![("a".to_string(), 1), ("c".to_string(), 3)]);
    assert_eq!(failures.len(), 1);
    assert_eq!(failures[0].0, "b");
    assert_eq!(reactor.active.keys(), vec!["a", "c"]);
    // they are not spawned again
    let poll = reactor.poll(node(&[("a", WorkerStatus::Running), ("b", WorkerStatus::Spawning)]));
    assert_eq!(poll.changes.keys(), vec!["b"]);
}

#[test]
fn halted_reactors_spawn_nothing() {
    let mut reactor = Reactor::new(args(true)).unwrap();
    let new = node(&[("a", WorkerStatus::Spawning)]).workers;
    assert_eq!(reactor.to_launch(new).len(), 1);
    assert!(!reactor.begin_update("1.2.3", &version(1, "", "")).unwrap());
    assert!(!reactor.halt_spawning);
    assert!(reactor.begin_update("1.2.3", &version(2, "", "")).unwrap());
    assert!(reactor.halt_spawning && !reactor.shutdown);
    let new = node(&[("a", WorkerStatus::Spawning)]).workers;
    assert_eq!(reactor.to_launch(new).len(), 0);
    let error = reactor.finish_update(Err("denied".to_string())).unwrap_err();
    assert_eq!((error.kind(), error.msg().as_str()), ("Thorium", "denied"));
    assert!(!reactor.shutdown);
    reactor.finish_update(Ok(())).unwrap();
    assert!(reactor.shutdown);
}

#[test]
fn reactors_compare_whole_versions() {
    let mut reactor = Reactor::new(args(true)).unwrap();
    assert!(reactor.begin_update("1.2.3-rc.1", &version(1, "", "")).unwrap());
    assert!(!reactor.begin_update("1.2.3-rc.1+b", &version(1, "rc.1", "b")).unwrap());
    assert!(reactor.begin_update("1.2.3+b", &version(1, "", "c")).unwrap());
    let error = reactor.begin_update("1.2", &version(1, "", "")).unwrap_err();
    assert_eq!(error.kind(), "Semver");
    assert_eq!(error.msg(), "unexpected end of input while parsing minor version number");
    reactor.args.skip_self_update = true;
    assert!(!reactor.begin_update("1.2", &version(9, "", "")).unwrap());
    assert!(same_version(&version(1, "a", "b"), &version(1, "a", "b")));
    assert!(!same_version(&version(1, "a", "b"), &version(1, "b", "b")));
}

fn output(success: bool, code: Option<i32>, stdout: &[u8], stderr: &[u8]) -> CommandOutput {
    CommandOutput { success, code, stdout: stdout.to_vec(), stderr: stderr.to_vec() }
}

#[test]
fn agents_tell_their_version() {
    let v = agent_version("/a", Ok(output(true, Some(0), b"thorium-agent 1.2.3-x+y\n", b""))).unwrap();
    assert_eq!((v.major, v.minor, v.patch), (1, 2, 3));
    assert_eq!((v.pre.as_str(), v.build.as_str()), ("x", "y"));
    assert_eq!(last_word_of("  a b\t c  \n"), "c");
    assert_eq!(last_word_of("word"), "word");
    assert_eq!(last_word_of(""), "");
}

#[test]
fn agents_that_do_not_tell_are_errors() {
    let error = |out| agent_version("/a", out).unwrap_err().msg();
    assert_eq!(
        error(Err("Os { code: 2 }".to_string())),
        "Error checking version of Thorium agent at '/a': Os { code: 2 }"
    );
    let start = "Checking for Thorium agent version exited in error: ";
    assert_eq!(error(Ok(output(false, Some(3), b"", b"boom"))), format!("{start}boom"));
    assert_eq!(error(Ok(output(false, Some(-3), b"", b""))), format!("{start}exit code -3"));
    assert_eq!(error(Ok(output(false, Some(3), b"", b"\xff"))), format!("{start}exit code 3"));
    assert_eq!(
        error(Ok(output(false, None, b"", b""))),
        format!("{start}An unknown error occurred")
    );
    let bad = String::from_utf8(vec![b'a', 0xFF]).unwrap_err();
    assert_eq!(
        error(Ok(output(true, Some(0), b"a\xff", b""))),
        format!(
            "Error checking Thorium agent version: agent command output is not valid UTF-8: {bad:?}"
        )
    );
    let bad = semver::Version::parse("1.2").unwrap_err();
    assert_eq!(
        error(Ok(output(true, Some(0), b"thorium-agent 1.2", b""))),
        format!(
            "Error checking Thorium agent version: agent output '1.2' is not a valid semver version: {bad:?}"
        )
    );
}

#[test]
fn both_agents_are_updated_together() {
    let reactor = Reactor::new(args(true)).unwrap();
    let told = || Ok(output(true, Some(0), b"thorium-agent 1.2.3", b""));
    assert!(reactor.check_update_agents(&version(1, "", ""), told()).unwrap().is_empty());
    let updates = reactor.check_update_agents(&version(2, "", ""), told()).unwrap();
    assert_eq!(
        updates,
        vec![
            (AgentKind::Linux, "/opt/thorium/thorium-agent".to_string()),
            (AgentKind::Windows, "/opt/thorium/thorium-agent.exe".to_string())
        ]
    );
    assert!(reactor.check_update_agents(&version(2, "", ""), Err("x".to_string())).is_err());
    // while jobs are running nothing is updated, but errors are found
    let mut busy = Reactor::new(args(true)).unwrap();
    busy.active.insert("a".to_string(), worker("a", "u", WorkerStatus::Running));
    assert!(busy.check_update_agents(&version(2, "", ""), told()).unwrap().is_empty());
    assert!(busy.check_update_agents(&version(2, "", ""), Err("x".to_string())).is_err());
    assert!(agent_updates("/d", &version(1, "", ""), &version(1, "", "")).is_empty());
}

fn phases(reactor: &Reactor, count: usize) -> Vec<Phase> {
    let mut phase = reactor.first_phase();
    let mut all = Vec::new();
    for _ in 0..count {
        all.push(phase);
        phase = reactor.next_phase(phase);
    }
    all
}

#[test]
fn reactors_go_round_until_they_are_marked() {
    let round =
        [Phase::SpawnTasks, Phase::Poll, Phase::SetupKeys, Phase::Launch, Phase::Sleep];
    let mut reactor = Reactor::new(args(true)).unwrap();
    let mut expected = vec![Phase::UpdateResources];
    expected.extend(round);
    expected.extend(round);
    assert_eq!(phases(&reactor, 11), expected);
    reactor.shutdown = true;
    assert_eq!(
        phases(&reactor, 7),
        vec![
            Phase::UpdateResources,
            Phase::SpawnTasks,
            Phase::Poll,
            Phase::SetupKeys,
            Phase::Launch,
            Phase::Stopped,
            Phase::Stopped
        ]
    );
    assert_eq!(Reactor::new(args(false)).unwrap().first_phase(), Phase::CheckUpdate);
}

#[test]
fn agents_are_updated_before_the_reactor() {
    let api = version(2, "", "");
    let told = |text: &str| {
        UpdateEvent::AgentRan(Ok(output(true, Some(0), text.as_bytes(), b"")))
    };
    let mut reactor = Reactor::new(args(true)).unwrap();
    let step = reactor
        .check_update("1.2.3", &api, UpdateStep::RunAgent, told("thorium-agent 1.2.3"))
        .unwrap();
    match &step {
        UpdateStep::UpdateAgents(list) => assert_eq!(list.len(), 2),
        other => panic!("{other:?}"),
    }
    assert!(!reactor.halt_spawning);
    // what does not fit changes nothing
    let step =
        reactor.check_update("1.2.3", &api, step, UpdateEvent::ReactorUpdated(Ok(()))).unwrap();
    assert!(!reactor.shutdown);
    let step =
        reactor.check_update("1.2.3", &api, step, UpdateEvent::AgentsUpdated(Ok(()))).unwrap();
    assert!(matches!(step, UpdateStep::UpdateReactor));
    assert!(reactor.halt_spawning && !reactor.shutdown);
    let step =
        reactor.check_update("1.2.3", &api, step, UpdateEvent::ReactorUpdated(Ok(()))).unwrap();
    assert!(matches!(step, UpdateStep::Done));
    assert!(reactor.shutdown);
}

#[test]
fn updates_fail_with_what_went_wrong() {
    let api = version(2, "", "");
    let mut reactor = Reactor::new(args(true)).unwrap();
    let unrunnable = UpdateEvent::AgentRan(Err("Os".to_string()));
    let error =
        reactor.check_update("1.2.3", &api, UpdateStep::RunAgent, unrunnable).unwrap_err();
    assert_eq!(error.kind(), "Generic");
    let refused = || Err("denied".to_string());
    let step = UpdateStep::UpdateAgents(Vec::new());
    let error = reactor
        .check_update("1.2.3", &api, step, UpdateEvent::AgentsUpdated(refused()))
        .unwrap_err();
    assert_eq!((error.kind(), error.msg().as_str()), ("Thorium", "denied"));
    let step = UpdateStep::UpdateReactor;
    let error = reactor
        .check_update("1.2.3", &api, step, UpdateEvent::ReactorUpdated(refused()))
        .unwrap_err();
    assert_eq!((error.kind(), error.msg().as_str()), ("Thorium", "denied"));
    assert!(!reactor.halt_spawning && !reactor.shutdown);
    // agents of the same version, and a reactor that is not to be updated
    let current = UpdateEvent::AgentRan(Ok(output(true, Some(0), b"thorium-agent 2.2.3", b"")));
    reactor.args.skip_self_update = true;
    let step = reactor.check_update("1.2.3", &api, UpdateStep::RunAgent, current).unwrap();
    assert!(matches!(step, UpdateStep::Done));
}
