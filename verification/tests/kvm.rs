//! The KVM launcher: creating, reconciling and shutting down workers.

use thorium_reactor::args;
use thorium_reactor::creation::{Creation, CreationAction, CreationEvent};
use thorium_reactor::error::Error;
use thorium_reactor::kvm::{Kvm, LaunchAttempt, NextStep};
use thorium_reactor::kvm_worker::{KvmWorker, LaunchError, RunningKvmWorker};
use thorium_reactor::models::{
    CommandOutput, Dependencies, Image, Node, OutputCollection, Resources, Worker, WorkerStatus,
};
use thorium_reactor::names::NameMap;
use thorium_reactor::os_detector::GuestOs;
use thorium_reactor::reconcile::{check_delete, Reconciliation};
use thorium_reactor::state::created::AgentPaths;
use thorium_reactor::state::launched::{AgentState, StatusReply};
use thorium_reactor::state::{Created, DestroyAction, Launched};
use thorium_reactor::time::UtcTime;

fn at(secs: i64) -> UtcTime {
    UtcTime { secs, nanos: 0 }
}

fn kvm_args() -> args::Kvm {
    args::Kvm::from(args::KvmArgs {
        base_dir: "/kvm".to_string(),
        golden_dir: None,
        temp_dir: None,
        socket: "qemu:///system".to_string(),
        virt_threads: 10,
        os_detector_cache_size: 1000,
    })
}

fn launcher() -> Kvm {
    Kvm::new(kvm_args(), "/opt/thorium", Ok(()), Ok(true), Ok(true)).unwrap()
}

fn image() -> Image {
    Image {
        group: "corn".to_string(),
        name: "deb".to_string(),
        clean_up: None,
        dependencies: Dependencies {
            samples: String::new(),
            ephemeral: String::new(),
            repos: String::new(),
            results: String::new(),
        },
        output_collection: OutputCollection {
            results: String::new(),
            result_files: String::new(),
            tags: String::new(),
            children: String::new(),
        },
    }
}

fn api_worker(name: &str, memory: u64, status: WorkerStatus) -> Worker {
    Worker {
        cluster: "c".to_string(),
        node: "n".to_string(),
        group: "g".to_string(),
        pipeline: "p".to_string(),
        stage: "s".to_string(),
        name: name.to_string(),
        user: "u".to_string(),
        resources: Resources {
            cpu: 1000,
            memory,
            ephemeral_storage: 0,
            worker_slots: 0,
            nvidia_gpu: 0,
            amd_gpu: 0,
        },
        status,
        active_job: None,
    }
}

fn node(workers: &[(&str, WorkerStatus)]) -> Node {
    let mut map = NameMap::new();
    for (name, status) in workers {
        map.insert(name.to_string(), api_worker(name, 1024, *status));
    }
    Node { workers: map }
}

fn created_worker(name: &str, launch_attempts: u8) -> KvmWorker<Created> {
    KvmWorker {
        state: Created {
            worker: name.to_string(),
            guest_os: GuestOs::Linux,
            overlay_path: format!("/o/{name}"),
            domain_name: format!("thorium_{name}"),
            created: at(1_000),
            last_launch_attempt: None,
            launch_attempts,
        },
    }
}

fn launched_worker(name: &str) -> KvmWorker<Launched> {
    KvmWorker {
        state: Launched {
            worker: name.to_string(),
            guest_os: GuestOs::Linux,
            overlay_path: format!("/o/{name}"),
            domain_name: format!("thorium_{name}"),
            agent_pid: Some(4),
            launched: at(1_000),
            next_check: at(2_000),
            heartbeat: at(1_000),
        },
    }
}

fn texts(actions: &[DestroyAction]) -> Vec<String> {
    actions
        .iter()
        .map(|action| match action {
            DestroyAction::UndefineDomain(name) => format!("undefine {name}"),
            DestroyAction::DeleteOverlay(path) => format!("delete {path}"),
        })
        .collect()
}

#[test]
fn launchers_need_their_directory_and_agents() {
    let make = |dir: Result<(), String>, linux, windows| {
        Kvm::new(kvm_args(), "/opt/thorium", dir, linux, windows)
    };
    let kvm = launcher();
    assert_eq!(kvm.agent_paths.linux, "/opt/thorium/thorium-agent");
    assert_eq!(kvm.agent_paths.windows, "/opt/thorium/thorium-agent.exe");
    assert_eq!(kvm.running_workers.len(), 0);
    assert_eq!(
        make(Err("Os".to_string()), Ok(true), Ok(true)).unwrap_err().msg(),
        "Error creating temporary directory '/kvm/tmp': Os"
    );
    assert_eq!(
        make(Ok(()), Ok(false), Ok(false)).unwrap_err().msg(),
        "Thorium agent for Linux is missing at path '/opt/thorium/thorium-agent'"
    );
    assert_eq!(
        make(Ok(()), Ok(true), Ok(false)).unwrap_err().msg(),
        "Thorium agent for Windows is missing at path '/opt/thorium/thorium-agent.exe'"
    );
    assert_eq!(
        make(Ok(()), Err("Os".to_string()), Ok(true)).unwrap_err().msg(),
        "Error checking that Thorium agent binary exists at '/opt/thorium/thorium-agent': Os"
    );
    assert_eq!(
        make(Ok(()), Ok(true), Err("Os".to_string())).unwrap_err().msg(),
        "Error checking that Thorium agent binary exists at '/opt/thorium/thorium-agent.exe': Os"
    );
    assert!(AgentPaths::in_dir("/a").check_agents_exist(Ok(true), Ok(true)).is_ok());
}

fn ran(success: bool) -> CreationEvent {
    CreationEvent::QemuImgRan(Ok(CommandOutput {
        success,
        code: Some(1),
        stdout: Vec::new(),
        stderr: b"no".to_vec(),
    }))
}

fn go(creation: Creation, worker: &Worker, event: CreationEvent) -> Creation {
    creation.advance(&kvm_args(), worker, &image(), event, at(700)).unwrap()
}

#[test]
fn workers_are_created_step_by_step() {
    let worker = api_worker("w", 1024, WorkerStatus::Spawning);
    let args = kvm_args();
    let image = image();
    let mut creation = Creation::new("w".to_string());
    match creation.action(&args, &image) {
        CreationAction::CheckFile(path) => assert_eq!(path, "/kvm/golden/corn/deb/deb.qcow2"),
        other => panic!("{other:?}"),
    }
    creation = go(creation, &worker, CreationEvent::FileChecked(Ok(true)));
    match creation.action(&args, &image) {
        CreationAction::DetectOs(path) => assert_eq!(path, "/kvm/golden/corn/deb/deb.qcow2"),
        other => panic!("{other:?}"),
    }
    creation = go(creation, &worker, CreationEvent::OsDetected(Some(GuestOs::Linux)));
    match creation.action(&args, &image) {
        CreationAction::RunQemuImg(line) => assert_eq!(
            line[5..],
            ["-b", "/kvm/golden/corn/deb/deb.qcow2", "/kvm/tmp/w.qcow2"]
        ),
        other => panic!("{other:?}"),
    }
    creation = go(creation, &worker, ran(true));
    match creation.action(&args, &image) {
        CreationAction::CheckFile(path) => assert_eq!(path, "/kvm/golden/corn/deb/deb.xml"),
        other => panic!("{other:?}"),
    }
    creation = go(creation, &worker, CreationEvent::FileChecked(Ok(true)));
    match creation.action(&args, &image) {
        CreationAction::ReadFile(path) => assert_eq!(path, "/kvm/golden/corn/deb/deb.xml"),
        other => panic!("{other:?}"),
    }
    let golden = "{NAME} {CPU} {MEMORY} {FILE}".to_string();
    creation = go(creation, &worker, CreationEvent::FileRead(Ok(golden)));
    match creation.action(&args, &image) {
        CreationAction::DefineDomain(xml) => {
            assert_eq!(xml, "thorium_w 1 1048576 /kvm/tmp/w.qcow2")
        }
        other => panic!("{other:?}"),
    }
    creation = go(creation, &worker, CreationEvent::LibvirtAnswered(Ok(())));
    match creation.action(&args, &image) {
        CreationAction::SpawnDomain(name) => assert_eq!(name, "thorium_w"),
        other => panic!("{other:?}"),
    }
    creation = go(creation, &worker, CreationEvent::LibvirtAnswered(Ok(())));
    assert!(matches!(creation.action(&args, &image), CreationAction::Nothing));
    match creation {
        Creation::Finished(created) => {
            assert_eq!(created.state.guest_os, GuestOs::Linux);
            assert_eq!(created.state.domain_name, "thorium_w");
            assert_eq!(created.state.created, at(700));
            assert_eq!(created.state.launch_attempts, 0);
        }
        other => panic!("{other:?}"),
    }
}

fn failed(creation: Creation) -> (Vec<String>, Error) {
    match creation {
        Creation::Failed(actions, error) => (texts(&actions), error),
        other => panic!("expected a failure, got {other:?}"),
    }
}

#[test]
fn failed_creations_leave_nothing_behind() {
    let worker = api_worker("w", 1024, WorkerStatus::Spawning);
    let image_found =
        || go(Creation::new("w".to_string()), &worker, CreationEvent::FileChecked(Ok(true)));
    let detected = || go(image_found(), &worker, CreationEvent::OsDetected(None));
    let overlayed = || go(detected(), &worker, ran(true));
    let xml_found = || go(overlayed(), &worker, CreationEvent::FileChecked(Ok(true)));
    let filled = || {
        let golden = "{NAME}{CPU}{MEMORY}{FILE}".to_string();
        go(xml_found(), &worker, CreationEvent::FileRead(Ok(golden)))
    };
    let defined = || go(filled(), &worker, CreationEvent::LibvirtAnswered(Ok(())));
    let none: Vec<String> = Vec::new();
    let overlay = vec!["delete /kvm/tmp/w.qcow2"];
    let start = Creation::new("w".to_string());
    let (left, error) = failed(go(start, &worker, CreationEvent::FileChecked(Ok(false))));
    assert_eq!(left, none);
    assert!(error.msg().starts_with("Failed to find golden image at path"));
    let (left, error) = failed(go(detected(), &worker, ran(false)));
    assert_eq!(left, none);
    assert!(error.msg().starts_with("Failed to create overlay image"));
    let io = CreationEvent::QemuImgRan(Err("io".to_string()));
    assert_eq!(failed(go(detected(), &worker, io)).1.kind(), "IO");
    // resources are looked at once there is an overlay
    let small = api_worker("w", 100, WorkerStatus::Spawning);
    let (left, error) = failed(go(detected(), &small, ran(true)));
    assert_eq!(left, overlay);
    assert_eq!(error.msg(), "Memory must be at least 512 MiB");
    let (left, error) = failed(go(overlayed(), &worker, CreationEvent::FileChecked(Ok(false))));
    assert_eq!(left, overlay);
    assert!(error.msg().starts_with("Failed to find golden XML at path"));
    let unreadable = CreationEvent::FileRead(Err("Os".to_string()));
    let (left, error) = failed(go(xml_found(), &worker, unreadable));
    assert_eq!(left, overlay);
    assert!(error.msg().starts_with("Error reading golden XML file"));
    let empty = CreationEvent::FileRead(Ok(String::new()));
    let (left, error) = failed(go(xml_found(), &worker, empty));
    assert_eq!(left, overlay);
    assert!(error.msg().starts_with("Malformed worker XML"));
    let refused = || CreationEvent::LibvirtAnswered(Err("refused".to_string()));
    let (left, error) = failed(go(filled(), &worker, refused()));
    assert_eq!(left, overlay);
    assert_eq!((error.kind(), error.msg().as_str()), ("Virt", "refused"));
    let (left, _) = failed(go(defined(), &worker, refused()));
    assert_eq!(left, vec!["undefine thorium_w", "delete /kvm/tmp/w.qcow2"]);
    // what does not fit changes nothing, and memory that does not fit has no result
    assert!(matches!(go(overlayed(), &worker, ran(false)), Creation::FindXml(_)));
    let huge = api_worker("w", u64::MAX, WorkerStatus::Spawning);
    let golden = CreationEvent::FileRead(Ok("<memory>".to_string()));
    assert!(xml_found().advance(&kvm_args(), &huge, &image(), golden, at(0)).is_none());
}

#[test]
fn only_domains_of_thorium_are_seen() {
    let mut found = Reconciliation::new();
    assert_eq!(found.see_domain("thorium_w").as_deref(), Some("w"));
    assert_eq!(found.see_domain("debian"), None);
    assert_eq!(found.see_domain("thorium_").as_deref(), Some(""));
    assert!(found.all_workers.contains("w"));
    assert_eq!(found.all_workers.len(), 2);
}

fn look(
    kvm: &mut Kvm,
    found: &mut Reconciliation,
    name: &str,
    active_domain: bool,
    info: &Node,
    time: i64,
) -> NextStep {
    let mut active = NameMap::new();
    kvm.reconcile_domain(found, name, active_domain, info, &mut active, at(time))
}

#[test]
fn domains_without_use_are_marked() {
    let mut kvm = launcher();
    let mut found = Reconciliation::new();
    let info = node(&[("w", WorkerStatus::Running)]);
    // not running, and not in the API
    assert!(matches!(look(&mut kvm, &mut found, "w", false, &info, 0), NextStep::Settled));
    assert!(matches!(look(&mut kvm, &mut found, "x", true, &info, 0), NextStep::Settled));
    assert!(found.shutdowns.contains("w") && found.shutdowns.contains("x"));
    assert_eq!(kvm.running_workers.len(), 0);
}

#[test]
fn created_workers_are_launched_when_ready() {
    let mut kvm = launcher();
    let info = node(&[("a", WorkerStatus::Running), ("b", WorkerStatus::Running)]);
    kvm.resolve_launches(vec![
        ("a".to_string(), created_worker("a", 0)),
        ("b".to_string(), created_worker("b", 10)),
        ("a".to_string(), created_worker("a", 3)),
    ]);
    assert_eq!(kvm.running_workers.len(), 2);
    let mut found = Reconciliation::new();
    assert!(matches!(look(&mut kvm, &mut found, "a", true, &info, 1_119), NextStep::Settled));
    match look(&mut kvm, &mut found, "a", true, &info, 1_120) {
        NextStep::Launch(worker) => assert_eq!(worker.state.launch_attempts, 3),
        other => panic!("{other:?}"),
    }
    assert!(!kvm.running_workers.contains_key("a"));
    assert!(matches!(look(&mut kvm, &mut found, "b", true, &info, 1_120), NextStep::Settled));
    assert_eq!(found.shutdowns.names(), vec!["b"]);
    // what came of the launch
    let error = LaunchError(created_worker("a", 4), Error::new("no"));
    assert_eq!(kvm.resolve_launch("a".to_string(), Err(error)).unwrap().msg(), "no");
    assert!(matches!(kvm.running_workers.get("a"), Some(RunningKvmWorker::Created(_))));
    assert!(kvm.resolve_launch("a".to_string(), Ok(launched_worker("a"))).is_none());
    assert!(matches!(kvm.running_workers.get("a"), Some(RunningKvmWorker::Launched(_))));
}

#[test]
fn unknown_workers_are_reclaimed() {
    let mut kvm = launcher();
    let mut found = Reconciliation::new();
    let mut active = NameMap::new();
    let info = node(&[("w", WorkerStatus::Running)]);
    let step = kvm.reconcile_domain(&mut found, "w", true, &info, &mut active, at(0));
    assert!(matches!(step, NextStep::Settled));
    assert_eq!(active.keys(), vec!["w"]);
    match kvm.running_workers.get("w") {
        Some(RunningKvmWorker::Launched(worker)) => {
            assert_eq!(worker.state.domain_name, "thorium_w");
            assert_eq!(worker.state.agent_pid, None);
            assert_eq!(worker.state.launched, at(0));
            assert_eq!(worker.state.heartbeat, at(0));
            assert!((30..=60).contains(&worker.state.next_check.secs));
        }
        other => panic!("{other:?}"),
    }
    // a worker that is active already stays as it is
    let mut active = NameMap::new();
    active.insert("w".to_string(), api_worker("other", 7, WorkerStatus::Running));
    let worker = api_worker("w", 1024, WorkerStatus::Running);
    kvm.reclaim_worker("w", &worker, &mut active, at(50));
    match kvm.running_workers.get("w") {
        Some(RunningKvmWorker::Launched(worker)) => assert_eq!(worker.state.launched, at(50)),
        other => panic!("{other:?}"),
    }
    assert_eq!(active.get("w").unwrap().name, "other");
}

fn ask(reply: StatusReply, time: i64) -> (Option<AgentState>, bool, bool, Kvm) {
    let mut kvm = launcher();
    kvm.resolve_launch("w".to_string(), Ok(launched_worker("w")));
    let mut found = Reconciliation::new();
    let state = kvm.agent_answered(
        "w",
        reply,
        &mut found.shutdowns,
        &mut found.worker_delete_map,
        at(time),
    );
    let marked = found.shutdowns.contains("w");
    let deleted = found.worker_delete_map.workers.contains("w");
    (state, marked, deleted, kvm)
}

fn answered(text: &str) -> StatusReply {
    StatusReply::Answered(text.to_string())
}

#[test]
fn launched_workers_are_checked_when_due() {
    let mut kvm = launcher();
    kvm.resolve_launch("w".to_string(), Ok(launched_worker("w")));
    let mut found = Reconciliation::new();
    let info = node(&[("w", WorkerStatus::Running)]);
    assert!(matches!(look(&mut kvm, &mut found, "w", true, &info, 1_999), NextStep::Settled));
    match look(&mut kvm, &mut found, "w", true, &info, 2_000) {
        NextStep::AskAgent(Some(query)) => assert_eq!(query.domain_name, "thorium_w"),
        other => panic!("{other:?}"),
    }
    assert!(kvm.running_workers.contains_key("w"));
}

#[test]
fn agents_that_are_over_are_shut_down() {
    let (state, marked, deleted, _) = ask(answered(r#"{"return":{"exitcode":0}}"#), 1_001);
    assert!(matches!(state, Some(AgentState::Completed)));
    assert!(marked && deleted);
    let (state, marked, deleted, _) = ask(answered(r#"{"return":{"exitcode":2}}"#), 1_001);
    assert!(matches!(state, Some(AgentState::Errored { .. })));
    assert!(marked && !deleted);
    let (_, marked, deleted, _) = ask(answered(r#"{"return":{"exited":true}}"#), 1_001);
    assert!(marked && !deleted);
}

#[test]
fn agents_that_hang_are_shut_down() {
    // running for too long
    let running = || answered(r#"{"return":{"exited":false}}"#);
    let (state, marked, _, kvm) = ask(running(), 11_799);
    assert!(matches!(state, Some(AgentState::Running)));
    assert!(!marked);
    match kvm.running_workers.get("w") {
        Some(RunningKvmWorker::Launched(worker)) => {
            assert_eq!(worker.state.heartbeat, at(11_799));
            assert!((11_829..=11_859).contains(&worker.state.next_check.secs));
        }
        other => panic!("{other:?}"),
    }
    assert!(ask(running(), 11_800).1);
    // missing for too long, also where the answer was an error
    assert!(!ask(StatusReply::Inactive, 1_599).1);
    assert!(ask(StatusReply::Inactive, 1_600).1);
    let (state, marked, _, _) = ask(answered("{"), 1_600);
    assert!(matches!(state, Some(AgentState::Missing)));
    assert!(marked);
    // a worker that is not launched is not asked
    let mut kvm = launcher();
    kvm.resolve_launches(vec![("w".to_string(), created_worker("w", 0))]);
    let mut found = Reconciliation::new();
    let state = kvm.agent_answered(
        "w",
        StatusReply::Inactive,
        &mut found.shutdowns,
        &mut found.worker_delete_map,
        at(90_000),
    );
    assert!(state.is_none());
    assert!(found.shutdowns.is_empty());
    assert!(kvm.running_workers.contains_key("w"));
}

#[test]
fn shutdowns_destroy_every_worker() {
    let mut kvm = launcher();
    kvm.resolve_launch("a".to_string(), Ok(launched_worker("a")));
    kvm.resolve_launch("b".to_string(), Ok(launched_worker("b")));
    let mut workers = thorium_reactor::names::NameSet::new();
    workers.insert("a");
    workers.insert("stray");
    let plan = kvm.shutdown(&workers);
    assert_eq!(plan.len(), 2);
    for (name, actions) in &plan {
        match name.as_str() {
            "a" => assert_eq!(texts(actions), vec!["undefine thorium_a", "delete /o/a"]),
            _ => assert_eq!(
                texts(actions),
                vec!["undefine thorium_stray", "delete /kvm/tmp/stray.qcow2"]
            ),
        }
    }
    assert_eq!(kvm.running_workers.keys(), vec!["b"]);
}

#[test]
fn conclusions_drop_what_is_gone() {
    let mut kvm = launcher();
    for name in ["gone", "marked", "kept", "stopping"] {
        kvm.resolve_launch(name.to_string(), Ok(launched_worker(name)));
    }
    let info = node(&[
        ("gone", WorkerStatus::Running),
        ("marked", WorkerStatus::Running),
        ("kept", WorkerStatus::Running),
        ("stopping", WorkerStatus::Shutdown),
    ]);
    let mut active = NameMap::new();
    for name in ["gone", "marked", "kept", "stopping"] {
        active.insert(name.to_string(), api_worker(name, 1024, WorkerStatus::Running));
    }
    let mut found = Reconciliation::new();
    for name in ["thorium_marked", "thorium_kept", "thorium_stopping", "thorium_old"] {
        found.see_domain(name);
    }
    for name in ["marked", "stopping", "old"] {
        found.shutdowns.insert(name);
    }
    found.worker_delete_map.add_mut("marked");
    found.worker_delete_map.add_mut("old");
    let conclusion = kvm.conclude(found, &info, &mut active);
    let mut names: Vec<_> = conclusion.shutdowns.iter().map(|(name, _)| name.as_str()).collect();
    names.sort_unstable();
    // the API's own shutdown takes care of the stopping worker
    assert_eq!(names, vec!["marked", "old"]);
    assert_eq!(conclusion.deletes.workers.names(), vec!["marked"]);
    assert_eq!(active.keys(), vec!["kept", "stopping"]);
    assert_eq!(kvm.running_workers.keys(), vec!["kept", "stopping"]);
}

#[test]
fn reconciliations_shut_down_what_the_domains_call_for() {
    let mut kvm = launcher();
    for name in ["busy", "over", "stopped", "stopping"] {
        kvm.resolve_launch(name.to_string(), Ok(launched_worker(name)));
    }
    kvm.resolve_launches(vec![("worn".to_string(), created_worker("worn", u8::MAX))]);
    let info = node(&[
        ("busy", WorkerStatus::Running),
        ("over", WorkerStatus::Running),
        ("stopped", WorkerStatus::Running),
        ("stopping", WorkerStatus::Shutdown),
        ("worn", WorkerStatus::Spawning),
    ]);
    let mut found = Reconciliation::new();
    let domains = [
        ("debian", false, 0),
        ("thorium_stopped", false, 0),
        ("thorium_unknown", true, 0),
        ("thorium_worn", true, 0),
        ("thorium_over", true, 2_000),
        ("thorium_busy", true, 1_999),
        ("thorium_stopping", false, 0),
    ];
    for (domain, is_active, time) in domains {
        let Some(name) = found.see_domain(domain) else {
            continue;
        };
        let step = look(&mut kvm, &mut found, &name, is_active, &info, time);
        if let NextStep::AskAgent(_) = step {
            kvm.agent_answered(
                &name,
                answered(r#"{"return":{"exitcode":0}}"#),
                &mut found.shutdowns,
                &mut found.worker_delete_map,
                at(time),
            );
        }
    }
    let conclusion = kvm.conclude(found, &info, &mut NameMap::new());
    let mut names: Vec<_> = conclusion.shutdowns.iter().map(|(name, _)| name.as_str()).collect();
    names.sort_unstable();
    // the busy worker is in order, and the API shuts the stopping one down
    assert_eq!(names, vec!["over", "stopped", "unknown", "worn"]);
    assert_eq!(conclusion.deletes.workers.names(), vec!["over"]);
    assert_eq!(kvm.running_workers.keys(), vec!["busy", "stopping"]);
}

#[test]
fn workers_that_are_deleted_already_are_no_error() {
    assert!(check_delete(None).is_ok());
    assert!(check_delete(Some((Some(404), "gone".to_string()))).is_ok());
    let error = check_delete(Some((Some(500), "broken".to_string()))).unwrap_err();
    assert_eq!((error.kind(), error.msg().as_str()), ("Thorium", "broken"));
    assert!(check_delete(Some((None, "timeout".to_string()))).is_err());
}

#[test]
fn launches_without_a_domain_are_not_counted() {
    let gone = LaunchAttempt::LookupFailed("no domain".to_string());
    let LaunchError(worker, error) =
        Kvm::launch_kvm_worker(created_worker("w", 3), gone, at(9)).unwrap_err();
    assert_eq!(worker.state.launch_attempts, 3);
    assert_eq!(worker.state.last_launch_attempt, None);
    assert_eq!((error.kind(), error.msg().as_str()), ("Virt", "no domain"));
    let failed = LaunchAttempt::Tried(Err(Error::new("no")));
    let LaunchError(worker, error) =
        Kvm::launch_kvm_worker(created_worker("w", 3), failed, at(9)).unwrap_err();
    assert_eq!(worker.state.launch_attempts, 4);
    assert_eq!(worker.state.last_launch_attempt, Some(at(9)));
    assert_eq!(error.msg(), "no");
    let done = LaunchAttempt::Tried(Ok(12));
    let launched = Kvm::launch_kvm_worker(created_worker("w", 3), done, at(9)).unwrap();
    assert_eq!(launched.state.agent_pid, Some(12));
    assert_eq!(launched.state.launched, at(9));
}

#[test]
fn failing_launches_are_given_up() {
    let mut kvm = launcher();
    kvm.resolve_launches(vec![("w".to_string(), created_worker("w", 0))]);
    let info = node(&[("w", WorkerStatus::Running)]);
    for attempt in 1..=10u8 {
        let mut found = Reconciliation::new();
        let later = 10_000 * i64::from(attempt);
        match look(&mut kvm, &mut found, "w", true, &info, later) {
            NextStep::Launch(worker) => {
                let failed = LaunchAttempt::Tried(Err(Error::new("no")));
                let result = Kvm::launch_kvm_worker(worker, failed, at(later - 60));
                assert!(kvm.resolve_launch("w".to_string(), result).is_some());
            }
            other => panic!("attempt {attempt}: {other:?}"),
        }
        assert!(found.shutdowns.is_empty());
    }
    let mut found = Reconciliation::new();
    assert!(matches!(look(&mut kvm, &mut found, "w", true, &info, 0), NextStep::Settled));
    assert!(found.shutdowns.contains("w"));
}

#[test]
fn workers_do_not_outlive_their_timeouts() {
    for reply in [
        StatusReply::Inactive,
        answered(r#"{"return":{"exited":false}}"#),
        answered(r#"{"return":{"exited":true}}"#),
        answered(r#"{"return":{"exitcode":3}}"#),
        answered("{}"),
        answered("no json"),
    ] {
        assert!(ask(reply, 1_000 + 10_800).1);
    }
}
