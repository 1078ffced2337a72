//! The states of a KVM worker, from its name to its launched agent.

use base64::Engine;
use thorium_reactor::args::{Kvm, KvmArgs};
use thorium_reactor::error::Error;
use thorium_reactor::kvm_worker::{
    presume_launched, presume_launched_at, KvmWorker, LaunchError,
};
use thorium_reactor::models::{
    CommandOutput, Dependencies, Image, OutputCollection, Resources, Worker, WorkerStatus,
};
use thorium_reactor::os_detector::GuestOs;
use thorium_reactor::state::created::{
    agent_args, AgentPaths, Launch, LaunchAction, LaunchEvent, CHUNK_SIZE,
};
use thorium_reactor::state::defined::{undefine_next, UndefineStep};
use thorium_reactor::state::init::{golden_path, overlay_args};
use thorium_reactor::state::launched::{
    conclude_state, output_text, state_of, AgentState, StatusReply, VirtError, VirtErrorKind,
};
use thorium_reactor::state::overlayed::{check_resources, vcpus};
use thorium_reactor::state::{
    Created, Defined, DestroyAction, Init, KvmWorkerState, Launched, Overlayed,
};
use thorium_reactor::time::UtcTime;

fn at(secs: i64) -> UtcTime {
    UtcTime { secs, nanos: 0 }
}

fn kvm_args() -> Kvm {
    Kvm::from(KvmArgs {
        base_dir: "/kvm".to_string(),
        golden_dir: None,
        temp_dir: None,
        socket: "qemu:///system".to_string(),
        virt_threads: 10,
        os_detector_cache_size: 1000,
    })
}

fn image() -> Image {
    Image {
        group: "corn".to_string(),
        name: "win11".to_string(),
        clean_up: None,
        dependencies: Dependencies {
            samples: String::new(),
            ephemeral: String::new(),
            repos: String::new(),
            results: String::new(),
        },
        output_collection: OutputCollection {
            results: String::new(),
            result_files: String::new(),
            tags: String::new(),
            children: String::new(),
        },
    }
}

fn resources(cpu: u64, memory: u64) -> Resources {
    Resources {
        cpu,
        memory,
        ephemeral_storage: 0,
        worker_slots: 0,
        nvidia_gpu: 0,
        amd_gpu: 0,
    }
}

fn worker() -> Worker {
    Worker {
        cluster: "c".to_string(),
        node: "n".to_string(),
        group: "g".to_string(),
        pipeline: "p".to_string(),
        stage: "s".to_string(),
        name: "w".to_string(),
        user: "u".to_string(),
        resources: resources(1500, 1024),
        status: WorkerStatus::Running,
        active_job: None,
    }
}

fn created(guest_os: GuestOs) -> Created {
    Created {
        worker: "w".to_string(),
        guest_os,
        overlay_path: "/kvm/tmp/w.qcow2".to_string(),
        domain_name: "thorium_w".to_string(),
        created: at(1_000),
        last_launch_attempt: None,
        launch_attempts: 0,
    }
}

fn launched(agent_pid: Option<u64>) -> Launched {
    Launched {
        worker: "w".to_string(),
        guest_os: GuestOs::Linux,
        overlay_path: "/kvm/tmp/w.qcow2".to_string(),
        domain_name: "thorium_w".to_string(),
        agent_pid,
        launched: at(1_000),
        next_check: at(2_000),
        heartbeat: at(1_000),
    }
}

fn names_of(actions: &[DestroyAction]) -> Vec<String> {
    actions
        .iter()
        .map(|action| match action {
            DestroyAction::UndefineDomain(name) => format!("undefine {name}"),
            DestroyAction::DeleteOverlay(path) => format!("delete {path}"),
        })
        .collect()
}

fn output(success: bool, stderr: &[u8]) -> CommandOutput {
    CommandOutput { success, code: None, stdout: Vec::new(), stderr: stderr.to_vec() }
}

fn virt_error(kind: VirtErrorKind, message: &str) -> VirtError {
    VirtError { kind, message: message.to_string() }
}

#[test]
fn destruction_goes_back_to_the_first_state() {
    assert!(().destroy().is_empty());
    assert!(Init { worker: "w".to_string() }.destroy().is_empty());
    let overlayed = || Overlayed {
        worker: "w".to_string(),
        guest_os: GuestOs::Linux,
        overlay_path: "/o".to_string(),
    };
    assert_eq!(names_of(&overlayed().destroy()), vec!["delete /o"]);
    let defined = overlayed().next_state("d".to_string());
    assert_eq!(names_of(&defined.destroy()), vec!["undefine d", "delete /o"]);
    let created = overlayed().next_state("d".to_string()).next_state(());
    assert_eq!(names_of(&created.destroy()), vec!["undefine d", "delete /o"]);
    let launched = overlayed().next_state("d".to_string()).next_state(()).next_state(Some(3));
    assert_eq!(names_of(&launched.destroy()), vec!["undefine d", "delete /o"]);
}

#[test]
fn going_back_keeps_what_the_state_before_had() {
    assert_eq!(launched(Some(3)).previous_state_at(at(6)).created, at(6));
    let created = launched(Some(3)).previous_state();
    assert_eq!(created.worker, "w");
    assert_eq!(created.launch_attempts, 0);
    assert!(created.last_launch_attempt.is_none());
    let defined = created.previous_state();
    assert_eq!(defined.domain_name, "thorium_w");
    let overlayed = defined.previous_state();
    assert_eq!(overlayed.overlay_path, "/kvm/tmp/w.qcow2");
    assert_eq!(overlayed.guest_os, GuestOs::Linux);
    let init = overlayed.previous_state();
    assert_eq!(init.get_worker(), "w");
    assert_eq!(().get_worker(), "");
}

#[test]
fn workers_known_by_name_are_presumed_launched() {
    let worker = presume_launched("w-1".to_string(), &kvm_args());
    assert_eq!(worker.state.worker, "w-1");
    assert_eq!(worker.state.guest_os, GuestOs::Unknown);
    assert_eq!(worker.state.agent_pid, None);
    assert_eq!(worker.state.heartbeat, worker.state.launched);
    let wait = worker.state.next_check.secs - worker.state.launched.secs;
    assert!((30..=61).contains(&wait), "{wait}");
    assert_eq!(
        names_of(&worker.destroy()),
        vec!["undefine thorium_w-1", "delete /kvm/tmp/w-1.qcow2"]
    );
}

#[test]
fn the_clock_is_read_when_states_begin() {
    let before = chrono::Utc::now().timestamp();
    let defined = Defined {
        worker: "w".to_string(),
        guest_os: GuestOs::Linux,
        overlay_path: "/o".to_string(),
        domain_name: "d".to_string(),
    };
    let created = defined.mock_create();
    let check = Launched::next_health_check();
    let after = chrono::Utc::now().timestamp();
    assert!(before <= created.created.secs && created.created.secs <= after);
    assert!(before + 30 <= check.secs && check.secs <= after + 60);
    assert!(!created.ready_to_launch());
}

#[test]
fn health_checks_are_spread() {
    let mut waits = Vec::new();
    for _ in 0..200 {
        let now = chrono::Utc::now().timestamp();
        waits.push(Launched::next_health_check().secs - now);
    }
    assert!(waits.iter().all(|wait| (30..=61).contains(wait)));
    waits.sort_unstable();
    waits.dedup();
    assert!(waits.len() > 5, "{waits:?}");
}

#[test]
fn golden_files_are_under_group_and_image() {
    assert_eq!(golden_path("/golden", &image(), "qcow2"), "/golden/corn/win11/win11.qcow2");
    assert_eq!(golden_path("/golden", &image(), "xml"), "/golden/corn/win11/win11.xml");
    let mut test = image();
    test.name = "test".to_string();
    assert_eq!(golden_path("/base/golden", &test, "qcow2"), "/base/golden/corn/test/test.qcow2");
    assert_eq!(golden_path("/base/golden", &test, "xml"), "/base/golden/corn/test/test.xml");
    test.name = "win10.1".to_string();
    assert_eq!(
        Overlayed::find_golden_xml("/base/golden", &test, Ok(true)).unwrap(),
        "/base/golden/corn/win10.1/win10.1.xml"
    );
    assert_eq!(
        Init::find_golden_image("/base/golden", &test, Ok(true)).unwrap(),
        "/base/golden/corn/win10.1/win10.1.qcow2"
    );
    assert_eq!(
        Init::find_golden_image("/golden", &image(), Ok(true)).unwrap(),
        "/golden/corn/win11/win11.qcow2"
    );
    assert_eq!(
        Init::find_golden_image("/golden", &image(), Ok(false)).unwrap_err().msg(),
        "Failed to find golden image at path '/golden/corn/win11/win11.qcow2'"
    );
    assert_eq!(
        Overlayed::find_golden_xml("/golden", &image(), Ok(false)).unwrap_err().msg(),
        "Failed to find golden XML at path '/golden/corn/win11/win11.xml'"
    );
    let error = Overlayed::find_golden_xml("/golden", &image(), Err("denied".to_string()));
    assert_eq!(error.unwrap_err().kind(), "IO");
}

#[test]
fn overlays_are_created_with_qemu_img() {
    assert_eq!(
        overlay_args("/g.qcow2", "/o.qcow2"),
        vec!["create", "-f", "qcow2", "-F", "qcow2", "-b", "/g.qcow2", "/o.qcow2"]
    );
    let init = || KvmWorker::init("w".to_string());
    let args = kvm_args();
    let worker = init().overlay(&args, "/g", Some(GuestOs::Windows), Ok(output(true, b""))).unwrap();
    assert_eq!(worker.state.guest_os, GuestOs::Windows);
    assert_eq!(worker.state.overlay_path, "/kvm/tmp/w.qcow2");
    let worker = init().overlay(&args, "/g", None, Ok(output(true, b""))).unwrap();
    assert_eq!(worker.state.guest_os, GuestOs::Unknown);
    let error = init().overlay(&args, "/g", None, Ok(output(false, b"disk full"))).unwrap_err();
    assert_eq!(
        error.msg(),
        "Failed to create overlay image '/g' from golden image '/kvm/tmp/w.qcow2': disk full"
    );
    let error = init().overlay(&args, "/g", None, Err("not found".to_string())).unwrap_err();
    assert_eq!((error.kind(), error.msg().as_str()), ("IO", "not found"));
}

#[test]
fn resources_are_validated() {
    let fault = |cpu, memory| check_resources(&resources(cpu, memory)).unwrap_err().msg();
    assert_eq!(fault(0, 0), "CPU resources cannot be zero");
    assert_eq!(fault(1, 0), "Memory resources cannot be zero");
    assert_eq!(fault(1, 511), "Memory must be at least 512 MiB");
    assert!(check_resources(&resources(1, 512)).is_ok());
}

#[test]
fn cpus_are_rounded_up() {
    assert_eq!(vcpus(0), 1);
    assert_eq!(vcpus(1), 1);
    assert_eq!(vcpus(1000), 1);
    assert_eq!(vcpus(1001), 2);
    assert_eq!(vcpus(2500), 3);
    assert_eq!(vcpus(u64::MAX), u64::MAX / 1000 + 1);
}

const GOLDEN: &str =
    "<name>{NAME}</name><memory unit='KiB'>{MEMORY}</memory><vcpu>{CPU}</vcpu><f>{FILE}</f>";

fn overlayed() -> Overlayed {
    Overlayed {
        worker: "w".to_string(),
        guest_os: GuestOs::Linux,
        overlay_path: "/kvm/tmp/w.qcow2".to_string(),
    }
}

#[test]
fn definitions_are_made_from_golden_xml() {
    let made = overlayed().domain_xml(&resources(1500, 1024), "/g.xml", Ok(GOLDEN)).unwrap();
    assert_eq!(
        made,
        "<name>thorium_w</name><memory unit='KiB'>1048576</memory><vcpu>2</vcpu><f>/kvm/tmp/w.qcow2</f>"
    );
    let golden = "<name>{NAME}</name><vcpu>{CPU}</vcpu><memory unit='MiB'>{MEMORY}</memory>{FILE}";
    let made = overlayed().domain_xml(&resources(1500, 4096), "/g.xml", Ok(golden)).unwrap();
    assert_eq!(
        made,
        "<name>thorium_w</name><vcpu>2</vcpu><memory unit='MiB'>4096</memory>/kvm/tmp/w.qcow2"
    );
    // without a unit the memory is in KiB
    let made = overlayed()
        .domain_xml(&resources(1, 512), "/g.xml", Ok("<memory>{MEMORY}{NAME}{CPU}{FILE}"))
        .unwrap();
    assert_eq!(made, "<memory>524288thorium_w1/kvm/tmp/w.qcow2");
    let error = overlayed()
        .domain_xml(&resources(1, 512), "/g.xml", Ok("{NAME}{MEMORY}{FILE}"))
        .unwrap_err();
    assert_eq!(
        error.msg(),
        "Malformed worker XML '/g.xml': Generic(\"XML is missing placeholder '{CPU}'\")"
    );
    let error = overlayed()
        .domain_xml(&resources(1, 512), "/g.xml", Err("Os { code: 13 }"))
        .unwrap_err();
    assert_eq!(error.msg(), "Error reading golden XML file '/g.xml': Os { code: 13 }");
}

#[test]
fn definitions_are_not_made_of_memory_that_does_not_fit() {
    let huge = resources(1, 1 << 44);
    assert!(overlayed().try_domain_xml(&huge, "/g.xml", Ok("<memory unit='b'>")).is_none());
    assert!(overlayed().try_domain_xml(&resources(1, u64::MAX), "/g.xml", Ok("")).is_none());
    let made = overlayed().try_domain_xml(&resources(1, 512), "/g.xml", Ok(GOLDEN)).unwrap();
    assert!(made.is_ok());
}

#[test]
fn domains_are_named_after_their_workers() {
    assert_eq!(overlayed().domain_name(), "thorium_w");
    let defined = overlayed().define(Ok(())).unwrap();
    assert_eq!(defined.domain_name, "thorium_w");
    assert_eq!(defined.overlay_path, "/kvm/tmp/w.qcow2");
    let error = overlayed().define(Err("bad xml".to_string())).unwrap_err();
    assert_eq!((error.kind(), error.msg().as_str()), ("Virt", "bad xml"));
    let error = overlayed().mock_define().create(Err("no memory".to_string())).unwrap_err();
    assert_eq!((error.kind(), error.msg().as_str()), ("Virt", "no memory"));
    let created = overlayed().mock_define().create(Ok(())).unwrap();
    assert_eq!(created.launch_attempts, 0);
}

#[test]
fn active_domains_are_shut_down_before_they_are_undefined() {
    let step = undefine_next(UndefineStep::Lookup, Ok(false));
    assert!(matches!(step, UndefineStep::CheckActive));
    let step = undefine_next(step, Ok(true));
    assert!(matches!(step, UndefineStep::Shutdown));
    let step = undefine_next(step, Ok(false));
    assert!(matches!(step, UndefineStep::Undefine));
    let step = undefine_next(step, Ok(false));
    assert!(matches!(step, UndefineStep::Gone));
    assert!(matches!(undefine_next(step, Ok(true)), UndefineStep::Gone));
    assert!(matches!(
        undefine_next(UndefineStep::CheckActive, Ok(false)),
        UndefineStep::Undefine
    ));
    // a domain that does not exist is gone; other errors are kept
    let missing = virt_error(VirtErrorKind::NoDomain, "no domain");
    assert!(matches!(undefine_next(UndefineStep::Lookup, Err(missing)), UndefineStep::Gone));
    let broken = virt_error(VirtErrorKind::Other, "broken");
    let step = undefine_next(UndefineStep::Lookup, Err(broken));
    match undefine_next(step, Ok(true)) {
        UndefineStep::Failed(error) => assert_eq!(error.msg(), "broken"),
        other => panic!("expected a failure, got {other:?}"),
    }
    let missing = virt_error(VirtErrorKind::NoDomain, "vanished");
    assert!(matches!(
        undefine_next(UndefineStep::Undefine, Err(missing)),
        UndefineStep::Failed(_)
    ));
}

#[test]
fn agents_are_told_where_they_are() {
    assert_eq!(
        agent_args(&worker(), "/thorium-keys.yml"),
        vec![
            "--cluster", "c", "--node", "n", "--group", "g", "--pipeline", "p", "--stage", "s",
            "--name", "w", "--keys", "/thorium-keys.yml", "kvm"
        ]
    );
}

fn paths() -> AgentPaths {
    AgentPaths::in_dir("/opt/thorium")
}

fn sent(launch: &Launch) -> String {
    match launch.action() {
        LaunchAction::Send(command) => command,
        other => panic!("expected a command, got {other:?}"),
    }
}

fn reply(launch: Launch, text: &str) -> Launch {
    launch.advance(LaunchEvent::Reply(Ok(text.to_string())))
}

/// Transfers a file in the given chunks and returns the bytes that were sent.
fn transfer(mut launch: Launch, host: &str, guest: &str, chunks: &[&[u8]]) -> (Launch, Vec<u8>) {
    match launch.action() {
        LaunchAction::OpenFile(path) => assert_eq!(path, host),
        other => panic!("expected a file, got {other:?}"),
    }
    launch = launch.advance(LaunchEvent::Opened(Ok(())));
    let open: serde_json::Value = serde_json::from_str(&sent(&launch)).unwrap();
    assert_eq!(open["execute"], "guest-file-open");
    assert_eq!(open["arguments"]["path"], guest);
    assert_eq!(open["arguments"]["mode"], "wb");
    launch = reply(launch, r#"{"return":9}"#);
    let mut received = Vec::new();
    for chunk in chunks {
        assert!(matches!(launch.action(), LaunchAction::ReadChunk));
        launch = launch.advance(LaunchEvent::Chunk(Ok(chunk.to_vec())));
        let write: serde_json::Value = serde_json::from_str(&sent(&launch)).unwrap();
        assert_eq!(write["execute"], "guest-file-write");
        assert_eq!(write["arguments"]["handle"], 9);
        let text = write["arguments"]["buf-b64"].as_str().unwrap();
        received
            .extend(base64::engine::general_purpose::STANDARD.decode(text).unwrap());
        launch = reply(launch, r#"{"return":{"count":1}}"#);
    }
    launch = launch.advance(LaunchEvent::Chunk(Ok(Vec::new())));
    assert_eq!(sent(&launch), r#"{"arguments":{"handle":9},"execute":"guest-file-flush"}"#);
    launch = reply(launch, "{}");
    assert_eq!(sent(&launch), r#"{"arguments":{"handle":9},"execute":"guest-file-close"}"#);
    (reply(launch, "{}"), received)
}

#[test]
fn linux_agents_are_made_executable() {
    let plan = created(GuestOs::Linux).plan_launch(&worker(), &paths(), "/keys/u.yml");
    let launch = Launch::new(plan);
    let big = vec![7u8; CHUNK_SIZE];
    let (launch, bytes) =
        transfer(launch, "/opt/thorium/thorium-agent", "/thorium-agent", &[&big, b"end"]);
    assert_eq!(bytes.len(), CHUNK_SIZE + 3);
    assert_eq!(&bytes[CHUNK_SIZE..], b"end");
    let chmod: serde_json::Value = serde_json::from_str(&sent(&launch)).unwrap();
    assert_eq!(chmod["arguments"]["path"], "/bin/chmod");
    assert_eq!(chmod["arguments"]["arg"][1], "/thorium-agent");
    let launch = reply(launch, r#"{"return":{"pid":5}}"#);
    assert_eq!(sent(&launch), r#"{"arguments":{"pid":5},"execute":"guest-exec-status"}"#);
    // what the status is does not matter
    let launch = reply(launch, "no json");
    let (launch, bytes) = transfer(launch, "/keys/u.yml", "/thorium-keys.yml", &[b"token: x"]);
    assert_eq!(bytes, b"token: x");
    let exec: serde_json::Value = serde_json::from_str(&sent(&launch)).unwrap();
    assert_eq!(exec["arguments"]["path"], "/thorium-agent");
    assert_eq!(exec["arguments"]["arg"][13], "/thorium-keys.yml");
    assert_eq!(exec["arguments"]["capture-output"], true);
    assert!(!launch.is_over());
    let launch = reply(launch, r#"{"return":{"pid":77}}"#);
    assert!(launch.is_over());
    assert!(matches!(launch.action(), LaunchAction::Nothing));
    assert_eq!(launch.outcome().unwrap().unwrap(), 77);
}

#[test]
fn windows_agents_are_not_made_executable() {
    let plan = created(GuestOs::Windows).plan_launch(&worker(), &paths(), "/keys/u.yml");
    let (launch, _) = transfer(
        Launch::new(plan),
        "/opt/thorium/thorium-agent.exe",
        "C:\\thorium-agent.exe",
        &[b"MZ"],
    );
    let (launch, _) = transfer(launch, "/keys/u.yml", "C:\\thorium-keys.yml", &[]);
    let exec: serde_json::Value = serde_json::from_str(&sent(&launch)).unwrap();
    assert_eq!(exec["arguments"]["path"], "C:\\thorium-agent.exe");
}

#[test]
fn unknown_guests_are_taken_for_linux() {
    let plan = created(GuestOs::Unknown).plan_launch(&worker(), &paths(), "/keys/u.yml");
    assert_eq!(plan.agent_path, "/opt/thorium/thorium-agent");
    assert_eq!(plan.keys_guest_path, "/thorium-keys.yml");
    assert!(!plan.make_executable);
    assert_eq!(plan.agent_args.len(), 15);
}

fn failure(launch: Launch) -> Error {
    launch.outcome().unwrap().unwrap_err()
}

#[test]
fn launches_fail_with_what_went_wrong() {
    let start = || Launch::new(created(GuestOs::Linux).plan_launch(&worker(), &paths(), "/k"));
    let opened = || start().advance(LaunchEvent::Opened(Ok(())));
    let reading = || reply(opened(), r#"{"return":9}"#);
    let writing = || reading().advance(LaunchEvent::Chunk(Ok(b"x".to_vec())));
    let flushing = || reading().advance(LaunchEvent::Chunk(Ok(Vec::new())));
    let closing = || reply(flushing(), "{}");
    let chmod = || reply(closing(), "{}");
    let error = failure(start().advance(LaunchEvent::Opened(Err("NotFound".to_string()))));
    assert_eq!(
        error.msg(),
        "Error opening local file '/opt/thorium/thorium-agent' for transfer: NotFound"
    );
    let error = failure(opened().advance(LaunchEvent::Reply(Err("gone".to_string()))));
    assert_eq!((error.kind(), error.msg().as_str()), ("Virt", "gone"));
    assert_eq!(failure(reply(opened(), "{")).kind(), "SerdeJson");
    assert!(failure(reply(opened(), "{}")).msg().contains("missing 'return' field"));
    let error = failure(reading().advance(LaunchEvent::Chunk(Err("io".to_string()))));
    assert_eq!((error.kind(), error.msg().as_str()), ("IO", "io"));
    assert!(failure(reply(writing(), r#"{"error":{}}"#)).msg().contains("write failed"));
    assert_eq!(failure(reply(flushing(), "")).kind(), "SerdeJson");
    assert_eq!(failure(reply(closing(), "")).kind(), "SerdeJson");
    assert_eq!(
        failure(reply(chmod(), "{}")).msg(),
        "Failed to set thorium-agent as executable on Linux guest: {}"
    );
    let status = reply(chmod(), r#"{"return":{"pid":5}}"#);
    assert_eq!(
        failure(status.advance(LaunchEvent::Reply(Err("denied".to_string())))).msg(),
        "'chmod +x' failed on Linux guest: denied"
    );
    // what does not fit changes nothing
    let same = start().advance(LaunchEvent::Chunk(Ok(Vec::new())));
    assert!(matches!(same.action(), LaunchAction::OpenFile(_)));
    assert!(same.outcome().is_err());
}

#[test]
fn failed_launches_count_and_wait() {
    let error = || Error::new("no");
    let (state, e) = created(GuestOs::Linux).launch_at(Err(error()), at(5_000)).unwrap_err();
    assert_eq!(e.msg(), "no");
    assert_eq!(state.launch_attempts, 1);
    assert_eq!(state.last_launch_attempt, Some(at(5_000)));
    assert!(!state.ready_to_launch_at(at(5_059)));
    assert!(state.ready_to_launch_at(at(5_060)));
    let state = created(GuestOs::Linux).launch_at(Ok(8), at(5_000)).unwrap();
    assert_eq!(state.agent_pid, Some(8));
    assert_eq!((state.launched, state.heartbeat), (at(5_000), at(5_000)));
    assert!((5_030..=5_060).contains(&state.next_check.secs));
    match (KvmWorker { state: created(GuestOs::Linux) }).launch(Err(error())) {
        Err(LaunchError(worker, e)) => {
            assert_eq!(worker.state.launch_attempts, 1);
            assert!(worker.state.last_launch_attempt.is_some());
            assert_eq!(worker.domain_name(), "thorium_w");
            assert_eq!(e.msg(), "no");
        }
        Ok(other) => panic!("expected an error, got {other:?}"),
    }
}

#[test]
fn first_launches_wait_for_the_domain_to_settle() {
    let mut state = created(GuestOs::Linux);
    assert!(!state.ready_to_launch_at(at(1_119)));
    assert!(state.ready_to_launch_at(at(1_120)));
    assert!(state.ready_to_launch());
    assert!(!state.has_reached_max_attempts());
    state.launch_attempts = 10;
    assert!(state.has_reached_max_attempts());
}

#[test]
fn agents_without_a_process_are_missing() {
    let mut state = launched(None);
    assert!(state.status_query().is_none());
    let found = state.agent_state(StatusReply::Answered("{".to_string()));
    assert!(matches!(found, Ok(AgentState::Missing)));
    let query = launched(Some(4)).status_query().unwrap();
    assert_eq!(query.domain_name, "thorium_w");
    assert_eq!(query.command, r#"{"arguments":{"pid":4},"execute":"guest-exec-status"}"#);
}

fn answer(text: &str) -> Result<AgentState, Error> {
    launched(Some(4)).agent_state_at(StatusReply::Answered(text.to_string()), at(9_000))
}

#[test]
fn answers_tell_the_state_of_an_agent() {
    assert!(matches!(answer(r#"{"return":{}}"#), Ok(AgentState::Missing)));
    assert!(matches!(answer(r#"{"return":7}"#), Ok(AgentState::Missing)));
    assert!(matches!(answer(r#"{"return":{"exited":"yes"}}"#), Ok(AgentState::Missing)));
    assert!(matches!(answer(r#"{"return":{"exited":true}}"#), Ok(AgentState::Exited)));
    assert!(matches!(answer(r#"{"return":{"exited":false}}"#), Ok(AgentState::Running)));
    assert!(matches!(answer(r#"{"return":{"exitcode":0}}"#), Ok(AgentState::Completed)));
    assert!(matches!(
        answer(r#"{"return":{"exited":true,"exitcode":0}}"#),
        Ok(AgentState::Completed)
    ));
    match answer(r#"{"return":{"exitcode":-9,"out-data":"aGk=","err-data":"!!"}}"#) {
        Ok(AgentState::Errored { exitcode, stdout, stderr }) => {
            assert_eq!(exitcode, -9);
            assert_eq!(stdout.as_deref(), Some("hi"));
            assert_eq!(stderr, None);
        }
        other => panic!("expected an error, got {other:?}"),
    }
    // bytes that are no text
    match answer(r#"{"return":{"exitcode":1,"out-data":"/w==","err-data":"b2g="}}"#) {
        Ok(AgentState::Errored { stdout, stderr, .. }) => {
            assert_eq!(stdout, None);
            assert_eq!(stderr.as_deref(), Some("oh"));
        }
        other => panic!("expected an error, got {other:?}"),
    }
    assert_eq!(
        answer("{}").unwrap_err().msg(),
        "QEMU guest agent status response missing 'return' field"
    );
    assert_eq!(answer("{").unwrap_err().kind(), "SerdeJson");
}

#[test]
fn states_follow_from_what_is_known() {
    assert!(matches!(conclude_state(None, None, None, None), AgentState::Missing));
    assert!(matches!(conclude_state(Some(false), Some(0), None, None), AgentState::Completed));
    assert!(matches!(
        conclude_state(None, Some(3), None, Some("e".to_string())),
        AgentState::Errored { exitcode: 3, stdout: None, stderr: Some(_) }
    ));
    assert_eq!(output_text(Some(b"abc".to_vec())).as_deref(), Some("abc"));
    assert_eq!(output_text(Some(vec![0xFF])), None);
    assert_eq!(output_text(None), None);
    let value: serde_json::Value =
        serde_json::from_str(r#"{"return":{"exited":false}}"#).unwrap();
    assert!(matches!(state_of(&value), Ok(AgentState::Running)));
}

#[test]
fn only_running_agents_have_a_heartbeat() {
    let mut state = launched(Some(4));
    let running = r#"{"return":{"exited":false}}"#.to_string();
    state.agent_state_at(StatusReply::Answered(running), at(9_000)).unwrap();
    assert_eq!(state.heartbeat, at(9_000));
    assert!(!state.timed_out_unresponsive_at(at(9_599)));
    assert!(state.timed_out_unresponsive_at(at(9_600)));
    let mut state = launched(Some(4));
    let exited = r#"{"return":{"exited":true}}"#.to_string();
    state.agent_state_at(StatusReply::Answered(exited), at(9_000)).unwrap();
    assert_eq!(state.heartbeat, at(1_000));
}

#[test]
fn agents_that_cannot_be_asked_are_missing_or_unknown() {
    let ask = |reply| launched(Some(4)).agent_state(reply);
    assert!(matches!(ask(StatusReply::Inactive), Ok(AgentState::Missing)));
    let gone = virt_error(VirtErrorKind::AgentCommandFailed, "PID 4 does NOT Exist");
    assert!(matches!(ask(StatusReply::CommandFailed(gone)), Ok(AgentState::Missing)));
    let other = virt_error(VirtErrorKind::AgentCommandFailed, "busy");
    assert_eq!(ask(StatusReply::CommandFailed(other)).unwrap_err().msg(), "busy");
    let other = virt_error(VirtErrorKind::Other, "does not exist");
    assert_eq!(ask(StatusReply::CommandFailed(other)).unwrap_err().kind(), "Virt");
    let other = virt_error(VirtErrorKind::NoDomain, "no domain");
    assert_eq!(ask(StatusReply::LookupFailed(other)).unwrap_err().msg(), "no domain");
    let other = virt_error(VirtErrorKind::Other, "busy");
    assert_eq!(ask(StatusReply::ActivityUnknown(other)).unwrap_err().msg(), "busy");
}

#[test]
fn launched_workers_time_out() {
    let state = launched(Some(4));
    assert!(!state.is_health_check_due_at(at(1_999)));
    assert!(state.is_health_check_due_at(at(2_000)));
    assert!(state.is_health_check_due());
    assert!(!state.timed_out_at(at(1_000 + 10_799)));
    assert!(state.timed_out_at(at(1_000 + 10_800)));
    assert!(state.timed_out());
    assert!(state.timed_out_unresponsive());
    let mut worker = KvmWorker { state };
    worker.schedule_next_health_check();
    assert!(!worker.is_health_check_due());
}

#[test]
fn time_ends_with_the_last_year_of_the_calendar() {
    let max = chrono::DateTime::<chrono::Utc>::MAX_UTC;
    assert_eq!(thorium_reactor::time::MAX_SECS, max.timestamp());
    assert_eq!(thorium_reactor::time::MAX_NANOS, max.timestamp_subsec_nanos());
    let last = at(max.timestamp() - 5);
    assert_eq!(last.add_secs(5), at(max.timestamp()));
    assert_eq!(
        last.add_secs(6),
        UtcTime { secs: max.timestamp(), nanos: max.timestamp_subsec_nanos() }
    );
    assert_eq!(at(-7).add_secs(10), at(3));
    assert!(UtcTime { secs: 1, nanos: 5 }.reached(UtcTime { secs: 1, nanos: 5 }));
    assert!(!UtcTime { secs: 1, nanos: 4 }.reached(UtcTime { secs: 1, nanos: 5 }));
    assert!(UtcTime { secs: 2, nanos: 0 }.reached(UtcTime { secs: 1, nanos: 5 }));
}

#[test]
fn states_begin_at_the_time_that_they_are_given() {
    let created = overlayed().mock_define().create_at(Ok(()), at(77)).unwrap();
    assert_eq!(created.created, at(77));
    assert!(!created.ready_to_launch_at(at(196)));
    assert!(created.ready_to_launch_at(at(197)));
    let error = overlayed().mock_define().create_at(Err("no".to_string()), at(77)).unwrap_err();
    assert_eq!((error.kind(), error.msg().as_str()), ("Virt", "no"));
    assert_eq!(Launched::next_health_check_at(at(100), 30), at(130));
    assert_eq!(Launched::next_health_check_at(at(100), 60), at(160));
    let mut state = launched(None);
    state.schedule_next_health_check_at(at(100));
    assert!((130..=160).contains(&state.next_check.secs));
    assert_eq!(state.launched, at(1_000));
    let known = presume_launched_at("w".to_string(), &kvm_args(), at(40));
    assert_eq!((known.state.launched, known.state.heartbeat), (at(40), at(40)));
    let defined = KvmWorker { state: overlayed().mock_define() };
    let created = defined.create_at(Ok(()), at(77)).unwrap();
    assert_eq!(created.launch_at(Ok(1), at(90)).unwrap().state.launched, at(90));
}
