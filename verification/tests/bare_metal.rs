//! The bare metal launcher.

use thorium_reactor::bare_metal::{
    agent_args, cleanup_command, inject_arg, isolate, kill_targets, purge_target, purge_targets,
    ActiveWorker, BareMetal, ChildStatus,
};
use thorium_reactor::models::{
    ArgStrategy, Cleanup, Dependencies, Image, Node, OutputCollection, Resources, Worker,
    WorkerStatus,
};
use thorium_reactor::names::{NameMap, NameSet};

fn worker(name: &str, status: WorkerStatus) -> Worker {
    Worker {
        cluster: "c".to_string(),
        node: "n".to_string(),
        group: "g".to_string(),
        pipeline: "p".to_string(),
        stage: "s".to_string(),
        name: name.to_string(),
        user: "u".to_string(),
        resources: Resources {
            cpu: 0,
            memory: 0,
            ephemeral_storage: 0,
            worker_slots: 0,
            nvidia_gpu: 0,
            amd_gpu: 0,
        },
        status,
        active_job: None,
    }
}

fn map(workers: &[(&str, WorkerStatus)]) -> NameMap<Worker> {
    let mut out = NameMap::new();
    for (name, status) in workers {
        out.insert(name.to_string(), worker(name, *status));
    }
    out
}

fn set(names: &[&str]) -> NameSet {
    let mut out = NameSet::new();
    for name in names {
        out.insert(name);
    }
    out
}

fn image(results: &str) -> Image {
    Image {
        group: "g".to_string(),
        name: "i".to_string(),
        clean_up: None,
        dependencies: Dependencies {
            samples: "/tmp/thorium/samples".to_string(),
            ephemeral: "/tmp/thorium".to_string(),
            repos: "/data/repos".to_string(),
            results: "/tmp/thorium/prior-results".to_string(),
        },
        output_collection: OutputCollection {
            results: results.to_string(),
            result_files: "/tmp/thorium/result-files".to_string(),
            tags: "/tmp/thorium/tags".to_string(),
            children: "/tmp/thorium/children".to_string(),
        },
    }
}

#[test]
fn arguments_are_injected_as_configured() {
    let mut args = vec!["script".to_string()];
    inject_arg(&mut args, "1".to_string(), ArgStrategy::Skip);
    assert_eq!(args, vec!["script"]);
    inject_arg(&mut args, "2".to_string(), ArgStrategy::Append);
    assert_eq!(args, vec!["script", "2"]);
    inject_arg(&mut args, "3".to_string(), ArgStrategy::Kwarg("--id".to_string()));
    assert_eq!(args, vec!["script", "2", "--id", "3"]);
}

#[test]
fn paths_are_isolated_by_job() {
    assert_eq!(isolate("/tmp/thorium", "id").unwrap(), "/tmp/thorium/id");
    assert_eq!(isolate("/tmp/thorium/", "id").unwrap(), "/tmp/thorium/id");
    assert_eq!(isolate("/tmp/thorium/results", "id").unwrap(), "/tmp/thorium/id/results");
    assert_eq!(isolate("/data/a/b/", "id").unwrap(), "/data/a/id/b");
    assert_eq!(isolate("results", "id").unwrap(), "id/results");
    assert_eq!(isolate("/", "id").unwrap_err().msg(), "/ cannot be isolated by job");
    assert_eq!(isolate("/a/..", "id").unwrap_err().msg(), "/a/.. cannot be isolated by job");
    assert_eq!(isolate("", "id").unwrap_err().msg(), " cannot be isolated by job");
}

#[test]
fn purging_stays_in_the_directory_of_the_job() {
    for (path, dir) in [
        ("/tmp/thorium", "/tmp/thorium/id"),
        ("/tmp/./thorium//", "/tmp/./thorium//id"),
        ("/tmp/thorium/results", "/tmp/thorium/id"),
        ("/data/a/b", "/data/a/id"),
        ("/x", "/id"),
        ("results", "id"),
        ("./results", "./id"),
    ] {
        assert_eq!(purge_target(&isolate(path, "id").unwrap()), dir, "{path}");
    }
}

#[test]
fn everything_of_a_job_is_purged() {
    assert_eq!(
        purge_targets(&image("/tmp/thorium/results"), "j1").unwrap(),
        vec![
            "/tmp/thorium/j1",
            "/tmp/thorium/j1",
            "/data/j1",
            "/tmp/thorium/j1",
            "/tmp/thorium/j1",
            "/tmp/thorium/j1",
            "/tmp/thorium/j1",
            "/tmp/thorium/j1"
        ]
    );
    assert_eq!(
        purge_targets(&image("/"), "j1").unwrap_err().msg(),
        "/ cannot be isolated by job"
    );
}

#[test]
fn scripts_get_the_paths_of_the_job() {
    let clean_up = Cleanup {
        script: "/clean.sh".to_string(),
        job_id: ArgStrategy::Append,
        results: ArgStrategy::Kwarg("--results".to_string()),
        result_files_dir: ArgStrategy::Skip,
    };
    assert_eq!(
        cleanup_command(&clean_up, &image("/tmp/thorium/results"), "j1").unwrap(),
        vec!["/clean.sh", "j1", "--results", "/tmp/thorium/j1/results"]
    );
    let error = cleanup_command(&clean_up, &image(".."), "j1").unwrap_err();
    assert_eq!(error.msg(), ".. cannot be isolated by job");
    // with a script nothing is done where its paths cannot be isolated
    let mut configured = image("/tmp/thorium/results");
    configured.clean_up = Some(clean_up);
    let plan = BareMetal::cleanup(&configured, "j1").unwrap();
    assert_eq!(plan.script.unwrap()[3], "/tmp/thorium/j1/results");
    assert_eq!(plan.purges.unwrap()[2], "/data/j1");
    configured.dependencies.repos = "/".to_string();
    let plan = BareMetal::cleanup(&configured, "j1").unwrap();
    assert!(plan.script.is_some());
    assert_eq!(plan.purges.unwrap_err().msg(), "/ cannot be isolated by job");
    configured.output_collection.result_files = "/..".to_string();
    let error = BareMetal::cleanup(&configured, "j1").unwrap_err();
    assert_eq!(error.msg(), "/.. cannot be isolated by job");
    // without one there is nothing to run
    let plan = BareMetal::cleanup(&image("/"), "j1").unwrap();
    assert!(plan.script.is_none());
    assert!(plan.purges.is_err());
}

#[test]
fn bare_metal_agents_get_their_arguments() {
    assert_eq!(
        agent_args(&worker("w", WorkerStatus::Running), "/keys.yml"),
        vec![
            "--cluster", "c", "--group", "g", "--pipeline", "p", "--stage", "s", "--name", "w",
            "--keys", "/keys.yml", "bare-metal"
        ]
    );
}

#[test]
fn workers_live_by_their_process_or_their_group() {
    let alive = |child, has_procs| ActiveWorker { child, has_procs }.alive();
    assert!(!alive(Some(ChildStatus::Exited), true));
    assert!(alive(Some(ChildStatus::Running), false));
    assert!(alive(Some(ChildStatus::Unknown), false));
    assert!(alive(None, true));
    assert!(!alive(None, false));
}

#[test]
fn only_processes_with_an_id_are_killed() {
    assert_eq!(kill_targets(&vec![4, 0, i32::MAX as u64]), vec![4, i32::MAX]);
    assert_eq!(kill_targets(&Vec::new()), Vec::<i32>::new());
}

#[test]
fn workers_with_processes_are_recovered() {
    let mut launcher = BareMetal::new("c".to_string(), "n".to_string());
    launcher.resolve_launches(&vec!["known".to_string()]);
    let mut info = Node {
        workers: map(&[
            ("known", WorkerStatus::Running),
            ("lost", WorkerStatus::Running),
            ("dead", WorkerStatus::Running),
        ]),
    };
    let mut active = map(&[("other", WorkerStatus::Running)]);
    // nothing is recovered: nothing changes
    let recovered =
        launcher.recover_workers(&mut info, &mut active, &set(&["known", "alien"]));
    assert!(recovered.is_empty());
    assert_eq!(info.workers.len(), 3);
    assert_eq!(active.keys(), vec!["other"]);
    // a worker is recovered: the reactor knows of all of ours
    let recovered =
        launcher.recover_workers(&mut info, &mut active, &set(&["known", "lost", "alien"]));
    assert_eq!(recovered, vec!["lost"]);
    assert_eq!(launcher.active.names(), vec!["known", "lost"]);
    assert_eq!(active.keys(), vec!["other", "known", "lost"]);
    assert_eq!(active.get("lost").unwrap().name, "lost");
    assert_eq!(info.workers.keys(), vec!["dead"]);
    assert_eq!((launcher.cluster.as_str(), launcher.node.as_str()), ("c", "n"));
}

#[test]
fn dead_workers_are_deleted() {
    let mut launcher = BareMetal::new("c".to_string(), "n".to_string());
    launcher.resolve_launches(&vec!["a".to_string(), "b".to_string(), "d".to_string()]);
    let info = Node {
        workers: map(&[
            ("a", WorkerStatus::Running),
            ("stray", WorkerStatus::Running),
            ("new", WorkerStatus::Spawning),
        ]),
    };
    let mut active = map(&[("a", WorkerStatus::Running), ("b", WorkerStatus::Running)]);
    let deletes = launcher.check_helper(&info, &mut active, &set(&["b", "d", "alien"]));
    let mut names = deletes.workers.names();
    names.sort();
    assert_eq!(names, vec!["b", "stray"]);
    assert_eq!(launcher.active.names(), vec!["a"]);
    assert_eq!(active.keys(), vec!["a"]);
}

#[test]
fn killed_workers_are_not_active() {
    let mut launcher = BareMetal::new("c".to_string(), "n".to_string());
    launcher.resolve_launches(&vec!["a".to_string(), "b".to_string(), "a".to_string()]);
    assert_eq!(launcher.active.len(), 2);
    assert!(launcher.kill("a"));
    assert!(!launcher.kill("a"));
    assert_eq!(launcher.active.names(), vec!["b"]);
}
