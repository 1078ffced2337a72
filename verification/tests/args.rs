//! The arguments of the reactor, its errors and its flags.

use thorium_reactor::args::{node_name, Args, Kvm, KvmArgs, Launchers};
use thorium_reactor::error::Error;
use thorium_reactor::flags::{Confidence, Flag};
use thorium_reactor::models::ImageScaler;

fn kvm_args(golden_dir: Option<&str>, temp_dir: Option<&str>) -> KvmArgs {
    KvmArgs {
        base_dir: "/kvm".to_string(),
        golden_dir: golden_dir.map(str::to_string),
        temp_dir: temp_dir.map(str::to_string),
        socket: "qemu:///system".to_string(),
        virt_threads: 10,
        os_detector_cache_size: 1000,
    }
}

fn reactor_args(name: Option<&str>) -> Args {
    Args {
        keys: "keys.yml".to_string(),
        trace: "/opt/thorium/tracing.yml".to_string(),
        agents_dir: "/opt/thorium".to_string(),
        scaler: ImageScaler::Kvm,
        cluster: "corn".to_string(),
        name: name.map(str::to_string),
        dwell_time: 2,
        skip_update: false,
        skip_self_update: false,
        launchers: Launchers::BareMetal,
    }
}

#[test]
fn directories_default_to_the_base_directory() {
    let kvm = Kvm::from(kvm_args(None, None));
    assert_eq!(kvm.base_dir, "/kvm");
    assert_eq!(kvm.golden_dir, "/kvm/golden");
    assert_eq!(kvm.temp_dir, "/kvm/tmp");
    assert_eq!(kvm.socket, "qemu:///system");
    assert_eq!(kvm.virt_threads, 10);
    assert_eq!(kvm.os_detector_cache_size, 1000);
    let kvm = Kvm::from(kvm_args(Some("/golden"), Some("scratch")));
    assert_eq!(kvm.golden_dir, "/golden");
    assert_eq!(kvm.temp_dir, "scratch");
}

#[test]
fn launchers_have_scalers() {
    assert_eq!(Launchers::BareMetal.scaler(), ImageScaler::BareMetal);
    assert_eq!(Launchers::Windows.scaler(), ImageScaler::Windows);
    assert_eq!(Launchers::Kvm(kvm_args(None, None)).scaler(), ImageScaler::Kvm);
}

#[test]
fn nodes_go_by_their_given_name() {
    assert_eq!(reactor_args(Some("node-1")).node().unwrap(), "node-1");
    assert_eq!(
        node_name(&Some("given".to_string()), Err("x".to_string())).unwrap(),
        "given"
    );
}

#[test]
fn nodes_without_a_name_go_by_their_hostname() {
    let host = gethostname::gethostname().into_string().unwrap();
    assert_eq!(reactor_args(None).node().unwrap(), host);
    assert_eq!(node_name(&None, Ok("host".to_string())).unwrap(), "host");
    let error = node_name(&None, Err("b\u{fffd}d".to_string())).unwrap_err();
    assert_eq!(error.kind(), "Thorium");
    assert_eq!(
        error.msg(),
        "Error getting node's hostname: hostname is not valid UTF-8: 'b\u{fffd}d'"
    );
}

#[test]
fn errors_have_kinds_and_messages() {
    let text = || "x".to_string();
    let all = [
        (Error::new("x"), "Generic", "x"),
        (Error::Thorium(text()), "Thorium", "x"),
        (Error::IO(text()), "IO", "x"),
        (Error::Semver(text()), "Semver", "x"),
        (Error::Rustix(text()), "Rustix", "x"),
        (
            Error::SerdeJson(text()),
            "SerdeJson",
            "JSON serialization/deserialization error: x",
        ),
        (Error::Virt(text()), "Virt", "x"),
        (Error::OsDetect(text()), "OsDetect", "OS detection failed: x"),
    ];
    for (error, kind, msg) in &all {
        assert_eq!(error.kind(), *kind);
        assert_eq!(error.msg(), *msg);
    }
    let error = Error::with_context("Invalid LBA slice", "TryFromSliceError(())");
    assert_eq!(error.kind(), "Generic");
    assert_eq!(error.msg(), "Invalid LBA slice: TryFromSliceError(())");
}

#[test]
fn flags_hold_what_they_are_given() {
    let flag = Flag {
        suspicion: -3,
        confidence: Confidence::Likely,
        content: "packed".to_string(),
        reasoning: "entropy".to_string(),
    };
    let copy = flag.clone();
    assert_eq!(copy.suspicion, -3);
    assert!(matches!(copy.confidence, Confidence::Likely));
    assert_eq!(copy.content, "packed");
    assert_eq!(copy.reasoning, "entropy");
}
