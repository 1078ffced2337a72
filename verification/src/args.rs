//! The arguments to pass to the Thorium node reactor daemon.

use vstd::prelude::*;

use crate::error::{Error, ErrorView};
use crate::models::ImageScaler;
use crate::paths::{join, joined};
use crate::text::join3;

verus! {

/// Command line args
#[derive(Debug)]
pub struct Args {
    /// The path to the keys to use for this node daemon
    pub keys: String,
    /// The path to use for the tracing config for this deamon
    pub trace: String,
    /// The directory where the Thorium agents binaries are located in
    ///
    /// The agents for Linux and Windows should be named "thorium-agent" and
    /// "thorium-agent.exe", respectively.
    pub agents_dir: String,
    /// The scaler this reactor should spawn jobs for
    pub scaler: ImageScaler,
    /// The name of the cluster this node is in
    pub cluster: String,
    /// The name of this node
    pub name: Option<String>,
    /// The amount of time in seconds to wait between reactor loops
    pub dwell_time: u64,
    /// Skip the update check for the reactor and agents
    pub skip_update: bool,
    /// Skip the update check for just the reactor
    pub skip_self_update: bool,
    /// the different scaler types to spawn jobs for
    pub launchers: Launchers,
}

/// `gethostname::gethostname` and `OsString::into_string`: the name of the host, or what
/// can be shown of it where it is not valid UTF-8. Which name that is depends on the
/// machine, so nothing is said of it.
#[verifier::external_body]
fn hostname() -> (r: Result<String, String>) {
    gethostname::gethostname().into_string().map_err(|bad| bad.display().to_string())
}

/// The error for a hostname that is not valid UTF-8.
pub open spec fn bad_hostname(shown: Seq<char>) -> ErrorView {
    ErrorView::Thorium(
        "Error getting node's hostname: hostname is not valid UTF-8: '"@ + shown + "'"@,
    )
}

/// The name of a node: the one it was given, else its hostname.
///
/// * `name` - The name that the node was given
/// * `hostname` - The hostname, or what can be shown of it where it is not valid UTF-8
pub fn node_name(name: &Option<String>, hostname: Result<String, String>) -> (r: Result<
    String,
    Error,
>)
    ensures
        match (name, hostname) {
            (Some(given), _) => r matches Ok(n) && n@ == given@,
            (None, Ok(host)) => r matches Ok(n) && n@ == host@,
            (None, Err(shown)) => r matches Err(e) && e@ == bad_hostname(shown@),
        },
{
    match name {
        Some(given) => Ok(given.clone()),
        None => match hostname {
            Ok(host) => Ok(host),
            Err(shown) => Err(
                Error::Thorium(
                    join3(
                        "Error getting node's hostname: hostname is not valid UTF-8: '",
                        shown.as_str(),
                        "'",
                    ),
                ),
            ),
        },
    }
}

impl Args {
    /// Get this nodes hostname.
    pub fn node(&self) -> (r: Result<String, Error>)
        ensures
            self.name matches Some(given) ==> r matches Ok(n) && n@ == given@,
            r matches Err(e) ==> exists|shown: Seq<char>| e@ == #[trigger] bad_hostname(shown),
    {
        match &self.name {
            Some(given) => Ok(given.clone()),
            None => node_name(&None, hostname()),
        }
    }
}

/// The different scaler types to spawn jobs for
#[derive(Debug)]
pub enum Launchers {
    /// Spawn jobs the current bare metal node
    BareMetal,
    /// Spawn Windows containers on the current node
    Windows,
    /// Spawn KVM based vms on the current node
    Kvm(KvmArgs),
}

/// The scaler type of a launcher.
pub open spec fn scaler_of(launchers: Launchers) -> ImageScaler {
    match launchers {
        Launchers::BareMetal => ImageScaler::BareMetal,
        Launchers::Windows => ImageScaler::Windows,
        Launchers::Kvm(_) => ImageScaler::Kvm,
    }
}

impl Launchers {
    /// Get the scaler type for our launcher.
    pub fn scaler(&self) -> (r: ImageScaler)
        ensures
            r == scaler_of(*self),
    {
        match self {
            Launchers::BareMetal => ImageScaler::BareMetal,
            Launchers::Windows => ImageScaler::Windows,
            Launchers::Kvm(_) => ImageScaler::Kvm,
        }
    }
}

/// Spawn KVM based vms on the current node
#[derive(Debug)]
pub struct KvmArgs {
    /// Base directory for KVM storage
    pub base_dir: String,
    /// Base directory for VM's containing golden qcow2 disk files and XML definitions for VMs
    /// organized by group/image (e.g. `<GOLDEN_DIR>/<GROUP>/<IMAGE>/<IMAGE>.qcow2`)
    ///
    /// By default, the reactor will look in `<BASE_DIR>/golden`.
    pub golden_dir: Option<String>,
    /// Where to write temporary qcow2 files for running VM's
    ///
    /// By default, the files are written to `<BASE_DIR>/tmp/`.
    pub temp_dir: Option<String>,
    /// The socket to connect to our libvirt/kvm daemon at
    pub socket: String,
    /// The number of threads to allocate to the libvirt threadpool
    pub virt_threads: usize,
    /// The size of the cache for detecting the OS VM disk images
    pub os_detector_cache_size: usize,
}

/// The resolved KVM args with computed paths to avoid unwrapping options
/// over and over
#[derive(Debug)]
pub struct Kvm {
    /// Base directory for KVM storage
    pub base_dir: String,
    /// Base directory for VM's containing golden qcow2 disk files and XML definitions for VMs
    /// organized by group/image (e.g. `<GOLDEN_DIR>/<GROUP>/<IMAGE>/<IMAGE>.qcow2`)
    pub golden_dir: String,
    /// Where to write temporary qcow2 files for running VM's
    pub temp_dir: String,
    /// The socket to connect to our libvirt/kvm daemon at
    pub socket: String,
    /// The number of threads to allocate to the libvirt threadpool
    pub virt_threads: usize,
    /// The size of the cache for detecting the OS VM disk images
    pub os_detector_cache_size: usize,
}

/// A directory that was given, or the one of that name in the base directory.
pub open spec fn dir_or_default(
    given: Option<String>,
    base_dir: Seq<char>,
    name: Seq<char>,
) -> Seq<char> {
    match given {
        Some(dir) => dir@,
        None => joined(base_dir, name),
    }
}

impl Kvm {
    /// Resolve the KVM args, with the default directories in the place of missing ones.
    pub fn from(args: KvmArgs) -> (r: Kvm)
        ensures
            r.base_dir == args.base_dir,
            r.golden_dir@ == dir_or_default(args.golden_dir, args.base_dir@, "golden"@),
            r.temp_dir@ == dir_or_default(args.temp_dir, args.base_dir@, "tmp"@),
            r.socket == args.socket,
            r.virt_threads == args.virt_threads,
            r.os_detector_cache_size == args.os_detector_cache_size,
    {
        let golden_dir: String = match args.golden_dir {
            Some(dir) => dir,
            None => join(args.base_dir.as_str(), "golden"),
        };
        let temp_dir: String = match args.temp_dir {
            Some(dir) => dir,
            None => join(args.base_dir.as_str(), "tmp"),
        };
        Kvm {
            base_dir: args.base_dir,
            golden_dir,
            temp_dir,
            socket: args.socket,
            virt_threads: args.virt_threads,
            os_detector_cache_size: args.os_detector_cache_size,
        }
    }
}

} // verus!
