//! The settings of a node: what it is called, what it runs and where its files are.

use vstd::prelude::*;

use crate::args::{node_name, Args, Kvm, KvmArgs, Launchers};
use crate::error::{Error, ErrorView};
use crate::models::{ImageScaler, WorkerDeleteMap};
use crate::reactor::Reactor;

verus! {

/// A node goes by the name it was given, and else by its hostname. A hostname that is no text is
/// an error.
pub proof fn law_nodes_have_a_name(
    name: Option<String>,
    hostname: Result<String, String>,
    r: Result<String, Error>,
)
    requires
        call_ensures(node_name, (&name, hostname), r),
    ensures
        name matches Some(given) ==> (r matches Ok(n) && n@ == given@),
        name is None ==> (hostname matches Ok(host) ==> (r matches Ok(n) && n@ == host@)),
        name is None ==> (hostname matches Err(shown) ==> (r matches Err(e) && e@
            == ErrorView::Thorium(
            "Error getting node's hostname: hostname is not valid UTF-8: '"@ + shown@ + "'"@,
        ))),
{
}

/// The kind of a launcher tells what kind of jobs it is for.
pub proof fn law_launchers_have_their_scaler(launchers: Launchers, scaler: ImageScaler)
    requires
        call_ensures(Launchers::scaler, (&launchers,), scaler),
    ensures
        scaler == ImageScaler::BareMetal <==> launchers is BareMetal,
        scaler == ImageScaler::Windows <==> launchers is Windows,
        scaler == ImageScaler::Kvm <==> launchers is Kvm,
{
}

/// Directories that were not given are those of their name in the base directory. All else is
/// taken as it was given.
pub proof fn law_directories_have_defaults(args: KvmArgs, kvm: Kvm)
    requires
        call_ensures(Kvm::from, (args,), kvm),
    ensures
        kvm.base_dir == args.base_dir,
        args.golden_dir matches Some(dir) ==> kvm.golden_dir@ == dir@,
        args.temp_dir matches Some(dir) ==> kvm.temp_dir@ == dir@,
        args.golden_dir is None && args.base_dir@.len() > 0 && args.base_dir@.last() != '/'
            ==> kvm.golden_dir@ == args.base_dir@ + "/golden"@,
        args.temp_dir is None && args.base_dir@.len() > 0 && args.base_dir@.last() != '/'
            ==> kvm.temp_dir@ == args.base_dir@ + "/tmp"@,
        kvm.socket == args.socket,
        kvm.virt_threads == args.virt_threads,
        kvm.os_detector_cache_size == args.os_detector_cache_size,
{
    reveal_strlit("/golden");
    reveal_strlit("/tmp");
    reveal_strlit("golden");
    reveal_strlit("tmp");
    assert(args.base_dir@ + seq!['/'] + "golden"@ =~= args.base_dir@ + "/golden"@);
    assert(args.base_dir@ + seq!['/'] + "tmp"@ =~= args.base_dir@ + "/tmp"@);
}

/// A reactor starts without workers, and is neither halted nor to shut down.
pub proof fn law_reactors_start_fresh(args: Args, r: Result<Reactor, Error>, name: Seq<char>)
    requires
        call_ensures(Reactor::new, (args,), r),
    ensures
        args.name is Some ==> r is Ok,
        r matches Ok(reactor) ==> {
            &&& !reactor.active@.dom().contains(name)
            &&& !reactor.halt_spawning
            &&& !reactor.shutdown
            &&& reactor.args == args
            &&& reactor.cluster@ == args.cluster@
            &&& args.name matches Some(given) ==> reactor.name@ == given@
        },
{
}

/// The path of the agent is that of its name in the directory of the agents.
pub proof fn law_the_agent_is_in_its_directory(reactor: Reactor, path: String)
    requires
        call_ensures(Reactor::agent_path, (&reactor,), path),
        reactor.args.agents_dir@.len() > 0,
        reactor.args.agents_dir@.last() != '/',
    ensures
        path@ == reactor.args.agents_dir@ + "/thorium-agent"@,
{
    reveal_strlit("/thorium-agent");
    reveal_strlit("thorium-agent");
    assert(reactor.args.agents_dir@ + seq!['/'] + "thorium-agent"@ =~= reactor.args.agents_dir@
        + "/thorium-agent"@);
}

/// An error shows what it was: the message, with what it is about before it where that needs
/// saying.
pub proof fn law_errors_show_their_message(error: Error, msg: String, kind: &str)
    requires
        call_ensures(Error::msg, (&error,), msg),
        call_ensures(Error::kind, (&error,), kind),
    ensures
        error matches Error::Generic(m) ==> msg@ == m@ && kind@ == "Generic"@,
        error matches Error::Thorium(m) ==> msg@ == m@ && kind@ == "Thorium"@,
        error matches Error::IO(m) ==> msg@ == m@ && kind@ == "IO"@,
        error matches Error::Semver(m) ==> msg@ == m@ && kind@ == "Semver"@,
        error matches Error::Rustix(m) ==> msg@ == m@ && kind@ == "Rustix"@,
        error matches Error::Virt(m) ==> msg@ == m@ && kind@ == "Virt"@,
        error matches Error::SerdeJson(m) ==> msg@ == "JSON serialization/deserialization error: "@
            + m@ && kind@ == "SerdeJson"@,
        error matches Error::OsDetect(m) ==> msg@ == "OS detection failed: "@ + m@ && kind@
            == "OsDetect"@,
{
}

/// An error with context shows the context, a colon and what the other error was.
pub proof fn law_contexts_come_first(msg: &str, err: &str, plain: Error, e: Error)
    requires
        call_ensures(Error::new, (msg,), plain),
        call_ensures(Error::with_context, (msg, err), e),
    ensures
        plain@ == ErrorView::Generic(msg@),
        e@ == ErrorView::Generic(msg@ + ": "@ + err@),
{
}

/// The workers to delete are those that were added.
pub proof fn law_added_workers_are_deleted(
    new: WorkerDeleteMap,
    map: &mut WorkerDeleteMap,
    worker: &str,
    name: Seq<char>,
)
    requires
        call_ensures(WorkerDeleteMap::new, (), new),
        call_ensures(WorkerDeleteMap::add_mut, (map, worker), ()),
    ensures
        !new.workers@.contains(name),
        final(map).workers@.contains(name) <==> old(map).workers@.contains(name) || name
            == worker@,
{
}

} // verus!
