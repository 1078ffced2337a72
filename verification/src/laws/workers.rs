//! Workers in virtual machines do what their states do.

use vstd::prelude::*;

use crate::args::{Args, Kvm};
use crate::error::Error;
use crate::kvm_worker::{
    presume_launched,
    presume_launched_at,
    KvmWorker,
    LaunchError,
    RunningKvmWorker,
};
use crate::laws::text::{is_free_of, lemma_one_piece};
use crate::lists::turn_round;
use crate::models::{CommandOutput, Resources};
use crate::os_detector::GuestOs;
use crate::paths::{components, components_among};
use crate::reactor::last_word_of;
use crate::state::launched::{AgentState, StatusReply};
use crate::state::{Created, Defined, DestroyAction, Init, Launched, Overlayed};
use crate::text::{lemma_pieces_joined, pieces, texts, trimmed};
use crate::time::UtcTime;
use crate::xml::try_mem_units;

verus! {

/// A worker starts with its name alone.
pub proof fn law_workers_start_with_their_name(name: String, worker: KvmWorker<Init>)
    requires
        call_ensures(KvmWorker::<Init>::init, (name,), worker),
    ensures
        worker.state.worker == name,
{
}

/// A worker is overlayed as its state is.
pub proof fn law_workers_are_overlayed_as_their_state(
    worker: KvmWorker<Init>,
    args: Kvm,
    golden: &str,
    os: Option<GuestOs>,
    output: Result<CommandOutput, String>,
    r: Result<KvmWorker<Overlayed>, Error>,
    state: Result<Overlayed, Error>,
    mock: KvmWorker<Overlayed>,
)
    requires
        call_ensures(KvmWorker::<Init>::overlay, (worker, &args, golden, os, output), r),
        call_ensures(Init::overlay, (worker.state, &args, golden, os, output), state),
        call_ensures(KvmWorker::<Init>::mock_overlay, (worker, &args), mock),
    ensures
        r is Ok <==> state is Ok,
        r matches Ok(w) ==> w.state.worker == state->Ok_0.worker && w.state.guest_os
            == state->Ok_0.guest_os && w.state.overlay_path@ == state->Ok_0.overlay_path@,
        r matches Err(e) ==> e@ == state->Err_0@,
        mock.state.worker == worker.state.worker,
        mock.state.guest_os == GuestOs::Unknown,
        r matches Ok(w) ==> mock.state.overlay_path@ == w.state.overlay_path@,
{
}

/// A worker is defined and created as its state is.
pub proof fn law_workers_are_defined_and_created_as_their_state(
    overlayed: KvmWorker<Overlayed>,
    domain: Result<(), String>,
    defined: Result<KvmWorker<Defined>, Error>,
    state: Result<Defined, Error>,
    mock: KvmWorker<Defined>,
    worker: KvmWorker<Defined>,
    spawned: Result<(), String>,
    time: UtcTime,
    created: Result<KvmWorker<Created>, Error>,
    created_now: Result<KvmWorker<Created>, Error>,
    created_state: Result<Created, Error>,
)
    requires
        call_ensures(KvmWorker::<Overlayed>::define, (overlayed, domain), defined),
        call_ensures(Overlayed::define, (overlayed.state, domain), state),
        call_ensures(KvmWorker::<Overlayed>::mock_define, (overlayed,), mock),
        call_ensures(KvmWorker::<Defined>::create_at, (worker, spawned, time), created),
        call_ensures(KvmWorker::<Defined>::create, (worker, spawned), created_now),
        call_ensures(Defined::create_at, (worker.state, spawned, time), created_state),
    ensures
        defined is Ok <==> state is Ok,
        defined matches Ok(w) ==> w.state.worker == state->Ok_0.worker && w.state.domain_name@
            == state->Ok_0.domain_name@ && w.state.overlay_path == state->Ok_0.overlay_path
            && w.state.guest_os == state->Ok_0.guest_os,
        defined matches Err(e) ==> e@ == state->Err_0@,
        mock.state.domain_name@ == "thorium_"@ + overlayed.state.worker@,
        mock.state.worker == overlayed.state.worker,
        mock.state.overlay_path == overlayed.state.overlay_path,
        created is Ok <==> created_state is Ok,
        created matches Ok(w) ==> w.state == created_state->Ok_0,
        created matches Err(e) ==> e@ == created_state->Err_0@,
        created_now is Ok <==> spawned is Ok,
        created_now matches Ok(w) ==> {
            &&& w.state.worker == worker.state.worker
            &&& w.state.domain_name == worker.state.domain_name
            &&& w.state.overlay_path == worker.state.overlay_path
            &&& w.state.guest_os == worker.state.guest_os
            &&& w.state.launch_attempts == 0
            &&& w.state.last_launch_attempt is None
        },
{
}

/// A worker is launched as its state is. Where the launch fails, the worker is handed back with
/// the error and one attempt more.
pub proof fn law_workers_are_launched_as_their_state(
    worker: KvmWorker<Created>,
    outcome: Result<u64, Error>,
    time: UtcTime,
    r: Result<KvmWorker<Launched>, LaunchError>,
    now: Result<KvmWorker<Launched>, LaunchError>,
    state: Result<Launched, (Created, Error)>,
    over: bool,
    domain: &str,
    mock: KvmWorker<Launched>,
)
    requires
        worker.state.launch_attempts < u8::MAX,
        call_ensures(KvmWorker::<Created>::launch_at, (worker, outcome, time), r),
        call_ensures(KvmWorker::<Created>::launch, (worker, outcome), now),
        call_ensures(Created::launch_at, (worker.state, outcome, time), state),
        call_ensures(KvmWorker::<Created>::has_reached_max_attempts, (&worker,), over),
        call_ensures(KvmWorker::<Created>::domain_name, (&worker,), domain),
        call_ensures(KvmWorker::<Created>::mock_launch, (worker,), mock),
    ensures
        r is Ok <==> outcome is Ok,
        now is Ok <==> outcome is Ok,
        r matches Ok(w) ==> w.state.agent_pid == state->Ok_0.agent_pid && w.state.launched
            == state->Ok_0.launched && w.state.domain_name == state->Ok_0.domain_name,
        r matches Err(LaunchError(w, e)) ==> w.state == state->Err_0.0 && e == state->Err_0.1,
        now matches Ok(w) ==> w.state.agent_pid == Some(outcome->Ok_0) && w.state.worker
            == worker.state.worker && w.state.domain_name == worker.state.domain_name
            && w.state.overlay_path == worker.state.overlay_path && w.state.heartbeat
            == w.state.launched,
        now matches Err(LaunchError(w, e)) ==> {
            &&& e == outcome->Err_0
            &&& w.state.launch_attempts == worker.state.launch_attempts + 1
            &&& w.state.last_launch_attempt is Some
            &&& w.state.domain_name == worker.state.domain_name
            &&& w.state.created == worker.state.created
        },
        over <==> worker.state.launch_attempts >= 10,
        domain@ == worker.state.domain_name@,
        mock.state.agent_pid is None,
        mock.state.worker == worker.state.worker && mock.state.domain_name
            == worker.state.domain_name && mock.state.overlay_path == worker.state.overlay_path,
{
}

/// The agent of a worker is what its state says.
pub proof fn law_agents_of_workers_are_what_their_state_says(
    worker: &mut KvmWorker<Launched>,
    state: &mut Launched,
    timed: &mut Launched,
    reply: StatusReply,
    time: UtcTime,
    r: Result<AgentState, Error>,
    s: Result<AgentState, Error>,
    t: Result<AgentState, Error>,
)
    requires
        worker.state == *state,
        *timed == *state,
        call_ensures(KvmWorker::<Launched>::agent_state, (worker, reply), r),
        call_ensures(Launched::agent_state, (state, reply), s),
        call_ensures(Launched::agent_state_at, (timed, reply, time), t),
    ensures
        r is Ok <==> s is Ok,
        s is Ok <==> t is Ok,
        r matches Ok(a) ==> a@ == s->Ok_0@ && a@ == t->Ok_0@,
        r matches Err(e) ==> e@ == s->Err_0@ && e@ == t->Err_0@,
        !(r matches Ok(a) && a is Running) ==> final(worker).state == old(worker).state,
        !(s matches Ok(a) && a is Running) ==> *final(state) == *old(state),
        final(state).agent_pid == old(state).agent_pid,
        final(state).launched == old(state).launched,
        final(state).next_check == old(state).next_check,
        final(state).domain_name == old(state).domain_name,
        final(state).overlay_path == old(state).overlay_path,
        final(worker).state.agent_pid == old(worker).state.agent_pid,
        final(worker).state.launched == old(worker).state.launched,
        final(worker).state.next_check == old(worker).state.next_check,
{
    if r is Ok && r->Ok_0 is Running {
        assert(r->Ok_0@ is Running);
    }
}

/// A worker that is known by name alone is taken for one that was launched: its domain and its
/// overlay are where they belong, and its agent is not known.
pub proof fn law_workers_known_by_name_are_presumed_launched(
    name: String,
    args: Kvm,
    time: UtcTime,
    at: KvmWorker<Launched>,
    now: KvmWorker<Launched>,
    init: Init,
    path: String,
)
    requires
        call_ensures(presume_launched_at, (name, &args, time), at),
        call_ensures(presume_launched, (name, &args), now),
        init.worker@ == name@,
        call_ensures(Init::overlay_path, (&init, &args), path),
    ensures
        at.state.worker@ == name@ && now.state.worker@ == name@,
        at.state.domain_name@ == "thorium_"@ + name@ && now.state.domain_name@ == "thorium_"@
            + name@,
        at.state.overlay_path@ == path@ && now.state.overlay_path@ == path@,
        at.state.guest_os == GuestOs::Unknown && now.state.guest_os == GuestOs::Unknown,
        at.state.agent_pid is None && now.state.agent_pid is None,
        at.state.launched == time && at.state.heartbeat == time,
        now.state.heartbeat == now.state.launched,
{
}

/// A running worker is destroyed with its domain and its overlay, in this order.
pub proof fn law_running_workers_are_destroyed(worker: RunningKvmWorker, r: Vec<DestroyAction>)
    requires
        call_ensures(RunningKvmWorker::destroy, (worker,), r),
    ensures
        worker matches RunningKvmWorker::Created(w) ==> r@ == seq![
            DestroyAction::UndefineDomain(w.state.domain_name),
            DestroyAction::DeleteOverlay(w.state.overlay_path),
        ],
        worker matches RunningKvmWorker::Launched(w) ==> r@ == seq![
            DestroyAction::UndefineDomain(w.state.domain_name),
            DestroyAction::DeleteOverlay(w.state.overlay_path),
        ],
{
}

/// The definition of a domain is tried where the memory can be written in 64 bits, and is the same
/// then.
pub proof fn law_definitions_that_fit_are_made(
    overlayed: Overlayed,
    resources: Resources,
    golden: &str,
    xml: Result<&str, &str>,
    r: Option<Result<String, Error>>,
    made: Result<String, Error>,
    tried: Option<Option<u64>>,
)
    requires
        xml matches Ok(text) ==> call_ensures(try_mem_units, (text, resources.memory), tried),
        call_ensures(Overlayed::try_domain_xml, (&overlayed, &resources, golden, xml), r),
        call_ensures(Overlayed::domain_xml, (&overlayed, &resources, golden, xml), made),
    ensures
        xml is Err ==> r is Some,
        xml is Ok ==> (r is Some <==> tried is Some && 1024 * resources.memory <= u64::MAX),
        resources.memory < 17_592_186_044_416 ==> r is Some,
        r matches Some(outcome) ==> {
            &&& outcome is Ok <==> made is Ok
            &&& outcome matches Ok(text) ==> text@ == made->Ok_0@
            &&& outcome matches Err(e) ==> e@ == made->Err_0@
        },
{
}

/// A node that was given a name goes by it.
pub proof fn law_given_names_are_kept(args: Args, r: Result<String, Error>)
    requires
        call_ensures(Args::node, (&args,), r),
    ensures
        args.name matches Some(given) ==> (r matches Ok(name) && name@ == given@),
{
}

/// The last word is what stands behind the last space.
pub proof fn law_the_last_word_ends_the_text(
    output: &str,
    before: Seq<char>,
    word: Seq<char>,
    r: String,
)
    requires
        call_ensures(last_word_of, (output,), r),
        is_free_of(word, ' '),
        trimmed(output@) == before.push(' ') + word || trimmed(output@) == word,
    ensures
        r@ == word,
{
    lemma_one_piece(word, ' ');
    lemma_pieces_joined(before, word, ' ');
}

/// A list that is turned round has the same items, the last one first.
pub proof fn law_lists_are_turned_round<T>(list: Vec<T>, r: Vec<T>, i: int)
    requires
        call_ensures(turn_round::<T>, (list,), r),
        0 <= i < list@.len(),
    ensures
        r@.len() == list@.len(),
        r@[i] == list@[list@.len() - 1 - i],
        r@[list@.len() - 1 - i] == list@[i],
{
}

/// The components of a path are the names in it: none is empty or holds a separator.
pub proof fn law_components_are_names(path: &str, r: Vec<String>, i: int)
    requires
        call_ensures(components, (path,), r),
        0 <= i < r@.len(),
    ensures
        r@[i]@.len() > 0,
        pieces(path@, '/').contains(r@[i]@),
        i > 0 ==> r@[i]@ != seq!['.'],
{
    let p = pieces(path@, '/');
    let t = texts(r@);
    assert(t.len() == r@.len());
    assert(t[i] == r@[i]@);
    lemma_components(p, p.len(), i);
}

/// The components are some of the pieces: none is empty, and only the first can be a dot.
proof fn lemma_components(p: Seq<Seq<char>>, n: nat, i: int)
    requires
        n <= p.len(),
        0 <= i < components_among(p, n).len(),
    ensures
        components_among(p, n)[i].len() > 0,
        p.contains(components_among(p, n)[i]),
        i > 0 ==> components_among(p, n)[i] != seq!['.'],
    decreases n,
{
    if n > 0 {
        let before = components_among(p, (n - 1) as nat);
        if i < before.len() {
            lemma_components(p, (n - 1) as nat, i);
        } else {
            assert(components_among(p, n)[i] == p[n - 1]);
            if n == 1 {
                assert(before.len() == 0);
            }
        }
    }
}

} // verus!
