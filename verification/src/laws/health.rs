//! The states of a worker in a virtual machine: when it is launched, checked and given up, and
//! what its agent is taken to be doing.

use vstd::prelude::*;
use vstd::utf8::{decode_utf8, valid_utf8};

use crate::encoding::base64_bytes;
use crate::error::{Error, ErrorView};
use crate::json::{json_parsed, json_rendered, JsonView, NumberView};
use crate::os_detector::GuestOs;
use crate::state::launched::{
    conclude_state,
    AgentState,
    StatusQuery,
    StatusReply,
};
use crate::state::{
    planned_check,
    Created,
    Defined,
    DestroyAction,
    Init,
    KvmWorkerState,
    Launched,
    Overlayed,
};
use crate::text::{ascii_lowered, contains_text, maybe_text};
use crate::time::UtcTime;

verus! {

/// A point in time, in nanoseconds since the start of 1970.
pub open spec fn nanos_of(time: UtcTime) -> int {
    1_000_000_000 * time.secs + time.nanos
}

/// Whether a point in time is one: its nanoseconds make up less than a second.
pub open spec fn is_time(time: UtcTime) -> bool {
    time.nanos <= 999_999_999
}

/// Waiting moves the time on by the seconds that were waited, until time ends.
pub proof fn law_waits_move_the_time_on(time: UtcTime, wait: u64, later: UtcTime)
    requires
        call_ensures(UtcTime::add_secs, (time, wait), later),
    ensures
        time.secs + wait <= 8_210_266_876_799 ==> nanos_of(later) == nanos_of(time)
            + 1_000_000_000 * wait && later.nanos == time.nanos,
        time.secs + wait > 8_210_266_876_799 ==> later.secs == 8_210_266_876_799 && later.nanos
            == 999_999_999,
{
}

/// A time is reached where it is not ahead.
pub proof fn law_times_are_reached_in_order(a: UtcTime, b: UtcTime, reached: bool)
    requires
        is_time(a),
        is_time(b),
        call_ensures(UtcTime::reached, (a, b), reached),
    ensures
        reached <==> nanos_of(a) >= nanos_of(b),
{
}

/// A domain is launched two minutes after its creation at the earliest, and one minute after the
/// last attempt.
pub proof fn law_domains_have_time_to_boot(created: Created, time: UtcTime, ready: bool)
    requires
        call_ensures(Created::ready_to_launch_at, (&created, time), ready),
        is_time(time),
        is_time(created.created),
        created.created.secs + 120 <= 8_210_266_876_799,
        created.last_launch_attempt matches Some(last) ==> is_time(last) && last.secs + 60
            <= 8_210_266_876_799,
    ensures
        created.last_launch_attempt is None ==> (ready <==> nanos_of(time) >= nanos_of(
            created.created,
        ) + 120_000_000_000),
        created.last_launch_attempt matches Some(last) ==> (ready <==> nanos_of(time) >= nanos_of(
            last,
        ) + 60_000_000_000),
{
}

/// A launch is tried ten times.
pub proof fn law_launches_are_tried_ten_times(created: Created, over: bool)
    requires
        call_ensures(Created::has_reached_max_attempts, (&created,), over),
    ensures
        over <==> created.launch_attempts >= 10,
{
}

/// A launch that failed counts as an attempt at its time, and changes nothing else. The error is
/// handed on. One that succeeded keeps the worker, its domain and its overlay, and takes the
/// agent for alive from that time on.
pub proof fn law_attempts_are_counted(
    created: Created,
    outcome: Result<u64, Error>,
    time: UtcTime,
    r: Result<Launched, (Created, Error)>,
)
    requires
        created.launch_attempts < u8::MAX,
        call_ensures(Created::launch_at, (created, outcome, time), r),
    ensures
        outcome matches Err(error) ==> (r matches Err((after, e)) && {
            &&& e == error
            &&& after.launch_attempts == created.launch_attempts + 1
            &&& after.last_launch_attempt == Some(time)
            &&& after.created == created.created
            &&& after.worker == created.worker
            &&& after.guest_os == created.guest_os
            &&& after.overlay_path == created.overlay_path
            &&& after.domain_name == created.domain_name
        }),
        outcome matches Ok(pid) ==> (r matches Ok(after) && {
            &&& after.agent_pid == Some(pid)
            &&& after.launched == time
            &&& after.heartbeat == time
            &&& after.worker == created.worker
            &&& after.guest_os == created.guest_os
            &&& after.overlay_path == created.overlay_path
            &&& after.domain_name == created.domain_name
        }),
{
}

/// A health check comes half a minute to a minute after the last one.
pub proof fn law_checks_come_within_a_minute(
    time: UtcTime,
    secs: u64,
    next: UtcTime,
    launched: &mut Launched,
    due: bool,
    at: UtcTime,
)
    requires
        is_time(time),
        is_time(at),
        time.secs + 60 <= 8_210_266_876_799,
        30 <= secs <= 60,
        call_ensures(Launched::next_health_check_at, (time, secs), next),
        is_time(launched.next_check),
        call_ensures(Launched::is_health_check_due_at, (&*launched, at), due),
        call_ensures(Launched::schedule_next_health_check_at, (launched, time), ()),
    ensures
        nanos_of(next) == nanos_of(time) + 1_000_000_000 * secs,
        nanos_of(time) + 30_000_000_000 <= nanos_of(final(launched).next_check) <= nanos_of(time)
            + 60_000_000_000,
        due <==> nanos_of(at) >= nanos_of(old(launched).next_check),
        final(launched).worker == old(launched).worker,
        final(launched).agent_pid == old(launched).agent_pid,
        final(launched).heartbeat == old(launched).heartbeat,
        final(launched).launched == old(launched).launched,
        final(launched).domain_name == old(launched).domain_name,
        final(launched).overlay_path == old(launched).overlay_path,
{
}

/// The first health check of a worker that was launched comes half a minute to a minute later.
pub proof fn law_the_first_check_comes_within_a_minute(
    created: Created,
    pid: Option<u64>,
    time: UtcTime,
    launched: Launched,
)
    requires
        time.secs + 60 <= 8_210_266_876_799,
        call_ensures(Created::next_state_at, (created, pid, time), launched),
    ensures
        nanos_of(time) + 30_000_000_000 <= nanos_of(launched.next_check) <= nanos_of(time)
            + 60_000_000_000,
        launched.agent_pid == pid,
        launched.launched == time && launched.heartbeat == time,
        launched.worker == created.worker && launched.guest_os == created.guest_os,
        launched.overlay_path == created.overlay_path && launched.domain_name
            == created.domain_name,
{
}

/// A domain lives for three hours at most, and for ten minutes without a sign of its agent.
pub proof fn law_domains_are_given_up_in_time(
    launched: Launched,
    time: UtcTime,
    over: bool,
    silent: bool,
)
    requires
        is_time(time),
        is_time(launched.launched),
        is_time(launched.heartbeat),
        launched.launched.secs + 10_800 <= 8_210_266_876_799,
        launched.heartbeat.secs + 600 <= 8_210_266_876_799,
        call_ensures(Launched::timed_out_at, (&launched, time), over),
        call_ensures(Launched::timed_out_unresponsive_at, (&launched, time), silent),
    ensures
        over <==> nanos_of(time) >= nanos_of(launched.launched) + 10_800_000_000_000,
        silent <==> nanos_of(time) >= nanos_of(launched.heartbeat) + 600_000_000_000,
{
}

/// The guest agent of the worker's own domain is asked for the worker's own process. There is
/// nothing to ask where that is not known.
pub proof fn law_agents_are_asked_for_by_their_pid(launched: Launched, query: Option<StatusQuery>)
    requires
        call_ensures(Launched::status_query, (&launched,), query),
    ensures
        query is None <==> launched.agent_pid is None,
        launched.agent_pid matches Some(pid) ==> (query matches Some(asked) && asked.domain_name@
            == launched.domain_name@ && asked.command@ == json_rendered(
            JsonView::Object(
                map![
                    "execute"@ => JsonView::Text("guest-exec-status"@),
                    "arguments"@ => JsonView::Object(map![
                        "pid"@ => JsonView::Number(NumberView::Positive(pid as nat)),
                    ]),
                ],
            ),
        )),
{
}

/// An exit code tells how an agent ended, and zero alone is success. Without one, only whether it
/// is over is known.
pub proof fn law_exit_codes_tell_how_agents_ended(
    exited: Option<bool>,
    exitcode: Option<i64>,
    stdout: Option<String>,
    stderr: Option<String>,
    state: AgentState,
)
    requires
        call_ensures(conclude_state, (exited, exitcode, stdout, stderr), state),
    ensures
        state is Completed <==> exitcode == Some(0i64),
        state is Errored <==> exitcode is Some && exitcode != Some(0i64),
        state matches AgentState::Errored { exitcode: code, stdout: out, stderr: err } ==> {
            &&& exitcode == Some(code)
            &&& maybe_text(out) == maybe_text(stdout)
            &&& maybe_text(err) == maybe_text(stderr)
        },
        state is Exited <==> exitcode is None && exited == Some(true),
        state is Running <==> exitcode is None && exited == Some(false),
        state is Missing <==> exitcode is None && exited is None,
{
}

/// The answer of the guest agent is read by the names that it gives: whether the process has
/// exited, its exit code, and what it wrote to its standard output and its standard error.
pub proof fn law_answers_are_read_by_their_names(
    launched: &mut Launched,
    answer: String,
    time: UtcTime,
    entries: Map<Seq<char>, JsonView>,
    returned: Map<Seq<char>, JsonView>,
    n: nat,
    r: Result<AgentState, Error>,
)
    requires
        launched.agent_pid is Some,
        json_parsed(answer@) == Ok::<JsonView, Seq<char>>(JsonView::Object(entries)),
        entries.contains_pair("return"@, JsonView::Object(returned)),
        call_ensures(Launched::agent_state_at, (launched, StatusReply::Answered(answer), time), r),
    ensures
        r is Ok,
        returned.contains_pair("exitcode"@, JsonView::Number(NumberView::Positive(0)))
            ==> r->Ok_0 is Completed,
        0 < n <= i64::MAX && returned.contains_pair(
            "exitcode"@,
            JsonView::Number(NumberView::Positive(n)),
        ) ==> (r->Ok_0 matches AgentState::Errored { exitcode, .. } && exitcode == n),
        !returned.dom().contains("exitcode"@) && returned.contains_pair(
            "exited"@,
            JsonView::Bool(true),
        ) ==> r->Ok_0 is Exited,
        !returned.dom().contains("exitcode"@) && returned.contains_pair(
            "exited"@,
            JsonView::Bool(false),
        ) ==> r->Ok_0 is Running,
        !returned.dom().contains("exitcode"@) && !returned.dom().contains("exited"@)
            ==> r->Ok_0 is Missing,
{
}

/// What an agent that failed wrote is decoded from base64, its standard output and its standard
/// error each from their own entry.
pub proof fn law_the_output_of_failed_agents_is_kept(
    launched: &mut Launched,
    answer: String,
    time: UtcTime,
    entries: Map<Seq<char>, JsonView>,
    returned: Map<Seq<char>, JsonView>,
    out: Seq<char>,
    err: Seq<char>,
    r: Result<AgentState, Error>,
)
    requires
        launched.agent_pid is Some,
        json_parsed(answer@) == Ok::<JsonView, Seq<char>>(JsonView::Object(entries)),
        entries.contains_pair("return"@, JsonView::Object(returned)),
        call_ensures(Launched::agent_state_at, (launched, StatusReply::Answered(answer), time), r),
        r matches Ok(state) && state is Errored,
    ensures
        r->Ok_0 matches AgentState::Errored { stdout, stderr, .. } && {
            &&& returned.contains_pair("out-data"@, JsonView::Text(out)) ==> (base64_bytes(
                out,
            ) matches Some(bytes) ==> maybe_text(stdout) == (if valid_utf8(bytes) {
                Some(decode_utf8(bytes))
            } else {
                None
            }))
            &&& returned.contains_pair("err-data"@, JsonView::Text(err)) ==> (base64_bytes(
                err,
            ) matches Some(bytes) ==> maybe_text(stderr) == (if valid_utf8(bytes) {
                Some(decode_utf8(bytes))
            } else {
                None
            }))
            &&& !returned.dom().contains("out-data"@) ==> stdout is None
            &&& !returned.dom().contains("err-data"@) ==> stderr is None
        },
{
}

/// An agent that nothing can be found out about is missing: one without a PID, one in a domain
/// that is not active, and one whose process does not exist. Any other failure is an error.
pub proof fn law_lost_agents_are_missing(
    launched: &mut Launched,
    reply: StatusReply,
    time: UtcTime,
    r: Result<AgentState, Error>,
)
    requires
        call_ensures(Launched::agent_state_at, (launched, reply, time), r),
    ensures
        old(launched).agent_pid is None ==> (r matches Ok(state) && state is Missing),
        reply is Inactive ==> (r matches Ok(state) && state is Missing),
        old(launched).agent_pid is Some ==> (reply matches StatusReply::CommandFailed(error)
            ==> if error.kind is AgentCommandFailed && contains_text(
            ascii_lowered(error.message@),
            "not exist"@,
        ) {
            r matches Ok(state) && state is Missing
        } else {
            r matches Err(e) && e@ == ErrorView::Virt(error.message@)
        }),
        old(launched).agent_pid is Some ==> (reply matches StatusReply::LookupFailed(error) ==> (
        r matches Err(e) && e@ == ErrorView::Virt(error.message@))),
        old(launched).agent_pid is Some ==> (reply matches StatusReply::ActivityUnknown(error)
            ==> (r matches Err(e) && e@ == ErrorView::Virt(error.message@))),
        old(launched).agent_pid is Some ==> (reply matches StatusReply::Answered(answer) ==> (
        json_parsed(answer@) matches Err(message) ==> (r matches Err(e) && e@
            == ErrorView::SerdeJson(message)))),
{
}

/// An answer without a result is an error.
pub proof fn law_answers_need_a_result(
    launched: &mut Launched,
    answer: String,
    time: UtcTime,
    entries: Map<Seq<char>, JsonView>,
    r: Result<AgentState, Error>,
)
    requires
        launched.agent_pid is Some,
        json_parsed(answer@) == Ok::<JsonView, Seq<char>>(JsonView::Object(entries)),
        !entries.dom().contains("return"@),
        call_ensures(Launched::agent_state_at, (launched, StatusReply::Answered(answer), time), r),
    ensures
        r matches Err(e) && e@ == ErrorView::Generic(
            "QEMU guest agent status response missing 'return' field"@,
        ),
{
}

/// The heartbeat is the last time at which the agent was seen running. Nothing else changes.
pub proof fn law_only_running_agents_have_a_heartbeat(
    launched: &mut Launched,
    reply: StatusReply,
    time: UtcTime,
    r: Result<AgentState, Error>,
)
    requires
        call_ensures(Launched::agent_state_at, (launched, reply, time), r),
    ensures
        r matches Ok(state) && state is Running ==> final(launched).heartbeat == time,
        !(r matches Ok(state) && state is Running) ==> *final(launched) == *old(launched),
        final(launched).agent_pid == old(launched).agent_pid,
        final(launched).launched == old(launched).launched,
        final(launched).next_check == old(launched).next_check,
        final(launched).worker == old(launched).worker,
        final(launched).domain_name == old(launched).domain_name,
        final(launched).overlay_path == old(launched).overlay_path,
{
}

/// From state to state a worker keeps what it has: its name, its guest OS, its overlay and its
/// domain. A domain that was created has not been launched yet.
pub proof fn law_states_keep_what_they_have(
    init: Init,
    os: GuestOs,
    path: String,
    overlayed: Overlayed,
    domain_name: String,
    defined: Defined,
    created: Created,
    pid: Option<u64>,
    launched: Launched,
)
    requires
        init.leads_to((os, path), overlayed),
        overlayed.leads_to(domain_name, defined),
        defined.leads_to((), created),
        created.leads_to(pid, launched),
    ensures
        overlayed.worker == init.worker && defined.worker == init.worker && created.worker
            == init.worker && launched.worker == init.worker,
        overlayed.guest_os == os && defined.guest_os == os && created.guest_os == os
            && launched.guest_os == os,
        overlayed.overlay_path == path && defined.overlay_path == path && created.overlay_path
            == path && launched.overlay_path == path,
        defined.domain_name == domain_name && created.domain_name == domain_name
            && launched.domain_name == domain_name,
        created.launch_attempts == 0 && created.last_launch_attempt is None,
        launched.agent_pid == pid,
        launched.heartbeat == launched.launched,
        planned_check(launched.launched, launched.next_check),
{
}

/// A worker is destroyed with all that it has: first its domain, then its overlay.
pub proof fn law_destruction_leaves_nothing(
    init: Init,
    overlayed: Overlayed,
    defined: Defined,
    created: Created,
    launched: Launched,
    nothing: Vec<DestroyAction>,
    file: Vec<DestroyAction>,
    d: Vec<DestroyAction>,
    c: Vec<DestroyAction>,
    l: Vec<DestroyAction>,
)
    requires
        call_ensures(<Init as KvmWorkerState>::destroy, (init,), nothing),
        call_ensures(<Overlayed as KvmWorkerState>::destroy, (overlayed,), file),
        call_ensures(<Defined as KvmWorkerState>::destroy, (defined,), d),
        call_ensures(<Created as KvmWorkerState>::destroy, (created,), c),
        call_ensures(<Launched as KvmWorkerState>::destroy, (launched,), l),
    ensures
        nothing@.len() == 0,
        file@ == seq![DestroyAction::DeleteOverlay(overlayed.overlay_path)],
        d@ == seq![
            DestroyAction::UndefineDomain(defined.domain_name),
            DestroyAction::DeleteOverlay(defined.overlay_path),
        ],
        c@ == seq![
            DestroyAction::UndefineDomain(created.domain_name),
            DestroyAction::DeleteOverlay(created.overlay_path),
        ],
        l@ == seq![
            DestroyAction::UndefineDomain(launched.domain_name),
            DestroyAction::DeleteOverlay(launched.overlay_path),
        ],
{
}

/// Every state goes by the name of its worker.
pub proof fn law_states_go_by_the_name_of_their_worker(
    init: Init,
    overlayed: Overlayed,
    defined: Defined,
    created: Created,
    launched: Launched,
)
    ensures
        init.worker_name() == init.worker@,
        overlayed.worker_name() == overlayed.worker@,
        defined.worker_name() == defined.worker@,
        created.worker_name() == created.worker@,
        launched.worker_name() == launched.worker@,
{
}

/// Going back from a state loses what that state had brought, and nothing else. A launched worker
/// goes back to one that was not launched yet.
pub proof fn law_going_back_loses_one_state(
    launched: Launched,
    time: UtcTime,
    created: Created,
    defined: Defined,
    overlayed: Overlayed,
    init: Init,
)
    requires
        call_ensures(Launched::previous_state_at, (launched, time), created),
        created.goes_back_to(defined),
        defined.goes_back_to(overlayed),
        overlayed.goes_back_to(init),
    ensures
        created.created == time,
        created.launch_attempts == 0 && created.last_launch_attempt is None,
        created.worker == launched.worker && defined.worker == launched.worker && overlayed.worker
            == launched.worker && init.worker == launched.worker,
        created.guest_os == launched.guest_os && defined.guest_os == launched.guest_os
            && overlayed.guest_os == launched.guest_os,
        created.overlay_path == launched.overlay_path && defined.overlay_path
            == launched.overlay_path && overlayed.overlay_path == launched.overlay_path,
        created.domain_name == launched.domain_name && defined.domain_name == launched.domain_name,
{
}

} // verus!
