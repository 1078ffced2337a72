//! Launching the Thorium agent in a virtual machine.

use vstd::prelude::*;

use crate::encoding::{base64_bytes, base64_text};
use crate::error::{Error, ErrorView};
use crate::guest_agent::text_values;
use crate::json::{json_parsed, json_rendered, JsonView, NumberView};
use crate::models::Worker;
use crate::os_detector::GuestOs;
use crate::state::created::{
    launch_leads_to,
    launch_runs,
    AgentPaths,
    Launch,
    LaunchAction,
    LaunchEvent,
    LaunchPlan,
    LaunchStep,
    Payload,
};
use crate::state::Created;
use crate::text::texts;

verus! {

/// The agent can be executed on a Linux guest: what is sent behind its transfer runs `chmod`
/// on the path of the agent on the guest, and grants the execute bit.
pub proof fn law_agents_get_the_execute_bit(launch: Launch, action: LaunchAction)
    requires
        call_ensures(Launch::action, (&launch,), action),
        launch.step() is MakeExecutable,
    ensures
        action matches LaunchAction::Send(text) && text@ == json_rendered(
            JsonView::Object(
                map![
                    "execute"@ => JsonView::Text("guest-exec"@),
                    "arguments"@ => JsonView::Object(map![
                        "path"@ => JsonView::Text("/bin/chmod"@),
                        "arg"@ => JsonView::Array(seq![
                            JsonView::Text("+x"@),
                            JsonView::Text(launch.plan().agent_guest_path@),
                        ]),
                    ]),
                ],
            ),
        ),
{
}

/// A file is opened on the guest for writing, as it is, at the path that is meant for it.
pub proof fn law_files_are_opened_where_they_belong(
    launch: Launch,
    payload: Payload,
    action: LaunchAction,
)
    requires
        call_ensures(Launch::action, (&launch,), action),
        launch.step() == LaunchStep::OpenGuest(payload),
    ensures
        action matches LaunchAction::Send(text) && text@ == json_rendered(
            JsonView::Object(
                map![
                    "execute"@ => JsonView::Text("guest-file-open"@),
                    "arguments"@ => JsonView::Object(map![
                        "path"@ => JsonView::Text(
                            if payload == Payload::Agent {
                                launch.plan().agent_guest_path@
                            } else {
                                launch.plan().keys_guest_path@
                            },
                        ),
                        "mode"@ => JsonView::Text("wb"@),
                    ]),
                ],
            ),
        ),
{
}

/// A chunk is written to the file whose handle was given out, in a form that decodes to the
/// bytes of the chunk.
pub proof fn law_chunks_are_sent_whole(
    launch: Launch,
    payload: Payload,
    handle: i64,
    chunk: Vec<u8>,
    action: LaunchAction,
)
    requires
        call_ensures(Launch::action, (&launch,), action),
        launch.step() == LaunchStep::Write(payload, handle, chunk),
    ensures
        exists|encoded: Seq<char>| #[trigger]
            base64_bytes(encoded) == Some(chunk@) && (action matches LaunchAction::Send(text)
                && text@ == json_rendered(
                JsonView::Object(
                    map![
                        "execute"@ => JsonView::Text("guest-file-write"@),
                        "arguments"@ => JsonView::Object(map![
                            "handle"@ => JsonView::Number(
                                if handle >= 0 {
                                    NumberView::Positive(handle as nat)
                                } else {
                                    NumberView::Negative(handle as int)
                                },
                            ),
                            "buf-b64"@ => JsonView::Text(encoded),
                        ]),
                    ],
                ),
            )),
{
    assert(base64_bytes(base64_text(chunk@)) == Some(chunk@));
}

/// A file is flushed and closed by the handle that was given out for it.
pub proof fn law_files_are_flushed_and_closed(
    launch: Launch,
    payload: Payload,
    handle: i64,
    action: LaunchAction,
)
    requires
        call_ensures(Launch::action, (&launch,), action),
        handle >= 0,
    ensures
        launch.step() == LaunchStep::Flush(payload, handle) ==> (action matches LaunchAction::Send(
            text,
        ) && text@ == json_rendered(
            JsonView::Object(
                map![
                    "execute"@ => JsonView::Text("guest-file-flush"@),
                    "arguments"@ => JsonView::Object(map![
                        "handle"@ => JsonView::Number(NumberView::Positive(handle as nat)),
                    ]),
                ],
            ),
        )),
        launch.step() == LaunchStep::Close(payload, handle) ==> (action matches LaunchAction::Send(
            text,
        ) && text@ == json_rendered(
            JsonView::Object(
                map![
                    "execute"@ => JsonView::Text("guest-file-close"@),
                    "arguments"@ => JsonView::Object(map![
                        "handle"@ => JsonView::Number(NumberView::Positive(handle as nat)),
                    ]),
                ],
            ),
        )),
{
}

/// The process that makes the agent executable is asked for by its PID.
pub proof fn law_the_right_process_is_asked_for(launch: Launch, pid: u64, action: LaunchAction)
    requires
        call_ensures(Launch::action, (&launch,), action),
        launch.step() == LaunchStep::AwaitExecutable(pid),
    ensures
        action matches LaunchAction::Send(text) && text@ == json_rendered(
            JsonView::Object(
                map![
                    "execute"@ => JsonView::Text("guest-exec-status"@),
                    "arguments"@ => JsonView::Object(map![
                        "pid"@ => JsonView::Number(NumberView::Positive(pid as nat)),
                    ]),
                ],
            ),
        ),
{
}

/// The agent is executed from the path that it was transferred to, with the arguments of the
/// plan, and its output is kept.
pub proof fn law_the_agent_is_executed(launch: Launch, action: LaunchAction)
    requires
        call_ensures(Launch::action, (&launch,), action),
        launch.step() is Execute,
    ensures
        action matches LaunchAction::Send(text) && text@ == json_rendered(
            JsonView::Object(
                map![
                    "execute"@ => JsonView::Text("guest-exec"@),
                    "arguments"@ => JsonView::Object(map![
                        "path"@ => JsonView::Text(launch.plan().agent_guest_path@),
                        "arg"@ => JsonView::Array(
                            Seq::new(
                                launch.plan().agent_args@.len(),
                                |i: int| JsonView::Text(launch.plan().agent_args@[i]@),
                            ),
                        ),
                        "capture-output"@ => JsonView::Bool(true),
                    ]),
                ],
            ),
        ),
{
    let args = launch.plan().agent_args@;
    assert(text_values(texts(args)) =~= Seq::new(args.len(), |i: int| JsonView::Text(args[i]@)));
}

/// Only files of the host are opened and read on the host, each at its own path, and a launch
/// that is over does nothing.
pub proof fn law_the_host_only_gives_files(launch: Launch, action: LaunchAction)
    requires
        call_ensures(Launch::action, (&launch,), action),
    ensures
        action is OpenFile <==> launch.step() is OpenHost,
        launch.step() == LaunchStep::OpenHost(Payload::Agent) ==> (
        action matches LaunchAction::OpenFile(path) && path@ == launch.plan().agent_path@),
        launch.step() == LaunchStep::OpenHost(Payload::Keys) ==> (
        action matches LaunchAction::OpenFile(path) && path@ == launch.plan().keys_path@),
        action is ReadChunk <==> launch.step() is Read,
        action is Nothing <==> launch.step() is Done || launch.step() is Failed,
{
}

/// A launch begins with the agent, and what is planned does not change on the way.
pub proof fn law_a_launch_keeps_its_plan(
    plan: LaunchPlan,
    launch: Launch,
    event: LaunchEvent,
    next: Launch,
)
    requires
        call_ensures(Launch::new, (plan,), launch) || launch.plan() == plan,
        call_ensures(Launch::advance, (launch, event), next),
    ensures
        call_ensures(Launch::new, (plan,), launch) ==> launch.step() == LaunchStep::OpenHost(
            Payload::Agent,
        ),
        next.plan() == plan,
{
}

/// The file of the guest is opened behind the one of the host, and the handle that the guest
/// agent returns is the one that is written to.
pub proof fn law_the_returned_handle_is_used(
    launch: Launch,
    payload: Payload,
    response: String,
    entries: Map<Seq<char>, JsonView>,
    n: nat,
    next: Launch,
)
    requires
        launch.step() == LaunchStep::OpenGuest(payload),
        json_parsed(response@) == Ok::<JsonView, Seq<char>>(JsonView::Object(entries)),
        call_ensures(Launch::advance, (launch, LaunchEvent::Reply(Ok(response))), next),
    ensures
        entries.contains_pair("return"@, JsonView::Number(NumberView::Positive(n))) && n
            <= i64::MAX ==> (next.step() matches LaunchStep::Read(p, handle) && p == payload
            && handle == n),
        !entries.dom().contains("return"@) ==> next.step() is Failed,
        entries.contains_pair("return"@, JsonView::Number(NumberView::Positive(n))) && n
            > i64::MAX ==> next.step() is Failed,
{
}

/// What is read is written to the same file, bytes for bytes, until there is nothing to read;
/// the file is flushed then.
pub proof fn law_what_is_read_is_written(
    launch: Launch,
    payload: Payload,
    handle: i64,
    bytes: Vec<u8>,
    next: Launch,
)
    requires
        launch.step() == LaunchStep::Read(payload, handle),
        call_ensures(Launch::advance, (launch, LaunchEvent::Chunk(Ok(bytes))), next),
    ensures
        bytes@.len() > 0 ==> next.step() == LaunchStep::Write(payload, handle, bytes),
        bytes@.len() == 0 ==> next.step() == LaunchStep::Flush(payload, handle),
{
}

/// Behind a write there is more to read of the same file, unless the guest agent reports an
/// error: the launch fails then.
pub proof fn law_refused_writes_end_a_launch(
    launch: Launch,
    payload: Payload,
    handle: i64,
    chunk: Vec<u8>,
    response: String,
    entries: Map<Seq<char>, JsonView>,
    next: Launch,
)
    requires
        launch.step() == LaunchStep::Write(payload, handle, chunk),
        json_parsed(response@) == Ok::<JsonView, Seq<char>>(JsonView::Object(entries)),
        call_ensures(Launch::advance, (launch, LaunchEvent::Reply(Ok(response))), next),
    ensures
        entries.dom().contains("error"@) && entries["error"@] is Object ==> next.step() is Failed,
        !(entries.dom().contains("error"@) && entries["error"@] is Object) ==> next.step()
            == LaunchStep::Read(payload, handle),
{
}

/// A file is closed behind its flush. Behind the agent come, on the guests where that is
/// planned, the execute bit, and then the keys; behind the keys the agent is executed.
pub proof fn law_the_order_of_a_launch(
    launch: Launch,
    payload: Payload,
    handle: i64,
    response: String,
    next: Launch,
)
    requires
        json_parsed(response@) is Ok,
        call_ensures(Launch::advance, (launch, LaunchEvent::Reply(Ok(response))), next),
    ensures
        launch.step() == LaunchStep::Flush(payload, handle) ==> next.step() == LaunchStep::Close(
            payload,
            handle,
        ),
        launch.step() == LaunchStep::Close(Payload::Agent, handle)
            && launch.plan().make_executable ==> next.step() == LaunchStep::MakeExecutable,
        launch.step() == LaunchStep::Close(Payload::Agent, handle)
            && !launch.plan().make_executable ==> next.step() == LaunchStep::OpenHost(
            Payload::Keys,
        ),
        launch.step() == LaunchStep::Close(Payload::Keys, handle) ==> next.step()
            == LaunchStep::Execute,
        launch.step() is AwaitExecutable ==> next.step() == LaunchStep::OpenHost(Payload::Keys),
{
}

/// The PID in the response is the one that is asked for, and that of the agent is what a
/// launch gives. A response without a PID ends the launch.
pub proof fn law_the_returned_pid_is_kept(
    launch: Launch,
    response: String,
    entries: Map<Seq<char>, JsonView>,
    returned: Map<Seq<char>, JsonView>,
    n: nat,
    next: Launch,
)
    requires
        launch.step() is MakeExecutable || launch.step() is Execute,
        json_parsed(response@) == Ok::<JsonView, Seq<char>>(JsonView::Object(entries)),
        call_ensures(Launch::advance, (launch, LaunchEvent::Reply(Ok(response))), next),
    ensures
        entries.contains_pair("return"@, JsonView::Object(returned)) && returned.contains_pair(
            "pid"@,
            JsonView::Number(NumberView::Positive(n)),
        ) && n <= u64::MAX ==> if launch.step() is Execute {
            next.step() == LaunchStep::Done(n as u64)
        } else {
            next.step() == LaunchStep::AwaitExecutable(n as u64)
        },
        !entries.dom().contains("return"@) ==> next.step() is Failed,
        entries.contains_pair("return"@, JsonView::Object(returned)) && !returned.dom().contains(
            "pid"@,
        ) ==> next.step() is Failed,
        launch.step() is MakeExecutable ==> (next.step() matches LaunchStep::Failed(error) ==> error@
            == ErrorView::Generic(
            "Failed to set thorium-agent as executable on Linux guest: "@ + response@,
        )),
        launch.step() is Execute ==> (next.step() matches LaunchStep::Failed(error) ==> error@
            == ErrorView::Generic("Failed to launch agent: "@ + response@)),
{
}

/// Whatever goes wrong on the way ends the launch with an error that says what it was.
pub proof fn law_failures_end_a_launch(
    launch: Launch,
    message: String,
    response: String,
    opened: Launch,
    read: Launch,
    replied: Launch,
    answered: Launch,
)
    requires
        call_ensures(Launch::advance, (launch, LaunchEvent::Opened(Err(message))), opened),
        call_ensures(Launch::advance, (launch, LaunchEvent::Chunk(Err(message))), read),
        call_ensures(Launch::advance, (launch, LaunchEvent::Reply(Err(message))), replied),
        call_ensures(Launch::advance, (launch, LaunchEvent::Reply(Ok(response))), answered),
    ensures
        launch.step() == LaunchStep::OpenHost(Payload::Agent) ==> (
        opened.step() matches LaunchStep::Failed(error) && error@ == ErrorView::Generic(
            "Error opening local file '"@ + launch.plan().agent_path@ + "' for transfer"@ + ": "@
                + message@,
        )),
        launch.step() == LaunchStep::OpenHost(Payload::Keys) ==> (
        opened.step() matches LaunchStep::Failed(error) && error@ == ErrorView::Generic(
            "Error opening local file '"@ + launch.plan().keys_path@ + "' for transfer"@ + ": "@
                + message@,
        )),
        launch.step() is Read ==> (read.step() matches LaunchStep::Failed(error) && error@
            == ErrorView::IO(message@)),
        launch.step() is OpenGuest || launch.step() is Write || launch.step() is Flush
            || launch.step() is Close || launch.step() is MakeExecutable || launch.step() is Execute
            ==> (replied.step() matches LaunchStep::Failed(error) && error@ == ErrorView::Virt(
            message@,
        )),
        launch.step() is AwaitExecutable ==> (replied.step() matches LaunchStep::Failed(error)
            && error@ == ErrorView::Generic("'chmod +x' failed on Linux guest: "@ + message@)),
        json_parsed(response@) is Err && (launch.step() is OpenGuest || launch.step() is Write
            || launch.step() is Flush || launch.step() is Close || launch.step() is MakeExecutable
            || launch.step() is Execute) ==> (answered.step() matches LaunchStep::Failed(error)
            && error@ == ErrorView::SerdeJson(json_parsed(response@)->Err_0)),
{
}

/// A launch that is over stays as it is, and gives its PID or its error. Any other launch is
/// handed back.
pub proof fn law_a_finished_launch_is_final(
    launch: Launch,
    event: LaunchEvent,
    next: Launch,
    over: bool,
    outcome: Result<Result<u64, Error>, Launch>,
)
    requires
        call_ensures(Launch::advance, (launch, event), next),
        call_ensures(Launch::is_over, (&launch,), over),
        call_ensures(Launch::outcome, (launch,), outcome),
    ensures
        over ==> next.step() == launch.step(),
        over <==> outcome is Ok,
        outcome matches Ok(Ok(pid)) ==> launch.step() == LaunchStep::Done(pid),
        outcome matches Ok(Err(error)) ==> launch.step() == LaunchStep::Failed(error),
        outcome matches Err(back) ==> back == launch,
        launch.step() is Done ==> outcome matches Ok(Ok(_)),
        launch.step() is Failed ==> outcome matches Ok(Err(_)),
{
}

/// An agent is executed only behind all that comes before: a launch that has come to it has
/// transferred and closed the agent and the keys, and where it is planned, has made the agent
/// executable.
pub proof fn law_agents_are_ready_when_they_are_executed(
    plan: LaunchPlan,
    steps: Seq<LaunchStep>,
    events: Seq<LaunchEvent>,
)
    requires
        launch_runs(plan, steps, events),
        steps[0] == LaunchStep::OpenHost(Payload::Agent),
        steps.last() is Execute || steps.last() is Done,
    ensures
        exists|i: int|
            0 <= i < steps.len() && (#[trigger] steps[i] matches LaunchStep::Close(p, _) && p
                == Payload::Agent),
        exists|i: int|
            0 <= i < steps.len() && (#[trigger] steps[i] matches LaunchStep::Close(p, _) && p
                == Payload::Keys),
        plan.make_executable <==> exists|i: int|
            0 <= i < steps.len() && #[trigger] steps[i] is MakeExecutable,
        plan.make_executable ==> exists|i: int|
            0 <= i < steps.len() && #[trigger] steps[i] is AwaitExecutable,
{
    lemma_what_came_before(plan, steps, events, events.len());
}

/// Whether a launch has left the transfer of the agent behind.
spec fn is_behind_agent(step: LaunchStep) -> bool {
    match step {
        LaunchStep::OpenHost(p) => p == Payload::Keys,
        LaunchStep::OpenGuest(p) => p == Payload::Keys,
        LaunchStep::Read(p, _) => p == Payload::Keys,
        LaunchStep::Write(p, _, _) => p == Payload::Keys,
        LaunchStep::Flush(p, _) => p == Payload::Keys,
        LaunchStep::Close(p, _) => p == Payload::Keys,
        LaunchStep::MakeExecutable => true,
        LaunchStep::AwaitExecutable(_) => true,
        LaunchStep::Execute => true,
        LaunchStep::Done(_) => true,
        LaunchStep::Failed(_) => false,
    }
}

/// What came before a step of a launch.
proof fn lemma_what_came_before(
    plan: LaunchPlan,
    steps: Seq<LaunchStep>,
    events: Seq<LaunchEvent>,
    n: nat,
)
    requires
        launch_runs(plan, steps, events),
        steps[0] == LaunchStep::OpenHost(Payload::Agent),
        n <= events.len(),
    ensures
        is_behind_agent(steps[n as int]) ==> exists|i: int|
            0 <= i <= n && (#[trigger] steps[i] matches LaunchStep::Close(p, _) && p
                == Payload::Agent),
        steps[n as int] is Execute || steps[n as int] is Done ==> exists|i: int|
            0 <= i <= n && (#[trigger] steps[i] matches LaunchStep::Close(p, _) && p
                == Payload::Keys),
        !plan.make_executable ==> !(steps[n as int] is AwaitExecutable) && forall|i: int|
            0 <= i <= n ==> !(#[trigger] steps[i] is MakeExecutable),
        plan.make_executable && is_behind_agent(steps[n as int]) ==> exists|i: int|
            0 <= i <= n && #[trigger] steps[i] is MakeExecutable,
        plan.make_executable && is_behind_agent(steps[n as int]) && !(
        steps[n as int] is MakeExecutable) ==> exists|i: int|
            0 <= i <= n && #[trigger] steps[i] is AwaitExecutable,
    decreases n,
{
    if n > 0 {
        let m = n - 1;
        lemma_what_came_before(plan, steps, events, m as nat);
        assert(launch_leads_to(plan, steps[m], events[m], steps[m + 1]));
    }
}

/// A Windows guest gets the agent for Windows, any other guest the one for Linux, and each at
/// a path of its own kind. Only on a guest that is known to run Linux is the execute bit set.
pub proof fn law_agents_fit_their_guests(
    created: Created,
    worker: Worker,
    paths: AgentPaths,
    keys_path: &str,
    plan: LaunchPlan,
)
    requires
        call_ensures(Created::plan_launch, (&created, &worker, &paths, keys_path), plan),
    ensures
        plan.keys_path@ == keys_path@,
        created.guest_os == GuestOs::Windows ==> {
            &&& plan.agent_path@ == paths.windows@
            &&& plan.agent_guest_path@ == "C:\\thorium-agent.exe"@
            &&& plan.keys_guest_path@ == "C:\\thorium-keys.yml"@
            &&& !plan.make_executable
        },
        created.guest_os != GuestOs::Windows ==> {
            &&& plan.agent_path@ == paths.linux@
            &&& plan.agent_guest_path@ == "/thorium-agent"@
            &&& plan.keys_guest_path@ == "/thorium-keys.yml"@
            &&& plan.make_executable == (created.guest_os == GuestOs::Linux)
        },
{
}

/// The agent is told which worker it works for and where the keys are: behind the name of
/// each of these stands what the worker has, and the keys are where they were transferred to.
pub proof fn law_agents_are_told_their_worker(
    created: Created,
    worker: Worker,
    paths: AgentPaths,
    keys_path: &str,
    plan: LaunchPlan,
)
    requires
        call_ensures(Created::plan_launch, (&created, &worker, &paths, keys_path), plan),
    ensures
        plan.agent_args@.len() == 15,
        plan.agent_args@[0]@ == "--cluster"@ && plan.agent_args@[1]@ == worker.cluster@,
        plan.agent_args@[2]@ == "--node"@ && plan.agent_args@[3]@ == worker.node@,
        plan.agent_args@[4]@ == "--group"@ && plan.agent_args@[5]@ == worker.group@,
        plan.agent_args@[6]@ == "--pipeline"@ && plan.agent_args@[7]@ == worker.pipeline@,
        plan.agent_args@[8]@ == "--stage"@ && plan.agent_args@[9]@ == worker.stage@,
        plan.agent_args@[10]@ == "--name"@ && plan.agent_args@[11]@ == worker.name@,
        plan.agent_args@[12]@ == "--keys"@ && plan.agent_args@[13]@ == plan.keys_guest_path@,
        plan.agent_args@[14]@ == "kvm"@,
{
    let told = texts(plan.agent_args@);
    assert(told.len() == 15);
    assert(forall|i: int| 0 <= i < 15 ==> #[trigger] plan.agent_args@[i]@ == told[i]);
}

} // verus!
