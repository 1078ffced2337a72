//! The logic for a KVM worker in the [`Created`] state.
//!
//! The Thorium agent is launched through the QEMU guest agent. A [`Launch`] says which file
//! to read and which command to send next, and goes on with what came of it.

use vstd::prelude::*;

use crate::encoding::{base64_bytes, base64_text};
use crate::error::{in_context, Error, ErrorView};
use crate::guest_agent::{
    check_answer,
    check_write,
    exec,
    exec_command,
    exec_status,
    exec_status_command,
    file_close_command,
    file_command,
    file_flush_command,
    file_handle,
    file_open,
    file_open_command,
    file_write,
    file_write_command,
    handle_in,
    pid_in,
    started_pid,
    text_values,
    unreadable,
    write_failure_in,
};
use crate::json::{json_parsed, json_rendered, JsonView};
use crate::models::Worker;
use crate::os_detector::GuestOs;
use crate::state::{launched_at, Created, KvmWorkerState, Launched};
use crate::text::{join2, join3, texts, to_owned};
use crate::time::{now, random_between, UtcTime};

verus! {

/// The path to the Thorium agent on Linux guests
pub const THORIUM_AGENT_PATH_LINUX: &'static str = "/thorium-agent";

/// The path to the user's keys on Linux guests
pub const KEYS_PATH_LINUX: &'static str = "/thorium-keys.yml";

/// The path to the Thorium agent on Windows guests
pub const THORIUM_AGENT_PATH_WINDOWS: &'static str = "C:\\thorium-agent.exe";

/// The path to the user's keys on Windows guests
pub const KEYS_PATH_WINDOWS: &'static str = "C:\\thorium-keys.yml";

/// The maximum number of times we can try to launch a worker
pub const MAX_LAUNCH_ATTEMPTS: u8 = 10;

/// Roughly the amount of time we wait before launching the first time, allowing the domain
/// to boot and settle. In seconds.
pub const FIRST_LAUNCH_ATTEMPT_DWELL: u64 = 120;

/// Roughly the amount of time we wait in between launch attempts. In seconds.
pub const LAUNCH_ATTEMPT_DWELL: u64 = 60;

/// Files are transferred in chunks of this many bytes
pub const CHUNK_SIZE: usize = 65_536;

/// The path to the Thorium agent binaries on disk
#[derive(Debug)]
pub struct AgentPaths {
    /// The path to the linux Thorium agent
    pub linux: String,
    /// The path to the Windows Thorium agent
    pub windows: String,
}

/// What is to be done to launch the agent of a worker
#[derive(Debug)]
pub struct LaunchPlan {
    /// The path to the agent on the host
    pub agent_path: String,
    /// The path to the agent on the guest
    pub agent_guest_path: String,
    /// The path to the user's keys on the host
    pub keys_path: String,
    /// The path to the user's keys on the guest
    pub keys_guest_path: String,
    /// Whether the agent has to be made executable on the guest
    pub make_executable: bool,
    /// The arguments to pass to the agent
    pub agent_args: Vec<String>,
}

/// A file that is transferred to the guest
#[derive(Debug, Clone, Copy, PartialEq, Eq, Structural)]
pub enum Payload {
    /// The Thorium agent
    Agent,
    /// The user's keys
    Keys,
}

/// How far a launch has come
#[derive(Debug)]
pub enum LaunchStep {
    /// The file on the host is to be opened
    OpenHost(Payload),
    /// The file on the guest is to be opened
    OpenGuest(Payload),
    /// A chunk is to be read from the file on the host
    Read(Payload, i64),
    /// A chunk is to be written to the file on the guest
    Write(Payload, i64, Vec<u8>),
    /// The file on the guest is to be flushed
    Flush(Payload, i64),
    /// The file on the guest is to be closed
    Close(Payload, i64),
    /// The agent is to be made executable
    MakeExecutable,
    /// The status of the process that makes the agent executable is to be asked for
    AwaitExecutable(u64),
    /// The agent is to be executed
    Execute,
    /// The agent was launched and has this PID
    Done(u64),
    /// The launch failed
    Failed(Error),
}

/// What is to be done next in a launch
#[derive(Debug)]
pub enum LaunchAction {
    /// Open the file at this path on the host
    OpenFile(String),
    /// Read up to [`CHUNK_SIZE`] bytes from the open file
    ReadChunk,
    /// Send this command to the guest agent
    Send(String),
    /// Nothing
    Nothing,
}

/// What came of the last action in a launch
#[derive(Debug)]
pub enum LaunchEvent {
    /// The file was opened, or the `Debug` text of the error in opening it
    Opened(Result<(), String>),
    /// The bytes that were read, none at the end of the file, or the message of the error
    Chunk(Result<Vec<u8>, String>),
    /// The response of the guest agent, or the message of libvirt's error
    Reply(Result<String, String>),
}

/// The arguments to pass to the agent of a worker.
pub open spec fn agent_args_of(worker: Worker, keys_guest_path: Seq<char>) -> Seq<Seq<char>> {
    seq![
        "--cluster"@,
        worker.cluster@,
        "--node"@,
        worker.node@,
        "--group"@,
        worker.group@,
        "--pipeline"@,
        worker.pipeline@,
        "--stage"@,
        worker.stage@,
        "--name"@,
        worker.name@,
        "--keys"@,
        keys_guest_path,
        "kvm"@,
    ]
}

/// The arguments to pass to the agent of a worker.
pub fn agent_args(worker: &Worker, keys_guest_path: &str) -> (r: Vec<String>)
    ensures
        texts(r@) == agent_args_of(*worker, keys_guest_path@),
{
    let args: Vec<String> =
        vec![
        to_owned("--cluster"),
        worker.cluster.clone(),
        to_owned("--node"),
        worker.node.clone(),
        to_owned("--group"),
        worker.group.clone(),
        to_owned("--pipeline"),
        worker.pipeline.clone(),
        to_owned("--stage"),
        worker.stage.clone(),
        to_owned("--name"),
        worker.name.clone(),
        to_owned("--keys"),
        to_owned(keys_guest_path),
        to_owned("kvm"),
    ];
    assert(texts(args@) =~= agent_args_of(*worker, keys_guest_path@));
    args
}

impl LaunchPlan {
    /// The path of a file on the host.
    pub open spec fn host_path(self, payload: Payload) -> Seq<char> {
        match payload {
            Payload::Agent => self.agent_path@,
            Payload::Keys => self.keys_path@,
        }
    }

    /// The path of a file on the guest.
    pub open spec fn guest_path(self, payload: Payload) -> Seq<char> {
        match payload {
            Payload::Agent => self.agent_guest_path@,
            Payload::Keys => self.keys_guest_path@,
        }
    }

    /// The step behind the transfer of a file.
    pub open spec fn after(self, payload: Payload) -> LaunchStep {
        match payload {
            Payload::Agent => if self.make_executable {
                LaunchStep::MakeExecutable
            } else {
                LaunchStep::OpenHost(Payload::Keys)
            },
            Payload::Keys => LaunchStep::Execute,
        }
    }
}

/// Whether a step is the end of a launch that failed with an error.
pub open spec fn fails_with(step: LaunchStep, error: ErrorView) -> bool {
    step matches LaunchStep::Failed(e) && e@ == error
}

/// The command that a step sends to the guest agent, if it sends one.
pub open spec fn command_of(plan: LaunchPlan, step: LaunchStep) -> Option<JsonView> {
    match step {
        LaunchStep::OpenGuest(payload) => Some(file_open(plan.guest_path(payload))),
        LaunchStep::Write(_, handle, chunk) => Some(file_write(handle as int, chunk@)),
        LaunchStep::Flush(_, handle) => Some(file_command("guest-file-flush"@, handle as int)),
        LaunchStep::Close(_, handle) => Some(file_command("guest-file-close"@, handle as int)),
        LaunchStep::MakeExecutable => Some(
            exec("/bin/chmod"@, seq!["+x"@, plan.agent_guest_path@], false),
        ),
        LaunchStep::AwaitExecutable(pid) => Some(exec_status(pid as nat)),
        LaunchStep::Execute => Some(exec(plan.agent_guest_path@, texts(plan.agent_args@), true)),
        _ => None,
    }
}

/// Whether one step of a launch is the one that follows on another. What does not fit the
/// step that it is to follow on changes nothing.
pub open spec fn launch_leads_to(
    plan: LaunchPlan,
    step: LaunchStep,
    event: LaunchEvent,
    next: LaunchStep,
) -> bool {
    match (step, event) {
        (LaunchStep::OpenHost(payload), LaunchEvent::Opened(Ok(_))) => next
            == LaunchStep::OpenGuest(payload),
        (LaunchStep::OpenHost(payload), LaunchEvent::Opened(Err(error))) => fails_with(
            next,
            in_context(
                "Error opening local file '"@ + plan.host_path(payload) + "' for transfer"@,
                error@,
            ),
        ),
        (LaunchStep::Read(payload, handle), LaunchEvent::Chunk(Ok(bytes))) => if bytes@.len()
            == 0 {
            next == LaunchStep::Flush(payload, handle)
        } else {
            next == LaunchStep::Write(payload, handle, bytes)
        },
        (LaunchStep::Read(_, _), LaunchEvent::Chunk(Err(message))) => fails_with(
            next,
            ErrorView::IO(message@),
        ),
        (LaunchStep::AwaitExecutable(_), LaunchEvent::Reply(Ok(_))) => next
            == LaunchStep::OpenHost(Payload::Keys),
        (LaunchStep::AwaitExecutable(_), LaunchEvent::Reply(Err(message))) => fails_with(
            next,
            ErrorView::Generic("'chmod +x' failed on Linux guest: "@ + message@),
        ),
        (_, LaunchEvent::Reply(reply)) => if command_of(plan, step) is None {
            next == step
        } else {
            match reply {
                Err(message) => fails_with(next, ErrorView::Virt(message@)),
                Ok(response) => match json_parsed(response@) {
                    Err(message) => fails_with(next, unreadable(message)),
                    Ok(content) => launch_answered(plan, step, response@, content, next),
                },
            }
        },
        _ => next == step,
    }
}

/// Whether a step is the one that follows on the guest agent's answer to another one.
pub open spec fn launch_answered(
    plan: LaunchPlan,
    step: LaunchStep,
    response: Seq<char>,
    content: JsonView,
    next: LaunchStep,
) -> bool {
    match step {
        LaunchStep::OpenGuest(payload) => match handle_in(content) {
            Ok(handle) => next == LaunchStep::Read(payload, handle),
            Err(error) => fails_with(next, error),
        },
        LaunchStep::Write(payload, handle, _) => match write_failure_in(content) {
            Some(error) => fails_with(next, error),
            None => next == LaunchStep::Read(payload, handle),
        },
        LaunchStep::Flush(payload, handle) => next == LaunchStep::Close(payload, handle),
        LaunchStep::Close(payload, _) => next == plan.after(payload),
        LaunchStep::MakeExecutable => match pid_in(content) {
            Some(pid) => next == LaunchStep::AwaitExecutable(pid),
            None => fails_with(
                next,
                ErrorView::Generic(
                    "Failed to set thorium-agent as executable on Linux guest: "@ + response,
                ),
            ),
        },
        LaunchStep::Execute => match pid_in(content) {
            Some(pid) => next == LaunchStep::Done(pid),
            None => fails_with(
                next,
                ErrorView::Generic("Failed to launch agent: "@ + response),
            ),
        },
        _ => next == step,
    }
}

/// The launch of the agent of a worker, which goes from action to action.
#[derive(Debug)]
pub struct Launch {
    plan: LaunchPlan,
    step: LaunchStep,
}

impl Launch {
    #[verifier::type_invariant]
    spec fn wf(self) -> bool {
        self.step matches LaunchStep::Write(_, _, chunk) ==> chunk@.len() <= CHUNK_SIZE
    }

    /// What is to be done in this launch.
    pub closed spec fn plan(self) -> LaunchPlan {
        self.plan
    }

    /// How far this launch has come.
    pub closed spec fn step(self) -> LaunchStep {
        self.step
    }

    /// Start a launch.
    pub fn new(plan: LaunchPlan) -> (r: Launch)
        ensures
            r.plan() == plan,
            r.step() == LaunchStep::OpenHost(Payload::Agent),
    {
        Launch { plan, step: LaunchStep::OpenHost(Payload::Agent) }
    }

    fn host_path(&self, payload: Payload) -> (r: String)
        ensures
            r@ == self.plan().host_path(payload),
    {
        match payload {
            Payload::Agent => self.plan.agent_path.clone(),
            Payload::Keys => self.plan.keys_path.clone(),
        }
    }

    fn guest_path(&self, payload: Payload) -> (r: String)
        ensures
            r@ == self.plan().guest_path(payload),
    {
        match payload {
            Payload::Agent => self.plan.agent_guest_path.clone(),
            Payload::Keys => self.plan.keys_guest_path.clone(),
        }
    }

    /// What is to be done next.
    pub fn action(&self) -> (r: LaunchAction)
        ensures
            match command_of(self.plan(), self.step()) {
                Some(command) => r matches LaunchAction::Send(text) && text@ == json_rendered(
                    command,
                ),
                None => match self.step() {
                    LaunchStep::OpenHost(payload) => r matches LaunchAction::OpenFile(path)
                        && path@ == self.plan().host_path(payload),
                    LaunchStep::Read(_, _) => r is ReadChunk,
                    _ => r is Nothing,
                },
            },
            self.step() is MakeExecutable ==> (r matches LaunchAction::Send(text) && text@
                == json_rendered(
                JsonView::Object(
                    map![
                        "execute"@ => JsonView::Text("guest-exec"@),
                        "arguments"@ => JsonView::Object(map![
                            "path"@ => JsonView::Text("/bin/chmod"@),
                            "arg"@ => JsonView::Array(seq![
                                JsonView::Text("+x"@),
                                JsonView::Text(self.plan().agent_guest_path@),
                            ]),
                        ]),
                    ],
                ),
            )),
            self.step() matches LaunchStep::Write(_, _, chunk) ==> base64_bytes(
                base64_text(chunk@),
            ) == Some(chunk@),
    {
        proof {
            use_type_invariant(&*self);
        }
        match &self.step {
            LaunchStep::OpenHost(payload) => LaunchAction::OpenFile(self.host_path(*payload)),
            LaunchStep::OpenGuest(payload) => {
                let path: String = self.guest_path(*payload);
                LaunchAction::Send(file_open_command(path.as_str()))
            },
            LaunchStep::Read(_, _) => LaunchAction::ReadChunk,
            LaunchStep::Write(_, handle, chunk) => LaunchAction::Send(
                file_write_command(*handle, chunk.as_slice()),
            ),
            LaunchStep::Flush(_, handle) => LaunchAction::Send(file_flush_command(*handle)),
            LaunchStep::Close(_, handle) => LaunchAction::Send(file_close_command(*handle)),
            LaunchStep::MakeExecutable => {
                let args: Vec<String> =
                    vec![to_owned("+x"), self.plan.agent_guest_path.clone()];
                assert(texts(args@) =~= seq!["+x"@, self.plan.agent_guest_path@]);
                assert(text_values(texts(args@)) =~= seq![
                    JsonView::Text("+x"@),
                    JsonView::Text(self.plan.agent_guest_path@),
                ]);
                LaunchAction::Send(exec_command("/bin/chmod", &args, false))
            },
            LaunchStep::AwaitExecutable(pid) => LaunchAction::Send(exec_status_command(*pid)),
            LaunchStep::Execute => LaunchAction::Send(
                exec_command(self.plan.agent_guest_path.as_str(), &self.plan.agent_args, true),
            ),
            LaunchStep::Done(_) => LaunchAction::Nothing,
            LaunchStep::Failed(_) => LaunchAction::Nothing,
        }
    }

    /// Whether the launch is over: nothing is left to be done.
    pub fn is_over(&self) -> (r: bool)
        ensures
            r == (self.step() is Done || self.step() is Failed),
    {
        match &self.step {
            LaunchStep::Done(_) => true,
            LaunchStep::Failed(_) => true,
            _ => false,
        }
    }

    /// The PID of the agent, or the error that the launch failed with. A launch that is not
    /// over is handed back.
    pub fn outcome(self) -> (r: Result<Result<u64, Error>, Launch>)
        ensures
            match self.step() {
                LaunchStep::Done(pid) => r == Ok::<Result<u64, Error>, Launch>(Ok(pid)),
                LaunchStep::Failed(error) => r == Ok::<Result<u64, Error>, Launch>(Err(error)),
                _ => r == Err::<Result<u64, Error>, Launch>(self),
            },
    {
        if !self.is_over() {
            return Err(self);
        }
        match self.step {
            LaunchStep::Done(pid) => Ok(Ok(pid)),
            LaunchStep::Failed(error) => Ok(Err(error)),
            step => Err(Launch { plan: self.plan, step }),
        }
    }

    /// The step behind the transfer of a file.
    fn step_after(&self, payload: Payload) -> (r: LaunchStep)
        ensures
            r == self.plan().after(payload),
    {
        match payload {
            Payload::Agent => if self.plan.make_executable {
                LaunchStep::MakeExecutable
            } else {
                LaunchStep::OpenHost(Payload::Keys)
            },
            Payload::Keys => LaunchStep::Execute,
        }
    }

    /// The step that follows on a response of the guest agent.
    fn step_answered(&self, response: &str) -> (r: LaunchStep)
        requires
            command_of(self.plan(), self.step()) is Some,
            !(self.step() is AwaitExecutable),
        ensures
            match json_parsed(response@) {
                Err(message) => fails_with(r, unreadable(message)),
                Ok(content) => launch_answered(
                    self.plan(),
                    self.step(),
                    response@,
                    content,
                    r,
                ),
            },
            !(r is Write),
    {
        match &self.step {
            LaunchStep::OpenGuest(payload) => match file_handle(response) {
                Ok(handle) => LaunchStep::Read(*payload, handle),
                Err(error) => LaunchStep::Failed(error),
            },
            LaunchStep::Write(payload, handle, _) => match check_write(response) {
                Ok(_) => LaunchStep::Read(*payload, *handle),
                Err(error) => LaunchStep::Failed(error),
            },
            LaunchStep::Flush(payload, handle) => match check_answer(response) {
                Ok(_) => LaunchStep::Close(*payload, *handle),
                Err(error) => LaunchStep::Failed(error),
            },
            LaunchStep::Close(payload, _) => match check_answer(response) {
                Ok(_) => self.step_after(*payload),
                Err(error) => LaunchStep::Failed(error),
            },
            LaunchStep::MakeExecutable => match started_pid(
                response,
                "Failed to set thorium-agent as executable on Linux guest: ",
            ) {
                Ok(pid) => LaunchStep::AwaitExecutable(pid),
                Err(error) => LaunchStep::Failed(error),
            },
            _ => match started_pid(response, "Failed to launch agent: ") {
                Ok(pid) => LaunchStep::Done(pid),
                Err(error) => LaunchStep::Failed(error),
            },
        }
    }

    /// Go on with what came of the last action.
    pub fn advance(self, event: LaunchEvent) -> (r: Launch)
        requires
            event matches LaunchEvent::Chunk(Ok(bytes)) ==> bytes@.len() <= CHUNK_SIZE,
        ensures
            r.plan() == self.plan(),
            launch_leads_to(self.plan(), self.step(), event, r.step()),
    {
        proof {
            use_type_invariant(&self);
        }
        let step: LaunchStep = match event {
            LaunchEvent::Opened(opened) => match &self.step {
                LaunchStep::OpenHost(payload) => match opened {
                    Ok(_) => LaunchStep::OpenGuest(*payload),
                    Err(error) => {
                        let path: String = self.host_path(*payload);
                        let context: String = join3(
                            "Error opening local file '",
                            path.as_str(),
                            "' for transfer",
                        );
                        LaunchStep::Failed(Error::with_context(context.as_str(), error.as_str()))
                    },
                },
                _ => return self,
            },
            LaunchEvent::Chunk(chunk) => match &self.step {
                LaunchStep::Read(payload, handle) => match chunk {
                    Ok(bytes) => if bytes.len() == 0 {
                        LaunchStep::Flush(*payload, *handle)
                    } else {
                        LaunchStep::Write(*payload, *handle, bytes)
                    },
                    Err(message) => LaunchStep::Failed(Error::IO(message)),
                },
                _ => return self,
            },
            LaunchEvent::Reply(reply) => match &self.step {
                LaunchStep::OpenHost(_) => return self,
                LaunchStep::Read(_, _) => return self,
                LaunchStep::Done(_) => return self,
                LaunchStep::Failed(_) => return self,
                LaunchStep::AwaitExecutable(_) => match reply {
                    Ok(_) => LaunchStep::OpenHost(Payload::Keys),
                    Err(message) => LaunchStep::Failed(
                        Error::Generic(
                            join2("'chmod +x' failed on Linux guest: ", message.as_str()),
                        ),
                    ),
                },
                _ => match reply {
                    Ok(response) => self.step_answered(response.as_str()),
                    Err(message) => LaunchStep::Failed(Error::Virt(message)),
                },
            },
        };
        Launch { plan: self.plan, step }
    }
}

/// A created worker once its launch was tried at a time and failed.
pub open spec fn attempted(created: Created, time: UtcTime) -> Created {
    Created {
        last_launch_attempt: Some(time),
        launch_attempts: (created.launch_attempts + 1) as u8,
        ..created
    }
}

/// When a created worker can be launched next.
pub open spec fn launch_due(created: Created) -> UtcTime {
    match created.last_launch_attempt {
        Some(last) => last.later(LAUNCH_ATTEMPT_DWELL as nat),
        None => created.created.later(FIRST_LAUNCH_ATTEMPT_DWELL as nat),
    }
}

impl Created {
    /// What is to be done to launch the worker: which Thorium agent to transfer and where to
    /// transfer it and the keys, depending on the guest OS. If the OS was not detected, Linux
    /// is tried.
    ///
    /// * `worker` - The worker we are launching an agent for
    /// * `agent_paths` - The path to the Thorium agent binaries on disk
    /// * `keys_path` - The path to the keys of the worker's user on disk
    pub fn plan_launch(&self, worker: &Worker, agent_paths: &AgentPaths, keys_path: &str) -> (r:
        LaunchPlan)
        ensures
            r.agent_path@ == (if self.guest_os == GuestOs::Windows {
                agent_paths.windows@
            } else {
                agent_paths.linux@
            }),
            r.agent_guest_path@ == (if self.guest_os == GuestOs::Windows {
                THORIUM_AGENT_PATH_WINDOWS@
            } else {
                THORIUM_AGENT_PATH_LINUX@
            }),
            r.keys_path@ == keys_path@,
            r.keys_guest_path@ == (if self.guest_os == GuestOs::Windows {
                KEYS_PATH_WINDOWS@
            } else {
                KEYS_PATH_LINUX@
            }),
            r.make_executable == (self.guest_os == GuestOs::Linux),
            texts(r.agent_args@) == agent_args_of(*worker, r.keys_guest_path@),
    {
        let (agent_path, agent_guest_path, keys_guest_path) = match self.guest_os {
            GuestOs::Linux | GuestOs::Unknown => (
                agent_paths.linux.clone(),
                to_owned(THORIUM_AGENT_PATH_LINUX),
                to_owned(KEYS_PATH_LINUX),
            ),
            GuestOs::Windows => (
                agent_paths.windows.clone(),
                to_owned(THORIUM_AGENT_PATH_WINDOWS),
                to_owned(KEYS_PATH_WINDOWS),
            ),
        };
        let make_executable: bool = self.guest_os == GuestOs::Linux;
        let agent_args: Vec<String> = agent_args(worker, keys_guest_path.as_str());
        LaunchPlan {
            agent_path,
            agent_guest_path,
            keys_path: to_owned(keys_path),
            keys_guest_path,
            make_executable,
            agent_args,
        }
    }

    /// Proceed to the next state at a time. The first health check is anywhere from 30 to 60
    /// seconds later.
    ///
    /// * `agent_pid` - The PID of the agent that was launched, if it is known
    /// * `time` - The time at which the worker is launched
    pub fn next_state_at(self, agent_pid: Option<u64>, time: UtcTime) -> (r: Launched)
        ensures
            launched_at(self, agent_pid, time, r),
    {
        let secs: u64 = random_between(30, 60);
        Launched {
            worker: self.worker,
            guest_os: self.guest_os,
            overlay_path: self.overlay_path,
            domain_name: self.domain_name,
            agent_pid,
            launched: time,
            next_check: Launched::next_health_check_at(time, secs),
            heartbeat: time,
        }
    }

    /// Launch the worker at a time.
    ///
    /// On error, the worker in its created state is returned with its launch attempts
    /// incremented, along with the error that occurred so we can maybe try to launch it again
    /// next time.
    ///
    /// * `outcome` - The PID of the agent that was launched, or the error that occurred
    /// * `time` - The time of the attempt
    pub fn launch_at(self, outcome: Result<u64, Error>, time: UtcTime) -> (r: Result<
        Launched,
        (Created, Error),
    >)
        requires
            self.launch_attempts < u8::MAX,
        ensures
            match outcome {
                Ok(pid) => r matches Ok(launched) && launched_at(
                    self,
                    Some(pid),
                    time,
                    launched,
                ),
                Err(error) => r == Err::<Launched, (Created, Error)>(
                    (attempted(self, time), error),
                ),
            },
    {
        match outcome {
            Ok(pid) => Ok(self.next_state_at(Some(pid), time)),
            Err(error) => {
                let mut created: Created = self;
                created.launch_attempts = created.launch_attempts + 1;
                created.last_launch_attempt = Some(time);
                Err((created, error))
            },
        }
    }

    /// Launch the worker by launching the Thorium agent on the target VM using QEMU guest
    /// agent.
    ///
    /// On error, the worker in its created state is returned with its launch attempts
    /// incremented, along with the error that occurred so we can maybe try to launch it again
    /// next time.
    ///
    /// * `outcome` - The PID of the agent that was launched, or the error that occurred
    pub fn launch(self, outcome: Result<u64, Error>) -> (r: Result<Launched, (Created, Error)>)
        requires
            self.launch_attempts < u8::MAX,
        ensures
            match outcome {
                Ok(pid) => r matches Ok(launched) && self.leads_to(Some(pid), launched),
                Err(error) => r matches Err((created, e)) && {
                    &&& e == error
                    &&& created.last_launch_attempt is Some
                    &&& created == attempted(self, created.last_launch_attempt->0)
                },
            },
    {
        let time: UtcTime = now();
        self.launch_at(outcome, time)
    }

    /// Proceed to the next state as if we actually launched the worker. No agent was
    /// launched, so there is no PID.
    pub fn mock_launch(self) -> (r: Launched)
        ensures
            self.leads_to(None, r),
    {
        self.next_state(None)
    }

    /// Returns whether this worker has attempted to launch the maximum
    /// number of times (or more).
    pub fn has_reached_max_attempts(&self) -> (r: bool)
        ensures
            r == (self.launch_attempts >= MAX_LAUNCH_ATTEMPTS),
    {
        self.launch_attempts >= MAX_LAUNCH_ATTEMPTS
    }

    /// Returns true if the domain is ready to attempt launch at a time: once it has had time
    /// to stabilize and, after an attempt, once enough time between attempts has passed.
    pub fn ready_to_launch_at(&self, time: UtcTime) -> (r: bool)
        ensures
            r == time.at_or_after(launch_due(*self)),
    {
        match self.last_launch_attempt {
            Some(last) => time.reached(last.add_secs(LAUNCH_ATTEMPT_DWELL)),
            None => time.reached(self.created.add_secs(FIRST_LAUNCH_ATTEMPT_DWELL)),
        }
    }

    /// Returns true if the domain is ready to attempt launch.
    pub fn ready_to_launch(&self) -> (r: bool)
        ensures
            exists|time: UtcTime| r == #[trigger] time.at_or_after(launch_due(*self)),
    {
        let time: UtcTime = now();
        self.ready_to_launch_at(time)
    }
}

/// The place of a step in the order of a launch.
pub open spec fn launch_rank(step: LaunchStep) -> int {
    match step {
        LaunchStep::OpenHost(p) => payload_rank(p),
        LaunchStep::OpenGuest(p) => payload_rank(p) + 1,
        LaunchStep::Read(p, _) => payload_rank(p) + 2,
        LaunchStep::Write(p, _, _) => payload_rank(p) + 2,
        LaunchStep::Flush(p, _) => payload_rank(p) + 3,
        LaunchStep::Close(p, _) => payload_rank(p) + 4,
        LaunchStep::MakeExecutable => 5,
        LaunchStep::AwaitExecutable(_) => 6,
        LaunchStep::Execute => 12,
        LaunchStep::Done(_) => 13,
        LaunchStep::Failed(_) => 13,
    }
}

/// The place of a file's transfer in the order of a launch.
pub open spec fn payload_rank(payload: Payload) -> int {
    match payload {
        Payload::Agent => 0,
        Payload::Keys => 7,
    }
}

/// A launch never goes back: the agent is transferred before it is made executable, that
/// comes before the keys are transferred, and the agent is executed only behind both.
pub proof fn law_a_launch_goes_forward(
    plan: LaunchPlan,
    step: LaunchStep,
    event: LaunchEvent,
    next: LaunchStep,
)
    requires
        launch_leads_to(plan, step, event, next),
    ensures
        launch_rank(step) <= launch_rank(next),
        next is Done && !(step is Done) ==> step is Execute,
        next is Execute && !(step is Execute) ==> (step matches LaunchStep::Close(p, _)
            && p == Payload::Keys),
{
}

/// Whether steps follow on each other with the events between them.
pub open spec fn launch_runs(
    plan: LaunchPlan,
    steps: Seq<LaunchStep>,
    events: Seq<LaunchEvent>,
) -> bool {
    &&& steps.len() == events.len() + 1
    &&& forall|i: int|
        0 <= i < events.len() ==> launch_leads_to(plan, steps[i], #[trigger] events[i], steps[i
            + 1])
}

/// The bytes that were read from files in a run, one behind the other.
pub open spec fn bytes_read(steps: Seq<LaunchStep>, events: Seq<LaunchEvent>) -> Seq<u8>
    decreases events.len(),
{
    if events.len() == 0 {
        Seq::empty()
    } else {
        let before = bytes_read(steps.drop_last(), events.drop_last());
        match (steps[events.len() - 1], events.last()) {
            (LaunchStep::Read(_, _), LaunchEvent::Chunk(Ok(bytes))) => before + bytes@,
            _ => before,
        }
    }
}

/// The bytes of the writes that a run came to, one behind the other.
pub open spec fn bytes_written(steps: Seq<LaunchStep>) -> Seq<u8>
    decreases steps.len(),
{
    if steps.len() <= 1 {
        Seq::empty()
    } else {
        let before = bytes_written(steps.drop_last());
        match (steps[steps.len() - 2], steps.last()) {
            (LaunchStep::Write(_, _, _), _) => before,
            (_, LaunchStep::Write(_, _, chunk)) => before + chunk@,
            _ => before,
        }
    }
}

/// Every byte that is read from the files on the host is written to the guest, in order
/// and once.
pub proof fn law_every_byte_read_is_written(
    plan: LaunchPlan,
    steps: Seq<LaunchStep>,
    events: Seq<LaunchEvent>,
)
    requires
        launch_runs(plan, steps, events),
    ensures
        bytes_written(steps) == bytes_read(steps, events),
    decreases events.len(),
{
    if events.len() > 0 {
        let n = events.len() as int;
        let s = steps.drop_last();
        let e = events.drop_last();
        assert forall|i: int| 0 <= i < e.len() implies launch_leads_to(
            plan,
            s[i],
            #[trigger] e[i],
            s[i + 1],
        ) by {
            assert(e[i] == events[i]);
        }
        law_every_byte_read_is_written(plan, s, e);
        assert(launch_leads_to(plan, steps[n - 1], events[n - 1], steps[n]));
        match (steps[n - 1], events.last()) {
            (LaunchStep::Read(_, _), LaunchEvent::Chunk(Ok(bytes))) => {
                if bytes@.len() == 0 {
                    assert(bytes_read(s, e) + bytes@ =~= bytes_read(s, e));
                }
            },
            _ => {},
        }
    }
}

/// A failed attempt counts, and puts the next one off by the dwell between attempts.
pub proof fn law_a_failed_launch_waits(created: Created, time: UtcTime)
    requires
        created.launch_attempts < u8::MAX,
    ensures
        attempted(created, time).launch_attempts == created.launch_attempts + 1,
        launch_due(attempted(created, time)) == time.later(LAUNCH_ATTEMPT_DWELL as nat),
{
}

} // verus!
