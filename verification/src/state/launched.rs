//! The logic for a KVM worker in the [`Launched`] state.

use serde_json::Value;
use vstd::prelude::*;
use vstd::utf8::{decode_utf8, valid_utf8};

use crate::encoding::{base64_bytes, base64_decode, text_from_utf8};
use crate::error::{Error, ErrorView};
use crate::guest_agent::{exec_status, exec_status_command, unreadable};
use crate::json::{
    as_bool,
    as_i64,
    as_text,
    bool_in,
    entry_in,
    get,
    i64_in,
    json_content,
    json_parsed,
    json_rendered,
    parse_value,
    text_in,
    JsonView,
};
use crate::state::{planned_check, Created, KvmWorkerState, Launched};
use crate::text::{ascii_lowered, contains_text, has_text, maybe_text, to_ascii_lowercase};
use crate::time::{now, random_between, UtcTime};

verus! {

/// No domain can live for longer than three hours; this is a fail-safe in case of a
/// hanging agent and the scaler fails to deregister a hanging worker for us. In seconds.
pub const DOMAIN_TIMEOUT: u64 = 10_800;

/// A domain where we have lost track of the agent and can't track its progress should be
/// destroyed in this time. In seconds.
pub const UNRESPONSIVE_DOMAIN_TIMEOUT: u64 = 600;

/// The state of the Thorium Agent in a domain
#[derive(Debug)]
pub enum AgentState {
    /// We can't tell whether the agent is running, has run, and what its status is
    Missing,
    /// The agent is definitely running
    Running,
    /// The agent definitely exited, but we don't know whether it succeeded
    Exited,
    /// The agent errored out
    Errored {
        /// The exit code of the agent
        exitcode: i64,
        /// What the agent wrote to its standard output, if that is known
        stdout: Option<String>,
        /// What the agent wrote to its standard error, if that is known
        stderr: Option<String>,
    },
    /// The agent completed without error
    Completed,
}

/// What an [`AgentState`] holds, with its texts as sequences of characters.
pub enum AgentStateView {
    /// See [`AgentState::Missing`]
    Missing,
    /// See [`AgentState::Running`]
    Running,
    /// See [`AgentState::Exited`]
    Exited,
    /// See [`AgentState::Errored`]
    Errored {
        /// The exit code of the agent
        exitcode: i64,
        /// What the agent wrote to its standard output
        stdout: Option<Seq<char>>,
        /// What the agent wrote to its standard error
        stderr: Option<Seq<char>>,
    },
    /// See [`AgentState::Completed`]
    Completed,
}

impl View for AgentState {
    type V = AgentStateView;

    open spec fn view(&self) -> AgentStateView {
        match *self {
            AgentState::Missing => AgentStateView::Missing,
            AgentState::Running => AgentStateView::Running,
            AgentState::Exited => AgentStateView::Exited,
            AgentState::Errored { exitcode, stdout, stderr } => AgentStateView::Errored {
                exitcode,
                stdout: maybe_text(stdout),
                stderr: maybe_text(stderr),
            },
            AgentState::Completed => AgentStateView::Completed,
        }
    }
}

/// Why libvirt did not do what it was asked to
#[derive(Debug)]
pub enum VirtErrorKind {
    /// There is no domain of that name
    NoDomain,
    /// The guest agent refused a command
    AgentCommandFailed,
    /// Anything else
    Other,
}

/// An error of libvirt
#[derive(Debug)]
pub struct VirtError {
    /// Why libvirt did not do what it was asked to
    pub kind: VirtErrorKind,
    /// The message of the error
    pub message: String,
}

/// What came of the question for an agent's status
#[derive(Debug)]
pub enum StatusReply {
    /// The domain could not be looked up
    LookupFailed(VirtError),
    /// It could not be found out whether the domain is active
    ActivityUnknown(VirtError),
    /// The domain is not active
    Inactive,
    /// The guest agent did not answer
    CommandFailed(VirtError),
    /// The guest agent answered
    Answered(String),
}

/// What to ask for the status of an agent
#[derive(Debug)]
pub struct StatusQuery {
    /// The domain to ask in, if it is active
    pub domain_name: String,
    /// The command to send to the guest agent
    pub command: String,
}

/// What an agent wrote, under a name in the status: base64 of UTF-8.
pub open spec fn output_in(ret: JsonView, name: Seq<char>) -> Option<Seq<char>> {
    match entry_in(ret, name) {
        Some(data) => match text_in(data) {
            Some(encoded) => match base64_bytes(encoded) {
                Some(bytes) => if valid_utf8(bytes) {
                    Some(decode_utf8(bytes))
                } else {
                    None
                },
                None => None,
            },
            None => None,
        },
        None => None,
    }
}

/// What an agent wrote, from the bytes that were decoded.
pub fn output_text(bytes: Option<Vec<u8>>) -> (r: Option<String>)
    ensures
        maybe_text(r) == match bytes {
            Some(b) => if valid_utf8(b@) {
                Some(decode_utf8(b@))
            } else {
                None
            },
            None => None,
        },
{
    match bytes {
        Some(b) => match text_from_utf8(b) {
            Ok(text) => Some(text),
            Err(_) => None,
        },
        None => None,
    }
}

/// What an agent wrote, under a name in the status.
fn output_of(ret: &Value, name: &str) -> (r: Option<String>)
    ensures
        maybe_text(r) == output_in(json_content(*ret), name@),
{
    match get(ret, name) {
        Some(data) => match as_text(data) {
            Some(encoded) => output_text(base64_decode(encoded.as_str())),
            None => None,
        },
        None => None,
    }
}

/// The state of an agent by whether it exited, with which code, and what it wrote. With an
/// exit code we know whether it succeeded, without one only whether it is still running.
pub open spec fn concluded_state(
    exited: Option<bool>,
    exitcode: Option<i64>,
    stdout: Option<Seq<char>>,
    stderr: Option<Seq<char>>,
) -> AgentStateView {
    match (exited, exitcode) {
        (_, Some(code)) => if code == 0 {
            AgentStateView::Completed
        } else {
            AgentStateView::Errored { exitcode: code, stdout, stderr }
        },
        (Some(true), None) => AgentStateView::Exited,
        (Some(false), None) => AgentStateView::Running,
        (None, None) => AgentStateView::Missing,
    }
}

/// The state of an agent by whether it exited, with which code, and what it wrote.
pub fn conclude_state(
    exited: Option<bool>,
    exitcode: Option<i64>,
    stdout: Option<String>,
    stderr: Option<String>,
) -> (r: AgentState)
    ensures
        r@ == concluded_state(exited, exitcode, maybe_text(stdout), maybe_text(stderr)),
{
    match exitcode {
        Some(code) => if code == 0 {
            AgentState::Completed
        } else {
            AgentState::Errored { exitcode: code, stdout, stderr }
        },
        None => match exited {
            Some(true) => AgentState::Exited,
            Some(false) => AgentState::Running,
            None => AgentState::Missing,
        },
    }
}

/// The state of an agent that the guest agent's answer tells of.
pub open spec fn state_in(content: JsonView) -> Result<AgentStateView, ErrorView> {
    match entry_in(content, "return"@) {
        None => Err(
            ErrorView::Generic("QEMU guest agent status response missing 'return' field"@),
        ),
        Some(ret) => Ok(
            concluded_state(
                match entry_in(ret, "exited"@) {
                    Some(v) => bool_in(v),
                    None => None,
                },
                match entry_in(ret, "exitcode"@) {
                    Some(v) => i64_in(v),
                    None => None,
                },
                output_in(ret, "out-data"@),
                output_in(ret, "err-data"@),
            ),
        ),
    }
}

/// The state of an agent that the guest agent's answer tells of.
pub fn state_of(answer: &Value) -> (r: Result<AgentState, Error>)
    ensures
        match state_in(json_content(*answer)) {
            Ok(state) => r matches Ok(s) && s@ == state,
            Err(error) => r matches Err(e) && e@ == error,
        },
{
    match get(answer, "return") {
        None => Err(Error::new("QEMU guest agent status response missing 'return' field")),
        Some(ret) => {
            let exited: Option<bool> = match get(ret, "exited") {
                Some(v) => as_bool(v),
                None => None,
            };
            let exitcode: Option<i64> = match get(ret, "exitcode") {
                Some(v) => as_i64(v),
                None => None,
            };
            let stdout: Option<String> = output_of(ret, "out-data");
            let stderr: Option<String> = output_of(ret, "err-data");
            Ok(conclude_state(exited, exitcode, stdout, stderr))
        },
    }
}

/// Whether an error of the guest agent says that there is no such process.
pub open spec fn says_no_process(error: VirtError) -> bool {
    error.kind is AgentCommandFailed && contains_text(
        ascii_lowered(error.message@),
        "not exist"@,
    )
}

/// The state of an agent by what came of the question for its status. An agent without a
/// known process is missing, and so is one in a domain that is not active or whose process
/// does not exist.
pub open spec fn reported_state(agent_pid: Option<u64>, reply: StatusReply) -> Result<
    AgentStateView,
    ErrorView,
> {
    if agent_pid is None {
        Ok(AgentStateView::Missing)
    } else {
        match reply {
            StatusReply::LookupFailed(error) => Err(ErrorView::Virt(error.message@)),
            StatusReply::ActivityUnknown(error) => Err(ErrorView::Virt(error.message@)),
            StatusReply::Inactive => Ok(AgentStateView::Missing),
            StatusReply::CommandFailed(error) => if says_no_process(error) {
                Ok(AgentStateView::Missing)
            } else {
                Err(ErrorView::Virt(error.message@))
            },
            StatusReply::Answered(answer) => match json_parsed(answer@) {
                Err(message) => Err(unreadable(message)),
                Ok(content) => state_in(content),
            },
        }
    }
}

impl Launched {
    /// Revert to the previous state at a time.
    ///
    /// * `time` - The time to take for that of the creation
    pub fn previous_state_at(self, time: UtcTime) -> (r: Created)
        ensures
            self.goes_back_to(r),
            r.created == time,
    {
        Created {
            worker: self.worker,
            guest_os: self.guest_os,
            overlay_path: self.overlay_path,
            domain_name: self.domain_name,
            created: time,
            last_launch_attempt: None,
            launch_attempts: 0,
        }
    }

    /// The time to do a health check at, a wait after a time.
    ///
    /// * `time` - The time to wait from
    /// * `secs` - The seconds to wait, anywhere from 30 to 60
    pub fn next_health_check_at(time: UtcTime, secs: u64) -> (r: UtcTime)
        requires
            30 <= secs <= 60,
        ensures
            r == time.later(secs as nat),
            planned_check(time, r),
    {
        let next: UtcTime = time.add_secs(secs);
        assert(next == time.later(secs as nat));
        next
    }

    /// Get a random time to do a health check, anywhere from 30 to 60 seconds from now.
    pub fn next_health_check() -> (r: UtcTime)
        ensures
            exists|time: UtcTime| #[trigger] planned_check(time, r),
    {
        let secs: u64 = random_between(30, 60);
        let time: UtcTime = now();
        Launched::next_health_check_at(time, secs)
    }

    /// What to ask for the state of the Thorium agent in this worker. There is nothing to
    /// ask where the agent's process is not known.
    pub fn status_query(&self) -> (r: Option<StatusQuery>)
        ensures
            r is Some <==> self.agent_pid is Some,
            r matches Some(query) ==> {
                &&& query.domain_name@ == self.domain_name@
                &&& query.command@ == json_rendered(exec_status(self.agent_pid->0 as nat))
            },
    {
        match self.agent_pid {
            Some(pid) => Some(
                StatusQuery {
                    domain_name: self.domain_name.clone(),
                    command: exec_status_command(pid),
                },
            ),
            None => None,
        }
    }

    /// Get the state of the Thorium agent in this worker at a time.
    ///
    /// Update the heartbeat of the worker if we see the agent running.
    ///
    /// * `reply` - What came of the question for the agent's status
    /// * `time` - The time of the reply
    pub fn agent_state_at(&mut self, reply: StatusReply, time: UtcTime) -> (r: Result<
        AgentState,
        Error,
    >)
        ensures
            match reported_state(old(self).agent_pid, reply) {
                Ok(state) => r matches Ok(s) && s@ == state,
                Err(error) => r matches Err(e) && e@ == error,
            },
            *final(self) == (Launched {
                heartbeat: if reported_state(old(self).agent_pid, reply) == Ok::<
                    AgentStateView,
                    ErrorView,
                >(AgentStateView::Running) {
                    time
                } else {
                    old(self).heartbeat
                },
                ..*old(self)
            }),
    {
        if self.agent_pid.is_none() {
            return Ok(AgentState::Missing);
        }
        let state: AgentState = match reply {
            StatusReply::LookupFailed(error) => return Err(Error::Virt(error.message)),
            StatusReply::ActivityUnknown(error) => return Err(Error::Virt(error.message)),
            StatusReply::Inactive => AgentState::Missing,
            StatusReply::CommandFailed(error) => {
                let refused: bool = match error.kind {
                    VirtErrorKind::AgentCommandFailed => true,
                    _ => false,
                };
                let lowered: String = to_ascii_lowercase(error.message.as_str());
                if refused && has_text(lowered.as_str(), "not exist") {
                    AgentState::Missing
                } else {
                    return Err(Error::Virt(error.message));
                }
            },
            StatusReply::Answered(answer) => match parse_value(answer.as_str()) {
                Err(message) => return Err(Error::SerdeJson(message)),
                Ok(value) => match state_of(&value) {
                    Err(error) => return Err(error),
                    Ok(state) => state,
                },
            },
        };
        if let AgentState::Running = state {
            self.heartbeat = time;
        }
        Ok(state)
    }

    /// Get the state of the Thorium agent in this worker.
    ///
    /// Update the heartbeat of the worker if we see the agent running.
    ///
    /// * `reply` - What came of the question for the agent's status
    pub fn agent_state(&mut self, reply: StatusReply) -> (r: Result<AgentState, Error>)
        ensures
            match reported_state(old(self).agent_pid, reply) {
                Ok(state) => r matches Ok(s) && s@ == state,
                Err(error) => r matches Err(e) && e@ == error,
            },
            *final(self) == (Launched { heartbeat: final(self).heartbeat, ..*old(self) }),
            reported_state(old(self).agent_pid, reply) != Ok::<AgentStateView, ErrorView>(
                AgentStateView::Running,
            ) ==> *final(self) == *old(self),
    {
        let time: UtcTime = now();
        self.agent_state_at(reply, time)
    }

    /// Returns whether this worker is due for a health check at a time.
    pub fn is_health_check_due_at(&self, time: UtcTime) -> (r: bool)
        ensures
            r == time.at_or_after(self.next_check),
    {
        time.reached(self.next_check)
    }

    /// Returns whether this worker is due for a health check.
    pub fn is_health_check_due(&self) -> (r: bool)
        ensures
            exists|time: UtcTime| r == #[trigger] time.at_or_after(self.next_check),
    {
        let time: UtcTime = now();
        self.is_health_check_due_at(time)
    }

    /// Schedule this worker for its next health check, anywhere from 30 to 60 seconds after a
    /// time.
    ///
    /// * `time` - The time to wait from
    pub fn schedule_next_health_check_at(&mut self, time: UtcTime)
        ensures
            *final(self) == (Launched { next_check: final(self).next_check, ..*old(self) }),
            planned_check(time, final(self).next_check),
    {
        let secs: u64 = random_between(30, 60);
        self.next_check = Launched::next_health_check_at(time, secs);
    }

    /// Schedule this worker for its next health check.
    pub fn schedule_next_health_check(&mut self)
        ensures
            *final(self) == (Launched { next_check: final(self).next_check, ..*old(self) }),
            exists|time: UtcTime| #[trigger] planned_check(time, final(self).next_check),
    {
        let time: UtcTime = now();
        self.schedule_next_health_check_at(time);
    }

    /// Returns whether this worker has timed out completely at a time: at or after the
    /// launch and the fail-safe timeout.
    pub fn timed_out_at(&self, time: UtcTime) -> (r: bool)
        ensures
            r == time.at_or_after(self.launched.later(DOMAIN_TIMEOUT as nat)),
    {
        time.reached(self.launched.add_secs(DOMAIN_TIMEOUT))
    }

    /// Returns whether this worker has timed out completely.
    pub fn timed_out(&self) -> (r: bool)
        ensures
            exists|time: UtcTime|
                r == #[trigger] time.at_or_after(self.launched.later(DOMAIN_TIMEOUT as nat)),
    {
        let time: UtcTime = now();
        self.timed_out_at(time)
    }

    /// Returns whether this unresponsive worker (missing agent) has timed out at a time: at
    /// or after the heartbeat and the unresponsive timeout.
    pub fn timed_out_unresponsive_at(&self, time: UtcTime) -> (r: bool)
        ensures
            r == time.at_or_after(self.heartbeat.later(UNRESPONSIVE_DOMAIN_TIMEOUT as nat)),
    {
        time.reached(self.heartbeat.add_secs(UNRESPONSIVE_DOMAIN_TIMEOUT))
    }

    /// Returns whether this unresponsive worker (missing agent) has timed out.
    pub fn timed_out_unresponsive(&self) -> (r: bool)
        ensures
            exists|time: UtcTime|
                r == #[trigger] time.at_or_after(
                    self.heartbeat.later(UNRESPONSIVE_DOMAIN_TIMEOUT as nat),
                ),
    {
        let time: UtcTime = now();
        self.timed_out_unresponsive_at(time)
    }
}

/// An agent that is seen running is not taken for unresponsive before the unresponsive
/// timeout has passed.
pub proof fn law_a_heartbeat_postpones_the_timeout(
    before: Launched,
    after: Launched,
    reply: StatusReply,
    seen: UtcTime,
    time: UtcTime,
)
    requires
        reported_state(before.agent_pid, reply) == Ok::<AgentStateView, ErrorView>(
            AgentStateView::Running,
        ),
        after == (Launched { heartbeat: seen, ..before }),
        seen.secs + UNRESPONSIVE_DOMAIN_TIMEOUT <= crate::time::MAX_SECS,
        time.secs < seen.secs + UNRESPONSIVE_DOMAIN_TIMEOUT,
    ensures
        !time.at_or_after(after.heartbeat.later(UNRESPONSIVE_DOMAIN_TIMEOUT as nat)),
{
}

} // verus!
