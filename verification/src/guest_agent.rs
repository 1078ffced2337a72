//! The commands that are sent to the QEMU guest agent, and what its responses say.

use serde_json::Value;
use vstd::prelude::*;

use crate::encoding::{base64_bytes, base64_encode, base64_text};
use crate::error::{Error, ErrorView};
use crate::json::{
    array_value,
    as_i64,
    as_u64,
    bool_value,
    contents,
    empty_object,
    entries_text,
    entry_in,
    get,
    i64_in,
    i64_value,
    int_number,
    json_content,
    json_entries_text,
    json_parsed,
    json_rendered,
    parse_value,
    put,
    render,
    text_value,
    u64_in,
    u64_value,
    JsonView,
};
use crate::text::{join2, texts};

verus! {

/// What a command of the guest agent with its arguments is in JSON.
pub open spec fn command(execute: Seq<char>, arguments: Map<Seq<char>, JsonView>) -> JsonView {
    JsonView::Object(
        Map::empty().insert("execute"@, JsonView::Text(execute)).insert(
            "arguments"@,
            JsonView::Object(arguments),
        ),
    )
}

/// The command that opens a file on the guest for writing.
pub open spec fn file_open(path: Seq<char>) -> JsonView {
    command(
        "guest-file-open"@,
        Map::empty().insert("path"@, JsonView::Text(path)).insert("mode"@, JsonView::Text("wb"@)),
    )
}

/// The command that writes bytes to an open file on the guest.
pub open spec fn file_write(handle: int, bytes: Seq<u8>) -> JsonView {
    command(
        "guest-file-write"@,
        Map::empty().insert("handle"@, JsonView::Number(int_number(handle))).insert(
            "buf-b64"@,
            JsonView::Text(base64_text(bytes)),
        ),
    )
}

/// A command on an open file of the guest.
pub open spec fn file_command(execute: Seq<char>, handle: int) -> JsonView {
    command(execute, Map::empty().insert("handle"@, JsonView::Number(int_number(handle))))
}

/// The texts of a list as values.
pub open spec fn text_values(list: Seq<Seq<char>>) -> Seq<JsonView> {
    list.map_values(|text: Seq<char>| JsonView::Text(text))
}

/// The arguments of a command that runs a program on the guest.
pub open spec fn exec_arguments(path: Seq<char>, args: Seq<Seq<char>>) -> Map<
    Seq<char>,
    JsonView,
> {
    Map::empty().insert("path"@, JsonView::Text(path)).insert(
        "arg"@,
        JsonView::Array(text_values(args)),
    )
}

/// The command that runs a program on the guest.
pub open spec fn exec(path: Seq<char>, args: Seq<Seq<char>>, capture_output: bool) -> JsonView {
    if capture_output {
        command(
            "guest-exec"@,
            exec_arguments(path, args).insert("capture-output"@, JsonView::Bool(true)),
        )
    } else {
        command("guest-exec"@, exec_arguments(path, args))
    }
}

/// The command that asks for the status of a process on the guest.
pub open spec fn exec_status(pid: nat) -> JsonView {
    command(
        "guest-exec-status"@,
        Map::empty().insert("pid"@, JsonView::Number(int_number(pid as int))),
    )
}

/// A command of the guest agent, as the text that is sent.
fn command_text(execute: &str, arguments: Value) -> (r: String)
    requires
        json_content(arguments) is Object,
    ensures
        r@ == json_rendered(command(execute@, json_content(arguments)->Object_0)),
{
    let mut whole: Value = empty_object();
    put(&mut whole, "execute", text_value(execute));
    put(&mut whole, "arguments", arguments);
    render(&whole)
}

/// The command that opens a file on the guest for writing.
///
/// * `path` - The path of the file on the guest
pub fn file_open_command(path: &str) -> (r: String)
    ensures
        r@ == json_rendered(file_open(path@)),
{
    let mut arguments: Value = empty_object();
    put(&mut arguments, "path", text_value(path));
    put(&mut arguments, "mode", text_value("wb"));
    command_text("guest-file-open", arguments)
}

/// The command that writes bytes, encoded as base64, to an open file on the guest.
///
/// * `handle` - The handle of the file on the guest
/// * `bytes` - The bytes to write
pub fn file_write_command(handle: i64, bytes: &[u8]) -> (r: String)
    requires
        (bytes@.len() + 2) / 3 * 4 <= isize::MAX,
    ensures
        r@ == json_rendered(file_write(handle as int, bytes@)),
        base64_bytes(base64_text(bytes@)) == Some(bytes@),
{
    let mut arguments: Value = empty_object();
    put(&mut arguments, "handle", i64_value(handle));
    let encoded: String = base64_encode(bytes);
    put(&mut arguments, "buf-b64", text_value(encoded.as_str()));
    command_text("guest-file-write", arguments)
}

/// The command that flushes an open file on the guest.
pub fn file_flush_command(handle: i64) -> (r: String)
    ensures
        r@ == json_rendered(file_command("guest-file-flush"@, handle as int)),
{
    let mut arguments: Value = empty_object();
    put(&mut arguments, "handle", i64_value(handle));
    command_text("guest-file-flush", arguments)
}

/// The command that closes an open file on the guest.
pub fn file_close_command(handle: i64) -> (r: String)
    ensures
        r@ == json_rendered(file_command("guest-file-close"@, handle as int)),
{
    let mut arguments: Value = empty_object();
    put(&mut arguments, "handle", i64_value(handle));
    command_text("guest-file-close", arguments)
}

/// The command that runs a program on the guest.
///
/// * `path` - The path of the program on the guest
/// * `args` - The arguments to pass to the program
/// * `capture_output` - Whether the agent keeps what the program writes
pub fn exec_command(path: &str, args: &Vec<String>, capture_output: bool) -> (r: String)
    ensures
        r@ == json_rendered(exec(path@, texts(args@), capture_output)),
{
    let mut list: Vec<Value> = Vec::new();
    for i in 0..args.len()
        invariant
            list@.len() == i,
            forall|j: int|
                0 <= j < i ==> json_content(#[trigger] list@[j]) == JsonView::Text(args@[j]@),
    {
        list.push(text_value(args[i].as_str()));
    }
    assert(contents(list@) =~= text_values(texts(args@)));
    let mut arguments: Value = empty_object();
    put(&mut arguments, "path", text_value(path));
    put(&mut arguments, "arg", array_value(list));
    if capture_output {
        put(&mut arguments, "capture-output", bool_value(true));
    }
    command_text("guest-exec", arguments)
}

/// The command that asks for the status of a process on the guest.
///
/// * `pid` - The id of the process on the guest
pub fn exec_status_command(pid: u64) -> (r: String)
    ensures
        r@ == json_rendered(exec_status(pid as nat)),
{
    let mut arguments: Value = empty_object();
    put(&mut arguments, "pid", u64_value(pid));
    command_text("guest-exec-status", arguments)
}

/// The error for a response that is no JSON.
pub open spec fn unreadable(message: Seq<char>) -> ErrorView {
    ErrorView::SerdeJson(message)
}

/// The handle that a response to the opening of a file holds.
pub open spec fn handle_in(content: JsonView) -> Result<i64, ErrorView> {
    match entry_in(content, "return"@) {
        None => Err(
            ErrorView::Generic(
                "Failed to get file handle from guest agent: missing 'return' field"@,
            ),
        ),
        Some(ret) => match i64_in(ret) {
            None => Err(
                ErrorView::Generic(
                    "Failed to get file handle from guest agent: 'return' field is not an integer"@,
                ),
            ),
            Some(handle) => Ok(handle),
        },
    }
}

/// The handle that a response to the opening of a file holds.
pub fn handle_of(response: &Value) -> (r: Result<i64, Error>)
    ensures
        match handle_in(json_content(*response)) {
            Ok(handle) => r == Ok::<i64, Error>(handle),
            Err(error) => r matches Err(e) && e@ == error,
        },
{
    match get(response, "return") {
        None => Err(
            Error::new("Failed to get file handle from guest agent: missing 'return' field"),
        ),
        Some(ret) => match as_i64(ret) {
            None => Err(
                Error::new(
                    "Failed to get file handle from guest agent: 'return' field is not an integer",
                ),
            ),
            Some(handle) => Ok(handle),
        },
    }
}

/// The handle that the guest agent gives a file it opened, from its response.
pub fn file_handle(response: &str) -> (r: Result<i64, Error>)
    ensures
        match json_parsed(response@) {
            Err(message) => r matches Err(e) && e@ == unreadable(message),
            Ok(content) => match handle_in(content) {
                Ok(handle) => r == Ok::<i64, Error>(handle),
                Err(error) => r matches Err(e) && e@ == error,
            },
        },
{
    match parse_value(response) {
        Err(message) => Err(Error::SerdeJson(message)),
        Ok(value) => handle_of(&value),
    }
}

/// The error that a response to a write reports, if it does.
pub open spec fn write_failure_in(content: JsonView) -> Option<ErrorView> {
    match entry_in(content, "error"@) {
        Some(JsonView::Object(entries)) => Some(
            ErrorView::Generic(
                "QEMU guest agent write failed: "@ + json_entries_text(entries),
            ),
        ),
        _ => None,
    }
}

/// The error that a response to a write reports, if it does.
pub fn write_failure_of(response: &Value) -> (r: Option<Error>)
    ensures
        match write_failure_in(json_content(*response)) {
            Some(error) => r matches Some(e) && e@ == error,
            None => r is None,
        },
{
    match get(response, "error") {
        None => None,
        Some(error) => match entries_text(error) {
            None => None,
            Some(text) => Some(
                Error::Generic(join2("QEMU guest agent write failed: ", text.as_str())),
            ),
        },
    }
}

/// Whether the guest agent wrote what it was sent, from its response.
pub fn check_write(response: &str) -> (r: Result<(), Error>)
    ensures
        match json_parsed(response@) {
            Err(message) => r matches Err(e) && e@ == unreadable(message),
            Ok(content) => match write_failure_in(content) {
                Some(error) => r matches Err(e) && e@ == error,
                None => r is Ok,
            },
        },
{
    match parse_value(response) {
        Err(message) => Err(Error::SerdeJson(message)),
        Ok(value) => match write_failure_of(&value) {
            Some(error) => Err(error),
            None => Ok(()),
        },
    }
}

/// Whether the guest agent answered a command with JSON.
pub fn check_answer(response: &str) -> (r: Result<(), Error>)
    ensures
        match json_parsed(response@) {
            Err(message) => r matches Err(e) && e@ == unreadable(message),
            Ok(_) => r is Ok,
        },
{
    match parse_value(response) {
        Err(message) => Err(Error::SerdeJson(message)),
        Ok(_) => Ok(()),
    }
}

/// The id of the process that a response to the start of a program holds.
pub open spec fn pid_in(content: JsonView) -> Option<u64> {
    match entry_in(content, "return"@) {
        Some(ret) => match entry_in(ret, "pid"@) {
            Some(pid) => u64_in(pid),
            None => None,
        },
        None => None,
    }
}

/// The id of the process that a response to the start of a program holds.
pub fn pid_of(response: &Value) -> (r: Option<u64>)
    ensures
        r == pid_in(json_content(*response)),
{
    match get(response, "return") {
        Some(ret) => match get(ret, "pid") {
            Some(pid) => as_u64(pid),
            None => None,
        },
        None => None,
    }
}

/// The id of the process that the guest agent started, from its response.
///
/// * `response` - The response of the guest agent
/// * `failure` - What to say, before the response itself, where it holds no process id
pub fn started_pid(response: &str, failure: &str) -> (r: Result<u64, Error>)
    ensures
        match json_parsed(response@) {
            Err(message) => r matches Err(e) && e@ == unreadable(message),
            Ok(content) => match pid_in(content) {
                Some(pid) => r == Ok::<u64, Error>(pid),
                None => r matches Err(e) && e@ == ErrorView::Generic(failure@ + response@),
            },
        },
{
    match parse_value(response) {
        Err(message) => Err(Error::SerdeJson(message)),
        Ok(value) => match pid_of(&value) {
            Some(pid) => Ok(pid),
            None => Err(Error::Generic(join2(failure, response))),
        },
    }
}

} // verus!
