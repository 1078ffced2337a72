//! The protocol of the QEMU guest agent: its commands and its responses.

use vstd::prelude::*;
use vstd::utf8::{decode_utf8, valid_utf8};

use crate::encoding::{base64_bytes, base64_text};
use crate::error::{Error, ErrorView};
use crate::guest_agent::{
    check_answer,
    check_write,
    exec_command,
    exec_status_command,
    file_close_command,
    file_flush_command,
    file_handle,
    file_open_command,
    file_write_command,
    started_pid,
    text_values,
};
use crate::json::{json_entries_text, json_parsed, json_rendered, JsonView, NumberView};
use crate::state::launched::output_text;
use crate::text::{maybe_text, texts};

verus! {

/// An integer as a number in JSON.
pub open spec fn number(n: int) -> JsonView {
    JsonView::Number(
        if n >= 0 {
            NumberView::Positive(n as nat)
        } else {
            NumberView::Negative(n)
        },
    )
}

/// A file is opened by its path, for writing and in binary mode.
pub proof fn law_files_are_opened_by_their_path(path: &str, r: String)
    requires
        call_ensures(file_open_command, (path,), r),
    ensures
        r@ == json_rendered(
            JsonView::Object(
                map![
                    "execute"@ => JsonView::Text("guest-file-open"@),
                    "arguments"@ => JsonView::Object(map![
                        "path"@ => JsonView::Text(path@),
                        "mode"@ => JsonView::Text("wb"@),
                    ]),
                ],
            ),
        ),
{
}

/// Bytes are written to a file by its handle, in base64.
pub proof fn law_bytes_are_written_in_base64(handle: i64, bytes: &[u8], r: String)
    requires
        (bytes@.len() + 2) / 3 * 4 <= isize::MAX,
        call_ensures(file_write_command, (handle, bytes), r),
    ensures
        r@ == json_rendered(
            JsonView::Object(
                map![
                    "execute"@ => JsonView::Text("guest-file-write"@),
                    "arguments"@ => JsonView::Object(map![
                        "handle"@ => number(handle as int),
                        "buf-b64"@ => JsonView::Text(base64_text(bytes@)),
                    ]),
                ],
            ),
        ),
        base64_bytes(base64_text(bytes@)) == Some(bytes@),
{
}

/// A file is flushed and closed by its handle.
pub proof fn law_files_are_finished_by_their_handle(handle: i64, flush: String, close: String)
    requires
        call_ensures(file_flush_command, (handle,), flush),
        call_ensures(file_close_command, (handle,), close),
    ensures
        flush@ == json_rendered(
            JsonView::Object(
                map![
                    "execute"@ => JsonView::Text("guest-file-flush"@),
                    "arguments"@ => JsonView::Object(map!["handle"@ => number(handle as int)]),
                ],
            ),
        ),
        close@ == json_rendered(
            JsonView::Object(
                map![
                    "execute"@ => JsonView::Text("guest-file-close"@),
                    "arguments"@ => JsonView::Object(map!["handle"@ => number(handle as int)]),
                ],
            ),
        ),
{
}

/// A program is run by its path with its arguments in order, and its output is kept where that is
/// asked for.
pub proof fn law_programs_are_run_with_their_arguments(
    path: &str,
    args: Vec<String>,
    capture: bool,
    r: String,
)
    requires
        call_ensures(exec_command, (path, &args, capture), r),
    ensures
        ({
            let list = JsonView::Array(Seq::new(args@.len(), |i: int| JsonView::Text(args@[i]@)));
            &&& capture ==> r@ == json_rendered(
                JsonView::Object(
                    map![
                        "execute"@ => JsonView::Text("guest-exec"@),
                        "arguments"@ => JsonView::Object(map![
                            "path"@ => JsonView::Text(path@),
                            "arg"@ => list,
                            "capture-output"@ => JsonView::Bool(true),
                        ]),
                    ],
                ),
            )
            &&& !capture ==> r@ == json_rendered(
                JsonView::Object(
                    map![
                        "execute"@ => JsonView::Text("guest-exec"@),
                        "arguments"@ => JsonView::Object(map![
                            "path"@ => JsonView::Text(path@),
                            "arg"@ => list,
                        ]),
                    ],
                ),
            )
        }),
{
    assert(text_values(texts(args@)) =~= Seq::new(
        args@.len(),
        |i: int| JsonView::Text(args@[i]@),
    ));
}

/// A process is asked for by its PID.
pub proof fn law_processes_are_asked_for_by_pid(pid: u64, r: String)
    requires
        call_ensures(exec_status_command, (pid,), r),
    ensures
        r@ == json_rendered(
            JsonView::Object(
                map![
                    "execute"@ => JsonView::Text("guest-exec-status"@),
                    "arguments"@ => JsonView::Object(map!["pid"@ => number(pid as int)]),
                ],
            ),
        ),
{
}

/// The handle of a file is the integer that the response returns. Anything else is an error that
/// says what is missing.
pub proof fn law_responses_give_the_handle(
    response: &str,
    entries: Map<Seq<char>, JsonView>,
    n: int,
    r: Result<i64, Error>,
)
    requires
        call_ensures(file_handle, (response,), r),
        json_parsed(response@) == Ok::<JsonView, Seq<char>>(JsonView::Object(entries)),
    ensures
        i64::MIN <= n <= i64::MAX && entries.contains_pair("return"@, number(n)) ==> (r matches Ok(
            handle,
        ) && handle == n),
        !entries.dom().contains("return"@) ==> (r matches Err(e) && e@ == ErrorView::Generic(
            "Failed to get file handle from guest agent: missing 'return' field"@,
        )),
        entries.dom().contains("return"@) && !(entries["return"@] is Number) ==> (r matches Err(e)
            && e@ == ErrorView::Generic(
            "Failed to get file handle from guest agent: 'return' field is not an integer"@,
        )),
{
}

/// A write has failed where the response tells of an error, which is shown.
pub proof fn law_responses_tell_of_failed_writes(
    response: &str,
    entries: Map<Seq<char>, JsonView>,
    error: Map<Seq<char>, JsonView>,
    r: Result<(), Error>,
)
    requires
        call_ensures(check_write, (response,), r),
        json_parsed(response@) == Ok::<JsonView, Seq<char>>(JsonView::Object(entries)),
    ensures
        entries.contains_pair("error"@, JsonView::Object(error)) ==> (r matches Err(e) && e@
            == ErrorView::Generic("QEMU guest agent write failed: "@ + json_entries_text(error))),
        !(entries.dom().contains("error"@) && entries["error"@] is Object) ==> r is Ok,
{
}

/// The PID of a program that was started is the one that the response returns. Without one, the
/// error shows the response.
pub proof fn law_responses_give_the_pid(
    response: &str,
    failure: &str,
    entries: Map<Seq<char>, JsonView>,
    returned: Map<Seq<char>, JsonView>,
    n: int,
    r: Result<u64, Error>,
)
    requires
        call_ensures(started_pid, (response, failure), r),
        json_parsed(response@) == Ok::<JsonView, Seq<char>>(JsonView::Object(entries)),
    ensures
        0 <= n <= u64::MAX && entries.contains_pair("return"@, JsonView::Object(returned))
            && returned.contains_pair("pid"@, number(n)) ==> (r matches Ok(pid) && pid == n),
        n < 0 && entries.contains_pair("return"@, JsonView::Object(returned))
            && returned.contains_pair("pid"@, number(n)) ==> r is Err,
        !entries.dom().contains("return"@) ==> r is Err,
        entries.contains_pair("return"@, JsonView::Object(returned)) && !returned.dom().contains(
            "pid"@,
        ) ==> r is Err,
        r matches Err(e) ==> e@ == ErrorView::Generic(failure@ + response@),
{
}

/// A response that is no JSON is an error to all commands.
pub proof fn law_unreadable_responses_are_errors(
    response: &str,
    failure: &str,
    message: Seq<char>,
    handle: Result<i64, Error>,
    write: Result<(), Error>,
    answer: Result<(), Error>,
    pid: Result<u64, Error>,
)
    requires
        call_ensures(file_handle, (response,), handle),
        call_ensures(check_write, (response,), write),
        call_ensures(check_answer, (response,), answer),
        call_ensures(started_pid, (response, failure), pid),
    ensures
        json_parsed(response@) == Err::<JsonView, Seq<char>>(message) ==> {
            &&& handle matches Err(e) && e@ == ErrorView::SerdeJson(message)
            &&& write matches Err(e) && e@ == ErrorView::SerdeJson(message)
            &&& answer matches Err(e) && e@ == ErrorView::SerdeJson(message)
            &&& pid matches Err(e) && e@ == ErrorView::SerdeJson(message)
        },
        json_parsed(response@) is Ok ==> answer is Ok,
{
}

/// What an agent wrote is text where it is valid UTF-8, and else is left out.
pub proof fn law_output_is_text(bytes: Option<Vec<u8>>, r: Option<String>)
    requires
        call_ensures(output_text, (bytes,), r),
    ensures
        r is Some <==> (bytes matches Some(b) && valid_utf8(b@)),
        bytes matches Some(b) ==> (r matches Some(text) ==> text@ == decode_utf8(b@)),
{
    assert(r is Some <==> maybe_text(r) is Some);
}

} // verus!
