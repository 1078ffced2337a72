//! The commands that are sent to the QEMU guest agent, and what its responses say.

use thorium_reactor::error::Error;
use thorium_reactor::guest_agent::{
    check_answer, check_write, exec_command, exec_status_command, file_close_command,
    file_flush_command, file_handle, file_open_command, file_write_command, handle_of, pid_of,
    started_pid, write_failure_of,
};

#[test]
fn commands_are_compact_json() {
    assert_eq!(
        file_open_command("C:\\thorium-keys.yml"),
        r#"{"arguments":{"mode":"wb","path":"C:\\thorium-keys.yml"},"execute":"guest-file-open"}"#
    );
    assert_eq!(
        file_write_command(1000, b"hello"),
        r#"{"arguments":{"buf-b64":"aGVsbG8=","handle":1000},"execute":"guest-file-write"}"#
    );
    assert_eq!(
        file_write_command(-1, b""),
        r#"{"arguments":{"buf-b64":"","handle":-1},"execute":"guest-file-write"}"#
    );
    assert_eq!(
        file_flush_command(7),
        r#"{"arguments":{"handle":7},"execute":"guest-file-flush"}"#
    );
    assert_eq!(
        file_close_command(7),
        r#"{"arguments":{"handle":7},"execute":"guest-file-close"}"#
    );
    assert_eq!(
        exec_status_command(u64::MAX),
        r#"{"arguments":{"pid":18446744073709551615},"execute":"guest-exec-status"}"#
    );
    let args = vec!["+x".to_string(), "/thorium-agent".to_string()];
    assert_eq!(
        exec_command("/bin/chmod", &args, false),
        r#"{"arguments":{"arg":["+x","/thorium-agent"],"path":"/bin/chmod"},"execute":"guest-exec"}"#
    );
    assert_eq!(
        exec_command("/thorium-agent", &Vec::new(), true),
        r#"{"arguments":{"arg":[],"capture-output":true,"path":"/thorium-agent"},"execute":"guest-exec"}"#
    );
}

#[test]
fn commands_read_back() {
    let args = vec!["a \"quoted\" word".to_string(), "ä\n".to_string()];
    let value: serde_json::Value =
        serde_json::from_str(&exec_command("/bin/x", &args, true)).unwrap();
    assert_eq!(value["execute"], "guest-exec");
    assert_eq!(value["arguments"]["path"], "/bin/x");
    assert_eq!(value["arguments"]["arg"][0], "a \"quoted\" word");
    assert_eq!(value["arguments"]["arg"][1], "ä\n");
    assert_eq!(value["arguments"]["capture-output"], true);
}

#[test]
fn reads_file_handles() {
    assert_eq!(file_handle(r#"{"return":1000}"#).unwrap(), 1000);
    assert_eq!(file_handle(r#"{"return":-3}"#).unwrap(), -3);
    assert_eq!(
        file_handle(r#"{"error":{}}"#).unwrap_err().msg(),
        "Failed to get file handle from guest agent: missing 'return' field"
    );
    assert_eq!(
        file_handle("[1]").unwrap_err().msg(),
        "Failed to get file handle from guest agent: missing 'return' field"
    );
    for text in [
        r#"{"return":"1000"}"#,
        r#"{"return":1.5}"#,
        r#"{"return":9223372036854775808}"#,
        r#"{"return":null}"#,
    ] {
        assert_eq!(
            file_handle(text).unwrap_err().msg(),
            "Failed to get file handle from guest agent: 'return' field is not an integer"
        );
    }
    match file_handle("{") {
        Err(Error::SerdeJson(text)) => {
            assert_eq!(text, "EOF while parsing an object at line 1 column 1")
        }
        other => panic!("expected SerdeJson error, got {other:?}"),
    }
}

#[test]
fn reads_write_errors() {
    assert!(check_write(r#"{"return":{"count":5,"eof":false}}"#).is_ok());
    // an error that is no object is none
    assert!(check_write(r#"{"error":"no"}"#).is_ok());
    assert_eq!(
        check_write(r#"{"error":{"desc":"full","class":"GenericError"}}"#).unwrap_err().msg(),
        "QEMU guest agent write failed: {\"class\": String(\"GenericError\"), \"desc\": String(\"full\")}"
    );
    assert_eq!(check_write("nope").unwrap_err().kind(), "SerdeJson");
    assert!(check_answer("{}").is_ok());
    assert!(check_answer("3").is_ok());
    assert_eq!(check_answer("").unwrap_err().kind(), "SerdeJson");
}

#[test]
fn reads_process_ids() {
    assert_eq!(started_pid(r#"{"return":{"pid":42}}"#, "no: ").unwrap(), 42);
    for text in [
        r#"{"return":{"pid":-1}}"#,
        r#"{"return":{}}"#,
        r#"{"return":7}"#,
        r#"{}"#,
    ] {
        assert_eq!(
            started_pid(text, "Failed to launch agent: ").unwrap_err().msg(),
            format!("Failed to launch agent: {text}")
        );
    }
    assert_eq!(started_pid("{", "no: ").unwrap_err().kind(), "SerdeJson");
}

#[test]
fn reads_values_that_were_parsed() {
    let value: serde_json::Value = serde_json::from_str(r#"{"return":5}"#).unwrap();
    assert_eq!(handle_of(&value).unwrap(), 5);
    assert!(write_failure_of(&value).is_none());
    assert_eq!(pid_of(&value), None);
    let value: serde_json::Value = serde_json::from_str(r#"{"return":{"pid":5}}"#).unwrap();
    assert!(handle_of(&value).is_err());
    assert_eq!(pid_of(&value), Some(5));
    let value: serde_json::Value = serde_json::from_str(r#"{"error":{}}"#).unwrap();
    assert_eq!(
        write_failure_of(&value).unwrap().msg(),
        "QEMU guest agent write failed: {}"
    );
}
