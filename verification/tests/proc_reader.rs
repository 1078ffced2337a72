//! Reading the process trees that Volatility 3 writes.

use thorium_reactor::proc_reader::{
    datetime_text, hit_places, parse_optional_bool, parse_optional_datetime, parse_optional_hex_u64,
    parse_optional_string, parse_optional_u32, parse_optional_u64, parse_process_line,
    parse_tabbed_process_line, parse_tree_pid, parse_whitespace_process_line,
    parse_windows_pstree_str, rule_hits, Unreadable, TOY_RULE,
};
use thorium_reactor::time::UtcTime;

const TREE: &str = "Volatility 3 Framework 2.5.0\n\
\n\
PID\tPPID\tImageFileName\tOffset(V)\tThreads\tHandles\tSessionId\tWow64\tCreateTime\tExitTime\tAudit\tCmd\tPath\n\
4\t0\tSystem\t0xfa8000c9\t101\t-\tN/A\tFalse\t2024-02-01 19:48:22.000000 UTC\tN/A\t-\t-\t-\r\n\
** 588\t4\tcsrss.exe\t0x1f\t11\t300\t0\tTrue\t2024-02-01 19:48:23.250000 UTC\t2024-02-01 19:50:00.000000 UTC\t\\Device\tcsrss.exe ObjectDirectory=\\Windows\tC:\\Windows\\csrss.exe\n\
*700 4 smss.exe 2a 2 - N/A False 2024-02-01 19:48:22.000000 UTC N/A -\n\
* 701 4 apart.exe 2a 2 - N/A False 2024-02-01 19:48:22.000000 UTC N/A -\n\
not a process\n";

#[test]
fn reads_whole_trees() {
    let processes = parse_windows_pstree_str(TREE);
    assert_eq!(processes.len(), 3);
    let system = &processes[0];
    assert_eq!(system.pid, 4);
    assert_eq!(system.parent_pid, Some(0));
    assert_eq!(system.name.as_deref(), Some("System"));
    assert_eq!(system.offset, Some(0xfa80_00c9));
    assert_eq!(system.threads, Some(101));
    assert_eq!(system.handles, None);
    assert_eq!(system.session_id, None);
    assert_eq!(system.is_wow64, Some(false));
    assert_eq!(system.create_time, Some(UtcTime { secs: 1_706_816_902, nanos: 0 }));
    assert_eq!(system.exit_time, None);
    assert_eq!(system.command, None);
    assert_eq!(system.image_path, None);
    let csrss = &processes[1];
    assert_eq!(csrss.pid, 588);
    assert_eq!(csrss.create_time, Some(UtcTime { secs: 1_706_816_903, nanos: 250_000_000 }));
    assert_eq!(csrss.exit_time, Some(UtcTime { secs: 1_706_817_000, nanos: 0 }));
    assert_eq!(csrss.command.as_deref(), Some("csrss.exe ObjectDirectory=\\Windows"));
    assert_eq!(csrss.image_path.as_deref(), Some("C:\\Windows\\csrss.exe"));
    let smss = &processes[2];
    assert_eq!(smss.pid, 700);
    assert_eq!(smss.offset, Some(0x2a));
    assert_eq!(smss.command, None);
}

#[test]
fn skips_lines_without_processes() {
    for line in ["", "   ", "<<< file", "```text", "Volatility 3 Framework 2", "PID\tPPID", "PID PPID"] {
        assert!(parse_process_line(line).is_none(), "{line}");
    }
    assert!(parse_windows_pstree_str("").is_empty());
}

#[test]
fn short_lines_are_no_processes() {
    let mut parts: Vec<String> = vec!["7".to_string(); 11];
    assert!(parse_tabbed_process_line(&parts).is_none());
    parts.push("cmd".to_string());
    let process = parse_tabbed_process_line(&parts).unwrap();
    assert_eq!(process.command.as_deref(), Some("cmd"));
    assert_eq!(process.image_path, None);
    parts[0] = "x".to_string();
    assert!(parse_tabbed_process_line(&parts).is_none());
    let line = "1 2 n 3 4 5 6 True 2024-02-01 19:48:22 UTC";
    assert!(parse_whitespace_process_line(line).is_none());
    assert!(parse_whitespace_process_line(&format!("{line} N/A")).is_some());
    assert!(parse_whitespace_process_line(&format!("{line} 2024-02-01 19:49:22")).is_none());
    let exited = parse_whitespace_process_line(&format!("{line} 2024-02-01 19:48:23 UTC")).unwrap();
    assert_eq!(exited.exit_time, Some(UtcTime { secs: 1_706_816_903, nanos: 0 }));
    assert_eq!(exited.is_wow64, Some(true));
}

#[test]
fn reads_columns() {
    assert_eq!(parse_tree_pid("*** 12 "), Some(12));
    assert_eq!(parse_tree_pid("12*"), None);
    assert_eq!(parse_optional_u64(" 18446744073709551615 "), Some(u64::MAX));
    assert_eq!(parse_optional_u64("-"), None);
    assert_eq!(parse_optional_u64("N/A"), None);
    assert_eq!(parse_optional_u64("-1"), None);
    assert_eq!(parse_optional_u32("4294967295"), Some(u32::MAX));
    assert_eq!(parse_optional_u32("4294967296"), None);
    assert_eq!(parse_optional_hex_u64("0xFF"), Some(255));
    assert_eq!(parse_optional_hex_u64("ff"), Some(255));
    assert_eq!(parse_optional_hex_u64("0x"), None);
    assert_eq!(parse_optional_hex_u64("-"), None);
    assert_eq!(parse_optional_bool(" true"), Some(true));
    assert_eq!(parse_optional_bool("False"), Some(false));
    assert_eq!(parse_optional_bool("TRUE"), None);
    assert_eq!(parse_optional_string("  a b "), Some("a b".to_string()));
    assert_eq!(parse_optional_string("  "), None);
    assert_eq!(parse_optional_string("N/A"), None);
}

#[test]
fn reads_points_in_time() {
    let epoch = UtcTime { secs: 0, nanos: 0 };
    assert_eq!(parse_optional_datetime("1970-01-01 00:00:00 UTC"), Some(epoch));
    assert_eq!(parse_optional_datetime("1970-01-01 00:00:00"), Some(epoch));
    assert_eq!(
        parse_optional_datetime("1969-12-31 23:59:59.5 UTC"),
        Some(UtcTime { secs: -1, nanos: 500_000_000 })
    );
    assert_eq!(parse_optional_datetime("N/A"), None);
    assert_eq!(parse_optional_datetime("2024-13-01 00:00:00 UTC"), None);
    assert_eq!(datetime_text(" x UTC ").as_deref(), Some("x"));
    assert_eq!(datetime_text("-"), None);
}

#[test]
fn joined_trees_have_the_processes_of_both() {
    let one = "1\t0\ta\t0x1\t1\t1\t1\tTrue\t-\t-\t-\tc\tp";
    let two = "2\t0\tb\t0x1\t1\t1\t1\tTrue\t-\t-\t-\tc\tp";
    let pids = |text: &str| -> Vec<u64> {
        parse_windows_pstree_str(text).iter().map(|process| process.pid).collect()
    };
    for first in ["", one, "nothing", &format!("{one}\r"), &format!("{two}\n")] {
        for second in ["", two, "\n", &format!("{one}\n{one}")] {
            let mut both = pids(first);
            both.extend(pids(second));
            assert_eq!(pids(&format!("{first}\n{second}")), both);
        }
    }
}

#[test]
fn rules_hit_events() {
    let events = vec![
        r#"{"threads":"11","command":"csrss MaxRequestThreads=16"}"#.to_string(),
        r#"{"threads":112,"command":"csrss MaxRequestThreads=16"}"#.to_string(),
        r#"{"threads":"12","command":"csrss MaxRequestThreads=16"}"#.to_string(),
        r#"{"command":"run ALEX \u00e4"}"#.to_string(),
        r#"{"command":null}"#.to_string(),
    ];
    assert_eq!(rule_hits(&events), Ok(vec![0, 1, 3]));
    assert_eq!(rule_hits(&Vec::new()), Ok(Vec::new()));
    let broken = vec!["{}".to_string(), "{".to_string(), "[]".to_string()];
    assert_eq!(rule_hits(&broken), Err(Unreadable::Event(1)));
    assert_eq!(hit_places(&vec![true, false, true]), vec![0, 2]);
    assert!(sigma_rust::rule_from_yaml(TOY_RULE).is_ok());
}
