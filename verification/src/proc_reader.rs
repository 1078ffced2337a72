//! Parse the process trees that Volatility 3 writes of Windows hosts.

use vstd::prelude::*;

use crate::number::{parse_unsigned, unsigned_value};
use crate::text::{
    begins_with,
    join5,
    lemma_pieces_joined,
    lemma_pieces_push,
    lines,
    lines_of,
    maybe_text,
    pieces,
    same_text,
    split,
    split_whitespace,
    starts_with,
    strip_prefix,
    strip_suffix,
    texts,
    trim,
    trim_start_matches,
    trimmed,
    trimmed_start,
    white_space,
    without_carriage_return,
    without_leading,
    without_prefix,
    without_suffix,
    words,
};
use crate::time::UtcTime;

verus! {

/// A process on a Windows host
#[derive(Debug)]
pub struct WindowsProcessEntity {
    /// This processes id
    pub pid: u64,
    /// This processes parent PID
    pub parent_pid: Option<u64>,
    /// The name of the executable for this processes
    pub name: Option<String>,
    /// The path to this executable
    pub image_path: Option<String>,
    /// The full cmd for this process
    pub command: Option<String>,
    /// The offset for this process
    pub offset: Option<u64>,
    /// the number of threads this process spawned
    pub threads: Option<u32>,
    /// The number of handles this process had open
    pub handles: Option<u32>,
    /// Whether this process is using the wow64 emulator or not
    pub is_wow64: Option<bool>,
    /// The session id for this process
    pub session_id: Option<u32>,
    /// When this process was spawned (not created in Thorium)
    pub create_time: Option<UtcTime>,
    /// When this process exited
    pub exit_time: Option<UtcTime>,
}

/// What a [`WindowsProcessEntity`] holds, with its texts as sequences of characters.
pub struct ProcessView {
    /// The process id
    pub pid: u64,
    /// The id of the parent
    pub parent_pid: Option<u64>,
    /// The name of the executable
    pub name: Option<Seq<char>>,
    /// The path to the executable
    pub image_path: Option<Seq<char>>,
    /// The full command
    pub command: Option<Seq<char>>,
    /// The offset
    pub offset: Option<u64>,
    /// The number of threads
    pub threads: Option<u32>,
    /// The number of handles
    pub handles: Option<u32>,
    /// Whether the wow64 emulator is used
    pub is_wow64: Option<bool>,
    /// The session id
    pub session_id: Option<u32>,
    /// When the process was spawned
    pub create_time: Option<UtcTime>,
    /// When the process exited
    pub exit_time: Option<UtcTime>,
}

impl View for WindowsProcessEntity {
    type V = ProcessView;

    open spec fn view(&self) -> ProcessView {
        ProcessView {
            pid: self.pid,
            parent_pid: self.parent_pid,
            name: maybe_text(self.name),
            image_path: maybe_text(self.image_path),
            command: maybe_text(self.command),
            offset: self.offset,
            threads: self.threads,
            handles: self.handles,
            is_wow64: self.is_wow64,
            session_id: self.session_id,
            create_time: self.create_time,
            exit_time: self.exit_time,
        }
    }
}

/// Whether a text stands for a missing value.
pub open spec fn is_missing(text: Seq<char>) -> bool {
    text == "-"@ || text == "N/A"@
}

fn stands_for_missing(text: &str) -> (r: bool)
    ensures
        r == is_missing(text@),
{
    same_text(text, "-") || same_text(text, "N/A")
}

/// A number as 64 bits.
pub open spec fn as_u64(value: Option<nat>) -> Option<u64> {
    match value {
        Some(n) => Some(n as u64),
        None => None,
    }
}

/// A number as 32 bits.
pub open spec fn as_u32(value: Option<nat>) -> Option<u32> {
    match value {
        Some(n) => Some(n as u32),
        None => None,
    }
}

/// The process id of an entry in a tree: a number behind asterisks for its depth.
pub open spec fn tree_pid(raw: Seq<char>) -> Option<u64> {
    as_u64(unsigned_value(trimmed(without_leading(raw, '*')), 10, u64::MAX as nat))
}

/// Parse the process id of an entry in a tree.
pub fn parse_tree_pid(raw: &str) -> (r: Option<u64>)
    ensures
        r == tree_pid(raw@),
{
    let behind: String = trim_start_matches(raw, '*');
    let cleaned: String = trim(behind.as_str());
    parse_unsigned(cleaned.as_str(), 10, u64::MAX)
}

/// A number that may be missing.
pub open spec fn optional_u64(raw: Seq<char>) -> Option<u64> {
    if is_missing(trimmed(raw)) {
        None
    } else {
        as_u64(unsigned_value(trimmed(raw), 10, u64::MAX as nat))
    }
}

/// Parse a number that may be missing.
pub fn parse_optional_u64(raw: &str) -> (r: Option<u64>)
    ensures
        r == optional_u64(raw@),
{
    let s: String = trim(raw);
    if stands_for_missing(s.as_str()) {
        None
    } else {
        parse_unsigned(s.as_str(), 10, u64::MAX)
    }
}

/// A number of 32 bits that may be missing.
pub open spec fn optional_u32(raw: Seq<char>) -> Option<u32> {
    if is_missing(trimmed(raw)) {
        None
    } else {
        as_u32(unsigned_value(trimmed(raw), 10, u32::MAX as nat))
    }
}

/// Parse a number of 32 bits that may be missing.
pub fn parse_optional_u32(raw: &str) -> (r: Option<u32>)
    ensures
        r == optional_u32(raw@),
{
    let s: String = trim(raw);
    if stands_for_missing(s.as_str()) {
        None
    } else {
        match parse_unsigned(s.as_str(), 10, u32::MAX as u64) {
            Some(n) => Some(n as u32),
            None => None,
        }
    }
}

/// A hexadecimal number, with or without `0x` before it, that may be missing.
pub open spec fn optional_hex_u64(raw: Seq<char>) -> Option<u64> {
    let s = trimmed(raw);
    if is_missing(s) {
        None
    } else {
        let digits = match without_prefix(s, "0x"@) {
            Some(rest) => rest,
            None => s,
        };
        as_u64(unsigned_value(digits, 16, u64::MAX as nat))
    }
}

/// Parse a hexadecimal number that may be missing.
pub fn parse_optional_hex_u64(raw: &str) -> (r: Option<u64>)
    ensures
        r == optional_hex_u64(raw@),
{
    let s: String = trim(raw);
    if stands_for_missing(s.as_str()) {
        return None;
    }
    let digits: String = match strip_prefix(s.as_str(), "0x") {
        Some(rest) => rest,
        None => s,
    };
    parse_unsigned(digits.as_str(), 16, u64::MAX)
}

/// A yes or no that may be missing.
pub open spec fn optional_bool(raw: Seq<char>) -> Option<bool> {
    let s = trimmed(raw);
    if s == "True"@ || s == "true"@ {
        Some(true)
    } else if s == "False"@ || s == "false"@ {
        Some(false)
    } else {
        None
    }
}

/// Parse a yes or no that may be missing.
pub fn parse_optional_bool(raw: &str) -> (r: Option<bool>)
    ensures
        r == optional_bool(raw@),
{
    let s: String = trim(raw);
    if same_text(s.as_str(), "True") || same_text(s.as_str(), "true") {
        Some(true)
    } else if same_text(s.as_str(), "False") || same_text(s.as_str(), "false") {
        Some(false)
    } else {
        None
    }
}

/// A text that may be missing.
pub open spec fn optional_string(raw: Seq<char>) -> Option<Seq<char>> {
    let s = trimmed(raw);
    if s == ""@ || is_missing(s) {
        None
    } else {
        Some(s)
    }
}

/// Parse a text that may be missing.
pub fn parse_optional_string(raw: &str) -> (r: Option<String>)
    ensures
        maybe_text(r) == optional_string(raw@),
{
    let s: String = trim(raw);
    if same_text(s.as_str(), "") || stands_for_missing(s.as_str()) {
        None
    } else {
        Some(s)
    }
}

/// The point in time that a text in a format is in UTC.
pub uninterp spec fn datetime_parsed(text: Seq<char>, format: Seq<char>) -> Option<UtcTime>;

/// `chrono::NaiveDateTime::parse_from_str` and `and_utc`: the point in time that a text in a
/// format is in UTC. The two texts alone determine it.
#[verifier::external_body]
fn parse_datetime(text: &str, format: &str) -> (r: Option<UtcTime>)
    ensures
        r == datetime_parsed(text@, format@),
{
    let parsed = chrono::NaiveDateTime::parse_from_str(text, format).ok()?.and_utc();
    Some(UtcTime { secs: parsed.timestamp(), nanos: parsed.timestamp_subsec_nanos() })
}

/// The text of a point in time without the time zone behind it.
pub open spec fn without_zone(text: Seq<char>) -> Seq<char> {
    match without_suffix(text, " UTC"@) {
        Some(rest) => rest,
        None => text,
    }
}

/// A point in time that may be missing, e.g. `2024-02-01 19:48:22.000000 UTC`.
pub open spec fn optional_datetime(raw: Seq<char>) -> Option<UtcTime> {
    let s = trimmed(raw);
    if is_missing(s) {
        None
    } else {
        datetime_parsed(without_zone(s), "%Y-%m-%d %H:%M:%S%.f"@)
    }
}

/// The text of a point in time, ready to be parsed, where it is not missing.
pub fn datetime_text(raw: &str) -> (r: Option<String>)
    ensures
        r is None <==> is_missing(trimmed(raw@)),
        r matches Some(text) ==> text@ == without_zone(trimmed(raw@)),
{
    let s: String = trim(raw);
    if stands_for_missing(s.as_str()) {
        return None;
    }
    match strip_suffix(s.as_str(), " UTC") {
        Some(rest) => Some(rest),
        None => Some(s),
    }
}

/// Parse a point in time that may be missing.
pub fn parse_optional_datetime(raw: &str) -> (r: Option<UtcTime>)
    ensures
        r == optional_datetime(raw@),
{
    match datetime_text(raw) {
        Some(text) => parse_datetime(text.as_str(), "%Y-%m-%d %H:%M:%S%.f"),
        None => None,
    }
}

/// The process that a line of columns between tabs tells of. The columns are the PID, the
/// PPID, the image's file name, the offset, the threads, the handles, the session id, whether
/// it is Wow64, the creation time, the exit time, the audit, the command and the path. The
/// path may be left out.
pub open spec fn tabbed_process(parts: Seq<Seq<char>>) -> Option<ProcessView> {
    if parts.len() < 12 {
        None
    } else {
        match tree_pid(parts[0]) {
            None => None,
            Some(pid) => Some(
                ProcessView {
                    pid,
                    parent_pid: optional_u64(parts[1]),
                    name: optional_string(parts[2]),
                    image_path: if parts.len() > 12 {
                        optional_string(parts[12])
                    } else {
                        None
                    },
                    command: optional_string(parts[11]),
                    offset: optional_hex_u64(parts[3]),
                    threads: optional_u32(parts[4]),
                    handles: optional_u32(parts[5]),
                    is_wow64: optional_bool(parts[7]),
                    session_id: optional_u32(parts[6]),
                    create_time: optional_datetime(parts[8]),
                    exit_time: optional_datetime(parts[9]),
                },
            ),
        }
    }
}

/// Parse a line of columns between tabs.
pub fn parse_tabbed_process_line(parts: &Vec<String>) -> (r: Option<WindowsProcessEntity>)
    ensures
        match tabbed_process(texts(parts@)) {
            Some(process) => r matches Some(p) && p@ == process,
            None => r is None,
        },
{
    let ghost all = texts(parts@);
    if parts.len() < 12 {
        return None;
    }
    let pid: u64 = match parse_tree_pid(parts[0].as_str()) {
        Some(pid) => pid,
        None => return None,
    };
    let image_path: Option<String> = if parts.len() > 12 {
        parse_optional_string(parts[12].as_str())
    } else {
        None
    };
    let process: WindowsProcessEntity = WindowsProcessEntity {
        pid,
        parent_pid: parse_optional_u64(parts[1].as_str()),
        name: parse_optional_string(parts[2].as_str()),
        image_path,
        command: parse_optional_string(parts[11].as_str()),
        offset: parse_optional_hex_u64(parts[3].as_str()),
        threads: parse_optional_u32(parts[4].as_str()),
        handles: parse_optional_u32(parts[5].as_str()),
        is_wow64: parse_optional_bool(parts[7].as_str()),
        session_id: parse_optional_u32(parts[6].as_str()),
        create_time: parse_optional_datetime(parts[8].as_str()),
        exit_time: parse_optional_datetime(parts[9].as_str()),
    };
    assert(all.len() == parts@.len());
    Some(process)
}

/// Three words with a space between each.
pub open spec fn spaced(a: Seq<char>, b: Seq<char>, c: Seq<char>) -> Seq<char> {
    a + " "@ + b + " "@ + c
}

/// The process that a line of words tells of. The creation time is three words, and so is the
/// exit time unless it is missing. The command and the path are not told.
pub open spec fn worded_process(w: Seq<Seq<char>>) -> Option<ProcessView> {
    if w.len() < 12 || (w[11] != "N/A"@ && w.len() < 14) {
        None
    } else {
        match tree_pid(w[0]) {
            None => None,
            Some(pid) => Some(
                ProcessView {
                    pid,
                    parent_pid: optional_u64(w[1]),
                    name: optional_string(w[2]),
                    image_path: None,
                    command: None,
                    offset: optional_hex_u64(w[3]),
                    threads: optional_u32(w[4]),
                    handles: optional_u32(w[5]),
                    is_wow64: optional_bool(w[7]),
                    session_id: optional_u32(w[6]),
                    create_time: optional_datetime(spaced(w[8], w[9], w[10])),
                    exit_time: if w[11] == "N/A"@ {
                        None
                    } else {
                        optional_datetime(spaced(w[11], w[12], w[13]))
                    },
                },
            ),
        }
    }
}

/// Parse a line of words. This is not ideal for commands and paths with spaces, but adds
/// resilience.
pub fn parse_whitespace_process_line(line: &str) -> (r: Option<WindowsProcessEntity>)
    ensures
        match worded_process(words(line@)) {
            Some(process) => r matches Some(p) && p@ == process,
            None => r is None,
        },
{
    let w: Vec<String> = split_whitespace(line);
    let ghost all = words(line@);
    assert(texts(w@).len() == w@.len());
    if w.len() < 12 {
        return None;
    }
    let exited: bool = !same_text(w[11].as_str(), "N/A");
    if exited && w.len() < 14 {
        return None;
    }
    let pid: u64 = match parse_tree_pid(w[0].as_str()) {
        Some(pid) => pid,
        None => return None,
    };
    let created: String = join5(w[8].as_str(), " ", w[9].as_str(), " ", w[10].as_str());
    let exit_time: Option<UtcTime> = if exited {
        let text: String = join5(w[11].as_str(), " ", w[12].as_str(), " ", w[13].as_str());
        parse_optional_datetime(text.as_str())
    } else {
        None
    };
    let process: WindowsProcessEntity = WindowsProcessEntity {
        pid,
        parent_pid: parse_optional_u64(w[1].as_str()),
        name: parse_optional_string(w[2].as_str()),
        image_path: None,
        command: None,
        offset: parse_optional_hex_u64(w[3].as_str()),
        threads: parse_optional_u32(w[4].as_str()),
        handles: parse_optional_u32(w[5].as_str()),
        is_wow64: parse_optional_bool(w[7].as_str()),
        session_id: parse_optional_u32(w[6].as_str()),
        create_time: parse_optional_datetime(created.as_str()),
        exit_time,
    };
    Some(process)
}

/// Whether a line tells of no process: an empty one, a file wrapper, markdown or a header.
pub open spec fn is_skipped(line: Seq<char>) -> bool {
    ||| line.len() == 0
    ||| begins_with(line, "<<<"@)
    ||| begins_with(line, "```"@)
    ||| begins_with(line, "Volatility 3 Framework"@)
    ||| begins_with(line, "PID\t"@)
    ||| begins_with(line, "PID "@)
}

/// The process that a line tells of, if it does. Lines with enough columns between tabs are
/// split at the tabs, and others at white space.
pub open spec fn process_in(line: Seq<char>) -> Option<ProcessView> {
    let l = trimmed(line);
    if is_skipped(l) {
        None
    } else if pieces(l, '\t').len() >= 12 {
        tabbed_process(pieces(l, '\t'))
    } else {
        worded_process(words(l))
    }
}

/// Parse a line of a process tree.
pub fn parse_process_line(line: &str) -> (r: Option<WindowsProcessEntity>)
    ensures
        match process_in(line@) {
            Some(process) => r matches Some(p) && p@ == process,
            None => r is None,
        },
{
    let l: String = trim(line);
    let s: &str = l.as_str();
    if s.is_empty() {
        return None;
    }
    if starts_with(s, "<<<") || starts_with(s, "```") || starts_with(s, "Volatility 3 Framework")
        || starts_with(s, "PID\t") || starts_with(s, "PID ") {
        return None;
    }
    let parts: Vec<String> = split(s, '\t');
    assert(texts(parts@).len() == parts@.len());
    if parts.len() >= 12 {
        return parse_tabbed_process_line(&parts);
    }
    parse_whitespace_process_line(s)
}

/// The processes that the first `n` lines tell of, in order.
pub open spec fn processes_in(list: Seq<Seq<char>>, n: nat) -> Seq<ProcessView>
    decreases n,
{
    if n == 0 {
        Seq::empty()
    } else {
        let earlier = processes_in(list, (n - 1) as nat);
        match process_in(list[n - 1]) {
            Some(process) => earlier.push(process),
            None => earlier,
        }
    }
}

/// The processes that a process tree tells of, in the order of its lines.
pub open spec fn process_tree(input: Seq<char>) -> Seq<ProcessView> {
    processes_in(lines_of(input), lines_of(input).len())
}

/// What processes hold.
pub open spec fn process_views(list: Seq<WindowsProcessEntity>) -> Seq<ProcessView> {
    list.map_values(|process: WindowsProcessEntity| process@)
}

/// Parse a process tree.
///
/// * `input` - The text of the process tree
pub fn parse_windows_pstree_str(input: &str) -> (r: Vec<WindowsProcessEntity>)
    ensures
        process_views(r@) == process_tree(input@),
{
    let list: Vec<String> = lines(input);
    let ghost all = lines_of(input@);
    assert(texts(list@).len() == list@.len());
    let mut out: Vec<WindowsProcessEntity> = Vec::new();
    assert(process_views(out@) =~= Seq::<ProcessView>::empty());
    for i in 0..list.len()
        invariant
            all == texts(list@),
            process_views(out@) == processes_in(all, i as nat),
    {
        assert(all[i as int] == list@[i as int]@);
        if let Some(process) = parse_process_line(list[i].as_str()) {
            let ghost earlier = out@;
            out.push(process);
            assert(process_views(out@) =~= process_views(earlier).push(process@));
        }
    }
    out
}

/// A toy Sigma rule, in YAML
pub const TOY_RULE: &'static str = "
    title: A test rule
    logsource:
        category: test
    detection:
        selection_1:
            threads|contains: '11'
            command|endswith:
                - 'MaxRequestThreads=16'
        selection_2:
            command|contains: 'alex'
        condition: 1 of selection_*
    ";

/// Whether a text is a Sigma rule in YAML.
pub uninterp spec fn rule_reads(rule_yaml: Seq<char>) -> bool;

/// `sigma_rust::rule_from_yaml`: whether a text is a rule. The text alone determines it. On
/// some texts the call panics or exhausts the stack, so it is made on the toy rule alone.
#[verifier::external_body]
fn reads_as_rule(rule_yaml: &str) -> (r: bool)
    requires
        rule_yaml@ == TOY_RULE@,
    ensures
        r == rule_reads(rule_yaml@),
{
    sigma_rust::rule_from_yaml(rule_yaml).is_ok()
}

/// Whether a text is an event in JSON.
pub uninterp spec fn event_reads(event_json: Seq<char>) -> bool;

/// `sigma_rust::event_from_json`: whether a text is an event. The text alone determines it.
#[verifier::external_body]
fn reads_as_event(event_json: &str) -> (r: bool)
    ensures
        r == event_reads(event_json@),
{
    sigma_rust::event_from_json(event_json).is_ok()
}

/// Whether a Sigma rule in YAML matches an event in JSON.
pub uninterp spec fn rule_matches(rule_yaml: Seq<char>, event_json: Seq<char>) -> bool;

/// `sigma_rust::check_rule`, on what `sigma_rust::rule_from_yaml` and
/// `sigma_rust::event_from_json` make of the two texts: whether the rule matches the event. The
/// two texts alone determine it.
#[verifier::external_body]
fn check_rule(rule_yaml: &str, event_json: &str) -> (r: bool)
    requires
        rule_yaml@ == TOY_RULE@,
        rule_reads(rule_yaml@),
        event_reads(event_json@),
    ensures
        r == rule_matches(rule_yaml@, event_json@),
{
    let rule = sigma_rust::rule_from_yaml(rule_yaml);
    let event = sigma_rust::event_from_json(event_json);
    matches!((rule, event), (Ok(rule), Ok(event)) if sigma_rust::check_rule(&rule, &event))
}

/// The places of what is true among the first `n` of some verdicts.
pub open spec fn hits_among(verdicts: Seq<bool>, n: nat) -> Seq<usize>
    decreases n,
{
    if n == 0 {
        Seq::empty()
    } else if verdicts[n - 1] {
        hits_among(verdicts, (n - 1) as nat).push((n - 1) as usize)
    } else {
        hits_among(verdicts, (n - 1) as nat)
    }
}

/// The places of the events that a rule matches.
///
/// * `verdicts` - Whether the rule matches each event
pub fn hit_places(verdicts: &Vec<bool>) -> (r: Vec<usize>)
    ensures
        r@ == hits_among(verdicts@, verdicts@.len()),
{
    let mut out: Vec<usize> = Vec::new();
    for i in 0..verdicts.len()
        invariant
            out@ == hits_among(verdicts@, i as nat),
    {
        if verdicts[i] {
            out.push(i);
        }
    }
    out
}

/// What could not be read
#[derive(Debug, Clone, Copy, PartialEq, Eq, Structural)]
pub enum Unreadable {
    /// The rule is none
    Rule,
    /// The event at this place is none
    Event(usize),
}

/// The first place from a place on at which there is no event.
pub open spec fn first_unread(events: Seq<Seq<char>>, from: nat) -> Option<nat>
    decreases events.len() - from,
{
    if from >= events.len() {
        None
    } else if !event_reads(events[from as int]) {
        Some(from)
    } else {
        first_unread(events, from + 1)
    }
}

/// The places of the events that the toy rule matches.
///
/// * `events` - The events, in JSON
pub fn rule_hits(events: &Vec<String>) -> (r: Result<Vec<usize>, Unreadable>)
    ensures
        if !rule_reads(TOY_RULE@) {
            r == Err::<Vec<usize>, Unreadable>(Unreadable::Rule)
        } else {
            match first_unread(texts(events@), 0) {
                Some(place) => r == Err::<Vec<usize>, Unreadable>(
                    Unreadable::Event(place as usize),
                ),
                None => r matches Ok(hits) && hits@ == hits_among(
                    texts(events@).map_values(
                        |event: Seq<char>| rule_matches(TOY_RULE@, event),
                    ),
                    events@.len(),
                ),
            }
        },
{
    if !reads_as_rule(TOY_RULE) {
        return Err(Unreadable::Rule);
    }
    let ghost all = texts(events@);
    let ghost f = |event: Seq<char>| rule_matches(TOY_RULE@, event);
    let mut verdicts: Vec<bool> = Vec::new();
    for i in 0..events.len()
        invariant
            all == texts(events@),
            f == (|event: Seq<char>| rule_matches(TOY_RULE@, event)),
            rule_reads(TOY_RULE@),
            first_unread(all, 0) == first_unread(all, i as nat),
            verdicts@ == all.take(i as int).map_values(f),
    {
        let event: &str = events[i].as_str();
        assert(all[i as int] == event@);
        if !reads_as_event(event) {
            return Err(Unreadable::Event(i));
        }
        verdicts.push(check_rule(TOY_RULE, event));
        assert(verdicts@ =~= all.take(i + 1).map_values(f));
    }
    assert(all.take(all.len() as int) =~= all);
    Ok(hit_places(&verdicts))
}

/// White space behind a text makes no difference once it is trimmed.
proof fn lemma_trimmed_start_push(s: Seq<char>, c: char)
    requires
        white_space(c),
    ensures
        trimmed_start(s.push(c)) == (if trimmed_start(s).len() == 0 {
            Seq::empty()
        } else {
            trimmed_start(s).push(c)
        }),
    decreases s.len(),
{
    if s.len() == 0 {
        reveal_with_fuel(trimmed_start, 2);
        assert(s.push(c).skip(1) =~= Seq::<char>::empty());
    } else if white_space(s[0]) {
        assert(s.push(c).skip(1) =~= s.skip(1).push(c));
        lemma_trimmed_start_push(s.skip(1), c);
    }
}

proof fn lemma_trimmed_push(s: Seq<char>, c: char)
    requires
        white_space(c),
    ensures
        trimmed(s.push(c)) == trimmed(s),
{
    lemma_trimmed_start_push(s, c);
    let t = trimmed_start(s);
    if t.len() == 0 {
        assert(t =~= Seq::<char>::empty());
    } else {
        assert(t.push(c).drop_last() =~= t);
    }
}

/// The carriage return at the end of a line makes no difference to the process that it tells
/// of.
proof fn lemma_carriage_return_is_trimmed(line: Seq<char>)
    ensures
        process_in(without_carriage_return(line)) == process_in(line),
{
    if line.len() > 0 && line.last() == '\r' {
        assert(line.drop_last().push('\r') =~= line);
        lemma_trimmed_push(line.drop_last(), '\r');
        assert(without_carriage_return(line) =~= line.drop_last());
    }
}

/// Lists of lines that tell of the same processes one by one do so as a whole.
proof fn lemma_processes_agree(a: Seq<Seq<char>>, b: Seq<Seq<char>>, n: nat)
    requires
        n <= a.len(),
        n <= b.len(),
        forall|i: int| 0 <= i < n ==> process_in(#[trigger] a[i]) == process_in(b[i]),
    ensures
        processes_in(a, n) == processes_in(b, n),
    decreases n,
{
    if n > 0 {
        lemma_processes_agree(a, b, (n - 1) as nat);
        assert(process_in(a[n - 1]) == process_in(b[n - 1]));
    }
}

/// The processes of a tree are those of the pieces between its line feeds.
proof fn lemma_tree_by_pieces(input: Seq<char>)
    ensures
        process_tree(input) == processes_in(pieces(input, '\n'), pieces(input, '\n').len()),
{
    let p = pieces(input, '\n');
    let l = lines_of(input);
    lemma_pieces_push(input, '\n', '\n');
    let n = (p.len() - 1) as nat;
    assert forall|i: int| 0 <= i < n implies process_in(#[trigger] l[i]) == process_in(p[i]) by {
        assert(l[i] == without_carriage_return(p[i]));
        lemma_carriage_return_is_trimmed(p[i]);
    }
    lemma_processes_agree(l, p, n);
    if p.last().len() == 0 {
        assert(trimmed(p.last()) == p.last());
        assert(process_in(p[n as int]) is None);
    } else {
        assert(l[n as int] == p[n as int]);
    }
}

proof fn lemma_processes_joined(a: Seq<Seq<char>>, b: Seq<Seq<char>>, n: nat)
    requires
        n <= b.len(),
    ensures
        processes_in(a + b, a.len() + n) == processes_in(a, a.len()) + processes_in(b, n),
    decreases n,
{
    if n == 0 {
        lemma_processes_agree(a + b, a, a.len());
        assert(processes_in(a, a.len()) + processes_in(b, 0) =~= processes_in(a, a.len()));
    } else {
        lemma_processes_joined(a, b, (n - 1) as nat);
        assert((a + b)[a.len() + n - 1] == b[n - 1]);
        assert(processes_in(a + b, a.len() + n) =~= processes_in(a, a.len()) + processes_in(b, n));
    }
}

/// Two process trees that are joined by a line feed tell of the processes of the first one and
/// then of those of the second one. So the processes come in the order of the lines, each line
/// tells of at most one, and no line affects another.
pub proof fn law_joined_trees_have_the_processes_of_both(first: Seq<char>, second: Seq<char>)
    ensures
        process_tree(first.push('\n') + second) == process_tree(first) + process_tree(second),
{
    lemma_tree_by_pieces(first);
    lemma_tree_by_pieces(second);
    lemma_tree_by_pieces(first.push('\n') + second);
    lemma_pieces_joined(first, second, '\n');
    lemma_processes_joined(pieces(first, '\n'), pieces(second, '\n'), pieces(second, '\n').len());
}

} // verus!
