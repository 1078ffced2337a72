//! Process trees: what is written in the columns of Volatility reads back.

use vstd::prelude::*;

use crate::laws::number::{hexadecimal, lemma_decimal_digits, lemma_digits_read, lemma_hexadecimal};
use crate::laws::text::{
    glued,
    is_free_of,
    is_trim,
    is_word,
    law_what_was_put_together_comes_apart,
    law_words_come_apart,
    lemma_marks,
    lemma_one_piece,
    lemma_trim_stays,
};
use crate::number::{decimal, law_decimal_reads_back};
use crate::proc_reader::{
    datetime_parsed,
    datetime_text,
    event_reads,
    first_unread,
    hit_places,
    hits_among,
    parse_optional_bool,
    parse_optional_datetime,
    parse_optional_hex_u64,
    parse_optional_string,
    parse_optional_u32,
    parse_optional_u64,
    parse_process_line,
    parse_tabbed_process_line,
    parse_tree_pid,
    parse_whitespace_process_line,
    parse_windows_pstree_str,
    process_tree,
    process_views,
    processes_in,
    rule_hits,
    rule_matches,
    rule_reads,
    Unreadable,
    WindowsProcessEntity,
    TOY_RULE,
};
use crate::text::{begins_with, lines_of, maybe_text, texts, trimmed, white_space, words};
use crate::time::UtcTime;

verus! {

/// The PID of a process reads back from the tree, at any depth.
pub proof fn law_pids_read_back(raw: &str, stars: Seq<char>, n: nat, r: Option<u64>)
    requires
        call_ensures(parse_tree_pid, (raw,), r),
        forall|i: int| 0 <= i < stars.len() ==> #[trigger] stars[i] == '*',
        raw@ == stars + decimal(n),
    ensures
        n <= u64::MAX ==> r == Some(n as u64),
        n > u64::MAX ==> r is None,
{
    lemma_decimal_digits(n);
    let d = decimal(n);
    assert('0' <= d[0] && d[0] <= '9' && '0' <= d[d.len() - 1] && d[d.len() - 1] <= '9');
    lemma_marks(stars, d, '*');
    lemma_trim_stays(d);
    lemma_decimal_reads(n, u64::MAX as nat);
}

/// A number is read back from its decimal digits, unless it is too large.
proof fn lemma_decimal_reads(n: nat, max: nat)
    ensures
        crate::number::unsigned_value(decimal(n), 10, max) == (if n <= max {
            Some(n)
        } else {
            None
        }),
{
    lemma_decimal_digits(n);
    law_decimal_reads_back(n, n);
    let d = decimal(n);
    assert forall|i: int| 0 <= i < d.len() implies crate::number::is_digit(#[trigger] d[i], 10) by {
        assert('0' <= d[i] && d[i] <= '9');
    }
    lemma_digits_read(d, 10, n);
    lemma_digits_read(d, 10, max);
}

/// The decimal form of a number stands for no missing value and needs no trimming.
proof fn lemma_decimal_is_plain(n: nat)
    ensures
        trimmed(decimal(n)) == decimal(n),
        decimal(n) != "-"@,
        decimal(n) != "N/A"@,
{
    lemma_decimal_digits(n);
    let d = decimal(n);
    assert('0' <= d[0] && d[0] <= '9' && '0' <= d[d.len() - 1] && d[d.len() - 1] <= '9');
    lemma_trim_stays(d);
    reveal_strlit("-");
    reveal_strlit("N/A");
    assert("-"@[0] == '-' && "N/A"@[0] == 'N');
}

/// Numbers read back where they fit, and are missing where they are written so.
pub proof fn law_counts_read_back(raw: &str, n: nat, long: Option<u64>, short: Option<u32>)
    requires
        call_ensures(parse_optional_u64, (raw,), long),
        call_ensures(parse_optional_u32, (raw,), short),
    ensures
        raw@ == decimal(n) && n <= u64::MAX ==> long == Some(n as u64),
        raw@ == decimal(n) && n > u64::MAX ==> long is None,
        raw@ == decimal(n) && n <= u32::MAX ==> short == Some(n as u32),
        raw@ == decimal(n) && n > u32::MAX ==> short is None,
        raw@ == "-"@ || raw@ == "N/A"@ ==> long is None && short is None,
{
    lemma_decimal_is_plain(n);
    lemma_decimal_reads(n, u64::MAX as nat);
    lemma_decimal_reads(n, u32::MAX as nat);
    reveal_strlit("-");
    reveal_strlit("N/A");
    lemma_trim_stays("-"@);
    lemma_trim_stays("N/A"@);
}

/// Offsets are written in hexadecimal, with or without `0x` before them, and read back.
pub proof fn law_offsets_read_back(raw: &str, n: nat, r: Option<u64>)
    requires
        call_ensures(parse_optional_hex_u64, (raw,), r),
        n <= u64::MAX,
    ensures
        raw@ == "0x"@ + hexadecimal(n) ==> r == Some(n as u64),
        raw@ == hexadecimal(n) ==> r == Some(n as u64),
        raw@ == "-"@ || raw@ == "N/A"@ ==> r is None,
{
    let h = hexadecimal(n);
    lemma_hexadecimal(n);
    lemma_digits_read(h, 16, u64::MAX as nat);
    reveal_strlit("-");
    reveal_strlit("N/A");
    reveal_strlit("0x");
    lemma_trim_stays("-"@);
    lemma_trim_stays("N/A"@);
    let prefixed = "0x"@ + h;
    assert(crate::number::is_digit(h[0], 16));
    assert(!white_space(h[0]) && !white_space(h[h.len() - 1]));
    lemma_trim_stays(h);
    assert(prefixed.last() == h.last());
    assert(!white_space('0'));
    assert(prefixed[0] == '0');
    lemma_trim_stays(prefixed);
    assert(h != "-"@ && h != "N/A"@) by {
        assert("-"@[0] == '-' && "N/A"@[0] == 'N');
    }
    assert(prefixed != "-"@ && prefixed != "N/A"@) by {
        assert("-"@[0] == '-' && "N/A"@[0] == 'N');
    }
    assert(prefixed.subrange(0, 2) =~= "0x"@);
    assert(prefixed.skip(2) =~= h);
    assert(!begins_with(h, "0x"@)) by {
        if begins_with(h, "0x"@) {
            assert(h.subrange(0, 2)[1] == 'x');
            assert(crate::number::is_digit(h[1], 16));
        }
    }
}

/// Yes and no are told from each other, and anything else is neither.
pub proof fn law_yes_and_no_read_back(raw: &str, r: Option<bool>)
    requires
        call_ensures(parse_optional_bool, (raw,), r),
    ensures
        r == Some(true) <==> trimmed(raw@) == "True"@ || trimmed(raw@) == "true"@,
        r == Some(false) <==> trimmed(raw@) == "False"@ || trimmed(raw@) == "false"@,
        raw@ == "True"@ || raw@ == "true"@ ==> r == Some(true),
        raw@ == "False"@ || raw@ == "false"@ ==> r == Some(false),
        raw@ == "-"@ || raw@ == "N/A"@ ==> r is None,
{
    reveal_strlit("True");
    reveal_strlit("true");
    reveal_strlit("False");
    reveal_strlit("false");
    reveal_strlit("-");
    reveal_strlit("N/A");
    lemma_trim_stays("True"@);
    lemma_trim_stays("true"@);
    lemma_trim_stays("False"@);
    lemma_trim_stays("false"@);
    lemma_trim_stays("-"@);
    lemma_trim_stays("N/A"@);
    assert("True"@.len() == 4 && "true"@.len() == 4 && "False"@.len() == 5 && "false"@.len() == 5);
    assert("-"@.len() == 1 && "N/A"@.len() == 3);
}

/// Texts read back as they are, but for those that stand for a missing value.
pub proof fn law_texts_read_back(raw: &str, r: Option<String>)
    requires
        call_ensures(parse_optional_string, (raw,), r),
    ensures
        trimmed(raw@).len() == 0 || trimmed(raw@) == "-"@ || trimmed(raw@) == "N/A"@ ==> r is None,
        trimmed(raw@).len() > 0 && trimmed(raw@) != "-"@ && trimmed(raw@) != "N/A"@ ==> (
        r matches Some(text) && text@ == trimmed(raw@)),
{
    reveal_strlit("");
    if trimmed(raw@).len() == 0 {
        assert(trimmed(raw@) =~= ""@);
    }
}

/// Points in time are read in UTC, with or without the name of the zone behind them.
pub proof fn law_points_in_time_read_back(
    raw: &str,
    text: Seq<char>,
    shown: Option<String>,
    r: Option<UtcTime>,
)
    requires
        call_ensures(datetime_text, (raw,), shown),
        call_ensures(parse_optional_datetime, (raw,), r),
    ensures
        is_trim(text) && text.len() > 0 && raw@ == text + " UTC"@ ==> {
            &&& shown matches Some(s) && s@ == text
            &&& r == datetime_parsed(text, "%Y-%m-%d %H:%M:%S%.f"@)
        },
        raw@ == "-"@ || raw@ == "N/A"@ ==> shown is None && r is None,
{
    reveal_strlit("-");
    reveal_strlit("N/A");
    reveal_strlit(" UTC");
    lemma_trim_stays("-"@);
    lemma_trim_stays("N/A"@);
    if is_trim(text) && text.len() > 0 && raw@ == text + " UTC"@ {
        let whole = text + " UTC"@;
        assert(whole[0] == text[0]);
        assert(whole.last() == 'C');
        assert(!white_space('C'));
        lemma_trim_stays(whole);
        assert(whole.len() >= 5);
        assert("-"@.len() == 1 && "N/A"@.len() == 3);
        let n = text.len() as int;
        assert(whole.subrange(n, n + 4) =~= " UTC"@);
        assert(whole.take(n) =~= text);
    }
}

/// Reading the columns undoes writing them: each field of a process is what stands in the column
/// of its name, in the order PID, PPID, ImageFileName, Offset, Threads, Handles, SessionId,
/// Wow64, CreateTime, ExitTime, Audit, Cmd and Path.
pub proof fn law_columns_read_back(
    parts: Vec<String>,
    r: Option<WindowsProcessEntity>,
    stars: Seq<char>,
    pid: u64,
    parent: u64,
    name: Seq<char>,
    offset: u64,
    threads: u32,
    handles: u32,
    session: u32,
    wow64: bool,
    created: Seq<char>,
    exited: Seq<char>,
    command: Seq<char>,
    path: Seq<char>,
)
    requires
        call_ensures(parse_tabbed_process_line, (&parts,), r),
        parts@.len() == 13,
        forall|i: int| 0 <= i < stars.len() ==> #[trigger] stars[i] == '*',
        parts@[0]@ == stars + decimal(pid as nat),
        parts@[1]@ == decimal(parent as nat),
        parts@[2]@ == name,
        parts@[3]@ == "0x"@ + hexadecimal(offset as nat),
        parts@[4]@ == decimal(threads as nat),
        parts@[5]@ == decimal(handles as nat),
        parts@[6]@ == decimal(session as nat),
        parts@[7]@ == (if wow64 {
            "True"@
        } else {
            "False"@
        }),
        parts@[8]@ == created + " UTC"@,
        parts@[9]@ == exited + " UTC"@,
        parts@[11]@ == command,
        parts@[12]@ == path,
        is_value(name) && is_value(created) && is_value(exited) && is_value(command) && is_value(
            path,
        ),
    ensures
        r matches Some(process) && {
            &&& process.pid == pid
            &&& process.parent_pid == Some(parent)
            &&& maybe_text(process.name) == Some(name)
            &&& process.offset == Some(offset)
            &&& process.threads == Some(threads)
            &&& process.handles == Some(handles)
            &&& process.session_id == Some(session)
            &&& process.is_wow64 == Some(wow64)
            &&& process.create_time == datetime_parsed(created, "%Y-%m-%d %H:%M:%S%.f"@)
            &&& process.exit_time == datetime_parsed(exited, "%Y-%m-%d %H:%M:%S%.f"@)
            &&& maybe_text(process.command) == Some(command)
            &&& maybe_text(process.image_path) == Some(path)
        },
{
    let t = texts(parts@);
    assert(t.len() == 13);
    assert(forall|i: int| 0 <= i < 13 ==> (#[trigger] t[i]) == parts@[i]@);
    lemma_fields(
        t,
        stars,
        pid,
        parent,
        name,
        offset,
        threads,
        handles,
        session,
        wow64,
        created,
        exited,
        command,
        path,
    );
}

/// Whether a text is there: not empty, trimmed, and none that stands for a missing value.
pub open spec fn is_value(s: Seq<char>) -> bool {
    s.len() > 0 && is_trim(s) && s != "-"@ && s != "N/A"@
}

/// A value is neither empty nor has white space around it.
proof fn lemma_value(s: Seq<char>)
    requires
        is_value(s),
    ensures
        trimmed(s) == s,
        s != ""@,
{
    lemma_trim_stays(s);
    reveal_strlit("");
}

/// An offset is read back from its hexadecimal digits.
proof fn lemma_offset(n: u64)
    ensures
        crate::proc_reader::optional_hex_u64("0x"@ + hexadecimal(n as nat)) == Some(n),
{
    let h = hexadecimal(n as nat);
    lemma_hexadecimal(n as nat);
    lemma_digits_read(h, 16, u64::MAX as nat);
    reveal_strlit("-");
    reveal_strlit("N/A");
    reveal_strlit("0x");
    let prefixed = "0x"@ + h;
    assert(crate::number::is_digit(h[0], 16));
    assert(!white_space(h[h.len() - 1]));
    assert(prefixed.last() == h.last());
    assert(prefixed[0] == '0');
    lemma_trim_stays(prefixed);
    assert("-"@[0] == '-' && "N/A"@[0] == 'N');
    assert(prefixed.subrange(0, 2) =~= "0x"@);
    assert(prefixed.skip(2) =~= h);
}

/// The zone behind a point in time is taken off.
proof fn lemma_zoned(text: Seq<char>)
    requires
        is_value(text),
    ensures
        crate::proc_reader::optional_datetime(text + " UTC"@) == datetime_parsed(
            text,
            "%Y-%m-%d %H:%M:%S%.f"@,
        ),
{
    reveal_strlit("-");
    reveal_strlit("N/A");
    reveal_strlit(" UTC");
    let whole = text + " UTC"@;
    assert(whole[0] == text[0]);
    assert(whole.last() == 'C');
    lemma_trim_stays(whole);
    let n = text.len() as int;
    assert(whole.subrange(n, n + 4) =~= " UTC"@);
    assert(whole.take(n) =~= text);
}

/// Yes and no are read back.
proof fn lemma_yes_and_no()
    ensures
        crate::proc_reader::optional_bool("True"@) == Some(true),
        crate::proc_reader::optional_bool("False"@) == Some(false),
{
    reveal_strlit("True");
    reveal_strlit("true");
    reveal_strlit("False");
    lemma_trim_stays("True"@);
    lemma_trim_stays("False"@);
}

/// Counts are read back.
proof fn lemma_counts(long: u64, short: u32)
    ensures
        crate::proc_reader::optional_u64(decimal(long as nat)) == Some(long),
        crate::proc_reader::optional_u32(decimal(short as nat)) == Some(short),
{
    lemma_decimal_is_plain(long as nat);
    lemma_decimal_is_plain(short as nat);
    lemma_decimal_reads(long as nat, u64::MAX as nat);
    lemma_decimal_reads(short as nat, u32::MAX as nat);
}

/// A PID is read back from behind the marks of its depth.
proof fn lemma_tree_pid(stars: Seq<char>, pid: u64)
    requires
        forall|i: int| 0 <= i < stars.len() ==> #[trigger] stars[i] == '*',
    ensures
        crate::proc_reader::tree_pid(stars + decimal(pid as nat)) == Some(pid),
{
    let d = decimal(pid as nat);
    lemma_decimal_digits(pid as nat);
    assert('0' <= d[0] && d[0] <= '9');
    lemma_marks(stars, d, '*');
    lemma_decimal_is_plain(pid as nat);
    lemma_decimal_reads(pid as nat, u64::MAX as nat);
}

/// All columns are read back into their fields.
proof fn lemma_fields(
    t: Seq<Seq<char>>,
    stars: Seq<char>,
    pid: u64,
    parent: u64,
    name: Seq<char>,
    offset: u64,
    threads: u32,
    handles: u32,
    session: u32,
    wow64: bool,
    created: Seq<char>,
    exited: Seq<char>,
    command: Seq<char>,
    path: Seq<char>,
)
    requires
        t.len() == 13,
        forall|i: int| 0 <= i < stars.len() ==> #[trigger] stars[i] == '*',
        t[0] == stars + decimal(pid as nat),
        t[1] == decimal(parent as nat),
        t[2] == name,
        t[3] == "0x"@ + hexadecimal(offset as nat),
        t[4] == decimal(threads as nat),
        t[5] == decimal(handles as nat),
        t[6] == decimal(session as nat),
        t[7] == (if wow64 {
            "True"@
        } else {
            "False"@
        }),
        t[8] == created + " UTC"@,
        t[9] == exited + " UTC"@,
        t[11] == command,
        t[12] == path,
        is_value(name) && is_value(created) && is_value(exited) && is_value(command) && is_value(
            path,
        ),
    ensures
        crate::proc_reader::tabbed_process(t) == Some(
            (crate::proc_reader::ProcessView {
                pid,
                parent_pid: Some(parent),
                name: Some(name),
                image_path: Some(path),
                command: Some(command),
                offset: Some(offset),
                threads: Some(threads),
                handles: Some(handles),
                is_wow64: Some(wow64),
                session_id: Some(session),
                create_time: datetime_parsed(created, "%Y-%m-%d %H:%M:%S%.f"@),
                exit_time: datetime_parsed(exited, "%Y-%m-%d %H:%M:%S%.f"@),
            }),
        ),
{
    lemma_tree_pid(stars, pid);
    lemma_counts(parent, threads);
    lemma_counts(parent, handles);
    lemma_counts(parent, session);
    lemma_offset(offset);
    lemma_yes_and_no();
    lemma_zoned(created);
    lemma_zoned(exited);
    lemma_value(name);
    lemma_value(command);
    lemma_value(path);
}

/// What is missing in a line of columns is missing in the process, field by field, and the path
/// may be left out.
pub proof fn law_missing_columns_are_missing_fields(
    parts: Vec<String>,
    r: Option<WindowsProcessEntity>,
    missing: Seq<char>,
)
    requires
        call_ensures(parse_tabbed_process_line, (&parts,), r),
        missing == "-"@ || missing == "N/A"@,
    ensures
        parts@.len() < 12 ==> r is None,
        r matches Some(process) ==> {
            &&& parts@[1]@ == missing ==> process.parent_pid is None
            &&& parts@[2]@ == missing ==> process.name is None
            &&& parts@[3]@ == missing ==> process.offset is None
            &&& parts@[4]@ == missing ==> process.threads is None
            &&& parts@[5]@ == missing ==> process.handles is None
            &&& parts@[6]@ == missing ==> process.session_id is None
            &&& parts@[7]@ == missing ==> process.is_wow64 is None
            &&& parts@[8]@ == missing ==> process.create_time is None
            &&& parts@[9]@ == missing ==> process.exit_time is None
            &&& parts@[11]@ == missing ==> process.command is None
            &&& parts@.len() == 12 ==> process.image_path is None
            &&& parts@.len() > 12 && parts@[12]@ == missing ==> process.image_path is None
        },
{
    let t = texts(parts@);
    assert(t.len() == parts@.len());
    reveal_strlit("-");
    reveal_strlit("N/A");
    reveal_strlit("True");
    reveal_strlit("true");
    reveal_strlit("False");
    reveal_strlit("false");
    lemma_trim_stays("-"@);
    lemma_trim_stays("N/A"@);
    assert("True"@.len() == 4 && "true"@.len() == 4 && "False"@.len() == 5 && "false"@.len() == 5);
    assert("-"@.len() == 1 && "N/A"@.len() == 3);
    assert(forall|i: int| 0 <= i < t.len() ==> (#[trigger] t[i]) == parts@[i]@);
}

/// Each field of a process depends on its own column alone.
pub proof fn law_columns_do_not_affect_each_other(
    a: Vec<String>,
    b: Vec<String>,
    p: WindowsProcessEntity,
    q: WindowsProcessEntity,
)
    requires
        call_ensures(parse_tabbed_process_line, (&a,), Some(p)),
        call_ensures(parse_tabbed_process_line, (&b,), Some(q)),
        a@.len() == b@.len(),
    ensures
        a@[0]@ == b@[0]@ ==> p.pid == q.pid,
        a@[1]@ == b@[1]@ ==> p.parent_pid == q.parent_pid,
        a@[2]@ == b@[2]@ ==> maybe_text(p.name) == maybe_text(q.name),
        a@[3]@ == b@[3]@ ==> p.offset == q.offset,
        a@[4]@ == b@[4]@ ==> p.threads == q.threads,
        a@[5]@ == b@[5]@ ==> p.handles == q.handles,
        a@[6]@ == b@[6]@ ==> p.session_id == q.session_id,
        a@[7]@ == b@[7]@ ==> p.is_wow64 == q.is_wow64,
        a@[8]@ == b@[8]@ ==> p.create_time == q.create_time,
        a@[9]@ == b@[9]@ ==> p.exit_time == q.exit_time,
        a@[11]@ == b@[11]@ ==> maybe_text(p.command) == maybe_text(q.command),
        a@.len() > 12 && a@[12]@ == b@[12]@ ==> maybe_text(p.image_path) == maybe_text(
            q.image_path,
        ),
{
    let s = texts(a@);
    let t = texts(b@);
    assert(s.len() == a@.len() && t.len() == b@.len());
    assert(forall|i: int| 0 <= i < s.len() ==> (#[trigger] s[i]) == a@[i]@);
    assert(forall|i: int| 0 <= i < t.len() ==> (#[trigger] t[i]) == b@[i]@);
    assert(p@.name == maybe_text(p.name) && q@.name == maybe_text(q.name));
}

/// Whether a line can tell of a process: it begins with a digit or an asterisk, and does not end
/// with white space.
pub open spec fn starts_an_entry(line: Seq<char>) -> bool {
    &&& line.len() > 0
    &&& line[0] == '*' || ('0' <= line[0] && line[0] <= '9')
    &&& !white_space(line.last())
}

/// A line that tells of a process is not skipped.
proof fn lemma_entry_is_read(line: Seq<char>)
    requires
        starts_an_entry(line),
    ensures
        trimmed(line) == line,
        !crate::proc_reader::is_skipped(line),
{
    lemma_trim_stays(line);
    reveal_strlit("<<<");
    reveal_strlit("```");
    reveal_strlit("Volatility 3 Framework");
    reveal_strlit("PID\t");
    reveal_strlit("PID ");
    assert(begins_with(line, "<<<"@) ==> line.subrange(0, 3)[0] == "<<<"@[0]);
    assert(begins_with(line, "```"@) ==> line.subrange(0, 3)[0] == "```"@[0]);
    assert(begins_with(line, "Volatility 3 Framework"@) ==> line.subrange(0, 22)[0]
        == "Volatility 3 Framework"@[0]);
    assert(begins_with(line, "PID\t"@) ==> line.subrange(0, 4)[0] == "PID\t"@[0]);
    assert(begins_with(line, "PID "@) ==> line.subrange(0, 4)[0] == "PID "@[0]);
}

/// A line whose columns stand between tabs is read by its columns.
pub proof fn law_lines_with_tabs_are_read_by_columns(
    line: &str,
    parts: Vec<String>,
    whole: Option<WindowsProcessEntity>,
    r: Option<WindowsProcessEntity>,
)
    requires
        call_ensures(parse_process_line, (line,), whole),
        call_ensures(parse_tabbed_process_line, (&parts,), r),
        parts@.len() >= 12,
        forall|i: int| 0 <= i < parts@.len() ==> is_free_of((#[trigger] parts@[i])@, '\t'),
        line@ == glued(texts(parts@), '\t'),
        starts_an_entry(line@),
    ensures
        whole is Some <==> r is Some,
        whole matches Some(process) ==> process@ == r->0@,
{
    let t = texts(parts@);
    assert(t.len() == parts@.len());
    assert forall|i: int| 0 <= i < t.len() implies is_free_of(#[trigger] t[i], '\t') by {
        assert(t[i] == parts@[i]@);
    }
    law_what_was_put_together_comes_apart(t, '\t');
    lemma_entry_is_read(line@);
}

/// A line without enough tabs is read by its words: the three words of the creation time, and
/// those of the exit time unless it is missing, make up one field each. It tells of no command
/// and no path.
pub proof fn law_lines_without_tabs_are_read_by_words(
    line: &str,
    list: Seq<Seq<char>>,
    whole: Option<WindowsProcessEntity>,
    r: Option<WindowsProcessEntity>,
    parts: Vec<String>,
    columns: Option<WindowsProcessEntity>,
)
    requires
        call_ensures(parse_process_line, (line,), whole),
        call_ensures(parse_whitespace_process_line, (line,), r),
        forall|i: int| 0 <= i < list.len() ==> is_word(#[trigger] list[i]),
        line@ == glued(list, ' '),
        starts_an_entry(line@),
        is_free_of(line@, '\t'),
        parts@.len() == 12,
        call_ensures(parse_tabbed_process_line, (&parts,), columns),
        list.len() >= 14,
        list[11] != "N/A"@,
        forall|i: int| 0 <= i < 8 ==> (#[trigger] parts@[i])@ == list[i],
        parts@[8]@ == list[8] + " "@ + list[9] + " "@ + list[10],
        parts@[9]@ == list[11] + " "@ + list[12] + " "@ + list[13],
    ensures
        whole is Some <==> r is Some,
        whole matches Some(process) ==> process@ == r->0@,
        r is Some <==> columns is Some,
        r matches Some(process) ==> {
            &&& process.pid == columns->0.pid
            &&& process.parent_pid == columns->0.parent_pid
            &&& maybe_text(process.name) == maybe_text(columns->0.name)
            &&& process.offset == columns->0.offset
            &&& process.threads == columns->0.threads
            &&& process.handles == columns->0.handles
            &&& process.session_id == columns->0.session_id
            &&& process.is_wow64 == columns->0.is_wow64
            &&& process.create_time == columns->0.create_time
            &&& process.exit_time == columns->0.exit_time
            &&& process.command is None
            &&& process.image_path is None
        },
{
    law_words_come_apart(list, ' ');
    lemma_entry_is_read(line@);
    lemma_one_piece(line@, '\t');
    let t = texts(parts@);
    assert(t.len() == 12);
    assert(forall|i: int| 0 <= i < 12 ==> (#[trigger] t[i]) == parts@[i]@);
    assert(t[0] == list[0] && t[1] == list[1] && t[2] == list[2] && t[3] == list[3] && t[4]
        == list[4] && t[5] == list[5] && t[6] == list[6] && t[7] == list[7]);
    if let Some(process) = r {
        assert(process@.name == maybe_text(process.name));
        assert(process@.command == maybe_text(process.command));
        assert(process@.image_path == maybe_text(process.image_path));
    }
}

/// A process that has not exited has no words of an exit time, and the line may end there. All else
/// is read as in columns.
pub proof fn law_processes_that_run_have_no_exit_time(
    line: &str,
    list: Seq<Seq<char>>,
    r: Option<WindowsProcessEntity>,
    parts: Vec<String>,
    columns: Option<WindowsProcessEntity>,
)
    requires
        call_ensures(parse_whitespace_process_line, (line,), r),
        forall|i: int| 0 <= i < list.len() ==> is_word(#[trigger] list[i]),
        line@ == glued(list, ' '),
        parts@.len() == 12,
        call_ensures(parse_tabbed_process_line, (&parts,), columns),
        list.len() >= 12,
        list[11] == "N/A"@,
        forall|i: int| 0 <= i < 8 ==> (#[trigger] parts@[i])@ == list[i],
        parts@[8]@ == list[8] + " "@ + list[9] + " "@ + list[10],
    ensures
        r is Some <==> columns is Some,
        r matches Some(process) ==> {
            &&& process.pid == columns->0.pid
            &&& process.parent_pid == columns->0.parent_pid
            &&& maybe_text(process.name) == maybe_text(columns->0.name)
            &&& process.offset == columns->0.offset
            &&& process.threads == columns->0.threads
            &&& process.handles == columns->0.handles
            &&& process.session_id == columns->0.session_id
            &&& process.is_wow64 == columns->0.is_wow64
            &&& process.create_time == columns->0.create_time
            &&& process.exit_time is None
            &&& process.command is None
            &&& process.image_path is None
        },
{
    law_words_come_apart(list, ' ');
    let t = texts(parts@);
    assert(t.len() == 12);
    assert(forall|i: int| 0 <= i < 12 ==> (#[trigger] t[i]) == parts@[i]@);
    assert(t[0] == list[0] && t[1] == list[1] && t[2] == list[2] && t[3] == list[3] && t[4]
        == list[4] && t[5] == list[5] && t[6] == list[6] && t[7] == list[7]);
    if let Some(process) = r {
        assert(process@.name == maybe_text(process.name));
        assert(process@.command == maybe_text(process.command));
        assert(process@.image_path == maybe_text(process.image_path));
    }
}

/// A line of words that is too short tells of no process, and the exit time may be missing.
pub proof fn law_short_lines_tell_of_no_process(line: &str, r: Option<WindowsProcessEntity>)
    requires
        call_ensures(parse_whitespace_process_line, (line,), r),
    ensures
        words(line@).len() < 12 ==> r is None,
        words(line@).len() >= 12 && words(line@)[11] == "N/A"@ ==> (r matches Some(process)
            ==> process.exit_time is None),
        words(line@).len() < 14 && words(line@)[11] != "N/A"@ ==> r is None,
{
}

/// Headers, wrappers and empty lines tell of no process.
pub proof fn law_other_lines_tell_of_no_process(
    line: &str,
    rest: Seq<char>,
    r: Option<WindowsProcessEntity>,
)
    requires
        call_ensures(parse_process_line, (line,), r),
    ensures
        trimmed(line@).len() == 0 ==> r is None,
        trimmed(line@) == "<<<"@ + rest ==> r is None,
        trimmed(line@) == "```"@ + rest ==> r is None,
        trimmed(line@) == "Volatility 3 Framework"@ + rest ==> r is None,
        trimmed(line@) == "PID\t"@ + rest ==> r is None,
        trimmed(line@) == "PID "@ + rest ==> r is None,
{
    let l = trimmed(line@);
    if l == "<<<"@ + rest {
        assert(l.subrange(0, "<<<"@.len() as int) =~= "<<<"@);
    }
    if l == "```"@ + rest {
        assert(l.subrange(0, "```"@.len() as int) =~= "```"@);
    }
    if l == "Volatility 3 Framework"@ + rest {
        assert(l.subrange(0, "Volatility 3 Framework"@.len() as int)
            =~= "Volatility 3 Framework"@);
    }
    if l == "PID\t"@ + rest {
        assert(l.subrange(0, "PID\t"@.len() as int) =~= "PID\t"@);
    }
    if l == "PID "@ + rest {
        assert(l.subrange(0, "PID "@.len() as int) =~= "PID "@);
    }
}

/// A tree of one line tells of the process of that line, if it tells of one.
pub proof fn law_a_line_is_a_tree(
    line: &str,
    tree: Vec<WindowsProcessEntity>,
    r: Option<WindowsProcessEntity>,
)
    requires
        is_free_of(line@, '\n'),
        call_ensures(parse_windows_pstree_str, (line,), tree),
        call_ensures(parse_process_line, (line,), r),
    ensures
        tree@.len() == (if r is Some {
            1int
        } else {
            0int
        }),
        r matches Some(process) ==> tree@[0]@ == process@,
{
    lemma_one_piece(line@, '\n');
    let views = process_views(tree@);
    assert(views.len() == tree@.len());
    if line@.len() == 0 {
        assert(lines_of(line@) =~= Seq::<Seq<char>>::empty());
        assert(trimmed(line@) == line@);
    } else {
        assert(lines_of(line@) =~= seq![line@]);
        reveal_with_fuel(processes_in, 2);
        assert(process_tree(line@) == processes_in(seq![line@], 1));
    }
    if r is Some {
        assert(views[0] == tree@[0]@);
    }
}

/// The places of the hits are all that hit, in order.
pub proof fn law_all_hits_are_told(verdicts: Vec<bool>, hits: Vec<usize>)
    requires
        call_ensures(hit_places, (&verdicts,), hits),
    ensures
        forall|i: int|
            0 <= i < verdicts@.len() && i <= usize::MAX && #[trigger] verdicts@[i]
                ==> hits@.contains(i as usize),
        forall|k: int|
            0 <= k < hits@.len() ==> (#[trigger] hits@[k]) < verdicts@.len()
                && verdicts@[hits@[k] as int],
        forall|j: int, k: int|
            0 <= j < k < hits@.len() ==> (#[trigger] hits@[j]) < (#[trigger] hits@[k]),
{
    assert(verdicts.len() == verdicts@.len());
    lemma_hits(verdicts@, verdicts@.len());
}

/// The hits are the places where the rule matches, in order.
proof fn lemma_hits(verdicts: Seq<bool>, n: nat)
    requires
        n <= verdicts.len(),
        verdicts.len() <= usize::MAX,
    ensures
        forall|i: int|
            0 <= i < n && #[trigger] verdicts[i] ==> hits_among(verdicts, n).contains(i as usize),
        forall|k: int|
            0 <= k < hits_among(verdicts, n).len() ==> (#[trigger] hits_among(verdicts, n)[k]) < n
                && verdicts[hits_among(verdicts, n)[k] as int],
        forall|j: int, k: int|
            0 <= j < k < hits_among(verdicts, n).len() ==> (#[trigger] hits_among(verdicts, n)[j])
                < (#[trigger] hits_among(verdicts, n)[k]),
    decreases n,
{
    if n > 0 {
        let m = (n - 1) as nat;
        lemma_hits(verdicts, m);
        let before = hits_among(verdicts, m);
        let after = hits_among(verdicts, n);
        assert forall|i: int| 0 <= i < n && #[trigger] verdicts[i] implies after.contains(
            i as usize,
        ) by {
            if i < m {
                let k = before.index_of(i as usize);
                assert(after[k] == i as usize);
            } else {
                assert(after[before.len() as int] == i as usize);
            }
        }
    }
}

/// An event hits where the rule matches it. Nothing is told where the rule, or an event before
/// all that can be read, cannot be read.
pub proof fn law_events_hit_where_the_rule_matches(
    events: Vec<String>,
    r: Result<Vec<usize>, Unreadable>,
)
    requires
        call_ensures(rule_hits, (&events,), r),
    ensures
        !rule_reads(TOY_RULE@) ==> r == Err::<Vec<usize>, Unreadable>(Unreadable::Rule),
        rule_reads(TOY_RULE@) && (forall|i: int|
            0 <= i < events@.len() ==> event_reads((#[trigger] events@[i])@)) ==> r is Ok,
        r matches Ok(hits) ==> {
            &&& forall|i: int|
                0 <= i < events@.len() && rule_matches(TOY_RULE@, (#[trigger] events@[i])@)
                    ==> hits@.contains(i as usize)
            &&& forall|k: int|
                0 <= k < hits@.len() ==> (#[trigger] hits@[k]) < events@.len() && rule_matches(
                    TOY_RULE@,
                    events@[hits@[k] as int]@,
                )
            &&& forall|i: int| 0 <= i < events@.len() ==> event_reads((#[trigger] events@[i])@)
        },
        r matches Err(Unreadable::Event(place)) ==> {
            &&& place < events@.len()
            &&& !event_reads(events@[place as int]@)
            &&& forall|i: int| 0 <= i < place ==> event_reads((#[trigger] events@[i])@)
        },
{
    let t = texts(events@);
    assert(events.len() == events@.len());
    assert(t.len() == events@.len());
    assert(forall|i: int| 0 <= i < t.len() ==> (#[trigger] events@[i])@ == t[i]);
    lemma_first_unread(t, 0);
    let f = |event: Seq<char>| rule_matches(TOY_RULE@, event);
    let verdicts = t.map_values(f);
    assert(verdicts.len() == t.len());
    lemma_hits(verdicts, verdicts.len());
    if let Ok(hits) = r {
        assert forall|i: int|
            0 <= i < events@.len() && rule_matches(
                TOY_RULE@,
                (#[trigger] events@[i])@,
            ) implies hits@.contains(i as usize) by {
            assert(verdicts[i]);
        }
        assert forall|k: int| 0 <= k < hits@.len() implies (#[trigger] hits@[k]) < events@.len()
            && rule_matches(TOY_RULE@, events@[hits@[k] as int]@) by {
            assert(verdicts[hits@[k] as int]);
        }
    }
}

/// The first event that cannot be read is found.
proof fn lemma_first_unread(events: Seq<Seq<char>>, from: nat)
    ensures
        match first_unread(events, from) {
            Some(place) => {
                &&& from <= place < events.len()
                &&& !event_reads(events[place as int])
                &&& forall|i: int| from <= i < place ==> event_reads(#[trigger] events[i])
            },
            None => forall|i: int| from <= i < events.len() ==> event_reads(#[trigger] events[i]),
        },
    decreases events.len() - from,
{
    if from < events.len() && event_reads(events[from as int]) {
        lemma_first_unread(events, from + 1);
    }
}

} // verus!
