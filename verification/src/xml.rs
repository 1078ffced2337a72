//! Filling in the XML definitions of domains: memory units and placeholders.

use vstd::prelude::*;
use vstd::utf8::is_ascii_chars;

use crate::encoding::{lowercase, to_lowercase};
use crate::error::{Error, ErrorView};
use crate::text::{
    ascii_lowered,
    chars_of,
    contains_text,
    find_from,
    first_occurrence,
    join3,
    lemma_first_occurrence,
    matches_at,
    occurs_at,
    same_text,
    text_between,
};

verus! {

/// The number of bytes in a MiB
pub const BYTES_IN_MIB: u64 = 1_048_576;

/// Whether a character is white space in XML.
pub open spec fn is_xml_space(c: char) -> bool {
    c == ' ' || c == '\t' || c == '\r' || c == '\n'
}

/// Whether the name of an element ends at a position.
pub open spec fn name_ends(xml: Seq<char>, at: int) -> bool {
    at == xml.len() || (0 <= at < xml.len() && (is_xml_space(xml[at]) || xml[at] == '>' || xml[at]
        == '/'))
}

/// Where the start tag of the memory element starts, at or behind a position. An element whose
/// name goes on behind `memory` is another one.
pub open spec fn memory_tag_at(xml: Seq<char>, from: int) -> Option<int>
    decreases xml.len() - from,
{
    if from < 0 || from >= xml.len() {
        None
    } else if occurs_at(xml, from, "<memory"@) && name_ends(xml, from + 7) {
        Some(from)
    } else {
        memory_tag_at(xml, from + 1)
    }
}

/// Whether a character is a quote in XML.
pub open spec fn is_quote(c: char) -> bool {
    c == '\'' || c == '"'
}

/// Where a tag ends, from a position in it that is in no quotes: at the next `>` that is in no
/// quotes either, or where the text ends. Quotes go from one quote to the next one like it.
pub open spec fn tag_end(xml: Seq<char>, at: int) -> int
    decreases xml.len() - at,
{
    if at < 0 || at >= xml.len() {
        xml.len() as int
    } else if xml[at] == '>' {
        at
    } else if is_quote(xml[at]) {
        match first_occurrence(xml, at + 1, seq![xml[at]]) {
            Some(close) => {
                proof {
                    lemma_first_occurrence(xml, at + 1, seq![xml[at]]);
                }
                tag_end(xml, close + 1)
            },
            None => xml.len() as int,
        }
    } else {
        tag_end(xml, at + 1)
    }
}

/// Where the unit of the memory starts in an XML text: behind `unit=` in the start tag of the
/// memory element, at the quote.
pub open spec fn unit_quote_at(xml: Seq<char>) -> Option<int> {
    match memory_tag_at(xml, 0) {
        Some(start) => match first_occurrence(
            xml.take(tag_end(xml, start)),
            start,
            "unit="@,
        ) {
            Some(u) => if u + 5 < tag_end(xml, start) {
                Some(u + 5)
            } else {
                None
            },
            None => None,
        },
        None => None,
    }
}

/// Whether the quote behind `unit=` is one byte long, where there is one.
pub open spec fn unit_quote_is_ascii(xml: Seq<char>) -> bool {
    unit_quote_at(xml) matches Some(q) ==> (xml[q] as u32) < 128
}

/// The unit that an XML text gives its memory in: what stands between the character
/// behind `unit=` and the next one like it.
pub open spec fn unit_of(xml: Seq<char>) -> Option<Seq<char>> {
    match unit_quote_at(xml) {
        Some(q) => match first_occurrence(xml, q + 1, seq![xml[q]]) {
            Some(end) => Some(xml.subrange(q + 1, end)),
            None => None,
        },
        None => None,
    }
}

/// An amount of memory in MiB, converted to a unit that is written in lower case.
pub open spec fn in_unit(unit: Seq<char>, memory: nat) -> Option<nat> {
    if unit == "b"@ {
        Some(memory * BYTES_IN_MIB as nat)
    } else if unit == "kb"@ {
        Some(memory * BYTES_IN_MIB as nat / 1000)
    } else if unit == "k"@ || unit == "kib"@ {
        Some(memory * 1024)
    } else if unit == "m"@ || unit == "mib"@ {
        Some(memory)
    } else if unit == "mb"@ {
        Some(memory * BYTES_IN_MIB as nat / 1_000_000)
    } else if unit == "gb"@ {
        Some(memory * BYTES_IN_MIB as nat / 1_000_000_000)
    } else if unit == "g"@ || unit == "gib"@ {
        Some(memory / 1024)
    } else {
        None
    }
}

/// An amount of memory in MiB, converted to the unit that an XML text gives its memory in,
/// whatever the case of its letters. There is none where the unit is missing or not supported.
pub open spec fn detected_amount(xml: Seq<char>, memory: nat) -> Option<nat> {
    match unit_of(xml) {
        Some(unit) => in_unit(lowercase(unit), memory),
        None => None,
    }
}

/// Whether the conversion of an amount of memory in MiB to a unit can be computed in 64
/// bits.
pub open spec fn unit_fits(unit: Seq<char>, memory: u64) -> bool {
    &&& unit == "b"@ || unit == "kb"@ || unit == "mb"@ || unit == "gb"@ ==> memory * BYTES_IN_MIB
        <= u64::MAX
    &&& unit == "k"@ || unit == "kib"@ ==> memory * 1024 <= u64::MAX
}

/// Where the start tag of the memory element starts in an XML text, split into its characters.
fn find_memory_tag(c: &Vec<char>) -> (r: Option<usize>)
    ensures
        match r {
            Some(start) => memory_tag_at(c@, 0) == Some(start as int) && start < c@.len(),
            None => memory_tag_at(c@, 0) is None,
        },
{
    let needle: Vec<char> = chars_of("<memory");
    proof {
        reveal_strlit("<memory");
    }
    let mut i: usize = 0;
    while i < c.len()
        invariant
            needle@ == "<memory"@,
            needle@.len() == 7,
            i <= c@.len(),
            memory_tag_at(c@, 0) == memory_tag_at(c@, i as int),
        decreases c@.len() - i,
    {
        if matches_at(c, i, &needle) {
            let rest: usize = c.len() - i - 7;
            let ends: bool = if rest == 0 {
                true
            } else {
                let next: char = c[i + 7];
                next == ' ' || next == '\t' || next == '\r' || next == '\n' || next == '>' || next
                    == '/'
            };
            if ends {
                return Some(i);
            }
        }
        i = i + 1;
    }
    None
}

/// Where the tag that starts at a position ends in an XML text, split into its characters.
fn find_tag_end(c: &Vec<char>, start: usize) -> (r: usize)
    requires
        start <= c@.len(),
    ensures
        r == tag_end(c@, start as int),
        r <= c@.len(),
{
    let mut at: usize = start;
    while at < c.len()
        invariant
            at <= c@.len(),
            tag_end(c@, start as int) == tag_end(c@, at as int),
        decreases c@.len() - at,
    {
        let next: char = c[at];
        if next == '>' {
            return at;
        }
        if next == '\'' || next == '"' {
            let quote: Vec<char> = vec![next];
            assert(quote@ =~= seq![c@[at as int]]);
            match find_from(c, at + 1, &quote) {
                Some(close) => {
                    at = close + 1;
                },
                None => return c.len(),
            }
        } else {
            at = at + 1;
        }
    }
    c.len()
}

/// Where the unit of the memory starts in an XML text, split into its characters.
fn find_unit_quote(c: &Vec<char>) -> (r: Option<usize>)
    ensures
        match r {
            Some(q) => unit_quote_at(c@) == Some(q as int),
            None => unit_quote_at(c@) is None,
        },
        r matches Some(q) ==> q < c@.len() <= usize::MAX,
{
    let start: usize = match find_memory_tag(c) {
        Some(i) => i,
        None => return None,
    };
    let len: usize = c.len();
    let end: usize = find_tag_end(c, start);
    let unit_needle: Vec<char> = chars_of("unit=");
    proof {
        reveal_strlit("unit=");
    }
    let mut tag: Vec<char> = Vec::new();
    for i in 0..end
        invariant
            end <= c@.len(),
            tag@ == c@.take(i as int),
    {
        tag.push(c[i]);
        assert(tag@ =~= c@.take(i + 1));
    }
    let unit_index: usize = match find_from(&tag, start, &unit_needle) {
        Some(i) => i,
        None => return None,
    };
    if tag.len() - unit_index <= 5 {
        None
    } else {
        Some(unit_index + 5)
    }
}

/// Whether the unit of the memory in an XML text can be read: the quote behind `unit=` has to
/// be one byte long, where there is one.
pub fn has_readable_unit(xml: &str) -> (r: bool)
    ensures
        r == unit_quote_is_ascii(xml@),
{
    let c: Vec<char> = chars_of(xml);
    match find_unit_quote(&c) {
        Some(q) => {
            let quote: char = c[q];
            (quote as u32) < 128
        },
        None => true,
    }
}

/// The unit that an XML text gives its memory in.
pub fn memory_unit(xml: &str) -> (r: Option<String>)
    requires
        unit_quote_is_ascii(xml@),
    ensures
        r is Some <==> unit_of(xml@) is Some,
        r matches Some(unit) ==> unit_of(xml@) == Some(unit@),
{
    let c: Vec<char> = chars_of(xml);
    let quote_index: usize = match find_unit_quote(&c) {
        Some(i) => i,
        None => return None,
    };
    let mut quote: Vec<char> = Vec::new();
    quote.push(c[quote_index]);
    assert(quote@ =~= seq![xml@[quote_index as int]]);
    match find_from(&c, quote_index + 1, &quote) {
        Some(end) => Some(text_between(&c, quote_index + 1, end)),
        None => None,
    }
}

/// Converts an amount of memory in MiB to a unit that is written in lower case.
pub fn convert_memory(unit: &str, memory: u64) -> (r: Option<u64>)
    requires
        unit_fits(unit@, memory),
    ensures
        r is Some <==> in_unit(unit@, memory as nat) is Some,
        r matches Some(m) ==> in_unit(unit@, memory as nat) == Some(m as nat),
{
    if same_text(unit, "b") {
        Some(memory * BYTES_IN_MIB)
    } else if same_text(unit, "kb") {
        Some(memory * BYTES_IN_MIB / 1000)
    } else if same_text(unit, "k") || same_text(unit, "kib") {
        Some(memory * 1024)
    } else if same_text(unit, "m") || same_text(unit, "mib") {
        Some(memory)
    } else if same_text(unit, "mb") {
        Some(memory * BYTES_IN_MIB / 1_000_000)
    } else if same_text(unit, "gb") {
        Some(memory * BYTES_IN_MIB / 1_000_000_000)
    } else if same_text(unit, "g") || same_text(unit, "gib") {
        Some(memory / 1024)
    } else {
        None
    }
}

/// Whether the conversion of an amount of memory in MiB to a unit can be computed in 64
/// bits.
fn conversion_fits(unit: &str, memory: u64) -> (r: bool)
    ensures
        r == unit_fits(unit@, memory),
{
    let bytes: bool = same_text(unit, "b") || same_text(unit, "kb") || same_text(unit, "mb")
        || same_text(unit, "gb");
    let kib: bool = same_text(unit, "k") || same_text(unit, "kib");
    (!bytes || memory <= u64::MAX / BYTES_IN_MIB) && (!kib || memory <= u64::MAX / 1024)
}

/// Detect the memory units from the given XML and return the memory allocation converted
/// based on those units, or `None` if they are missing or not supported.
///
/// Based on [libvirt's memory allocation specification](<https://libvirt.org/formatdomain.html#memory-allocation>)
///
/// * `xml` - The XML string to search for units in
/// * `memory` - The memory allocation in MiB
pub fn detect_mem_units(xml: &str, memory: u64) -> (r: Option<u64>)
    requires
        unit_quote_is_ascii(xml@),
        unit_of(xml@) matches Some(unit) ==> unit_fits(lowercase(unit), memory),
    ensures
        r is Some <==> detected_amount(xml@, memory as nat) is Some,
        r matches Some(m) ==> detected_amount(xml@, memory as nat) == Some(m as nat),
        unit_of(xml@) matches Some(unit) ==> (is_ascii_chars(unit) ==> lowercase(unit)
            == ascii_lowered(unit)),
{
    match memory_unit(xml) {
        Some(unit) => convert_memory(to_lowercase(unit.as_str()).as_str(), memory),
        None => None,
    }
}

/// Detect the memory units as [`detect_mem_units`] does, where the converted amount can be
/// computed in 64 bits. Elsewhere there is no result.
pub fn try_mem_units(xml: &str, memory: u64) -> (r: Option<Option<u64>>)
    requires
        unit_quote_is_ascii(xml@),
    ensures
        r is None <==> (unit_of(xml@) matches Some(unit) && !unit_fits(lowercase(unit), memory)),
        r matches Some(found) ==> {
            &&& found is Some <==> detected_amount(xml@, memory as nat) is Some
            &&& found matches Some(m) ==> detected_amount(xml@, memory as nat) == Some(m as nat)
        },
{
    match memory_unit(xml) {
        Some(unit) => if conversion_fits(to_lowercase(unit.as_str()).as_str(), memory) {
            Some(detect_mem_units(xml, memory))
        } else {
            None
        },
        None => Some(None),
    }
}

/// How far the search goes on behind an occurrence of a placeholder.
pub open spec fn step_len(needle: Seq<char>) -> int {
    if needle.len() == 0 {
        1
    } else {
        needle.len() as int
    }
}

/// The positions at which a placeholder occurs from `from` on, none of them inside
/// another.
pub open spec fn matches_from(content: Seq<char>, needle: Seq<char>, from: int) -> Seq<int>
    decreases content.len() + 1 - from,
    via matches_from_decreases
{
    if from < 0 {
        Seq::empty()
    } else {
        match first_occurrence(content, from, needle) {
            Some(i) => seq![i] + matches_from(content, needle, i + step_len(needle)),
            None => Seq::empty(),
        }
    }
}

#[via_fn]
proof fn matches_from_decreases(content: Seq<char>, needle: Seq<char>, from: int) {
    if from >= 0 {
        lemma_first_occurrence(content, from, needle);
    }
}

/// A placeholder, and what is to stand in its place.
pub type Replacement = (Seq<char>, Seq<char>);

/// Whether a replacement applies at a position.
pub open spec fn applies_at(content: Seq<char>, rep: Replacement, at: int) -> bool {
    matches_from(content, rep.0, 0).contains(at)
}

/// The content from a position on with the replacements made. At each position those
/// replacements come that apply there, in the order in which they are listed, the ones
/// from the `r`-th on.
pub open spec fn rewritten(
    content: Seq<char>,
    reps: Seq<Replacement>,
    at: int,
    r: int,
) -> Seq<char>
    decreases content.len() - at, reps.len() - r,
{
    if at < 0 || r < 0 || at > content.len() {
        Seq::empty()
    } else if r < reps.len() {
        if !applies_at(content, reps[r], at) {
            rewritten(content, reps, at, r + 1)
        } else if reps[r].0.len() == 0 {
            reps[r].1 + rewritten(content, reps, at, r + 1)
        } else {
            proof {
                lemma_matches(content, reps[r].0, 0, at);
            }
            reps[r].1 + rewritten(content, reps, at + reps[r].0.len(), 0)
        }
    } else if at < content.len() {
        seq![content[at]] + rewritten(content, reps, at + 1, 0)
    } else {
        Seq::empty()
    }
}

/// Whether the placeholder of each replacement occurs.
pub open spec fn all_present(content: Seq<char>, reps: Seq<Replacement>) -> bool {
    forall|r: int| 0 <= r < reps.len() ==> contains_text(content, (#[trigger] reps[r]).0)
}

/// Whether an occurrence of one placeholder ends before the next one begins.
pub open spec fn apart(content: Seq<char>, reps: Seq<Replacement>) -> bool {
    forall|p: int, r: int, q: int, s: int|
        0 <= r < reps.len() && 0 <= s < reps.len() && #[trigger] applies_at(content, reps[r], p)
            && #[trigger] applies_at(content, reps[s], q) && (p < q || (p == q && r < s)) ==> p
            + reps[r].0.len() <= q
}

/// The replacements that a list of pairs of texts stands for.
pub open spec fn replacements_of(list: Seq<(&str, &str)>) -> Seq<Replacement> {
    list.map_values(|pair: (&str, &str)| (pair.0@, pair.1@))
}

/// The error for a placeholder that does not occur.
pub open spec fn missing_placeholder(placeholder: Seq<char>) -> ErrorView {
    ErrorView::Generic("XML is missing placeholder '"@ + placeholder + "'"@)
}

/// The position of the first replacement whose placeholder does not occur.
pub open spec fn first_missing(content: Seq<char>, reps: Seq<Replacement>, r: int) -> int
    decreases reps.len() - r,
{
    if r < 0 || r >= reps.len() || !contains_text(content, reps[r].0) {
        r
    } else {
        first_missing(content, reps, r + 1)
    }
}

/// The positions at which a placeholder occurs, none of them inside another.
fn match_positions(content: &Vec<char>, needle: &Vec<char>) -> (r: Vec<usize>)
    ensures
        r@.map_values(|i: usize| i as int) == matches_from(content@, needle@, 0),
        r@.len() == 0 <==> !contains_text(content@, needle@),
{
    let mut out: Vec<usize> = Vec::new();
    let mut from: usize = 0;
    let step: usize = if needle.len() == 0 {
        1
    } else {
        needle.len()
    };
    let ghost f = |i: usize| i as int;
    assert(out@.map_values(f) + matches_from(content@, needle@, 0) =~= matches_from(
        content@,
        needle@,
        0,
    ));
    proof {
        lemma_first_occurrence(content@, 0, needle@);
    }
    loop
        invariant_except_break
            from <= content@.len() + 1,
            out@.map_values(f) + matches_from(content@, needle@, from as int) == matches_from(
                content@,
                needle@,
                0,
            ),
            out@.len() == 0 ==> from == 0,
        invariant
            step == step_len(needle@),
            f == (|i: usize| i as int),
            out@.len() > 0 ==> contains_text(content@, needle@),
        ensures
            out@.map_values(f) == matches_from(content@, needle@, 0),
            out@.len() == 0 <==> !contains_text(content@, needle@),
        decreases content@.len() + 1 - from,
    {
        let found: Option<usize> = find_from(content, from, needle);
        match found {
            None => {
                assert(out@.map_values(f) + matches_from(content@, needle@, from as int)
                    =~= out@.map_values(f));
                break;
            },
            Some(i) => {
                let ghost before = out@;
                out.push(i);
                proof {
                    lemma_first_occurrence(content@, 0, needle@);
                    lemma_first_occurrence(content@, from as int, needle@);
                    assert(out@.map_values(f) =~= before.map_values(f) + seq![i as int]);
                    assert(out@.map_values(f) + matches_from(content@, needle@, i + step)
                        =~= before.map_values(f) + (seq![i as int] + matches_from(
                        content@,
                        needle@,
                        i + step,
                    )));
                }
                if step > content.len() - i {
                    proof {
                        lemma_first_occurrence(content@, i + step, needle@);
                        assert(first_occurrence(content@, i + step, needle@) is None);
                        assert(out@.map_values(f) + matches_from(content@, needle@, i + step)
                            =~= out@.map_values(f));
                    }
                    break;
                }
                from = i + step;
            },
        }
    }
    out
}

/// Whether a position is in a list.
fn listed(list: &Vec<usize>, at: usize) -> (r: bool)
    ensures
        r == list@.map_values(|i: usize| i as int).contains(at as int),
{
    let ghost f = |i: usize| i as int;
    for i in 0..list.len()
        invariant
            f == (|i: usize| i as int),
            forall|j: int| 0 <= j < i ==> #[trigger] list@[j] != at,
    {
        if list[i] == at {
            assert(list@.map_values(f)[i as int] == at as int);
            return true;
        }
    }
    assert forall|j: int| 0 <= j < list@.len() implies list@.map_values(f)[j] != at as int by {}
    false
}

/// Apply replacements to the given content, where replacements are given as a list of
/// pairs, the first element as the thing to replace and the second as what to replace it
/// with. Every placeholder has to occur.
///
/// * `content` - The content to apply replacements to
/// * `replacements` - The replacements to apply
pub fn apply_replacements(content: &str, replacements: &[(&str, &str)]) -> (r: Result<
    String,
    Error,
>)
    requires
        all_present(content@, replacements_of(replacements@)) ==> apart(
            content@,
            replacements_of(replacements@),
        ),
    ensures
        r is Ok <==> all_present(content@, replacements_of(replacements@)),
        r matches Ok(s) ==> s@ == rewritten(content@, replacements_of(replacements@), 0, 0),
        r matches Err(e) ==> {
            let missing = first_missing(content@, replacements_of(replacements@), 0);
            0 <= missing < replacements@.len() && e@ == missing_placeholder(
                replacements@[missing].0@,
            )
        },
{
    let ghost reps = replacements_of(replacements@);
    let c: Vec<char> = chars_of(content);
    let mut lists: Vec<Vec<usize>> = Vec::new();
    let ghost f = |i: usize| i as int;
    for i in 0..replacements.len()
        invariant
            c@ == content@,
            f == (|i: usize| i as int),
            reps == replacements_of(replacements@),
            lists@.len() == i,
            first_missing(content@, reps, 0) == first_missing(content@, reps, i as int),
            forall|j: int|
                0 <= j < i ==> (#[trigger] lists@[j])@.map_values(f) == matches_from(
                    content@,
                    reps[j].0,
                    0,
                ),
            forall|j: int| 0 <= j < i ==> contains_text(content@, (#[trigger] reps[j]).0),
    {
        let placeholder: &str = replacements[i].0;
        let needle: Vec<char> = chars_of(placeholder);
        let positions: Vec<usize> = match_positions(&c, &needle);
        assert(reps[i as int].0 == placeholder@);
        if positions.len() == 0 {
            return Err(
                Error::Generic(join3("XML is missing placeholder '", placeholder, "'")),
            );
        }
        lists.push(positions);
    }
    let n: usize = replacements.len();
    let len: usize = c.len();
    let mut out: String = String::new();
    let mut at: usize = 0;
    let mut k: usize = 0;
    assert(out@ + rewritten(c@, reps, 0, 0) =~= rewritten(c@, reps, 0, 0));
    while k < n || at < len
        invariant
            len == c@.len(),
            c@ == content@,
            f == (|i: usize| i as int),
            reps == replacements_of(replacements@),
            n == replacements@.len() == lists@.len(),
            forall|j: int|
                0 <= j < n ==> (#[trigger] lists@[j])@.map_values(f) == matches_from(
                    content@,
                    reps[j].0,
                    0,
                ),
            at <= c@.len(),
            k <= n,
            out@ + rewritten(c@, reps, at as int, k as int) == rewritten(c@, reps, 0, 0),
        decreases c@.len() - at, n - k,
    {
        let ghost before = out@;
        if k < n {
            let here: bool = listed(&lists[k], at);
            assert(here == applies_at(c@, reps[k as int], at as int));
            if here {
                let value: &str = replacements[k].1;
                let needle: Vec<char> = chars_of(replacements[k].0);
                assert(reps[k as int] == (needle@, value@));
                out.push_str(value);
                proof {
                    lemma_matches(c@, needle@, 0, at as int);
                }
                if needle.len() == 0 {
                    proof {
                        let rest = rewritten(c@, reps, at as int, k + 1);
                        assert(before + (value@ + rest) =~= out@ + rest);
                    }
                    k = k + 1;
                } else {
                    proof {
                        let rest = rewritten(c@, reps, at + needle@.len(), 0);
                        assert(before + (value@ + rest) =~= out@ + rest);
                    }
                    at = at + needle.len();
                    k = 0;
                }
            } else {
                k = k + 1;
            }
        } else {
            out.push(c[at]);
            proof {
                let rest = rewritten(c@, reps, at + 1, 0);
                assert(before + (seq![c@[at as int]] + rest) =~= out@ + rest);
            }
            at = at + 1;
            k = 0;
        }
    }
    assert(rewritten(c@, reps, at as int, k as int) =~= Seq::<char>::empty());
    assert(out@ + rewritten(c@, reps, at as int, k as int) =~= out@);
    Ok(out)
}

/// Each position that is found is an occurrence, at or behind where the search starts.
pub proof fn lemma_matches(content: Seq<char>, needle: Seq<char>, from: int, at: int)
    requires
        0 <= from,
        matches_from(content, needle, from).contains(at),
    ensures
        from <= at,
        occurs_at(content, at, needle),
    decreases content.len() + 1 - from,
{
    lemma_first_occurrence(content, from, needle);
    match first_occurrence(content, from, needle) {
        Some(i) => {
            let rest = matches_from(content, needle, i + step_len(needle));
            let all = matches_from(content, needle, from);
            let j = choose|j: int| 0 <= j < all.len() && all[j] == at;
            if j > 0 {
                assert(rest[j - 1] == at);
                lemma_matches(content, needle, i + step_len(needle), at);
            }
        },
        None => {},
    }
}

/// Whether a text is a supported unit in lower case.
pub open spec fn is_unit(unit: Seq<char>) -> bool {
    ||| unit == "b"@
    ||| unit == "kb"@
    ||| unit == "k"@
    ||| unit == "kib"@
    ||| unit == "mb"@
    ||| unit == "m"@
    ||| unit == "mib"@
    ||| unit == "gb"@
    ||| unit == "g"@
    ||| unit == "gib"@
}

/// A memory element with a unit in quotes.
pub open spec fn memory_element(quote: char, unit: Seq<char>) -> Seq<char> {
    "<memory unit="@ + seq![quote] + unit + seq![quote] + ">{MEMORY}</memory>"@
}

/// A tag goes on over characters that neither end it nor are quotes.
pub proof fn lemma_tag_goes_on(xml: Seq<char>, from: int, to: int)
    requires
        0 <= from <= to < xml.len(),
        forall|i: int|
            from <= i < to ==> #[trigger] xml[i] != '>' && !is_quote(xml[i]),
    ensures
        tag_end(xml, from) == tag_end(xml, to),
    decreases to - from,
{
    if from < to {
        lemma_tag_goes_on(xml, from + 1, to);
    }
}

/// A tag ends at or behind any position in it.
pub proof fn lemma_tag_end_is_behind(xml: Seq<char>, at: int)
    requires
        0 <= at <= xml.len(),
    ensures
        at <= tag_end(xml, at) <= xml.len(),
    decreases xml.len() - at,
{
    if at < xml.len() && xml[at] != '>' {
        if is_quote(xml[at]) {
            lemma_first_occurrence(xml, at + 1, seq![xml[at]]);
            if let Some(close) = first_occurrence(xml, at + 1, seq![xml[at]]) {
                lemma_tag_end_is_behind(xml, close + 1);
            }
        } else {
            lemma_tag_end_is_behind(xml, at + 1);
        }
    }
}

proof fn lemma_unit_of_element(quote: char, unit: Seq<char>)
    requires
        is_quote(quote),
        !unit.contains(quote),
    ensures
        unit_of(memory_element(quote, unit)) == Some(unit),
        unit_quote_is_ascii(memory_element(quote, unit)),
{
    let xml = memory_element(quote, unit);
    reveal_strlit("<memory unit=");
    reveal_strlit("<memory");
    reveal_strlit("unit=");
    assert(xml[13] == quote);
    assert(forall|i: int| 0 <= i < 13 ==> #[trigger] xml[i] == "<memory unit="@[i]);
    // the tag starts the text
    assert(xml.subrange(0, 7) =~= "<memory"@);
    assert(xml[7] == ' ');
    assert(memory_tag_at(xml, 0) == Some(0int));
    // the tag does not end before the quotes do
    let close: int = 14int + unit.len();
    lemma_first_occurrence(xml, 14, seq![quote]);
    assert(xml[close] == quote);
    assert(xml.subrange(close, close + 1) =~= seq![quote]);
    assert(occurs_at(xml, close, seq![quote]));
    let found = first_occurrence(xml, 14, seq![quote])->0;
    assert(found == close) by {
        if found < close {
            assert(xml.subrange(found, found + 1)[0] == quote);
            assert(unit[found - 14] == xml[found]);
        }
    }
    assert(seq![xml[13]] =~= seq![quote]);
    let end = tag_end(xml, 0);
    lemma_tag_goes_on(xml, 0, 13);
    assert(end == tag_end(xml, close + 1));
    lemma_tag_end_is_behind(xml, close + 1);
    // the unit is behind the quote
    let tag = xml.take(end);
    assert(tag.subrange(8, 13) =~= "unit="@);
    lemma_first_occurrence(tag, 0, "unit="@);
    assert(occurs_at(tag, 8, "unit="@));
    let u = first_occurrence(tag, 0, "unit="@)->0;
    assert(u == 8) by {
        if u < 8 {
            assert(tag.subrange(u, u + 5)[0] == 'u');
            assert(xml[u] == 'u');
        }
    }
    assert(unit_quote_at(xml) == Some(13int));
    // and goes up to the next one
    assert(xml.subrange(14, close) =~= unit);
}

/// Neither the quote character nor the case of the letters of a unit makes a difference, and
/// there is an amount exactly where the unit is a supported one.
pub proof fn law_units_ignore_case_and_quotes(
    quote: char,
    unit: Seq<char>,
    other_quote: char,
    other_unit: Seq<char>,
    memory: u64,
)
    requires
        is_quote(quote),
        is_quote(other_quote),
        !unit.contains(quote),
        !other_unit.contains(other_quote),
        lowercase(unit) == lowercase(other_unit),
    ensures
        detected_amount(memory_element(quote, unit), memory as nat) == detected_amount(
            memory_element(other_quote, other_unit),
            memory as nat,
        ),
        detected_amount(memory_element(quote, unit), memory as nat) is Some <==> is_unit(
            lowercase(unit),
        ),
        // the amount can be computed for all memory that there is
        unit_quote_is_ascii(memory_element(quote, unit)),
        memory < 17_592_186_044_416 ==> unit_fits(lowercase(unit), memory),
{
    lemma_unit_of_element(quote, unit);
    lemma_unit_of_element(other_quote, other_unit);
}

/// Whether two lists hold the same replacements.
spec fn same_replacements(a: Seq<Replacement>, b: Seq<Replacement>) -> bool {
    forall|rep: Replacement| #[trigger] a.contains(rep) <==> b.contains(rep)
}

/// Whether no two different replacements of a list apply at one position.
spec fn one_applies(content: Seq<char>, reps: Seq<Replacement>) -> bool {
    forall|r: int, s: int, at: int|
        0 <= r < reps.len() && 0 <= s < reps.len() && #[trigger] applies_at(content, reps[r], at)
            && #[trigger] applies_at(content, reps[s], at) ==> reps[r] == reps[s]
}

/// Where a replacement applies, it is made.
proof fn lemma_made_where_it_applies(
    content: Seq<char>,
    reps: Seq<Replacement>,
    at: int,
    k: int,
    r: int,
)
    requires
        0 <= at <= content.len(),
        0 <= k <= r < reps.len(),
        one_applies(content, reps),
        applies_at(content, reps[r], at),
        reps[r].0.len() > 0,
    ensures
        rewritten(content, reps, at, k) == reps[r].1 + rewritten(
            content,
            reps,
            at + reps[r].0.len(),
            0,
        ),
    decreases r - k,
{
    if !applies_at(content, reps[k], at) {
        lemma_made_where_it_applies(content, reps, at, k + 1, r);
    } else {
        assert(reps[k] == reps[r]);
    }
}

/// Where no replacement applies, the content stays.
proof fn lemma_kept_where_none_applies(
    content: Seq<char>,
    reps: Seq<Replacement>,
    at: int,
    k: int,
)
    requires
        0 <= at <= content.len(),
        0 <= k <= reps.len(),
        forall|r: int| 0 <= r < reps.len() ==> !#[trigger] applies_at(content, reps[r], at),
    ensures
        rewritten(content, reps, at, k) == (if at < content.len() {
            seq![content[at]] + rewritten(content, reps, at + 1, 0)
        } else {
            Seq::empty()
        }),
    decreases reps.len() - k,
{
    if k < reps.len() {
        assert(!applies_at(content, reps[k], at));
        lemma_kept_where_none_applies(content, reps, at, k + 1);
    }
}

proof fn lemma_order_is_free(
    content: Seq<char>,
    reps: Seq<Replacement>,
    other: Seq<Replacement>,
    at: int,
)
    requires
        0 <= at <= content.len(),
        same_replacements(reps, other),
        one_applies(content, reps),
        one_applies(content, other),
        forall|r: int| 0 <= r < reps.len() ==> (#[trigger] reps[r]).0.len() > 0,
    ensures
        rewritten(content, reps, at, 0) == rewritten(content, other, at, 0),
    decreases content.len() - at,
{
    if exists|r: int| 0 <= r < reps.len() && #[trigger] applies_at(content, reps[r], at) {
        let r = choose|r: int| 0 <= r < reps.len() && #[trigger] applies_at(content, reps[r], at);
        assert(reps.contains(reps[r]));
        let s = choose|s: int| 0 <= s < other.len() && other[s] == reps[r];
        assert(applies_at(content, other[s], at));
        lemma_matches(content, reps[r].0, 0, at);
        lemma_made_where_it_applies(content, reps, at, 0, r);
        lemma_made_where_it_applies(content, other, at, 0, s);
        lemma_order_is_free(content, reps, other, at + reps[r].0.len());
    } else {
        assert forall|s: int| 0 <= s < other.len() implies !#[trigger] applies_at(
            content,
            other[s],
            at,
        ) by {
            assert(other.contains(other[s]));
            assert(reps.contains(other[s]));
            let r = choose|r: int| 0 <= r < reps.len() && reps[r] == other[s];
            assert(!applies_at(content, reps[r], at));
        }
        lemma_kept_where_none_applies(content, reps, at, 0);
        lemma_kept_where_none_applies(content, other, at, 0);
        if at < content.len() {
            lemma_order_is_free(content, reps, other, at + 1);
        }
    }
}

/// Where occurrences of the placeholders are apart, and none of them is empty, the order in
/// which the replacements are listed makes no difference: neither to whether all placeholders
/// occur nor to the result.
pub proof fn law_the_order_of_replacements_is_free(
    content: Seq<char>,
    reps: Seq<Replacement>,
    other: Seq<Replacement>,
)
    requires
        other.to_multiset() == reps.to_multiset(),
        apart(content, reps),
        forall|r: int| 0 <= r < reps.len() ==> (#[trigger] reps[r]).0.len() > 0,
    ensures
        all_present(content, other) <==> all_present(content, reps),
        rewritten(content, other, 0, 0) == rewritten(content, reps, 0, 0),
{
    broadcast use vstd::seq_lib::group_to_multiset_ensures;

    assert forall|rep: Replacement| #[trigger] reps.contains(rep) <==> other.contains(rep) by {
        assert(reps.contains(rep) <==> reps.to_multiset().count(rep) > 0);
        assert(other.contains(rep) <==> other.to_multiset().count(rep) > 0);
    }
    assert forall|r: int| 0 <= r < other.len() implies reps.contains(#[trigger] other[r]) by {
        assert(other.contains(other[r]));
    }
    assert forall|r: int| 0 <= r < reps.len() implies other.contains(#[trigger] reps[r]) by {
        assert(reps.contains(reps[r]));
    }
    assert(one_applies(content, reps)) by {
        assert forall|r: int, s: int, at: int|
            0 <= r < reps.len() && 0 <= s < reps.len() && #[trigger] applies_at(
                content,
                reps[r],
                at,
            ) && #[trigger] applies_at(content, reps[s], at) implies reps[r] == reps[s] by {
            if r < s {
                assert(at + reps[r].0.len() <= at);
            } else if s < r {
                assert(at + reps[s].0.len() <= at);
            }
        }
    }
    assert(one_applies(content, other)) by {
        assert forall|r: int, s: int, at: int|
            0 <= r < other.len() && 0 <= s < other.len() && #[trigger] applies_at(
                content,
                other[r],
                at,
            ) && #[trigger] applies_at(content, other[s], at) implies other[r] == other[s] by {
            let i = choose|i: int| 0 <= i < reps.len() && reps[i] == other[r];
            let j = choose|j: int| 0 <= j < reps.len() && reps[j] == other[s];
            assert(applies_at(content, reps[i], at) && applies_at(content, reps[j], at));
        }
    }
    lemma_order_is_free(content, reps, other, 0);
}

/// Replacements that put each placeholder in its own place give the content back.
pub proof fn law_placeholders_for_themselves_change_nothing(
    content: Seq<char>,
    reps: Seq<Replacement>,
)
    requires
        forall|r: int| 0 <= r < reps.len() ==> (#[trigger] reps[r]).0.len() > 0,
        forall|r: int| 0 <= r < reps.len() ==> (#[trigger] reps[r]).1 == reps[r].0,
    ensures
        rewritten(content, reps, 0, 0) == content,
{
    lemma_given_back(content, reps, 0, 0);
    assert(content.skip(0) =~= content);
}

proof fn lemma_given_back(content: Seq<char>, reps: Seq<Replacement>, at: int, k: int)
    requires
        0 <= at <= content.len(),
        0 <= k <= reps.len(),
        forall|r: int| 0 <= r < reps.len() ==> (#[trigger] reps[r]).0.len() > 0,
        forall|r: int| 0 <= r < reps.len() ==> (#[trigger] reps[r]).1 == reps[r].0,
    ensures
        rewritten(content, reps, at, k) == content.skip(at),
    decreases content.len() - at, reps.len() - k,
{
    if k < reps.len() {
        if applies_at(content, reps[k], at) {
            let needle = reps[k].0;
            lemma_matches(content, needle, 0, at);
            lemma_given_back(content, reps, at + needle.len(), 0);
            assert(content.skip(at) =~= content.subrange(at, at + needle.len()) + content.skip(
                at + needle.len(),
            ));
        } else {
            lemma_given_back(content, reps, at, k + 1);
        }
    } else if at < content.len() {
        lemma_given_back(content, reps, at + 1, 0);
        assert(content.skip(at) =~= seq![content[at]] + content.skip(at + 1));
    } else {
        assert(content.skip(at) =~= Seq::<char>::empty());
    }
}

/// Without replacements the content stays as it is.
pub proof fn law_no_replacements_change_nothing(content: Seq<char>)
    ensures
        rewritten(content, Seq::empty(), 0, 0) == content,
{
    lemma_rest_unchanged(content, 0);
    assert(content.skip(0) =~= content);
}

proof fn lemma_rest_unchanged(content: Seq<char>, at: int)
    requires
        0 <= at <= content.len(),
    ensures
        rewritten(content, Seq::empty(), at, 0) == content.skip(at),
    decreases content.len() - at,
{
    if at < content.len() {
        lemma_rest_unchanged(content, at + 1);
        assert(content.skip(at) =~= seq![content[at]] + content.skip(at + 1));
    } else {
        assert(content.skip(at) =~= Seq::<char>::empty());
    }
}

/// Whether a position stands inside an occurrence of a placeholder.
pub open spec fn inside_placeholder(content: Seq<char>, reps: Seq<Replacement>, at: int) -> bool {
    exists|p: int, r: int|
        0 <= r < reps.len() && #[trigger] applies_at(content, reps[r], p) && p <= at < p
            + reps[r].0.len()
}

/// A character that stands in the content only inside placeholders, and in no value,
/// is gone once the replacements are made. With braces for the character: no
/// placeholder is left behind.
pub proof fn law_no_placeholder_is_left(content: Seq<char>, reps: Seq<Replacement>, mark: char)
    requires
        apart(content, reps),
        forall|at: int|
            0 <= at < content.len() && #[trigger] content[at] == mark ==> inside_placeholder(
                content,
                reps,
                at,
            ),
        forall|r: int| 0 <= r < reps.len() ==> !(#[trigger] reps[r]).1.contains(mark),
    ensures
        !rewritten(content, reps, 0, 0).contains(mark),
{
    assert forall|p: int, r: int|
        0 <= r < reps.len() && #[trigger] applies_at(content, reps[r], p) && p < 0 implies p
        + reps[r].0.len() <= 0 by {
        lemma_matches(content, reps[r].0, 0, p);
    }
    lemma_mark_gone(content, reps, mark, 0, 0);
}

/// Whether no occurrence of a placeholder goes on across a position.
spec fn between(content: Seq<char>, reps: Seq<Replacement>, at: int) -> bool {
    forall|p: int, r: int|
        0 <= r < reps.len() && #[trigger] applies_at(content, reps[r], p) && p < at ==> p
            + reps[r].0.len() <= at
}

proof fn lemma_mark_gone(
    content: Seq<char>,
    reps: Seq<Replacement>,
    mark: char,
    at: int,
    k: int,
)
    requires
        apart(content, reps),
        forall|i: int|
            0 <= i < content.len() && #[trigger] content[i] == mark ==> inside_placeholder(
                content,
                reps,
                i,
            ),
        forall|r: int| 0 <= r < reps.len() ==> !(#[trigger] reps[r]).1.contains(mark),
        0 <= at,
        0 <= k <= reps.len(),
        at <= content.len() ==> between(content, reps, at),
        forall|r: int|
            0 <= r < k && #[trigger] applies_at(content, reps[r], at) ==> reps[r].0.len() == 0,
    ensures
        !rewritten(content, reps, at, k).contains(mark),
    decreases content.len() - at, reps.len() - k,
{
    if at > content.len() {
    } else if k < reps.len() {
        if !applies_at(content, reps[k], at) {
            lemma_mark_gone(content, reps, mark, at, k + 1);
        } else {
            let value = reps[k].1;
            let rest = if reps[k].0.len() == 0 {
                rewritten(content, reps, at, k + 1)
            } else {
                rewritten(content, reps, at + reps[k].0.len(), 0)
            };
            if reps[k].0.len() == 0 {
                lemma_mark_gone(content, reps, mark, at, k + 1);
            } else {
                lemma_matches(content, reps[k].0, 0, at);
                let next = at + reps[k].0.len();
                assert forall|p: int, r: int|
                    0 <= r < reps.len() && #[trigger] applies_at(content, reps[r], p) && p
                        < next implies p + reps[r].0.len() <= next by {
                    if p > at {
                        assert(at + reps[k].0.len() <= p);
                    } else if p == at {
                        if r < k {
                            assert(p + reps[r].0.len() <= at);
                        } else if r > k {
                            assert(at + reps[k].0.len() <= p);
                        }
                    } else {
                        assert(p + reps[r].0.len() <= at);
                    }
                }
                lemma_mark_gone(content, reps, mark, next, 0);
            }
            assert((value + rest).contains(mark) ==> value.contains(mark) || rest.contains(mark))
                by {
                if (value + rest).contains(mark) {
                    let i = choose|i: int|
                        0 <= i < (value + rest).len() && (value + rest)[i] == mark;
                    if i < value.len() {
                        assert(value[i] == mark);
                    } else {
                        assert(rest[i - value.len()] == mark);
                    }
                }
            }
        }
    } else if at < content.len() {
        assert(content[at] != mark) by {
            if content[at] == mark {
                let (p, r) = choose|p: int, r: int|
                    0 <= r < reps.len() && #[trigger] applies_at(content, reps[r], p) && p <= at
                        < p + reps[r].0.len();
                assert(p < at || reps[r].0.len() == 0);
            }
        }
        assert forall|p: int, r: int|
            0 <= r < reps.len() && #[trigger] applies_at(content, reps[r], p) && p < at
                + 1 implies p + reps[r].0.len() <= at + 1 by {
            if p == at {
                assert(reps[r].0.len() == 0);
            }
        }
        lemma_mark_gone(content, reps, mark, at + 1, 0);
        let rest = rewritten(content, reps, at + 1, 0);
        let all = seq![content[at]] + rest;
        if all.contains(mark) {
            let i = choose|i: int| 0 <= i < all.len() && all[i] == mark;
            if i > 0 {
                assert(rest[i - 1] == mark);
            }
        }
    }
}

/// The replacements that make a golden XML the definition of a domain.
pub open spec fn domain_replacements(
    name: Seq<char>,
    cpu: Seq<char>,
    memory: Seq<char>,
    file: Seq<char>,
) -> Seq<Replacement> {
    seq![("{NAME}"@, name), ("{CPU}"@, cpu), ("{MEMORY}"@, memory), ("{FILE}"@, file)]
}

/// Occurrences of the placeholders of a domain's definition never touch each other's
/// inside, whatever the XML is.
pub proof fn law_domain_placeholders_are_apart(
    content: Seq<char>,
    name: Seq<char>,
    cpu: Seq<char>,
    memory: Seq<char>,
    file: Seq<char>,
)
    ensures
        apart(content, domain_replacements(name, cpu, memory, file)),
{
    let reps = domain_replacements(name, cpu, memory, file);
    reveal_strlit("{NAME}");
    reveal_strlit("{CPU}");
    reveal_strlit("{MEMORY}");
    reveal_strlit("{FILE}");
    assert forall|r: int| 0 <= r < 4 implies {
        &&& (#[trigger] reps[r]).0.len() >= 2
        &&& reps[r].0[0] == '{'
        &&& forall|i: int| 0 < i < reps[r].0.len() ==> #[trigger] reps[r].0[i] != '{'
    } by {
        assert(r == 0 || r == 1 || r == 2 || r == 3);
    }
    assert forall|p: int, r: int, q: int, s: int|
        0 <= r < reps.len() && 0 <= s < reps.len() && #[trigger] applies_at(content, reps[r], p)
            && #[trigger] applies_at(content, reps[s], q) && (p < q || (p == q && r < s)) implies p
        + reps[r].0.len() <= q by {
        lemma_matches(content, reps[r].0, 0, p);
        lemma_matches(content, reps[s].0, 0, q);
        assert(content.subrange(p, p + reps[r].0.len()) == reps[r].0);
        assert(content.subrange(q, q + reps[s].0.len()) == reps[s].0);
        if p < q && q < p + reps[r].0.len() {
            assert(content.subrange(p, p + reps[r].0.len())[q - p] == content[q]);
            assert(content.subrange(q, q + reps[s].0.len())[0] == content[q]);
        }
        if p == q {
            assert(content.subrange(p, p + reps[r].0.len())[1] == content[p + 1]);
            assert(content.subrange(q, q + reps[s].0.len())[1] == content[p + 1]);
            assert(reps[r].0[1] == reps[s].0[1]);
            assert(r == 0 || r == 1 || r == 2 || r == 3);
            assert(s == 0 || s == 1 || s == 2 || s == 3);
        }
    }
}

} // verus!
