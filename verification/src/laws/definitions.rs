//! The definitions of domains: golden XML with the worker's own values filled in.

use vstd::prelude::*;
use vstd::utf8::is_ascii_chars;

use crate::encoding::{lowercase, quoted};
use crate::error::{Error, ErrorView};
use crate::laws::text::is_free_of;
use crate::models::Resources;
use crate::number::decimal;
use crate::state::overlayed::vcpus;
use crate::state::Overlayed;
use crate::text::{ascii_lowered, contains_text, first_occurrence, lemma_first_occurrence, occurs_at};
use crate::xml::{
    all_present,
    applies_at,
    apply_replacements,
    convert_memory,
    detect_mem_units,
    domain_replacements,
    first_missing,
    has_readable_unit,
    is_quote,
    lemma_matches,
    lemma_tag_end_is_behind,
    lemma_tag_goes_on,
    matches_from,
    memory_tag_at,
    memory_unit,
    replacements_of,
    rewritten,
    step_len,
    tag_end,
    try_mem_units,
    unit_fits,
    unit_of,
    unit_quote_at,
    unit_quote_is_ascii,
    Replacement,
};

verus! {

/// A MiB is 1048576 bytes. Units by the thousand are those with a bare `b`, the others go by 1024.
pub proof fn law_memory_is_converted_to_its_unit(unit: &str, memory: u64, r: Option<u64>)
    requires
        unit_fits(unit@, memory),
        call_ensures(convert_memory, (unit, memory), r),
    ensures
        unit@ == "b"@ ==> (r matches Some(n) && n == 1_048_576 * memory),
        unit@ == "kb"@ ==> (r matches Some(n) && n == 1_048_576 * memory / 1000),
        unit@ == "k"@ || unit@ == "kib"@ ==> (r matches Some(n) && n == 1024 * memory),
        unit@ == "mb"@ ==> (r matches Some(n) && n == 1_048_576 * memory / 1_000_000),
        unit@ == "m"@ || unit@ == "mib"@ ==> r == Some(memory),
        unit@ == "gb"@ ==> (r matches Some(n) && n == 1_048_576 * memory / 1_000_000_000),
        unit@ == "g"@ || unit@ == "gib"@ ==> (r matches Some(n) && n == memory / 1024),
        r is Some ==> unit@ == "b"@ || unit@ == "kb"@ || unit@ == "k"@ || unit@ == "kib"@ || unit@
            == "mb"@ || unit@ == "m"@ || unit@ == "mib"@ || unit@ == "gb"@ || unit@ == "g"@ || unit@
            == "gib"@,
{
    lemma_units_differ();
}

/// The units that are known are told apart by their lengths and their first letters.
proof fn lemma_units_differ()
    ensures
        "b"@.len() == 1 && "k"@.len() == 1 && "m"@.len() == 1 && "g"@.len() == 1,
        "b"@[0] == 'b' && "k"@[0] == 'k' && "m"@[0] == 'm' && "g"@[0] == 'g',
        "kb"@.len() == 2 && "mb"@.len() == 2 && "gb"@.len() == 2,
        "kb"@[0] == 'k' && "mb"@[0] == 'm' && "gb"@[0] == 'g',
        "kib"@.len() == 3 && "mib"@.len() == 3 && "gib"@.len() == 3,
        "kib"@[0] == 'k' && "mib"@[0] == 'm' && "gib"@[0] == 'g',
{
    reveal_strlit("b");
    reveal_strlit("kb");
    reveal_strlit("k");
    reveal_strlit("kib");
    reveal_strlit("mb");
    reveal_strlit("m");
    reveal_strlit("mib");
    reveal_strlit("gb");
    reveal_strlit("g");
    reveal_strlit("gib");
}

/// The memory is given in the unit of the golden XML, whatever the case of its letters. There is
/// none where the XML has no unit.
pub proof fn law_the_unit_of_the_definition_is_used(
    xml: &str,
    memory: u64,
    unit: Option<String>,
    lower: &str,
    converted: Option<u64>,
    r: Option<u64>,
)
    requires
        call_ensures(memory_unit, (xml,), unit),
        call_ensures(detect_mem_units, (xml, memory), r),
        unit matches Some(text) ==> is_ascii_chars(text@) && lower@ == ascii_lowered(text@),
        call_ensures(convert_memory, (lower, memory), converted),
    ensures
        unit is None ==> r is None,
        unit is Some ==> r == converted,
{
}

/// Whether a character ends the name of an element.
pub open spec fn ends_a_name(c: char) -> bool {
    c == ' ' || c == '\t' || c == '\r' || c == '\n' || c == '>' || c == '/'
}

/// Elements whose names only start like that of the memory are passed over: with another name
/// before it, the unit is still the one of the memory element.
pub proof fn law_other_elements_are_passed_over(
    xml: &str,
    before: Seq<char>,
    more: Seq<char>,
    gap: Seq<char>,
    quote: char,
    unit: Seq<char>,
    rest: Seq<char>,
    r: Option<String>,
)
    requires
        is_free_of(before, '<'),
        is_free_of(more, '<'),
        more.len() > 0,
        !ends_a_name(more[0]),
        gap.len() > 0,
        gap[0] == ' ' || gap[0] == '\t' || gap[0] == '\r' || gap[0] == '\n',
        is_free_of(gap, '>') && is_free_of(gap, '\'') && is_free_of(gap, '"') && is_free_of(
            gap,
            '=',
        ),
        quote == '\'' || quote == '"',
        is_free_of(unit, quote),
        xml@ == before + "<memory"@ + more + "<memory"@ + (gap + "unit="@ + seq![quote] + unit
            + seq![quote] + rest),
        call_ensures(memory_unit, (xml,), r),
    ensures
        r matches Some(found) && found@ == unit,
{
    let tail = gap + "unit="@ + seq![quote] + unit + seq![quote] + rest;
    let lead = before + "<memory"@ + more;
    let start = lead.len() as int;
    let g = gap.len() as int;
    let n = unit.len() as int;
    reveal_strlit("<memory");
    lemma_tail(gap, quote, unit, rest);
    lemma_passed_over(xml@, before, more, tail, 0);
    assert forall|i: int| 0 <= i < 7 implies #[trigger] xml@[start + i] == "<memory"@[i] by {}
    assert forall|i: int| 0 <= i < tail.len() implies #[trigger] xml@[start + 7 + i] == tail[i] by {
    }
    assert(xml@.len() == start + 7 + tail.len());
    lemma_unit_in_tag(xml@, start, tail, g, n, quote);
    assert(xml@.subrange(start + 7 + g + 6, start + 7 + g + 6 + n) =~= unit) by {
        assert forall|i: int| 0 <= i < n implies #[trigger] xml@[start + 7 + g + 6 + i] == unit[i] by {
            assert(xml@[start + 7 + (g + 6 + i)] == tail[g + 6 + i]);
        }
    }
}

/// The memory element starts behind one whose name only starts like its own.
proof fn lemma_passed_over(
    xml: Seq<char>,
    before: Seq<char>,
    more: Seq<char>,
    rest: Seq<char>,
    from: int,
)
    requires
        is_free_of(before, '<'),
        is_free_of(more, '<'),
        more.len() > 0,
        !ends_a_name(more[0]),
        xml == before + "<memory"@ + more + "<memory"@ + rest,
        rest.len() > 0,
        ends_a_name(rest[0]),
        0 <= from <= before.len() + 7 + more.len(),
    ensures
        memory_tag_at(xml, from) == Some((before.len() + 7 + more.len()) as int),
    decreases before.len() + 7 + more.len() - from,
{
    reveal_strlit("<memory");
    let b = before.len() as int;
    let n = b + 7 + more.len();
    if from < n {
        if from == b {
            assert(xml[b + 7] == more[0]);
        } else {
            assert(xml[from] != '<') by {
                if from < b {
                    assert(xml[from] == before[from]);
                } else if from < b + 7 {
                    assert(xml[from] == "<memory"@[from - b]);
                } else {
                    assert(xml[from] == more[from - b - 7]);
                }
            }
            assert(!occurs_at(xml, from, "<memory"@)) by {
                if occurs_at(xml, from, "<memory"@) {
                    assert(xml.subrange(from, from + 7)[0] == '<');
                }
            }
        }
        lemma_passed_over(xml, before, more, rest, from + 1);
    } else {
        assert(xml.subrange(n, n + 7) =~= "<memory"@);
        assert(xml[n + 7] == rest[0]);
    }
}

/// Where the memory element of a golden XML starts.
proof fn lemma_memory_tag(xml: Seq<char>, before: Seq<char>, rest: Seq<char>, from: int)
    requires
        is_free_of(before, '<'),
        xml == before + "<memory"@ + rest,
        rest.len() == 0 || ends_a_name(rest[0]),
        0 <= from <= before.len(),
    ensures
        memory_tag_at(xml, from) == Some(before.len() as int),
    decreases before.len() - from,
{
    reveal_strlit("<memory");
    let n = before.len() as int;
    if from < n {
        assert(xml[from] == before[from]);
        assert(!occurs_at(xml, from, "<memory"@)) by {
            if occurs_at(xml, from, "<memory"@) {
                assert(xml.subrange(from, from + 7)[0] == '<');
            }
        }
        lemma_memory_tag(xml, before, rest, from + 1);
    } else {
        assert(xml.subrange(n, n + 7) =~= "<memory"@);
        if rest.len() > 0 {
            assert(xml[n + 7] == rest[0]);
        }
    }
}

/// The unit is what stands in quotes behind `unit=` in the start tag of the memory element.
pub proof fn law_units_stand_in_quotes(
    xml: &str,
    before: Seq<char>,
    gap: Seq<char>,
    quote: char,
    unit: Seq<char>,
    rest: Seq<char>,
    r: Option<String>,
)
    requires
        is_free_of(before, '<'),
        gap.len() > 0,
        gap[0] == ' ' || gap[0] == '\t' || gap[0] == '\r' || gap[0] == '\n',
        is_free_of(gap, '>') && is_free_of(gap, '\'') && is_free_of(gap, '"') && is_free_of(
            gap,
            '=',
        ),
        quote == '\'' || quote == '"',
        is_free_of(unit, quote),
        xml@ == before + "<memory"@ + (gap + "unit="@ + seq![quote] + unit + seq![quote] + rest),
        call_ensures(memory_unit, (xml,), r),
    ensures
        r matches Some(found) && found@ == unit,
{
    let tail = gap + "unit="@ + seq![quote] + unit + seq![quote] + rest;
    let start = before.len() as int;
    let g = gap.len() as int;
    let n = unit.len() as int;
    lemma_tail(gap, quote, unit, rest);
    lemma_memory_tag(xml@, before, tail, 0);
    reveal_strlit("<memory");
    assert forall|i: int| 0 <= i < 7 implies #[trigger] xml@[start + i] == "<memory"@[i] by {}
    assert forall|i: int| 0 <= i < tail.len() implies #[trigger] xml@[start + 7 + i] == tail[i] by {
    }
    assert(xml@.len() == start + 7 + tail.len());
    lemma_unit_in_tag(xml@, start, tail, g, n, quote);
    assert(xml@.subrange(start + 7 + g + 6, start + 7 + g + 6 + n) =~= unit) by {
        assert forall|i: int| 0 <= i < n implies #[trigger] xml@[start + 7 + g + 6 + i] == unit[i] by {
            assert(xml@[start + 7 + (g + 6 + i)] == tail[g + 6 + i]);
        }
    }
}

/// What stands where behind the name of the element.
proof fn lemma_tail(gap: Seq<char>, quote: char, unit: Seq<char>, rest: Seq<char>)
    ensures
        ({
            let tail = gap + "unit="@ + seq![quote] + unit + seq![quote] + rest;
            let g = gap.len() as int;
            let n = unit.len() as int;
            &&& "unit="@.len() == 5
            &&& tail.len() == g + 7 + n + rest.len()
            &&& forall|i: int| 0 <= i < g ==> #[trigger] tail[i] == gap[i]
            &&& tail[g] == 'u' && tail[g + 1] == 'n' && tail[g + 2] == 'i' && tail[g + 3] == 't'
                && tail[g + 4] == '='
            &&& tail[g + 5] == quote
            &&& forall|i: int| 0 <= i < n ==> #[trigger] tail[g + 6 + i] == unit[i]
            &&& tail[g + 6 + n] == quote
        }),
{
    reveal_strlit("unit=");
}

/// The unit is found in the tag, between the quotes.
proof fn lemma_unit_in_tag(x: Seq<char>, start: int, tail: Seq<char>, g: int, n: int, quote: char)
    requires
        0 <= start,
        0 < g,
        0 <= n,
        g + 7 + n <= tail.len(),
        x.len() == start + 7 + tail.len(),
        memory_tag_at(x, 0) == Some(start),
        forall|i: int| 0 <= i < 7 ==> #[trigger] x[start + i] == "<memory"@[i],
        forall|i: int| 0 <= i < tail.len() ==> #[trigger] x[start + 7 + i] == tail[i],
        forall|i: int|
            0 <= i < g ==> #[trigger] tail[i] != '>' && !is_quote(tail[i]) && tail[i] != '=',
        tail[g] == 'u' && tail[g + 1] == 'n' && tail[g + 2] == 'i' && tail[g + 3] == 't' && tail[g
            + 4] == '=',
        is_quote(quote),
        tail[g + 5] == quote,
        forall|i: int| 0 <= i < n ==> #[trigger] tail[g + 6 + i] != quote,
        tail[g + 6 + n] == quote,
    ensures
        unit_of(x) == Some(x.subrange(start + 7 + g + 6, start + 7 + g + 6 + n)),
{
    let u = start + 7 + g;
    let q = u + 5;
    let close = q + 1 + n;
    reveal_strlit("<memory");
    assert(x[u] == 'u' && x[u + 1] == 'n' && x[u + 2] == 'i' && x[u + 3] == 't' && x[u + 4] == '='
        && x[q] == quote && x[close] == quote) by {
        assert(x[start + 7 + g] == tail[g]);
        assert(x[start + 7 + (g + 1)] == tail[g + 1]);
        assert(x[start + 7 + (g + 2)] == tail[g + 2]);
        assert(x[start + 7 + (g + 3)] == tail[g + 3]);
        assert(x[start + 7 + (g + 4)] == tail[g + 4]);
        assert(x[start + 7 + (g + 5)] == tail[g + 5]);
        assert(x[start + 7 + (g + 6 + n)] == tail[g + 6 + n]);
    }
    assert forall|i: int| start <= i < q implies #[trigger] x[i] != '>' && !is_quote(x[i]) by {
        if i < start + 7 {
            assert(x[start + (i - start)] == "<memory"@[i - start]);
        } else if i < u {
            assert(x[start + 7 + (i - start - 7)] == tail[i - start - 7]);
        }
    }
    assert forall|i: int| start <= i < u implies #[trigger] x[i] != '=' by {
        if i < start + 7 {
            assert(x[start + (i - start)] == "<memory"@[i - start]);
        } else {
            assert(x[start + 7 + (i - start - 7)] == tail[i - start - 7]);
        }
    }
    lemma_tag_goes_on(x, start, q);
    assert(x.subrange(close, close + 1) =~= seq![quote]);
    lemma_first_occurrence(x, q + 1, seq![quote]);
    assert(occurs_at(x, close, seq![quote]));
    let found = first_occurrence(x, q + 1, seq![quote])->0;
    assert(found == close) by {
        if found < close {
            assert(x.subrange(found, found + 1)[0] == quote);
            let i = found - q - 1;
            assert(x[start + 7 + (g + 6 + i)] == tail[g + 6 + i]);
        }
    }
    assert(seq![x[q]] =~= seq![quote]);
    let end = tag_end(x, start);
    assert(end == tag_end(x, close + 1));
    lemma_tag_end_is_behind(x, close + 1);
    let tag = x.take(end);
    lemma_unit_equals(tag, start, u);
    assert(unit_quote_at(x) == Some(q));
}

/// The first place of the attribute in a tag.
proof fn lemma_unit_equals(tag: Seq<char>, start: int, u: int)
    requires
        0 <= start <= u,
        u + 5 <= tag.len(),
        tag[u] == 'u' && tag[u + 1] == 'n' && tag[u + 2] == 'i' && tag[u + 3] == 't' && tag[u + 4]
            == '=',
        forall|i: int| start <= i < u ==> #[trigger] tag[i] != '=',
    ensures
        first_occurrence(tag, start, "unit="@) == Some(u),
{
    reveal_strlit("unit=");
    assert(tag.subrange(u, u + 5) =~= "unit="@);
    lemma_first_occurrence(tag, start, "unit="@);
    assert(occurs_at(tag, u, "unit="@));
    let first = first_occurrence(tag, start, "unit="@)->0;
    if first < u {
        assert(tag.subrange(first, first + 5)[4] == '=');
        assert(tag[first + 4] == '=');
        assert(tag.subrange(first, first + 5)[0] == 'u');
        assert(first + 4 >= u);
    }
}

/// A memory element without attributes has no unit, and an XML without a memory element has none
/// either.
pub proof fn law_definitions_may_have_no_unit(
    xml: &str,
    before: Seq<char>,
    rest: Seq<char>,
    r: Option<String>,
)
    requires
        call_ensures(memory_unit, (xml,), r),
        is_free_of(before, '<'),
        xml@ == before || xml@ == before + "<memory"@ + (seq!['>'] + rest),
    ensures
        r is None,
{
    let x = xml@;
    let start = before.len() as int;
    reveal_strlit("<memory");
    reveal_strlit("unit=");
    if x == before {
        lemma_no_memory_tag(x, 0);
    } else {
        let tail = seq!['>'] + rest;
        assert(tail[0] == '>');
        lemma_memory_tag(x, before, tail, 0);
        assert forall|i: int| start <= i < start + 7 implies #[trigger] x[i] != '>' && !is_quote(
            x[i],
        ) by {
            assert(x[i] == "<memory"@[i - start]);
        }
        assert(x[start + 7] == '>');
        lemma_tag_goes_on(x, start, start + 7);
        assert(tag_end(x, start) == start + 7);
        let tag = x.take(start + 7);
        lemma_first_occurrence(tag, start, "unit="@);
        if let Some(u) = first_occurrence(tag, start, "unit="@) {
            assert(tag.subrange(u, u + 5)[4] == '=');
            assert(x[u + 4] == "<memory"@[u + 4 - start]);
        }
    }
}

/// Without the start of a tag there is no memory element.
proof fn lemma_no_memory_tag(xml: Seq<char>, from: int)
    requires
        is_free_of(xml, '<'),
        0 <= from <= xml.len(),
    ensures
        memory_tag_at(xml, from) is None,
    decreases xml.len() - from,
{
    if from < xml.len() {
        reveal_strlit("<memory");
        if occurs_at(xml, from, "<memory"@) {
            assert(xml.subrange(from, from + 7)[0] == '<');
        }
        lemma_no_memory_tag(xml, from + 1);
    }
}

/// The memory of a worker is converted where that can be done in 64 bits, and the result is the
/// same then.
pub proof fn law_memory_that_fits_is_converted(
    xml: &str,
    memory: u64,
    readable: bool,
    tried: Option<Option<u64>>,
    r: Option<u64>,
)
    requires
        call_ensures(has_readable_unit, (xml,), readable),
        call_ensures(try_mem_units, (xml, memory), tried),
        call_ensures(detect_mem_units, (xml, memory), r),
    ensures
        readable <==> (unit_quote_at(xml@) matches Some(q) ==> (xml@[q] as u32) < 128),
        unit_of(xml@) matches Some(unit) ==> {
            let u = lowercase(unit);
            &&& u == "b"@ || u == "kb"@ || u == "mb"@ || u == "gb"@ ==> (tried is Some <==> memory
                * 1_048_576 <= u64::MAX)
            &&& u == "k"@ || u == "kib"@ ==> (tried is Some <==> memory * 1024 <= u64::MAX)
            &&& u == "m"@ || u == "mib"@ || u == "g"@ || u == "gib"@ ==> tried is Some
        },
        tried is Some ==> tried == Some(r),
        unit_of(xml@) is None ==> tried is Some,
        memory < 17_592_186_044_416 ==> tried is Some,
{
    lemma_units_differ();
}

/// Whether a text starts with another.
pub open spec fn starts(s: Seq<char>, start: Seq<char>) -> bool {
    start.len() <= s.len() && s.take(start.len() as int) == start
}

/// A golden XML with the values of a worker in the places that are kept for them: every `{NAME}`,
/// `{CPU}`, `{MEMORY}` and `{FILE}` is replaced, and nothing else.
pub open spec fn filled(
    xml: Seq<char>,
    name: Seq<char>,
    cpu: Seq<char>,
    memory: Seq<char>,
    file: Seq<char>,
) -> Seq<char>
    decreases xml.len(),
{
    if xml.len() == 0 {
        Seq::empty()
    } else if starts(xml, "{NAME}"@) && xml.len() >= 6 {
        name + filled(xml.skip(6), name, cpu, memory, file)
    } else if starts(xml, "{CPU}"@) && xml.len() >= 5 {
        cpu + filled(xml.skip(5), name, cpu, memory, file)
    } else if starts(xml, "{MEMORY}"@) && xml.len() >= 8 {
        memory + filled(xml.skip(8), name, cpu, memory, file)
    } else if starts(xml, "{FILE}"@) && xml.len() >= 6 {
        file + filled(xml.skip(6), name, cpu, memory, file)
    } else {
        seq![xml[0]] + filled(xml.skip(1), name, cpu, memory, file)
    }
}

/// A placeholder that begins with a brace, and has no other one, applies wherever it stands.
proof fn lemma_applies(content: Seq<char>, needle: Seq<char>, from: int, at: int)
    requires
        needle.len() > 0,
        needle[0] == '{',
        forall|i: int| 0 < i < needle.len() ==> #[trigger] needle[i] != '{',
        0 <= from <= at,
        occurs_at(content, at, needle),
    ensures
        matches_from(content, needle, from).contains(at),
    decreases content.len() + 1 - from,
{
    lemma_first_occurrence(content, from, needle);
    let i = first_occurrence(content, from, needle)->0;
    let rest = matches_from(content, needle, i + step_len(needle));
    let all = matches_from(content, needle, from);
    assert(all == seq![i] + rest);
    if i == at {
        assert(all[0] == at);
    } else {
        assert(i < at);
        assert(i + needle.len() <= at) by {
            if at < i + needle.len() {
                assert(content.subrange(i, i + needle.len())[at - i] == content[at]);
                assert(content.subrange(at, at + needle.len())[0] == content[at]);
                assert(needle[at - i] == '{');
            }
        }
        lemma_applies(content, needle, i + step_len(needle), at);
        let k = rest.index_of(at);
        assert(all[k + 1] == at);
    }
}

/// A replacement applies where its placeholder stands.
proof fn lemma_applies_where_it_stands(content: Seq<char>, rep: Replacement, at: int)
    requires
        rep.0.len() > 0,
        rep.0[0] == '{',
        forall|i: int| 0 < i < rep.0.len() ==> #[trigger] rep.0[i] != '{',
        0 <= at <= content.len(),
    ensures
        applies_at(content, rep, at) == starts(content.skip(at), rep.0),
{
    let s = content.skip(at);
    if applies_at(content, rep, at) {
        lemma_matches(content, rep.0, 0, at);
        assert(s.take(rep.0.len() as int) =~= content.subrange(at, at + rep.0.len()));
    }
    if starts(s, rep.0) {
        assert(s.take(rep.0.len() as int) =~= content.subrange(at, at + rep.0.len()));
        lemma_applies(content, rep.0, 0, at);
    }
}

/// The replacements fill the golden XML in.
proof fn lemma_filled(
    content: Seq<char>,
    name: Seq<char>,
    cpu: Seq<char>,
    memory: Seq<char>,
    file: Seq<char>,
    at: int,
)
    requires
        0 <= at <= content.len(),
    ensures
        rewritten(content, domain_replacements(name, cpu, memory, file), at, 0) == filled(
            content.skip(at),
            name,
            cpu,
            memory,
            file,
        ),
    decreases content.len() - at,
{
    let reps = domain_replacements(name, cpu, memory, file);
    reveal_strlit("{NAME}");
    reveal_strlit("{CPU}");
    reveal_strlit("{MEMORY}");
    reveal_strlit("{FILE}");
    let s = content.skip(at);
    lemma_applies_where_it_stands(content, reps[0], at);
    lemma_applies_where_it_stands(content, reps[1], at);
    lemma_applies_where_it_stands(content, reps[2], at);
    lemma_applies_where_it_stands(content, reps[3], at);
    reveal_with_fuel(rewritten, 6);
    if starts(s, "{NAME}"@) {
        lemma_filled(content, name, cpu, memory, file, at + 6);
        assert(s.skip(6) =~= content.skip(at + 6));
    } else if starts(s, "{CPU}"@) {
        lemma_filled(content, name, cpu, memory, file, at + 5);
        assert(s.skip(5) =~= content.skip(at + 5));
    } else if starts(s, "{MEMORY}"@) {
        lemma_filled(content, name, cpu, memory, file, at + 8);
        assert(s.skip(8) =~= content.skip(at + 8));
    } else if starts(s, "{FILE}"@) {
        lemma_filled(content, name, cpu, memory, file, at + 6);
        assert(s.skip(6) =~= content.skip(at + 6));
    } else if at < content.len() {
        lemma_filled(content, name, cpu, memory, file, at + 1);
        assert(s.skip(1) =~= content.skip(at + 1));
        assert(s[0] == content[at]);
    }
}

/// The definition of a domain is the golden XML with the worker's own values filled in: the name
/// of its domain, its virtual CPUs, its memory in the unit of the XML or else in KiB, and the path
/// of its overlay.
pub proof fn law_definitions_are_filled_in(
    overlayed: Overlayed,
    resources: Resources,
    golden: &str,
    xml: &str,
    cpus: u64,
    amount: Option<u64>,
    domain_name: String,
    r: Result<String, Error>,
)
    requires
        unit_quote_is_ascii(xml@),
        resources.memory * 1024 <= u64::MAX,
        call_ensures(vcpus, (resources.cpu,), cpus),
        call_ensures(detect_mem_units, (xml, resources.memory), amount),
        call_ensures(Overlayed::domain_name, (&overlayed,), domain_name),
        call_ensures(Overlayed::domain_xml, (&overlayed, &resources, golden, Ok(xml)), r),
    ensures
        r matches Ok(definition) ==> definition@ == filled(
            xml@,
            domain_name@,
            decimal(cpus as nat),
            decimal(
                match amount {
                    Some(n) => n as nat,
                    None => 1024 * resources.memory as nat,
                },
            ),
            overlayed.overlay_path@,
        ),
        r is Ok <==> contains_text(xml@, "{NAME}"@) && contains_text(xml@, "{CPU}"@)
            && contains_text(xml@, "{MEMORY}"@) && contains_text(xml@, "{FILE}"@),
{
    let memory = match amount {
        Some(n) => n as nat,
        None => 1024 * resources.memory as nat,
    };
    let reps = domain_replacements(
        domain_name@,
        decimal(cpus as nat),
        decimal(memory),
        overlayed.overlay_path@,
    );
    lemma_filled(
        xml@,
        domain_name@,
        decimal(cpus as nat),
        decimal(memory),
        overlayed.overlay_path@,
        0,
    );
    assert(xml@.skip(0) =~= xml@);
    assert(reps[0].0 == "{NAME}"@ && reps[1].0 == "{CPU}"@ && reps[2].0 == "{MEMORY}"@ && reps[3].0
        == "{FILE}"@);
    assert(all_present(xml@, reps) <==> contains_text(xml@, "{NAME}"@) && contains_text(
        xml@,
        "{CPU}"@,
    ) && contains_text(xml@, "{MEMORY}"@) && contains_text(xml@, "{FILE}"@)) by {
        if contains_text(xml@, "{NAME}"@) && contains_text(xml@, "{CPU}"@) && contains_text(
            xml@,
            "{MEMORY}"@,
        ) && contains_text(xml@, "{FILE}"@) {
            assert forall|i: int| 0 <= i < reps.len() implies contains_text(
                xml@,
                (#[trigger] reps[i]).0,
            ) by {
                assert(i == 0 || i == 1 || i == 2 || i == 3);
            }
        }
    }
}

/// A golden XML that lacks a place is malformed, and the first place that it lacks is named. One
/// that could not be read is an error as well.
pub proof fn law_malformed_definitions_are_errors(
    overlayed: Overlayed,
    resources: Resources,
    golden: &str,
    xml: &str,
    error: &str,
    r: Result<String, Error>,
    unread: Result<String, Error>,
)
    requires
        call_ensures(Overlayed::domain_xml, (&overlayed, &resources, golden, Ok(xml)), r),
        call_ensures(Overlayed::domain_xml, (&overlayed, &resources, golden, Err(error)), unread),
    ensures
        unread matches Err(e) && e@ == ErrorView::Generic(
            "Error reading golden XML file '"@ + golden@ + "'"@ + ": "@ + error@,
        ),
        !contains_text(xml@, "{NAME}"@) ==> (r matches Err(e) && e@ == ErrorView::Generic(
            "Malformed worker XML '"@ + golden@ + "'"@ + ": "@ + ("Generic("@ + quoted(
                "XML is missing placeholder '"@ + "{NAME}"@ + "'"@,
            ) + ")"@),
        )),
        contains_text(xml@, "{NAME}"@) && !contains_text(xml@, "{CPU}"@) ==> (r matches Err(e) && e@
            == ErrorView::Generic(
            "Malformed worker XML '"@ + golden@ + "'"@ + ": "@ + ("Generic("@ + quoted(
                "XML is missing placeholder '"@ + "{CPU}"@ + "'"@,
            ) + ")"@),
        )),
        contains_text(xml@, "{NAME}"@) && contains_text(xml@, "{CPU}"@) && !contains_text(
            xml@,
            "{MEMORY}"@,
        ) ==> (r matches Err(e) && e@ == ErrorView::Generic(
            "Malformed worker XML '"@ + golden@ + "'"@ + ": "@ + ("Generic("@ + quoted(
                "XML is missing placeholder '"@ + "{MEMORY}"@ + "'"@,
            ) + ")"@),
        )),
        contains_text(xml@, "{NAME}"@) && contains_text(xml@, "{CPU}"@) && contains_text(
            xml@,
            "{MEMORY}"@,
        ) && !contains_text(xml@, "{FILE}"@) ==> (r matches Err(e) && e@ == ErrorView::Generic(
            "Malformed worker XML '"@ + golden@ + "'"@ + ": "@ + ("Generic("@ + quoted(
                "XML is missing placeholder '"@ + "{FILE}"@ + "'"@,
            ) + ")"@),
        )),
{
    reveal_with_fuel(first_missing, 6);
    let reps = domain_replacements(
        crate::state::overlayed::domain_name_of(overlayed.worker@),
        decimal(crate::state::overlayed::vcpus_for(resources.cpu as nat)),
        decimal(crate::state::overlayed::memory_amount(xml@, resources.memory as nat)),
        overlayed.overlay_path@,
    );
    assert(reps[0].0 == "{NAME}"@ && reps[1].0 == "{CPU}"@ && reps[2].0 == "{MEMORY}"@ && reps[3].0
        == "{FILE}"@);
    assert(all_present(xml@, reps) ==> contains_text(xml@, reps[0].0) && contains_text(
        xml@,
        reps[1].0,
    ) && contains_text(xml@, reps[2].0) && contains_text(xml@, reps[3].0));
}

/// Of several placeholders that do not occur, the error names the first.
pub proof fn law_the_first_missing_placeholder_is_named(
    content: &str,
    list: &[(&str, &str)],
    k: int,
    r: Result<String, Error>,
)
    requires
        call_ensures(apply_replacements, (content, list), r),
        0 <= k < list@.len(),
        !contains_text(content@, list@[k].0@),
        forall|i: int| 0 <= i < k ==> contains_text(content@, (#[trigger] list@[i]).0@),
    ensures
        r matches Err(e) && e@ == ErrorView::Generic(
            "XML is missing placeholder '"@ + list@[k].0@ + "'"@,
        ),
{
    let reps = replacements_of(list@);
    assert(reps.len() == list@.len());
    assert(forall|i: int| 0 <= i < reps.len() ==> (#[trigger] reps[i]).0 == list@[i].0@);
    assert(!all_present(content@, reps)) by {
        assert(!contains_text(content@, reps[k].0));
    }
    lemma_first_missing(content@, reps, 0, k);
}

/// The first placeholder that does not occur is found.
proof fn lemma_first_missing(content: Seq<char>, reps: Seq<Replacement>, from: int, k: int)
    requires
        0 <= from <= k < reps.len(),
        !contains_text(content, reps[k].0),
        forall|i: int| from <= i < k ==> contains_text(content, (#[trigger] reps[i]).0),
    ensures
        first_missing(content, reps, from) == k,
    decreases k - from,
{
    if from < k {
        assert(contains_text(content, reps[from].0));
        lemma_first_missing(content, reps, from + 1, k);
    }
}

/// A placeholder that occurs is replaced by its value wherever it stands, and all around it stays.
pub proof fn law_a_placeholder_is_replaced_by_its_value(
    content: &str,
    list: &[(&str, &str)],
    before: Seq<char>,
    behind: Seq<char>,
    r: Result<String, Error>,
)
    requires
        list@.len() == 1,
        list@[0].0@.len() > 0,
        list@[0].0@[0] == '{',
        forall|i: int| 0 < i < list@[0].0@.len() ==> #[trigger] list@[0].0@[i] != '{',
        is_free_of(before, '{'),
        is_free_of(behind, '{'),
        call_ensures(apply_replacements, (content, list), r),
    ensures
        content@ == before + list@[0].0@ + behind ==> (r matches Ok(s) && s@ == before
            + list@[0].1@ + behind),
        content@ == before ==> (r matches Err(e) && e@ == ErrorView::Generic(
            "XML is missing placeholder '"@ + list@[0].0@ + "'"@,
        )),
{
    let reps = replacements_of(list@);
    let needle = list@[0].0@;
    let value = list@[0].1@;
    assert(reps.len() == 1 && reps[0] == (needle, value));
    if content@ == before + needle + behind {
        let n = before.len() as int;
        assert(content@.subrange(n, n + needle.len()) =~= needle);
        lemma_first_occurrence(content@, 0, needle);
        assert(occurs_at(content@, n, needle));
        lemma_one_place(content@, reps, before, behind, 0);
        assert(before.skip(0) =~= before);
        assert(before + value + behind =~= before + (value + behind));
    }
    if content@ == before {
        lemma_first_occurrence(content@, 0, needle);
        if contains_text(content@, needle) {
            let i = first_occurrence(content@, 0, needle)->0;
            assert(content@.subrange(i, i + needle.len())[0] == '{');
            assert(content@[i] == '{');
        }
        reveal_with_fuel(first_missing, 3);
    }
}

/// A placeholder that stands in one place is replaced there alone.
proof fn lemma_one_place(
    content: Seq<char>,
    reps: Seq<Replacement>,
    before: Seq<char>,
    behind: Seq<char>,
    at: int,
)
    requires
        reps.len() == 1,
        reps[0].0.len() > 0,
        reps[0].0[0] == '{',
        forall|i: int| 0 < i < reps[0].0.len() ==> #[trigger] reps[0].0[i] != '{',
        is_free_of(before, '{'),
        is_free_of(behind, '{'),
        content == before + reps[0].0 + behind,
        0 <= at <= before.len() || before.len() + reps[0].0.len() <= at <= content.len(),
    ensures
        at <= before.len() ==> rewritten(content, reps, at, 0) == before.skip(at) + (reps[0].1
            + behind),
        at >= before.len() + reps[0].0.len() ==> rewritten(content, reps, at, 0) == content.skip(
            at,
        ),
    decreases content.len() - at,
{
    let n = before.len() as int;
    let m = reps[0].0.len() as int;
    lemma_applies_where_it_stands(content, reps[0], at);
    reveal_with_fuel(rewritten, 3);
    if at == n {
        assert(content.skip(at).take(m) =~= reps[0].0);
        lemma_one_place(content, reps, before, behind, n + m);
        assert(content.skip(n + m) =~= behind);
        assert(before.skip(at) + (reps[0].1 + behind) =~= reps[0].1 + behind);
    } else if at == content.len() {
        assert(content.skip(at) =~= Seq::<char>::empty());
    } else {
        assert(content[at] != '{') by {
            if at < n {
                assert(content[at] == before[at]);
            } else {
                assert(content[at] == behind[at - n - m]);
            }
        }
        if starts(content.skip(at), reps[0].0) {
            assert(content.skip(at).take(m)[0] == content[at]);
        }
        lemma_one_place(content, reps, before, behind, at + 1);
        if at < n {
            assert(before.skip(at) + (reps[0].1 + behind) =~= seq![content[at]] + (before.skip(
                at + 1,
            ) + (reps[0].1 + behind)));
        } else {
            assert(content.skip(at) =~= seq![content[at]] + content.skip(at + 1));
        }
    }
}

} // verus!
