//! Text handling on sequences of characters: trimming, splitting, searching
//! and comparing.

use vstd::prelude::*;

verus! {

/// `String::push`: the character is appended at the end of the string.
pub assume_specification[ String::push ](s: &mut String, c: char)
    ensures
        final(s)@ == old(s)@.push(c),
;

/// `String::push_str`: the text is appended at the end of the string.
pub assume_specification[ String::push_str ](s: &mut String, text: &str)
    ensures
        final(s)@ == old(s)@ + text@,
;

/// The characters of a text, in order.
pub fn chars_of(s: &str) -> (r: Vec<char>)
    ensures
        r@ == s@,
{
    let mut out: Vec<char> = Vec::new();
    for c in it: s.chars()
        invariant
            it.seq() == s@,
            out@ == it.seq().take(it.index() as int),
    {
        out.push(c);
    }
    out
}

/// The text made of the characters from `from` up to, but not including, `to`.
pub fn text_between(chars: &Vec<char>, from: usize, to: usize) -> (r: String)
    requires
        from <= to <= chars@.len(),
    ensures
        r@ == chars@.subrange(from as int, to as int),
{
    let mut out: String = String::new();
    for i in from..to
        invariant
            from <= to <= chars@.len(),
            out@ == chars@.subrange(from as int, i as int),
    {
        out.push(chars[i]);
    }
    out
}

/// The characters of a text, where there is one.
pub open spec fn maybe_text(text: Option<String>) -> Option<Seq<char>> {
    match text {
        Some(s) => Some(s@),
        None => None,
    }
}

/// A text as a string of its own.
pub fn to_owned(s: &str) -> (r: String)
    ensures
        r@ == s@,
{
    let mut out: String = String::new();
    out.push_str(s);
    assert(out@ =~= s@);
    out
}

/// Two texts, one behind the other.
pub fn join2(a: &str, b: &str) -> (r: String)
    ensures
        r@ == a@ + b@,
{
    let mut out: String = String::new();
    out.push_str(a);
    out.push_str(b);
    assert(out@ =~= a@ + b@);
    out
}

/// Three texts, one behind the other.
pub fn join3(a: &str, b: &str, c: &str) -> (r: String)
    ensures
        r@ == a@ + b@ + c@,
{
    let mut out: String = join2(a, b);
    out.push_str(c);
    out
}

/// Five texts, one behind the other.
pub fn join5(a: &str, b: &str, c: &str, d: &str, e: &str) -> (r: String)
    ensures
        r@ == a@ + b@ + c@ + d@ + e@,
{
    let mut out: String = join3(a, b, c);
    out.push_str(d);
    out.push_str(e);
    out
}

/// Whether two texts hold the same characters.
pub fn same_text(a: &str, b: &str) -> (r: bool)
    ensures
        r == (a@ == b@),
{
    let x: Vec<char> = chars_of(a);
    let y: Vec<char> = chars_of(b);
    assert(a@.subrange(0, a@.len() as int) =~= a@);
    x.len() == y.len() && matches_at(&x, 0, &y)
}

/// Whether `needle` stands in `hay` at position `at`.
pub open spec fn occurs_at(hay: Seq<char>, at: int, needle: Seq<char>) -> bool {
    &&& 0 <= at
    &&& at + needle.len() <= hay.len()
    &&& hay.subrange(at, at + needle.len()) == needle
}

/// Whether `needle` stands in `hay` at position `at`.
pub fn matches_at(hay: &Vec<char>, at: usize, needle: &Vec<char>) -> (r: bool)
    requires
        at <= hay@.len(),
    ensures
        r == occurs_at(hay@, at as int, needle@),
{
    if needle.len() > hay.len() - at {
        return false;
    }
    for i in 0..needle.len()
        invariant
            at + needle.len() <= hay.len(),
            forall|k: int| 0 <= k < i ==> hay@[at + k] == needle@[k],
    {
        if hay[at + i] != needle[i] {
            assert(hay@.subrange(at as int, at + needle@.len())[i as int] != needle@[i as int]);
            return false;
        }
    }
    assert(hay@.subrange(at as int, at + needle@.len()) =~= needle@);
    true
}

/// The first position at or after `from` where `needle` stands in `hay`.
pub open spec fn first_occurrence(hay: Seq<char>, from: int, needle: Seq<char>) -> Option<int>
    decreases hay.len() + 1 - from,
{
    if from < 0 || from > hay.len() {
        None
    } else if occurs_at(hay, from, needle) {
        Some(from)
    } else {
        first_occurrence(hay, from + 1, needle)
    }
}

/// Finds the first position at or after `from` where `needle` stands in `hay`.
pub fn find_from(hay: &Vec<char>, from: usize, needle: &Vec<char>) -> (r: Option<usize>)
    ensures
        r is Some <==> first_occurrence(hay@, from as int, needle@) is Some,
        r matches Some(i) ==> first_occurrence(hay@, from as int, needle@) == Some(i as int),
        r matches Some(i) ==> from <= i && occurs_at(hay@, i as int, needle@),
{
    if from > hay.len() {
        return None;
    }
    let mut i: usize = from;
    loop
        invariant
            from <= i <= hay.len(),
            first_occurrence(hay@, from as int, needle@) == first_occurrence(
                hay@,
                i as int,
                needle@,
            ),
        decreases hay.len() - i,
    {
        if matches_at(hay, i, needle) {
            return Some(i);
        }
        if i == hay.len() {
            assert(first_occurrence(hay@, i + 1, needle@) is None);
            return None;
        }
        i = i + 1;
    }
}

/// What [`first_occurrence`] finds is the least position at or after `from`.
pub proof fn lemma_first_occurrence(hay: Seq<char>, from: int, needle: Seq<char>)
    requires
        0 <= from,
    ensures
        match first_occurrence(hay, from, needle) {
            Some(i) => {
                &&& from <= i
                &&& occurs_at(hay, i, needle)
                &&& forall|j: int| from <= j < i ==> !occurs_at(hay, j, needle)
            },
            None => forall|j: int| from <= j ==> !occurs_at(hay, j, needle),
        },
    decreases hay.len() + 1 - from,
{
    if from <= hay.len() && !occurs_at(hay, from, needle) {
        lemma_first_occurrence(hay, from + 1, needle);
    }
}

/// Whether `needle` stands anywhere in `hay`.
pub open spec fn contains_text(hay: Seq<char>, needle: Seq<char>) -> bool {
    first_occurrence(hay, 0, needle) is Some
}

/// Whether `needle` stands anywhere in `hay`.
pub fn has_text(hay: &str, needle: &str) -> (r: bool)
    ensures
        r == contains_text(hay@, needle@),
{
    let h: Vec<char> = chars_of(hay);
    let n: Vec<char> = chars_of(needle);
    find_from(&h, 0, &n).is_some()
}

/// Whether `s` begins with `prefix`.
pub open spec fn begins_with(s: Seq<char>, prefix: Seq<char>) -> bool {
    occurs_at(s, 0, prefix)
}

/// Whether `s` begins with `prefix`.
pub fn starts_with(s: &str, prefix: &str) -> (r: bool)
    ensures
        r == begins_with(s@, prefix@),
{
    let h: Vec<char> = chars_of(s);
    let p: Vec<char> = chars_of(prefix);
    matches_at(&h, 0, &p)
}

/// What is left of `s` behind `prefix`, where `s` begins with it.
pub open spec fn without_prefix(s: Seq<char>, prefix: Seq<char>) -> Option<Seq<char>> {
    if begins_with(s, prefix) {
        Some(s.skip(prefix.len() as int))
    } else {
        None
    }
}

/// What is left of `s` behind `prefix`, where `s` begins with it.
pub fn strip_prefix(s: &str, prefix: &str) -> (r: Option<String>)
    ensures
        r is Some <==> without_prefix(s@, prefix@) is Some,
        r matches Some(rest) ==> without_prefix(s@, prefix@) == Some(rest@),
{
    let h: Vec<char> = chars_of(s);
    let p: Vec<char> = chars_of(prefix);
    if matches_at(&h, 0, &p) {
        let rest: String = text_between(&h, p.len(), h.len());
        assert(rest@ =~= s@.skip(prefix@.len() as int));
        Some(rest)
    } else {
        None
    }
}

/// What is left of `s` before `suffix`, where `s` ends with it.
pub open spec fn without_suffix(s: Seq<char>, suffix: Seq<char>) -> Option<Seq<char>> {
    if suffix.len() <= s.len() && occurs_at(s, s.len() - suffix.len(), suffix) {
        Some(s.take(s.len() - suffix.len()))
    } else {
        None
    }
}

/// What is left of `s` before `suffix`, where `s` ends with it.
pub fn strip_suffix(s: &str, suffix: &str) -> (r: Option<String>)
    ensures
        r is Some <==> without_suffix(s@, suffix@) is Some,
        r matches Some(rest) ==> without_suffix(s@, suffix@) == Some(rest@),
{
    let h: Vec<char> = chars_of(s);
    let p: Vec<char> = chars_of(suffix);
    if p.len() <= h.len() && matches_at(&h, h.len() - p.len(), &p) {
        let rest: String = text_between(&h, 0, h.len() - p.len());
        assert(rest@ =~= s@.take(s@.len() - suffix@.len()));
        Some(rest)
    } else {
        None
    }
}

/// The code points with the Unicode property `White_Space`.
pub open spec fn white_space(c: char) -> bool {
    let p = c as u32;
    ||| 0x9 <= p <= 0xD
    ||| p == 0x20
    ||| p == 0x85
    ||| p == 0xA0
    ||| p == 0x1680
    ||| 0x2000 <= p <= 0x200A
    ||| p == 0x2028
    ||| p == 0x2029
    ||| p == 0x202F
    ||| p == 0x205F
    ||| p == 0x3000
}

/// Whether a character is white space, as Unicode defines it.
pub fn is_white_space(c: char) -> (r: bool)
    ensures
        r == white_space(c),
{
    let p: u32 = c as u32;
    (0x9 <= p && p <= 0xD) || p == 0x20 || p == 0x85 || p == 0xA0 || p == 0x1680 || (0x2000 <= p
        && p <= 0x200A) || p == 0x2028 || p == 0x2029 || p == 0x202F || p == 0x205F || p == 0x3000
}

/// `s` without the white space it begins with.
pub open spec fn trimmed_start(s: Seq<char>) -> Seq<char>
    decreases s.len(),
{
    if s.len() > 0 && white_space(s[0]) {
        trimmed_start(s.skip(1))
    } else {
        s
    }
}

/// `s` without the white space it ends with.
pub open spec fn trimmed_end(s: Seq<char>) -> Seq<char>
    decreases s.len(),
{
    if s.len() > 0 && white_space(s.last()) {
        trimmed_end(s.drop_last())
    } else {
        s
    }
}

/// `s` without the white space around it.
pub open spec fn trimmed(s: Seq<char>) -> Seq<char> {
    trimmed_end(trimmed_start(s))
}

/// A text without the white space around it.
pub fn trim(s: &str) -> (r: String)
    ensures
        r@ == trimmed(s@),
{
    let c: Vec<char> = chars_of(s);
    let mut from: usize = 0;
    assert(c@.skip(0) =~= c@);
    while from < c.len() && is_white_space(c[from])
        invariant
            from <= c.len(),
            trimmed_start(c@) == trimmed_start(c@.skip(from as int)),
        decreases c.len() - from,
    {
        assert(c@.skip(from as int).skip(1) =~= c@.skip(from + 1));
        from = from + 1;
    }
    let mut to: usize = c.len();
    assert(c@.subrange(from as int, to as int) =~= c@.skip(from as int));
    while from < to && is_white_space(c[to - 1])
        invariant
            from <= to <= c.len(),
            trimmed_end(c@.skip(from as int)) == trimmed_end(c@.subrange(from as int, to as int)),
        decreases to - from,
    {
        assert(c@.subrange(from as int, to as int).drop_last() =~= c@.subrange(
            from as int,
            to - 1,
        ));
        to = to - 1;
    }
    text_between(&c, from, to)
}

/// `s` without the run of `mark` it begins with.
pub open spec fn without_leading(s: Seq<char>, mark: char) -> Seq<char>
    decreases s.len(),
{
    if s.len() > 0 && s[0] == mark {
        without_leading(s.skip(1), mark)
    } else {
        s
    }
}

/// A text without the run of `mark` it begins with.
pub fn trim_start_matches(s: &str, mark: char) -> (r: String)
    ensures
        r@ == without_leading(s@, mark),
{
    let c: Vec<char> = chars_of(s);
    let mut from: usize = 0;
    assert(c@.skip(0) =~= c@);
    while from < c.len() && c[from] == mark
        invariant
            from <= c.len(),
            without_leading(c@, mark) == without_leading(c@.skip(from as int), mark),
        decreases c.len() - from,
    {
        assert(c@.skip(from as int).skip(1) =~= c@.skip(from + 1));
        from = from + 1;
    }
    let r: String = text_between(&c, from, c.len());
    assert(r@ =~= c@.skip(from as int));
    r
}

/// The texts of a list.
pub open spec fn texts(v: Seq<String>) -> Seq<Seq<char>> {
    v.map_values(|s: String| s@)
}

/// The pieces of `s` between the separators, which begin at `from`.
pub open spec fn pieces_from(s: Seq<char>, sep: char, from: int, at: int) -> Seq<Seq<char>>
    decreases s.len() - at,
{
    if at < 0 || at >= s.len() {
        seq![s.subrange(from, s.len() as int)]
    } else if s[at] == sep {
        seq![s.subrange(from, at)] + pieces_from(s, sep, at + 1, at + 1)
    } else {
        pieces_from(s, sep, from, at + 1)
    }
}

/// The pieces of `s` between the separators: one more than there are
/// separators, and an empty piece where two of them are adjacent.
pub open spec fn pieces(s: Seq<char>, sep: char) -> Seq<Seq<char>> {
    pieces_from(s, sep, 0, 0)
}

/// The pieces of a text with one more character: a separator starts a new piece, and any
/// other character goes to the last one.
pub proof fn lemma_pieces_push(s: Seq<char>, c: char, sep: char)
    ensures
        pieces(s, sep).len() >= 1,
        c == sep ==> pieces(s.push(c), sep) == pieces(s, sep).push(Seq::empty()),
        c != sep ==> pieces(s.push(c), sep) == pieces(s, sep).drop_last().push(
            pieces(s, sep).last().push(c),
        ),
{
    lemma_pieces_from_push(s, c, sep, 0, 0);
}

/// The pieces of two texts that are joined by a separator are those of both.
pub proof fn lemma_pieces_joined(a: Seq<char>, b: Seq<char>, sep: char)
    ensures
        pieces(a.push(sep) + b, sep) == pieces(a, sep) + pieces(b, sep),
    decreases b.len(),
{
    if b.len() == 0 {
        lemma_pieces_push(a, sep, sep);
        assert(a.push(sep) + b =~= a.push(sep));
        assert(b.subrange(0, 0) =~= Seq::<char>::empty());
        assert(pieces(b, sep) =~= seq![Seq::<char>::empty()]);
        assert(pieces(a, sep).push(Seq::empty()) =~= pieces(a, sep) + pieces(b, sep));
    } else {
        let c = b.last();
        let rest = b.drop_last();
        lemma_pieces_joined(a, rest, sep);
        assert(rest.push(c) =~= b);
        assert(a.push(sep) + b =~= (a.push(sep) + rest).push(c));
        lemma_pieces_push(a.push(sep) + rest, c, sep);
        lemma_pieces_push(rest, c, sep);
        assert(pieces(a.push(sep) + b, sep) =~= pieces(a, sep) + pieces(b, sep));
    }
}

proof fn lemma_pieces_from_push(s: Seq<char>, c: char, sep: char, from: int, at: int)
    requires
        0 <= from <= at <= s.len(),
    ensures
        pieces_from(s, sep, from, at).len() >= 1,
        c == sep ==> pieces_from(s.push(c), sep, from, at) == pieces_from(s, sep, from, at).push(
            Seq::empty(),
        ),
        c != sep ==> pieces_from(s.push(c), sep, from, at) == pieces_from(
            s,
            sep,
            from,
            at,
        ).drop_last().push(pieces_from(s, sep, from, at).last().push(c)),
    decreases s.len() - at,
{
    let t = s.push(c);
    if at == s.len() {
        let p = pieces_from(s, sep, from, at);
        assert(p =~= seq![s.subrange(from, s.len() as int)]);
        if c == sep {
            assert(t.subrange(at + 1, t.len() as int) =~= Seq::<char>::empty());
            assert(t.subrange(from, at) =~= s.subrange(from, at));
            assert(pieces_from(t, sep, at + 1, at + 1) =~= seq![Seq::<char>::empty()]);
            assert(pieces_from(t, sep, from, at) =~= p.push(Seq::empty()));
        } else {
            assert(t.subrange(from, t.len() as int) =~= s.subrange(from, s.len() as int).push(c));
            assert(pieces_from(t, sep, from, at) == pieces_from(t, sep, from, at + 1));
            assert(pieces_from(t, sep, from, at) =~= p.drop_last().push(p.last().push(c)));
        }
    } else if s[at] == sep {
        lemma_pieces_from_push(s, c, sep, at + 1, at + 1);
        assert(t[at] == s[at]);
        assert(t.subrange(from, at) =~= s.subrange(from, at));
        let rest = pieces_from(s, sep, at + 1, at + 1);
        let p = pieces_from(s, sep, from, at);
        assert(p == seq![s.subrange(from, at)] + rest);
        if c == sep {
            assert(pieces_from(t, sep, from, at) =~= p.push(Seq::empty()));
        } else {
            assert(pieces_from(t, sep, from, at) =~= p.drop_last().push(p.last().push(c)));
        }
    } else {
        lemma_pieces_from_push(s, c, sep, from, at + 1);
        assert(t[at] == s[at]);
    }
}

/// Splits a text at every separator.
pub fn split(s: &str, sep: char) -> (r: Vec<String>)
    ensures
        texts(r@) == pieces(s@, sep),
        r@.len() >= 1,
{
    let c: Vec<char> = chars_of(s);
    let mut out: Vec<String> = Vec::new();
    let mut from: usize = 0;
    let mut at: usize = 0;
    assert(texts(out@) =~= Seq::<Seq<char>>::empty());
    assert(texts(out@) + pieces_from(c@, sep, 0, 0) =~= pieces_from(c@, sep, 0, 0));
    while at < c.len()
        invariant
            from <= at <= c.len(),
            pieces(c@, sep) == texts(out@) + pieces_from(c@, sep, from as int, at as int),
        decreases c.len() - at,
    {
        if c[at] == sep {
            let piece: String = text_between(&c, from, at);
            let ghost before = texts(out@);
            out.push(piece);
            assert(texts(out@) =~= before + seq![piece@]);
            assert(before + (seq![piece@] + pieces_from(c@, sep, at + 1, at + 1)) =~= texts(out@)
                + pieces_from(c@, sep, at + 1, at + 1));
            from = at + 1;
        }
        at = at + 1;
    }
    let piece: String = text_between(&c, from, c.len());
    let ghost before = texts(out@);
    out.push(piece);
    assert(texts(out@) =~= before + seq![piece@]);
    out
}

/// The words of `s` from `at` on, the first of which begins at `from`.
pub open spec fn words_from(s: Seq<char>, from: int, at: int) -> Seq<Seq<char>>
    decreases s.len() - at,
{
    let word = if from < at {
        seq![s.subrange(from, at)]
    } else {
        Seq::empty()
    };
    if at < 0 || at >= s.len() {
        word
    } else if white_space(s[at]) {
        word + words_from(s, at + 1, at + 1)
    } else {
        words_from(s, from, at + 1)
    }
}

/// The words of `s`: its longest runs without white space.
pub open spec fn words(s: Seq<char>) -> Seq<Seq<char>> {
    words_from(s, 0, 0)
}

/// Splits a text into its words.
pub fn split_whitespace(s: &str) -> (r: Vec<String>)
    ensures
        texts(r@) == words(s@),
{
    let c: Vec<char> = chars_of(s);
    let mut out: Vec<String> = Vec::new();
    let mut from: usize = 0;
    let mut at: usize = 0;
    assert(texts(out@) + words_from(c@, 0, 0) =~= words_from(c@, 0, 0));
    while at < c.len()
        invariant
            from <= at <= c.len(),
            words(c@) == texts(out@) + words_from(c@, from as int, at as int),
        decreases c.len() - at,
    {
        if is_white_space(c[at]) {
            let ghost rest = words_from(c@, at + 1, at + 1);
            let ghost before = texts(out@);
            if from < at {
                let word: String = text_between(&c, from, at);
                out.push(word);
                assert(texts(out@) =~= before + seq![word@]);
                assert(before + (seq![word@] + rest) =~= texts(out@) + rest);
            } else {
                assert(before + (Seq::<Seq<char>>::empty() + rest) =~= before + rest);
            }
            from = at + 1;
        }
        at = at + 1;
    }
    let ghost before = texts(out@);
    if from < at {
        let word: String = text_between(&c, from, at);
        out.push(word);
        assert(texts(out@) =~= before + seq![word@]);
    } else {
        assert(before + Seq::<Seq<char>>::empty() =~= before);
    }
    out
}

/// A line without the carriage return before its line feed.
pub open spec fn without_carriage_return(line: Seq<char>) -> Seq<char> {
    if line.len() > 0 && line.last() == '\r' {
        line.drop_last()
    } else {
        line
    }
}

/// The lines of `s`. A line ends in a line feed, or in a carriage return and a
/// line feed; the end of the last line may be left out.
pub open spec fn lines_of(s: Seq<char>) -> Seq<Seq<char>> {
    let p = pieces(s, '\n');
    let ended = Seq::new((p.len() - 1) as nat, |i: int| without_carriage_return(p[i]));
    if p.last().len() == 0 {
        ended
    } else {
        ended.push(p.last())
    }
}

/// Splits a text into its lines.
pub fn lines(s: &str) -> (r: Vec<String>)
    ensures
        texts(r@) == lines_of(s@),
{
    let parts: Vec<String> = split(s, '\n');
    let ghost p = pieces(s@, '\n');
    let last: usize = parts.len() - 1;
    let mut out: Vec<String> = Vec::new();
    for i in 0..last
        invariant
            texts(parts@) == p,
            parts@.len() == last + 1,
            texts(out@) =~= Seq::new(i as nat, |k: int| without_carriage_return(p[k])),
    {
        let c: Vec<char> = chars_of(parts[i].as_str());
        assert(c@ == p[i as int]);
        let line: String = if c.len() > 0 && c[c.len() - 1] == '\r' {
            text_between(&c, 0, c.len() - 1)
        } else {
            text_between(&c, 0, c.len())
        };
        assert(line@ =~= without_carriage_return(p[i as int]));
        let ghost before = texts(out@);
        out.push(line);
        assert(texts(out@) =~= before.push(line@));
    }
    assert(p.last() == parts@[last as int]@);
    let ghost before = texts(out@);
    if !parts[last].as_str().is_empty() {
        let tail: String = parts[last].clone();
        out.push(tail);
        assert(texts(out@) =~= before.push(tail@));
    }
    out
}

/// The lower-case form of an ASCII capital letter; any other character as it is.
pub open spec fn ascii_lower(c: char) -> char {
    if 'A' <= c && c <= 'Z' {
        (c as u32 + 32) as char
    } else {
        c
    }
}

/// `s` with its ASCII capital letters in lower case.
pub open spec fn ascii_lowered(s: Seq<char>) -> Seq<char> {
    s.map_values(|c: char| ascii_lower(c))
}

/// A text with its ASCII capital letters in lower case.
pub fn to_ascii_lowercase(s: &str) -> (r: String)
    ensures
        r@ == ascii_lowered(s@),
{
    let c: Vec<char> = chars_of(s);
    let mut out: String = String::new();
    for i in 0..c.len()
        invariant
            out@ =~= ascii_lowered(c@.take(i as int)),
    {
        let x: char = c[i];
        let y: char = if 'A' <= x && x <= 'Z' {
            (x as u8 + 32) as char
        } else {
            x
        };
        assert(y == ascii_lower(x));
        out.push(y);
    }
    assert(c@.take(c@.len() as int) =~= c@);
    out
}

/// The last `num_chars` characters of `s`, or all of them where there are fewer.
pub open spec fn tail_of(s: Seq<char>, num_chars: nat) -> Seq<char> {
    if num_chars < s.len() {
        s.skip(s.len() - num_chars)
    } else {
        s
    }
}

/// The last `num_chars` characters of `s`, or all of them where there are fewer.
pub fn last_chars(s: &str, num_chars: usize) -> (r: String)
    ensures
        r@ == tail_of(s@, num_chars as nat),
{
    let c: Vec<char> = chars_of(s);
    let from: usize = if num_chars < c.len() {
        c.len() - num_chars
    } else {
        0
    };
    let r: String = text_between(&c, from, c.len());
    assert(r@ =~= tail_of(s@, num_chars as nat));
    r
}

} // verus!
