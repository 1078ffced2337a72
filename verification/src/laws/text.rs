//! Texts: what is split can be put together again, and what is trimmed was white space.

use vstd::prelude::*;

use crate::text::{
    ascii_lower,
    find_from,
    first_occurrence,
    has_text,
    last_chars,
    lemma_first_occurrence,
    lemma_pieces_joined,
    lemma_pieces_push,
    lines,
    lines_of,
    occurs_at,
    pieces,
    pieces_from,
    same_text,
    split,
    split_whitespace,
    starts_with,
    strip_prefix,
    strip_suffix,
    texts,
    to_ascii_lowercase,
    trim,
    trim_start_matches,
    trimmed,
    trimmed_end,
    white_space,
    without_leading,
    words,
    words_from,
};

verus! {

/// Texts, one behind the other, with a character between each two.
pub open spec fn glued(list: Seq<Seq<char>>, between: char) -> Seq<char>
    decreases list.len(),
{
    if list.len() == 0 {
        Seq::empty()
    } else if list.len() == 1 {
        list[0]
    } else {
        glued(list.drop_last(), between).push(between) + list.last()
    }
}

/// Whether a character does not stand in a text.
pub open spec fn is_free_of(s: Seq<char>, c: char) -> bool {
    forall|i: int| 0 <= i < s.len() ==> #[trigger] s[i] != c
}

/// A text without separators is one piece.
pub proof fn lemma_one_piece(s: Seq<char>, sep: char)
    requires
        forall|i: int| 0 <= i < s.len() ==> #[trigger] s[i] != sep,
    ensures
        pieces(s, sep) == seq![s],
{
    lemma_one_piece_from(s, sep, 0);
    assert(s.subrange(0, s.len() as int) =~= s);
}

/// A text without separators is one piece, from any place in it.
proof fn lemma_one_piece_from(s: Seq<char>, sep: char, at: int)
    requires
        0 <= at <= s.len(),
        forall|i: int| 0 <= i < s.len() ==> #[trigger] s[i] != sep,
    ensures
        pieces_from(s, sep, 0, at) == seq![s.subrange(0, s.len() as int)],
    decreases s.len() - at,
{
    if at < s.len() {
        lemma_one_piece_from(s, sep, at + 1);
    }
}

/// Splitting a text loses nothing: its pieces with the separator between them are the text. No
/// piece holds a separator.
pub proof fn law_pieces_make_up_the_text(s: &str, sep: char, r: Vec<String>)
    requires
        call_ensures(split, (s, sep), r),
    ensures
        r@.len() >= 1,
        glued(texts(r@), sep) == s@,
        forall|i: int| 0 <= i < r@.len() ==> is_free_of((#[trigger] r@[i])@, sep),
{
    lemma_pieces(s@, sep);
    assert(texts(r@).len() == r@.len());
    assert(forall|i: int| 0 <= i < r@.len() ==> (#[trigger] r@[i])@ == texts(r@)[i]);
}

/// The pieces make up the text, and none holds a separator.
proof fn lemma_pieces(s: Seq<char>, sep: char)
    ensures
        pieces(s, sep).len() >= 1,
        glued(pieces(s, sep), sep) == s,
        forall|i: int| 0 <= i < pieces(s, sep).len() ==> is_free_of(#[trigger] pieces(s, sep)[i], sep),
    decreases s.len(),
{
    if s.len() == 0 {
        lemma_one_piece(s, sep);
    } else {
        let c = s.last();
        let rest = s.drop_last();
        let p = pieces(rest, sep);
        lemma_pieces(rest, sep);
        lemma_pieces_push(rest, c, sep);
        assert(rest.push(c) =~= s);
        if c == sep {
            assert(p.push(Seq::empty()).drop_last() =~= p);
            assert(glued(p, sep).push(sep) + Seq::<char>::empty() =~= s);
        } else {
            let q = p.drop_last().push(p.last().push(c));
            assert(q.drop_last() =~= p.drop_last());
            assert(is_free_of(p.last(), sep));
            if p.len() == 1 {
                assert(q[0] =~= s);
            } else {
                assert(glued(p.drop_last(), sep).push(sep) + p.last().push(c) =~= s);
            }
        }
    }
}

/// Texts that were put together with a separator between them, and do not hold it themselves,
/// come apart again.
pub proof fn law_what_was_put_together_comes_apart(list: Seq<Seq<char>>, sep: char)
    requires
        list.len() >= 1,
        forall|i: int| 0 <= i < list.len() ==> is_free_of(#[trigger] list[i], sep),
    ensures
        pieces(glued(list, sep), sep) == list,
    decreases list.len(),
{
    lemma_one_piece(list.last(), sep);
    if list.len() == 1 {
        assert(list =~= seq![list[0]]);
    } else {
        law_what_was_put_together_comes_apart(list.drop_last(), sep);
        lemma_pieces_joined(glued(list.drop_last(), sep), list.last(), sep);
        assert(list.drop_last() + seq![list.last()] =~= list);
    }
}

/// Whether a text is white space alone.
pub open spec fn is_blank(s: Seq<char>) -> bool {
    forall|i: int| 0 <= i < s.len() ==> white_space(#[trigger] s[i])
}

/// Whether a text neither begins nor ends with white space.
pub open spec fn is_trim(s: Seq<char>) -> bool {
    s.len() > 0 ==> !white_space(s[0]) && !white_space(s.last())
}

/// Trimming takes the white space around a text away, and nothing else.
pub proof fn law_trimming_takes_the_white_space_around(
    raw: &str,
    r: String,
    before: Seq<char>,
    s: Seq<char>,
    behind: Seq<char>,
)
    requires
        call_ensures(trim, (raw,), r),
        raw@ == before + s + behind,
        is_blank(before),
        is_blank(behind),
        is_trim(s),
    ensures
        r@ == s,
{
    lemma_trimmed(before, s, behind);
}

/// What is left of a text between white space once it is trimmed.
pub proof fn lemma_trimmed(before: Seq<char>, s: Seq<char>, behind: Seq<char>)
    requires
        is_blank(before),
        is_blank(behind),
        is_trim(s),
    ensures
        trimmed(before + s + behind) == s,
    decreases before.len(),
{
    if before.len() > 0 {
        assert(white_space(before[0]));
        assert((before + s + behind).skip(1) =~= before.skip(1) + s + behind);
        lemma_trimmed(before.skip(1), s, behind);
    } else {
        assert(before + s + behind =~= s + behind);
        if s.len() > 0 {
            assert((s + behind)[0] == s[0]);
            lemma_trimmed_end(s, behind);
        } else {
            assert(s + behind =~= behind);
            lemma_blank(behind);
        }
    }
}

/// White space behind a text is trimmed off.
proof fn lemma_trimmed_end(s: Seq<char>, behind: Seq<char>)
    requires
        is_blank(behind),
        s.len() > 0,
        !white_space(s.last()),
    ensures
        trimmed_end(s + behind) == s,
    decreases behind.len(),
{
    if behind.len() > 0 {
        assert(white_space(behind[behind.len() - 1]));
        assert((s + behind).drop_last() =~= s + behind.drop_last());
        lemma_trimmed_end(s, behind.drop_last());
    } else {
        assert(s + behind =~= s);
    }
}

/// A text of white space is trimmed to nothing.
proof fn lemma_blank(s: Seq<char>)
    requires
        is_blank(s),
    ensures
        trimmed(s) == Seq::<char>::empty(),
    decreases s.len(),
{
    if s.len() > 0 {
        assert(white_space(s[0]));
        lemma_blank(s.skip(1));
    } else {
        assert(s =~= Seq::<char>::empty());
    }
}

/// A text that neither begins nor ends with white space is trimmed already.
pub proof fn lemma_trim_stays(s: Seq<char>)
    requires
        is_trim(s),
    ensures
        trimmed(s) == s,
{
    let none = Seq::<char>::empty();
    lemma_trimmed(none, s, none);
    assert(none + s + none =~= s);
}

/// White space is what Unicode calls so: the tab and the four behind it, the space, and some
/// characters beyond ASCII. Nothing else in ASCII is.
pub proof fn law_white_space_is_that_of_unicode(c: char)
    ensures
        white_space(c) <==> ('\t' <= c && c <= '\r') || c == ' ' || c == '\u{85}' || c == '\u{A0}'
            || c == '\u{1680}' || ('\u{2000}' <= c && c <= '\u{200A}') || c == '\u{2028}' || c
            == '\u{2029}' || c == '\u{202F}' || c == '\u{205F}' || c == '\u{3000}',
{
}

/// The words of a text grow with the text: white space ends a word, any other character goes to
/// the word that it stands behind, and starts one behind white space.
pub proof fn law_words_are_runs_without_white_space(s: Seq<char>, c: char)
    ensures
        words(Seq::empty()) == Seq::<Seq<char>>::empty(),
        white_space(c) ==> words(s.push(c)) == words(s),
        !white_space(c) && (s.len() == 0 || white_space(s.last())) ==> words(s.push(c)) == words(
            s,
        ).push(seq![c]),
        !white_space(c) && s.len() > 0 && !white_space(s.last()) ==> words(s).len() > 0 && words(
            s.push(c),
        ) == words(s).drop_last().push(words(s).last().push(c)),
{
    lemma_words_push(s, c, 0, 0);
    assert(words(Seq::empty()) =~= Seq::<Seq<char>>::empty());
}

/// A character more makes the last word longer, or starts a new one.
proof fn lemma_words_push(s: Seq<char>, c: char, from: int, at: int)
    requires
        0 <= from <= at <= s.len(),
    ensures
        ({
            let before = words_from(s, from, at);
            let after = words_from(s.push(c), from, at);
            let goes_on = if at == s.len() {
                from < at
            } else {
                !white_space(s.last())
            };
            &&& white_space(c) ==> after == before
            &&& !white_space(c) && !goes_on ==> after == before.push(seq![c])
            &&& !white_space(c) && goes_on ==> before.len() > 0 && after
                == before.drop_last().push(before.last().push(c))
        }),
    decreases s.len() - at,
{
    let t = s.push(c);
    let before = words_from(s, from, at);
    let after = words_from(t, from, at);
    if at == s.len() {
        let n = at + 1;
        assert(t.subrange(from, at) =~= s.subrange(from, at));
        assert(words_from(t, n, n) =~= Seq::<Seq<char>>::empty());
        if white_space(c) {
            assert(after =~= before);
        } else {
            assert(words_from(t, from, n) =~= seq![t.subrange(from, n)]);
            assert(after == words_from(t, from, n));
            if from < at {
                assert(t.subrange(from, n) =~= s.subrange(from, at).push(c));
                assert(after =~= before.drop_last().push(before.last().push(c)));
            } else {
                assert(t.subrange(from, n) =~= seq![c]);
                assert(after =~= before.push(seq![c]));
            }
        }
    } else {
        assert(t[at] == s[at]);
        if white_space(s[at]) {
            lemma_words_push(s, c, at + 1, at + 1);
            assert(t.subrange(from, at) =~= s.subrange(from, at));
            let rest = words_from(s, at + 1, at + 1);
            let more = words_from(t, at + 1, at + 1);
            let word = if from < at {
                seq![s.subrange(from, at)]
            } else {
                Seq::empty()
            };
            assert(before == word + rest);
            assert(after == word + more);
            if white_space(c) {
                assert(more == rest);
            } else if at + 1 == s.len() || white_space(s.last()) {
                assert(after =~= before.push(seq![c]));
            } else {
                assert(after =~= before.drop_last().push(before.last().push(c)));
            }
        } else {
            lemma_words_push(s, c, from, at + 1);
        }
    }
}

/// Whether a text is a word: not empty and without white space.
pub open spec fn is_word(s: Seq<char>) -> bool {
    s.len() > 0 && forall|i: int| 0 <= i < s.len() ==> !white_space(#[trigger] s[i])
}

/// Words that were put together with a space, or any other white space, between them come apart
/// again.
pub proof fn law_words_come_apart(list: Seq<Seq<char>>, between: char)
    requires
        white_space(between),
        forall|i: int| 0 <= i < list.len() ==> is_word(#[trigger] list[i]),
    ensures
        words(glued(list, between)) == list,
    decreases list.len(),
{
    if list.len() == 0 {
        law_words_are_runs_without_white_space(Seq::empty(), between);
        assert(list =~= Seq::<Seq<char>>::empty());
    } else {
        let last = list.last();
        let start = if list.len() == 1 {
            Seq::empty()
        } else {
            glued(list.drop_last(), between).push(between)
        };
        law_words_come_apart(list.drop_last(), between);
        if list.len() == 1 {
            law_words_are_runs_without_white_space(Seq::empty(), between);
            assert(list.drop_last() =~= Seq::<Seq<char>>::empty());
        } else {
            law_words_are_runs_without_white_space(
                glued(list.drop_last(), between),
                between,
            );
        }
        lemma_word_behind(start, last, last.len() as int);
        assert(last.take(last.len() as int) =~= last);
        assert(start + last =~= glued(list, between));
        assert(list.drop_last().push(last) =~= list);
    }
}

/// A word behind white space is a word of its own.
proof fn lemma_word_behind(start: Seq<char>, word: Seq<char>, n: int)
    requires
        start.len() == 0 || white_space(start.last()),
        is_word(word),
        0 < n <= word.len(),
    ensures
        words(start + word.take(n)) == words(start).push(word.take(n)),
    decreases n,
{
    let c = word[n - 1];
    if n == 1 {
        law_words_are_runs_without_white_space(start, c);
        assert(word.take(1) =~= seq![c]);
        assert(start + word.take(1) =~= start.push(c));
    } else {
        lemma_word_behind(start, word, n - 1);
        let s = start + word.take(n - 1);
        law_words_are_runs_without_white_space(s, c);
        assert(s.last() == word[n - 2]);
        assert(s.push(c) =~= start + word.take(n));
        assert(word.take(n - 1).push(c) =~= word.take(n));
        assert(words(s).drop_last().push(words(s).last().push(c)) =~= words(start).push(
            word.take(n),
        ));
    }
}

/// A text is split into its words.
pub proof fn law_texts_are_split_into_their_words(s: &str, r: Vec<String>)
    requires
        call_ensures(split_whitespace, (s,), r),
    ensures
        texts(r@) == words(s@),
{
}

/// A line ends with a line feed, or with a carriage return before it. What stands behind the
/// last line feed is a line too, unless it is empty.
pub proof fn law_lines_end_with_line_feeds(line: Seq<char>, rest: Seq<char>, text: &str, r: Vec<String>)
    requires
        call_ensures(lines, (text,), r),
        is_free_of(line, '\n'),
    ensures
        text@ == line ==> texts(r@) == (if line.len() == 0 {
            Seq::<Seq<char>>::empty()
        } else {
            seq![line]
        }),
        text@ == line.push('\n') + rest && (line.len() == 0 || line.last() != '\r') ==> texts(r@)
            == seq![line] + lines_of(rest),
        text@ == line.push('\r').push('\n') + rest ==> texts(r@) == seq![line] + lines_of(rest),
{
    lemma_one_piece(line, '\n');
    lemma_pieces(rest, '\n');
    lemma_pieces_joined(line, rest, '\n');
    if text@ == line {
        if line.len() == 0 {
            assert(lines_of(line) =~= Seq::<Seq<char>>::empty());
        } else {
            assert(lines_of(line) =~= seq![line]);
        }
    }
    let p = pieces(rest, '\n');
    assert((seq![line] + p).last() == p.last());
    if text@ == line.push('\n') + rest && (line.len() == 0 || line.last() != '\r') {
        assert(lines_of(text@) =~= seq![line] + lines_of(rest));
    }
    let ended = line.push('\r');
    assert(is_free_of(ended, '\n'));
    lemma_one_piece(ended, '\n');
    lemma_pieces_joined(ended, rest, '\n');
    assert((seq![ended] + p).last() == p.last());
    if text@ == ended.push('\n') + rest {
        assert(ended.drop_last() =~= line);
        assert(lines_of(text@) =~= seq![line] + lines_of(rest));
    }
}

/// A text holds another where it is that one with something before and something behind it.
pub proof fn law_texts_are_found_where_they_stand(hay: &str, needle: &str, r: bool)
    requires
        call_ensures(has_text, (hay, needle), r),
    ensures
        r <==> exists|before: Seq<char>, behind: Seq<char>|
            hay@ == #[trigger] (before + needle@ + behind),
{
    lemma_first_occurrence(hay@, 0, needle@);
    if r {
        let at = first_occurrence(hay@, 0, needle@)->0;
        let before = hay@.take(at);
        let behind = hay@.skip(at + needle@.len());
        assert(hay@ =~= before + needle@ + behind);
    }
    if exists|before: Seq<char>, behind: Seq<char>|
        hay@ == #[trigger] (before + needle@ + behind) {
        let (before, behind) = choose|before: Seq<char>, behind: Seq<char>|
            hay@ == #[trigger] (before + needle@ + behind);
        let at = before.len() as int;
        assert(hay@.subrange(at, at + needle@.len()) =~= needle@);
        assert(occurs_at(hay@, at, needle@));
    }
}

/// What is found is the first place at or behind the start where the text stands.
pub proof fn law_the_first_place_is_found(
    hay: Vec<char>,
    from: usize,
    needle: Vec<char>,
    r: Option<usize>,
)
    requires
        call_ensures(find_from, (&hay, from, &needle), r),
    ensures
        r matches Some(at) ==> {
            &&& from <= at
            &&& at + needle@.len() <= hay@.len()
            &&& hay@.subrange(at as int, at + needle@.len()) == needle@
        },
        forall|at: int|
            from <= at && at + needle@.len() <= hay@.len() && #[trigger] hay@.subrange(
                at,
                at + needle@.len(),
            ) == needle@ ==> (r matches Some(first) && first <= at),
{
    lemma_first_occurrence(hay@, from as int, needle@);
    assert forall|at: int|
        from <= at && at + needle@.len() <= hay@.len() && #[trigger] hay@.subrange(
            at,
            at + needle@.len(),
        ) == needle@ implies (r matches Some(first) && first <= at) by {
        assert(occurs_at(hay@, at, needle@));
    }
}

/// What is left of a text behind what it begins with, or before what it ends with, makes up the
/// text together with that.
pub proof fn law_prefixes_and_suffixes_come_off(
    s: &str,
    part: &str,
    begins: bool,
    behind: Option<String>,
    before: Option<String>,
)
    requires
        call_ensures(starts_with, (s, part), begins),
        call_ensures(strip_prefix, (s, part), behind),
        call_ensures(strip_suffix, (s, part), before),
    ensures
        begins <==> behind is Some,
        behind matches Some(rest) ==> s@ == part@ + rest@,
        before matches Some(rest) ==> s@ == rest@ + part@,
        (exists|rest: Seq<char>| s@ == #[trigger] (part@ + rest)) ==> behind is Some,
        (exists|rest: Seq<char>| s@ == #[trigger] (rest + part@)) ==> before is Some,
{
    let n = part@.len() as int;
    if behind is Some {
        assert(s@ =~= part@ + s@.skip(n));
    }
    if before is Some {
        assert(s@ =~= s@.take(s@.len() - n) + part@);
    }
    if exists|rest: Seq<char>| s@ == #[trigger] (part@ + rest) {
        assert(s@.subrange(0, n) =~= part@);
    }
    if exists|rest: Seq<char>| s@ == #[trigger] (rest + part@) {
        let rest = choose|rest: Seq<char>| s@ == #[trigger] (rest + part@);
        assert(s@.subrange(s@.len() - n, s@.len() - n + n) =~= part@);
    }
}

/// A run of a character at the start of a text comes off.
pub proof fn law_leading_marks_come_off(
    s: &str,
    mark: char,
    r: String,
    marks: Seq<char>,
    rest: Seq<char>,
)
    requires
        call_ensures(trim_start_matches, (s, mark), r),
        s@ == marks + rest,
        forall|i: int| 0 <= i < marks.len() ==> #[trigger] marks[i] == mark,
        rest.len() == 0 || rest[0] != mark,
    ensures
        r@ == rest,
{
    lemma_marks(marks, rest, mark);
}

/// What is left of a text behind a run of a character.
pub proof fn lemma_marks(marks: Seq<char>, rest: Seq<char>, mark: char)
    requires
        forall|i: int| 0 <= i < marks.len() ==> #[trigger] marks[i] == mark,
        rest.len() == 0 || rest[0] != mark,
    ensures
        without_leading(marks + rest, mark) == rest,
    decreases marks.len(),
{
    if marks.len() > 0 {
        assert(marks[0] == mark);
        assert((marks + rest).skip(1) =~= marks.skip(1) + rest);
        lemma_marks(marks.skip(1), rest, mark);
    } else {
        assert(marks + rest =~= rest);
    }
}

/// The end of a text is what it says: as many characters as asked for, or all.
pub proof fn law_the_end_of_a_text(s: &str, num_chars: usize, r: String)
    requires
        call_ensures(last_chars, (s, num_chars), r),
    ensures
        s@.len() <= num_chars ==> r@ == s@,
        s@.len() > num_chars ==> r@.len() == num_chars && exists|before: Seq<char>|
            s@ == #[trigger] (before + r@),
{
    if s@.len() > num_chars {
        assert(s@ =~= s@.take(s@.len() - num_chars) + r@);
    }
}

/// Only the capital letters of ASCII become small ones, each the one of the same letter.
pub proof fn law_capital_letters_become_small(s: &str, r: String, i: int)
    requires
        call_ensures(to_ascii_lowercase, (s,), r),
        0 <= i < s@.len(),
    ensures
        r@.len() == s@.len(),
        'A' <= s@[i] && s@[i] <= 'Z' ==> r@[i] as int - 'a' as int == s@[i] as int - 'A' as int,
        !('A' <= s@[i] && s@[i] <= 'Z') ==> r@[i] == s@[i],
{
    assert(r@[i] == ascii_lower(s@[i]));
}

/// Texts are the same where all their characters are.
pub proof fn law_texts_are_compared_in_full(a: &str, b: &str, same: bool)
    requires
        call_ensures(same_text, (a, b), same),
    ensures
        same <==> a@ == b@,
{
}

} // verus!
