//! Unix paths, as texts: their components, and how they are put together and taken apart.

use vstd::prelude::*;

use crate::text::{
    chars_of,
    join2,
    join3,
    pieces,
    same_text,
    split,
    text_between,
    texts,
    to_owned,
};

verus! {

/// Whether a path starts at the root.
pub open spec fn has_root(s: Seq<char>) -> bool {
    s.len() > 0 && s[0] == '/'
}

/// Whether a path starts with a component for the current directory.
pub open spec fn has_current(s: Seq<char>) -> bool {
    s.len() > 0 && s[0] == '.' && (s.len() == 1 || s[1] == '/')
}

/// How much of a path stands for the root or the current directory it starts with.
pub open spec fn lead_len(s: Seq<char>) -> int {
    if has_root(s) || has_current(s) {
        1
    } else {
        0
    }
}

/// Where the text behind the last separator of a path starts.
pub open spec fn last_start(s: Seq<char>) -> int
    decreases s.len(),
{
    if s.len() == 0 || s.last() == '/' {
        s.len() as int
    } else {
        last_start(s.drop_last())
    }
}

/// A path without the separators and the components for the current directory that it
/// ends with. The first `lead` characters stay.
pub open spec fn without_trailing(s: Seq<char>, lead: int) -> Seq<char>
    decreases s.len(),
{
    if s.len() <= lead || s.len() == 0 {
        s
    } else if s.last() == '/' {
        without_trailing(s.drop_last(), lead)
    } else if s.last() == '.' && last_start(s) == s.len() - 1 {
        without_trailing(s.drop_last(), lead)
    } else {
        s
    }
}

/// A path without the separators and the components for the current directory that it
/// ends with.
pub open spec fn trunk(s: Seq<char>) -> Seq<char> {
    without_trailing(s, lead_len(s))
}

/// The name of the file or directory that a path leads to.
pub open spec fn file_name_of(s: Seq<char>) -> Option<Seq<char>> {
    let t = trunk(s);
    let name = t.skip(last_start(t));
    if t.len() <= lead_len(s) || name == seq!['.', '.'] {
        None
    } else {
        Some(name)
    }
}

/// The path without its last component. The root and the empty path have none.
pub open spec fn parent_of(s: Seq<char>) -> Option<Seq<char>> {
    let t = trunk(s);
    if t.len() == 0 || (t.len() == 1 && has_root(s)) {
        None
    } else if t.len() == 1 && has_current(s) {
        Some(Seq::empty())
    } else {
        Some(without_trailing(t.take(last_start(t)), lead_len(s)))
    }
}

/// A path behind another. An absolute path replaces the one before it.
pub open spec fn joined(s: Seq<char>, p: Seq<char>) -> Seq<char> {
    if has_root(p) || s.len() == 0 {
        p
    } else if s.last() == '/' {
        s + p
    } else {
        s + seq!['/'] + p
    }
}

/// Where the last dot of a name stands.
pub open spec fn last_dot(name: Seq<char>) -> Option<int>
    decreases name.len(),
{
    if name.len() == 0 {
        None
    } else if name.last() == '.' {
        Some(name.len() - 1)
    } else {
        last_dot(name.drop_last())
    }
}

/// The length of a name without its extension. A dot at the start is no extension's.
pub open spec fn stem_len(name: Seq<char>) -> int {
    match last_dot(name) {
        Some(i) => if i > 0 {
            i
        } else {
            name.len() as int
        },
        None => name.len() as int,
    }
}

/// A path with another extension for its file name. A path without a file name stays
/// as it is.
pub open spec fn with_extension_of(s: Seq<char>, extension: Seq<char>) -> Seq<char> {
    match file_name_of(s) {
        Some(name) => s.take(last_start(trunk(s)) + stem_len(name)) + seq!['.'] + extension,
        None => s,
    }
}

/// Whether the piece at position `i` between the separators of a path is a component.
pub open spec fn is_component(p: Seq<Seq<char>>, i: int) -> bool {
    p[i].len() > 0 && (p[i] != seq!['.'] || i == 0)
}

/// The components among the first `n` pieces between the separators of a path.
pub open spec fn components_among(p: Seq<Seq<char>>, n: nat) -> Seq<Seq<char>>
    decreases n,
{
    if n == 0 {
        Seq::empty()
    } else {
        let before = components_among(p, (n - 1) as nat);
        if is_component(p, n - 1) {
            before.push(p[n - 1])
        } else {
            before
        }
    }
}

/// The components of a path, but for the root.
pub open spec fn components_of(s: Seq<char>) -> Seq<Seq<char>> {
    let p = pieces(s, '/');
    components_among(p, p.len())
}

/// Whether two paths have the same components.
pub open spec fn same_path_as(a: Seq<char>, b: Seq<char>) -> bool {
    has_root(a) == has_root(b) && components_of(a) == components_of(b)
}

/// Where the text behind the last separator starts, within bounds.
pub proof fn lemma_last_start(s: Seq<char>)
    ensures
        0 <= last_start(s) <= s.len(),
        forall|i: int| last_start(s) <= i < s.len() ==> s[i] != '/',
        last_start(s) > 0 ==> s[last_start(s) - 1] == '/',
    decreases s.len(),
{
    if s.len() > 0 && s.last() != '/' {
        lemma_last_start(s.drop_last());
        assert forall|i: int| last_start(s) <= i < s.len() implies s[i] != '/' by {
            if i < s.len() - 1 {
                assert(s.drop_last()[i] == s[i]);
            }
        }
    }
}

/// What is left of a path is its beginning.
pub proof fn lemma_without_trailing(s: Seq<char>, lead: int)
    ensures
        without_trailing(s, lead).len() <= s.len(),
        without_trailing(s, lead) == s.take(without_trailing(s, lead).len() as int),
        lead <= s.len() ==> lead <= without_trailing(s, lead).len(),
    decreases s.len(),
{
    if s.len() <= lead || s.len() == 0 {
        assert(s.take(s.len() as int) =~= s);
    } else if s.last() == '/' || (s.last() == '.' && last_start(s) == s.len() - 1) {
        lemma_without_trailing(s.drop_last(), lead);
        let n = without_trailing(s, lead).len() as int;
        assert(s.drop_last().take(n) =~= s.take(n));
    } else {
        assert(s.take(s.len() as int) =~= s);
    }
}

/// How much of a path stands for the root or the current directory it starts with.
fn lead(c: &Vec<char>) -> (r: usize)
    ensures
        r == lead_len(c@),
        r <= c@.len(),
{
    if c.len() > 0 && (c[0] == '/' || (c[0] == '.' && (c.len() == 1 || c[1] == '/'))) {
        1
    } else {
        0
    }
}

/// Where the text behind the last separator of the first `len` characters starts.
fn start_of_last(c: &Vec<char>, len: usize) -> (r: usize)
    requires
        len <= c@.len(),
    ensures
        r == last_start(c@.take(len as int)),
        r <= len,
{
    let mut i: usize = len;
    while i > 0 && c[i - 1] != '/'
        invariant
            i <= len <= c@.len(),
            last_start(c@.take(len as int)) == last_start(c@.take(i as int)),
        decreases i,
    {
        assert(c@.take(i as int).drop_last() =~= c@.take(i - 1));
        i = i - 1;
    }
    i
}

/// The length of a path without what it ends with.
fn trunk_len(c: &Vec<char>, len: usize, lead: usize) -> (r: usize)
    requires
        len <= c@.len(),
    ensures
        r == without_trailing(c@.take(len as int), lead as int).len(),
        r <= len,
        without_trailing(c@.take(len as int), lead as int) == c@.take(r as int),
{
    let mut n: usize = len;
    loop
        invariant
            n <= len <= c@.len(),
            without_trailing(c@.take(len as int), lead as int) == without_trailing(
                c@.take(n as int),
                lead as int,
            ),
        decreases n,
    {
        if n <= lead || n == 0 {
            return n;
        }
        assert(c@.take(n as int).drop_last() =~= c@.take(n - 1));
        if c[n - 1] == '/' {
            n = n - 1;
        } else if c[n - 1] == '.' && start_of_last(c, n) == n - 1 {
            n = n - 1;
        } else {
            return n;
        }
    }
}

/// The name of the file or directory that a path leads to.
pub fn file_name(s: &str) -> (r: Option<String>)
    ensures
        r is Some <==> file_name_of(s@) is Some,
        r matches Some(name) ==> file_name_of(s@) == Some(name@),
{
    let c: Vec<char> = chars_of(s);
    assert(c@.take(c@.len() as int) =~= c@);
    let first: usize = lead(&c);
    let n: usize = trunk_len(&c, c.len(), first);
    let start: usize = start_of_last(&c, n);
    let name: String = text_between(&c, start, n);
    assert(name@ =~= trunk(s@).skip(start as int));
    if n <= first {
        return None;
    }
    let up: bool = same_text(name.as_str(), "..");
    proof {
        reveal_strlit("..");
        assert(".."@ =~= seq!['.', '.']);
    }
    if up {
        None
    } else {
        Some(name)
    }
}

/// The path without its last component. The root and the empty path have none.
pub fn parent(s: &str) -> (r: Option<String>)
    ensures
        r is Some <==> parent_of(s@) is Some,
        r matches Some(p) ==> parent_of(s@) == Some(p@),
{
    let c: Vec<char> = chars_of(s);
    assert(c@.take(c@.len() as int) =~= c@);
    let first: usize = lead(&c);
    let n: usize = trunk_len(&c, c.len(), first);
    if n == 0 || (n == 1 && c[0] == '/') {
        None
    } else if n == 1 && first == 1 {
        let p: String = String::new();
        assert(p@ =~= Seq::<char>::empty());
        Some(p)
    } else {
        let start: usize = start_of_last(&c, n);
        assert(trunk(s@).take(start as int) =~= c@.take(start as int));
        let m: usize = trunk_len(&c, start, first);
        let p: String = text_between(&c, 0, m);
        assert(p@ =~= c@.take(m as int));
        Some(p)
    }
}

/// A path behind another. An absolute path replaces the one before it.
pub fn join(s: &str, p: &str) -> (r: String)
    ensures
        r@ == joined(s@, p@),
{
    let c: Vec<char> = chars_of(s);
    let d: Vec<char> = chars_of(p);
    proof {
        reveal_strlit("/");
        assert("/"@ =~= seq!['/']);
    }
    if (d.len() > 0 && d[0] == '/') || c.len() == 0 {
        to_owned(p)
    } else if c[c.len() - 1] == '/' {
        join2(s, p)
    } else {
        join3(s, "/", p)
    }
}

/// A path with another extension for its file name.
pub fn with_extension(s: &str, extension: &str) -> (r: String)
    ensures
        r@ == with_extension_of(s@, extension@),
{
    let c: Vec<char> = chars_of(s);
    assert(c@.take(c@.len() as int) =~= c@);
    let first: usize = lead(&c);
    let n: usize = trunk_len(&c, c.len(), first);
    let start: usize = start_of_last(&c, n);
    let named: Option<String> = file_name(s);
    match named {
        None => to_owned(s),
        Some(name) => {
            let ghost whole = name@;
            assert(whole =~= c@.subrange(start as int, n as int));
            let mut i: usize = n;
            assert(whole.take(n - start) =~= whole);
            while i > start && c[i - 1] != '.'
                invariant
                    start <= i <= n <= c@.len(),
                    whole == c@.subrange(start as int, n as int),
                    last_dot(whole) == last_dot(whole.take(i - start)),
                decreases i,
            {
                assert(whole.take(i - start).drop_last() =~= whole.take(i - start - 1));
                assert(whole.take(i - start).last() == c@[i - 1]);
                i = i - 1;
            }
            proof {
                if i > start {
                    assert(whole.take(i - start).last() == c@[i - 1]);
                    assert(last_dot(whole) == Some(i - start - 1));
                } else {
                    assert(whole.take(0) =~= Seq::<char>::empty());
                    assert(last_dot(whole) is None);
                }
            }
            let end: usize = if i - start > 1 {
                i - 1
            } else {
                n
            };
            let stem: String = text_between(&c, 0, end);
            assert(stem@ =~= s@.take(end as int));
            proof {
                reveal_strlit(".");
                assert("."@ =~= seq!['.']);
            }
            join3(stem.as_str(), ".", extension)
        },
    }
}

/// The components of a path, but for the root.
pub fn components(s: &str) -> (r: Vec<String>)
    ensures
        texts(r@) == components_of(s@),
{
    let parts: Vec<String> = split(s, '/');
    let ghost p = pieces(s@, '/');
    let mut out: Vec<String> = Vec::new();
    assert(texts(out@) =~= Seq::<Seq<char>>::empty());
    for i in 0..parts.len()
        invariant
            texts(parts@) == p,
            texts(out@) == components_among(p, i as nat),
    {
        assert(parts@[i as int]@ == p[i as int]);
        let part: &str = parts[i].as_str();
        proof {
            reveal_strlit(".");
            assert("."@ =~= seq!['.']);
            reveal_strlit("");
        }
        let here: bool = same_text(part, ".");
        let nothing: bool = same_text(part, "");
        assert(nothing == (p[i as int].len() == 0)) by {
            if p[i as int].len() == 0 {
                assert(p[i as int] =~= ""@);
            }
        }
        if !nothing && (!here || i == 0) {
            let ghost before = out@;
            out.push(to_owned(part));
            assert(texts(out@) =~= texts(before).push(p[i as int]));
        }
    }
    assert(texts(parts@).len() == parts@.len());
    out
}

/// Whether a path starts at the root.
pub fn is_absolute(s: &str) -> (r: bool)
    ensures
        r == has_root(s@),
{
    let c: Vec<char> = chars_of(s);
    c.len() > 0 && c[0] == '/'
}

/// Whether two paths have the same components.
pub fn same_path(a: &str, b: &str) -> (r: bool)
    ensures
        r == same_path_as(a@, b@),
{
    if is_absolute(a) != is_absolute(b) {
        return false;
    }
    let x: Vec<String> = components(a);
    let y: Vec<String> = components(b);
    proof {
        assert(texts(x@).len() == x@.len());
        assert(texts(y@).len() == y@.len());
    }
    if x.len() != y.len() {
        return false;
    }
    for i in 0..x.len()
        invariant
            x@.len() == y@.len(),
            texts(x@) == components_of(a@),
            texts(y@) == components_of(b@),
            forall|j: int| 0 <= j < i ==> (#[trigger] x@[j])@ == y@[j]@,
    {
        if !same_text(x[i].as_str(), y[i].as_str()) {
            assert(texts(x@)[i as int] != texts(y@)[i as int]);
            return false;
        }
    }
    assert(texts(x@) =~= texts(y@));
    true
}

} // verus!
