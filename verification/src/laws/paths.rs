//! Paths: how they are put together and taken apart.

use vstd::prelude::*;

use crate::bare_metal::{is_plain, lemma_last_segment, lemma_nothing_trails};
use crate::laws::bare_metal::{ends_plainly, lemma_parent_and_name};
use crate::paths::{
    file_name,
    has_root,
    is_absolute,
    join,
    last_dot,
    lead_len,
    parent,
    same_path,
    same_path_as,
    stem_len,
    trunk,
    with_extension,
    with_extension_of,
};

verus! {

/// A path goes behind another with a separator between them. One that starts at the root replaces
/// the other.
pub proof fn law_paths_are_joined_by_a_separator(s: &str, p: &str, r: String, rooted: bool)
    requires
        call_ensures(join, (s, p), r),
        call_ensures(is_absolute, (p,), rooted),
    ensures
        rooted <==> p@.len() > 0 && p@[0] == '/',
        rooted || s@.len() == 0 ==> r@ == p@,
        !rooted && s@.len() > 0 && s@.last() == '/' ==> r@ == s@ + p@,
        !rooted && s@.len() > 0 && s@.last() != '/' ==> r@ == s@ + seq!['/'] + p@,
{
}

/// Taking a path apart undoes putting it together: the name and the directory of a name in a
/// directory are the two.
pub proof fn law_paths_come_apart_again(
    dir: &str,
    before: Seq<char>,
    last: Seq<char>,
    name: &str,
    path: String,
    whole: &str,
    found: Option<String>,
    up: Option<String>,
)
    requires
        ends_plainly(dir@, before, last),
        is_plain(name@),
        call_ensures(join, (dir, name), path),
        whole@ == path@,
        call_ensures(file_name, (whole,), found),
        call_ensures(parent, (whole,), up),
    ensures
        found matches Some(n) && n@ == name@,
        up matches Some(d) && d@ == dir@,
{
    assert(!has_root(name@)) by {
        if has_root(name@) {
            assert(name@.contains(name@[0]));
        }
    }
    assert(last.contains(last.last()));
    assert(dir@.last() == last.last());
    assert(dir@ + seq!['/'] + name@ =~= dir@.push('/') + name@);
    lemma_parent_and_name(whole@, dir@, before, last, name@);
}

/// The extension of a path is replaced: what stands behind the last dot of its name. Without one
/// it is added.
pub proof fn law_extensions_are_replaced(
    path: &str,
    before: Seq<char>,
    stem: Seq<char>,
    old_extension: Seq<char>,
    extension: &str,
    r: String,
)
    requires
        call_ensures(with_extension, (path, extension), r),
        before.len() == 0 || before.last() == '/',
        stem.len() > 0,
        !stem.contains('/'),
        !old_extension.contains('/'),
        !old_extension.contains('.'),
        stem != seq!['.'],
        stem != seq!['.', '.'],
    ensures
        path@ == before + (stem.push('.') + old_extension) && stem.push('.') + old_extension
            != seq!['.', '.'] ==> r@ == before + stem.push('.') + extension@,
        path@ == before + stem && !stem.contains('.') ==> r@ == before + stem.push('.')
            + extension@,
{
    let name = stem.push('.') + old_extension;
    if path@ == before + name && name != seq!['.', '.'] {
        assert(!name.contains('/')) by {
            if name.contains('/') {
                let i = choose|i: int| 0 <= i < name.len() && name[i] == '/';
                if i < stem.len() {
                    assert(stem[i] == '/');
                } else if i > stem.len() {
                    assert(old_extension[i - stem.len() - 1] == '/');
                }
            }
        }
        assert(name.len() >= 2);
        lemma_extended(path@, before, name, extension@);
        lemma_last_dot(stem, old_extension);
        assert(path@.take((before.len() + stem.len()) as int) =~= before + stem);
        assert(before + stem + seq!['.'] + extension@ =~= before + stem.push('.') + extension@);
    }
    if path@ == before + stem && !stem.contains('.') {
        lemma_extended(path@, before, stem, extension@);
        lemma_no_dot(stem);
        assert(path@.take((before.len() + stem.len()) as int) =~= path@);
        assert(path@ + seq!['.'] + extension@ =~= before + stem.push('.') + extension@);
    }
}

/// Where the extension of a path with a name goes.
proof fn lemma_extended(path: Seq<char>, before: Seq<char>, name: Seq<char>, extension: Seq<char>)
    requires
        path == before + name,
        before.len() == 0 || before.last() == '/',
        name.len() > 0,
        !name.contains('/'),
        name != seq!['.'],
        name != seq!['.', '.'],
    ensures
        with_extension_of(path, extension) == path.take(before.len() + stem_len(name)) + seq!['.']
            + extension,
{
    lemma_last_segment(before, name);
    lemma_nothing_trails(before, name, lead_len(path));
    assert(trunk(path) == path);
    assert(path.skip(before.len() as int) =~= name);
    lemma_lead(path, before, name);
}

/// A path with a name of its own is longer than what it starts with.
proof fn lemma_lead(path: Seq<char>, before: Seq<char>, name: Seq<char>)
    requires
        path == before + name,
        before.len() == 0 || before.last() == '/',
        name.len() > 0,
        !name.contains('/'),
        name != seq!['.'],
    ensures
        path.len() > lead_len(path),
{
    if path.len() == 1 {
        assert(before.len() == 0);
        assert(path =~= name);
        assert(name[0] != '/') by {
            assert(name.contains(name[0]));
        }
        if name[0] == '.' {
            assert(name =~= seq!['.']);
        }
    }
}

/// The last dot stands before what holds no dot.
proof fn lemma_last_dot(stem: Seq<char>, extension: Seq<char>)
    requires
        !extension.contains('.'),
    ensures
        last_dot(stem.push('.') + extension) == Some(stem.len() as int),
    decreases extension.len(),
{
    let name = stem.push('.') + extension;
    if extension.len() == 0 {
        assert(name.last() == '.');
    } else {
        assert(name.last() == extension.last());
        assert(extension.contains(extension.last()));
        assert(name.drop_last() =~= stem.push('.') + extension.drop_last());
        assert(!extension.drop_last().contains('.')) by {
            if extension.drop_last().contains('.') {
                let i = choose|i: int|
                    0 <= i < extension.drop_last().len() && extension.drop_last()[i] == '.';
                assert(extension[i] == '.');
            }
        }
        lemma_last_dot(stem, extension.drop_last());
    }
}

/// A name without dots has no last one.
pub proof fn lemma_no_dot(name: Seq<char>)
    requires
        !name.contains('.'),
    ensures
        last_dot(name) is None,
    decreases name.len(),
{
    if name.len() > 0 {
        assert(name.contains(name.last()));
        assert(!name.drop_last().contains('.')) by {
            if name.drop_last().contains('.') {
                let i = choose|i: int| 0 <= i < name.drop_last().len() && name.drop_last()[i] == '.';
                assert(name[i] == '.');
            }
        }
        lemma_no_dot(name.drop_last());
    }
}

/// To be the same path does not depend on which of two is named first, holds of every path and
/// itself, and goes on from path to path.
pub proof fn law_same_paths_are_the_same(
    a: &str,
    b: &str,
    c: &str,
    ab: bool,
    ba: bool,
    bc: bool,
    ac: bool,
    aa: bool,
)
    requires
        call_ensures(same_path, (a, b), ab),
        call_ensures(same_path, (b, a), ba),
        call_ensures(same_path, (b, c), bc),
        call_ensures(same_path, (a, c), ac),
        call_ensures(same_path, (a, a), aa),
    ensures
        aa,
        ab == ba,
        ab && bc ==> ac,
        ab ==> has_root(a@) == has_root(b@),
{
}

/// A separator at the end, or one more between two components, makes no other path, and neither
/// does a component for the current directory. Another component does.
pub proof fn law_separators_do_not_count(path: Seq<char>, name: Seq<char>)
    requires
        path.len() > 0,
        is_plain(name),
    ensures
        same_path_as(path.push('/'), path),
        same_path_as(path.push('/').push('.'), path),
        same_path_as(path.push('/').push('/') + name, path.push('/') + name),
        !same_path_as(path.push('/') + name, path),
{
    lemma_components_joined(path, Seq::empty());
    lemma_components_joined(path, seq!['.']);
    lemma_components_joined(path, name);
    lemma_components_joined(path.push('/'), name);
    let none = Seq::<char>::empty();
    crate::laws::text::lemma_one_piece(none, '/');
    crate::laws::text::lemma_one_piece(seq!['.'], '/');
    assert(forall|i: int| 0 <= i < name.len() ==> #[trigger] name[i] != '/') by {
        assert forall|i: int| 0 <= i < name.len() implies #[trigger] name[i] != '/' by {
            assert(name.contains(name[i]));
        }
    }
    crate::laws::text::lemma_one_piece(name, '/');
    reveal_with_fuel(crate::paths::components_among, 3);
    assert(path.push('/') + none =~= path.push('/'));
    assert(path.push('/') + seq!['.'] =~= path.push('/').push('.'));
    let all = crate::paths::components_of(path);
    reveal_with_fuel(more_components, 2);
    assert(seq![none].last() == none);
    assert(seq![seq!['.']].last() == seq!['.']);
    assert(seq![name].last() == name);
    assert(more_components(seq![none]) =~= Seq::<Seq<char>>::empty());
    assert(more_components(seq![seq!['.']]) =~= Seq::<Seq<char>>::empty());
    assert(more_components(seq![name]) =~= seq![name]);
    assert(all + Seq::<Seq<char>>::empty() =~= all);
    assert((all + seq![name]).len() == all.len() + 1);
    assert(has_root(path.push('/')) == has_root(path));
    assert(has_root(path.push('/').push('.')) == has_root(path));
    assert(has_root(path.push('/') + name) == has_root(path));
    assert(has_root(path.push('/').push('/') + name) == has_root(path));
}

/// The components among pieces that are not the first of a path.
spec fn more_components(p: Seq<Seq<char>>) -> Seq<Seq<char>>
    decreases p.len(),
{
    if p.len() == 0 {
        Seq::empty()
    } else {
        let before = more_components(p.drop_last());
        if p.last().len() > 0 && p.last() != seq!['.'] {
            before.push(p.last())
        } else {
            before
        }
    }
}

/// The components of a path behind another come behind those of the other.
proof fn lemma_components_joined(a: Seq<char>, b: Seq<char>)
    ensures
        crate::paths::components_of(a.push('/') + b) == crate::paths::components_of(a)
            + more_components(crate::text::pieces(b, '/')),
{
    let p = crate::text::pieces(a, '/');
    let q = crate::text::pieces(b, '/');
    crate::text::lemma_pieces_joined(a, b, '/');
    crate::text::lemma_pieces_push(a, '/', '/');
    lemma_components_behind(p, q, q.len());
    assert(q.take(q.len() as int) =~= q);
}

/// Pieces behind others bring more components.
proof fn lemma_components_behind(p: Seq<Seq<char>>, q: Seq<Seq<char>>, n: nat)
    requires
        p.len() >= 1,
        n <= q.len(),
    ensures
        crate::paths::components_among(p + q, p.len() + n) == crate::paths::components_among(
            p,
            p.len(),
        ) + more_components(q.take(n as int)),
    decreases n,
{
    let first = crate::paths::components_among(p, p.len());
    if n == 0 {
        lemma_same_components(p, p + q, p.len());
        assert(first + more_components(q.take(0)) =~= first);
    } else {
        lemma_components_behind(p, q, (n - 1) as nat);
        assert((p + q)[p.len() + n - 1] == q[n - 1]);
        let t = q.take(n as int);
        assert(t.drop_last() =~= q.take(n - 1));
        assert(t.last() == q[n - 1]);
        assert(crate::paths::components_among(p + q, p.len() + n) =~= first + more_components(t));
    }
}

/// The same pieces have the same components.
proof fn lemma_same_components(p: Seq<Seq<char>>, q: Seq<Seq<char>>, n: nat)
    requires
        n <= p.len(),
        n <= q.len(),
        forall|i: int| 0 <= i < n ==> p[i] == q[i],
    ensures
        crate::paths::components_among(p, n) == crate::paths::components_among(q, n),
    decreases n,
{
    if n > 0 {
        lemma_same_components(p, q, (n - 1) as nat);
    }
}

} // verus!
