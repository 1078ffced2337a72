//! Maps and sets that are keyed by names.

use vstd::prelude::*;

use crate::text::{same_text, texts, to_owned};

verus! {

/// A map from names to values. No name occurs twice.
#[derive(Debug)]
pub struct NameMap<V> {
    entries: Vec<(String, V)>,
}

/// The position of a name among entries, where it is there.
spec fn position_of<V>(entries: Seq<(String, V)>, name: Seq<char>) -> int {
    choose|i: int| 0 <= i < entries.len() && (#[trigger] entries[i]).0@ == name
}

/// Whether a name is among entries.
spec fn occurs<V>(entries: Seq<(String, V)>, name: Seq<char>) -> bool {
    exists|i: int| 0 <= i < entries.len() && (#[trigger] entries[i]).0@ == name
}

/// Whether no name occurs twice among entries.
spec fn distinct<V>(entries: Seq<(String, V)>) -> bool {
    forall|i: int, j: int|
        0 <= i < j < entries.len() ==> (#[trigger] entries[i]).0@ != (#[trigger] entries[j]).0@
}

/// The map that entries stand for.
spec fn as_map<V>(entries: Seq<(String, V)>) -> Map<Seq<char>, V> {
    Map::new(
        |name: Seq<char>| occurs(entries, name),
        |name: Seq<char>| entries[position_of(entries, name)].1,
    )
}

/// What the map of entries gives for the name of one of them.
proof fn lemma_entry<V>(entries: Seq<(String, V)>, i: int)
    requires
        distinct(entries),
        0 <= i < entries.len(),
    ensures
        as_map(entries).dom().contains(entries[i].0@),
        as_map(entries)[entries[i].0@] == entries[i].1,
{
    let name = entries[i].0@;
    assert(occurs(entries, name));
    let j = position_of(entries, name);
    assert(0 <= j < entries.len() && entries[j].0@ == name);
    if i < j {
        assert(entries[i].0@ != entries[j].0@);
    }
    if j < i {
        assert(entries[j].0@ != entries[i].0@);
    }
}

/// An entry with a name that is not there yet, behind the others.
proof fn lemma_push<V>(entries: Seq<(String, V)>, name: String, value: V)
    requires
        distinct(entries),
        !occurs(entries, name@),
    ensures
        distinct(entries.push((name, value))),
        as_map(entries.push((name, value))) == as_map(entries).insert(name@, value),
{
    let after = entries.push((name, value));
    assert forall|i: int, j: int| 0 <= i < j < after.len() implies (#[trigger] after[i]).0@ != (
    #[trigger] after[j]).0@ by {
        assert(after[i] == entries[i]);
        if j < entries.len() {
            assert(after[j] == entries[j]);
        }
    }
    let m = as_map(after);
    let n = as_map(entries).insert(name@, value);
    assert forall|k: Seq<char>| m.dom().contains(k) == n.dom().contains(k) by {
        if occurs(entries, k) {
            let i = position_of(entries, k);
            assert(after[i].0@ == k);
        }
        if k == name@ {
            assert(after[entries.len() as int].0@ == k);
        }
        if occurs(after, k) && k != name@ {
            let i = position_of(after, k);
            assert(entries[i].0@ == k);
        }
    }
    assert forall|k: Seq<char>| m.dom().contains(k) implies m[k] == n[k] by {
        if k == name@ {
            lemma_entry(after, entries.len() as int);
        } else {
            let i = position_of(entries, k);
            assert(occurs(entries, k));
            lemma_entry(entries, i);
            assert(after[i] == entries[i]);
            lemma_entry(after, i);
        }
    }
    assert(m =~= n);
}

/// The entries without the one at a position.
proof fn lemma_remove<V>(entries: Seq<(String, V)>, at: int)
    requires
        distinct(entries),
        0 <= at < entries.len(),
    ensures
        distinct(entries.remove(at)),
        !occurs(entries.remove(at), entries[at].0@),
        as_map(entries.remove(at)) == as_map(entries).remove(entries[at].0@),
{
    let after = entries.remove(at);
    let name = entries[at].0@;
    assert forall|i: int| 0 <= i < after.len() implies #[trigger] after[i] == entries[if i < at {
        i
    } else {
        i + 1
    }] by {}
    assert forall|i: int, j: int| 0 <= i < j < after.len() implies (#[trigger] after[i]).0@ != (
    #[trigger] after[j]).0@ by {}
    let m = as_map(after);
    let n = as_map(entries).remove(name);
    assert forall|k: Seq<char>| m.dom().contains(k) == n.dom().contains(k) by {
        if occurs(entries, k) && k != name {
            let i = position_of(entries, k);
            assert(after[if i < at {
                i
            } else {
                i - 1
            }].0@ == k);
        }
        if occurs(after, k) {
            let i = position_of(after, k);
            assert(after[i].0@ == k);
        }
    }
    assert forall|k: Seq<char>| m.dom().contains(k) implies m[k] == n[k] by {
        let i = position_of(after, k);
        assert(occurs(after, k));
        lemma_entry(after, i);
        lemma_entry(entries, if i < at {
            i
        } else {
            i + 1
        });
    }
    assert(m =~= n);
}

impl<V> NameMap<V> {
    #[verifier::type_invariant]
    spec fn wf(self) -> bool {
        distinct(self.entries@)
    }

    /// The map that this stands for.
    pub closed spec fn map(self) -> Map<Seq<char>, V> {
        as_map(self.entries@)
    }

    /// An empty map.
    pub fn new() -> (r: NameMap<V>)
        ensures
            r@ == Map::<Seq<char>, V>::empty(),
    {
        let r: NameMap<V> = NameMap { entries: Vec::new() };
        assert(r@ =~= Map::<Seq<char>, V>::empty());
        r
    }

    /// Where a name stands among the entries.
    fn find(&self, name: &str) -> (r: Option<usize>)
        ensures
            r is Some <==> self@.dom().contains(name@),
            r matches Some(i) ==> i < self.entries@.len() && self.entries@[i as int].0@ == name@
                && self@[name@] == self.entries@[i as int].1,
    {
        proof {
            use_type_invariant(&*self);
        }
        for i in 0..self.entries.len()
            invariant
                distinct(self.entries@),
                forall|j: int| 0 <= j < i ==> (#[trigger] self.entries@[j]).0@ != name@,
        {
            if same_text(self.entries[i].0.as_str(), name) {
                proof {
                    lemma_entry(self.entries@, i as int);
                }
                return Some(i);
            }
        }
        None
    }

    /// Whether there is a value under a name.
    pub fn contains_key(&self, name: &str) -> (r: bool)
        ensures
            r == self@.dom().contains(name@),
    {
        self.find(name).is_some()
    }

    /// The value under a name, where there is one.
    pub fn get(&self, name: &str) -> (r: Option<&V>)
        ensures
            r is Some <==> self@.dom().contains(name@),
            r matches Some(v) ==> *v == self@[name@],
    {
        match self.find(name) {
            Some(i) => Some(&self.entries[i].1),
            None => None,
        }
    }

    /// Puts a value under a name, in place of the one that may be there.
    pub fn insert(&mut self, name: String, value: V)
        ensures
            final(self)@ == old(self)@.insert(name@, value),
    {
        let ghost before = self@;
        let ghost key = name@;
        self.remove(name.as_str());
        proof {
            use_type_invariant(&*self);
            assert(!self@.dom().contains(key));
        }
        let mut entries: Vec<(String, V)> = Vec::new();
        std::mem::swap(&mut entries, &mut self.entries);
        proof {
            lemma_push(entries@, name, value);
        }
        entries.push((name, value));
        self.entries = entries;
        proof {
            assert(self@ =~= before.insert(key, value));
        }
    }

    /// Takes the value out that is under a name, where there is one.
    pub fn remove(&mut self, name: &str) -> (r: Option<V>)
        ensures
            final(self)@ == old(self)@.remove(name@),
            r is Some <==> old(self)@.dom().contains(name@),
            r matches Some(v) ==> v == old(self)@[name@],
    {
        let found: Option<usize> = self.find(name);
        match found {
            Some(i) => {
                proof {
                    use_type_invariant(&*self);
                    lemma_remove(self.entries@, i as int);
                }
                let mut entries: Vec<(String, V)> = Vec::new();
                std::mem::swap(&mut entries, &mut self.entries);
                let (_, value) = entries.remove(i);
                self.entries = entries;
                Some(value)
            },
            None => {
                assert(self@.remove(name@) =~= self@);
                None
            },
        }
    }

    /// The number of names.
    pub fn len(&self) -> (r: usize)
        ensures
            r == self@.dom().len(),
    {
        proof {
            use_type_invariant(&*self);
            lemma_count(self.entries@);
        }
        self.entries.len()
    }

    /// Whether there is no name in the map.
    pub fn is_empty(&self) -> (r: bool)
        ensures
            r <==> forall|name: Seq<char>| !#[trigger] self@.dom().contains(name),
    {
        proof {
            use_type_invariant(&*self);
            if self.entries@.len() > 0 {
                lemma_entry(self.entries@, 0);
                assert(self@.dom().contains(self.entries@[0].0@));
            } else {
                assert(forall|name: Seq<char>| !occurs(self.entries@, name));
                assert(self@.dom() =~= Set::<Seq<char>>::empty());
            }
        }
        self.entries.len() == 0
    }

    /// The names, in the order in which they were put in.
    pub fn keys(&self) -> (r: Vec<String>)
        ensures
            forall|name: Seq<char>|
                self@.dom().contains(name) <==> exists|i: int|
                    0 <= i < r@.len() && (#[trigger] r@[i])@ == name,
            forall|i: int, j: int|
                0 <= i < j < r@.len() ==> (#[trigger] r@[i])@ != (#[trigger] r@[j])@,
    {
        proof {
            use_type_invariant(&*self);
        }
        let mut out: Vec<String> = Vec::new();
        for i in 0..self.entries.len()
            invariant
                out@.len() == i,
                forall|j: int| 0 <= j < i ==> (#[trigger] out@[j])@ == self.entries@[j].0@,
        {
            out.push(to_owned(self.entries[i].0.as_str()));
        }
        proof {
            assert forall|name: Seq<char>| self@.dom().contains(name) implies exists|i: int|
                0 <= i < out@.len() && (#[trigger] out@[i])@ == name by {
                let i = position_of(self.entries@, name);
                assert(occurs(self.entries@, name));
                assert(out@[i]@ == name);
            }
            assert forall|i: int| 0 <= i < out@.len() implies self@.dom().contains(
                (#[trigger] out@[i])@,
            ) by {
                lemma_entry(self.entries@, i);
            }
            assert forall|i: int, j: int| 0 <= i < j < out@.len() implies (#[trigger] out@[i])@ != (
            #[trigger] out@[j])@ by {
                assert(self.entries@[i].0@ != self.entries@[j].0@);
            }
        }
        out
    }
}

/// The number of entries is the number of names.
proof fn lemma_count<V>(entries: Seq<(String, V)>)
    requires
        distinct(entries),
    ensures
        as_map(entries).dom().finite(),
        as_map(entries).dom().len() == entries.len(),
    decreases entries.len(),
{
    if entries.len() == 0 {
        assert(as_map(entries).dom() =~= Set::<Seq<char>>::empty());
    } else {
        let rest = entries.drop_last();
        let (name, value) = entries.last();
        assert(entries =~= rest.push((name, value)));
        assert(!occurs(rest, name@)) by {
            if occurs(rest, name@) {
                let i = position_of(rest, name@);
                assert(entries[i].0@ != entries[entries.len() - 1].0@);
            }
        }
        lemma_count(rest);
        lemma_push(rest, name, value);
        assert(as_map(entries).dom() =~= as_map(rest).dom().insert(name@));
    }
}

impl<V> View for NameMap<V> {
    type V = Map<Seq<char>, V>;

    open spec fn view(&self) -> Map<Seq<char>, V> {
        self.map()
    }
}

/// A set of names.
#[derive(Debug)]
pub struct NameSet {
    names: NameMap<()>,
}

impl View for NameSet {
    type V = Set<Seq<char>>;

    closed spec fn view(&self) -> Set<Seq<char>> {
        self.names@.dom()
    }
}

impl NameSet {
    /// An empty set.
    pub fn new() -> (r: NameSet)
        ensures
            r@ == Set::<Seq<char>>::empty(),
    {
        let r: NameSet = NameSet { names: NameMap::new() };
        assert(r@ =~= Set::<Seq<char>>::empty());
        r
    }

    /// Puts a name in.
    pub fn insert(&mut self, name: &str)
        ensures
            final(self)@ == old(self)@.insert(name@),
    {
        self.names.insert(to_owned(name), ());
    }

    /// Takes a name out.
    pub fn remove(&mut self, name: &str)
        ensures
            final(self)@ == old(self)@.remove(name@),
    {
        self.names.remove(name);
    }

    /// Whether a name is in the set.
    pub fn contains(&self, name: &str) -> (r: bool)
        ensures
            r == self@.contains(name@),
    {
        self.names.contains_key(name)
    }

    /// The number of names.
    pub fn len(&self) -> (r: usize)
        ensures
            r == self@.len(),
    {
        self.names.len()
    }

    /// Whether there is no name in the set.
    pub fn is_empty(&self) -> (r: bool)
        ensures
            r == (self@ == Set::<Seq<char>>::empty()),
    {
        let keys: Vec<String> = self.names.keys();
        proof {
            if keys@.len() > 0 {
                assert(self@.contains(keys@[0]@));
            } else {
                assert(self@ =~= Set::<Seq<char>>::empty());
            }
        }
        keys.len() == 0
    }

    /// The names, in the order in which they were put in.
    pub fn names(&self) -> (r: Vec<String>)
        ensures
            forall|name: Seq<char>|
                self@.contains(name) <==> exists|i: int|
                    0 <= i < r@.len() && (#[trigger] r@[i])@ == name,
            forall|i: int, j: int|
                0 <= i < j < r@.len() ==> (#[trigger] r@[i])@ != (#[trigger] r@[j])@,
            texts(r@).to_set() == self@,
    {
        let r: Vec<String> = self.names.keys();
        proof {
            let list = texts(r@);
            assert forall|name: Seq<char>| list.to_set().contains(name) == self@.contains(name) by {
                if self@.contains(name) {
                    let i = choose|i: int| 0 <= i < r@.len() && (#[trigger] r@[i])@ == name;
                    assert(list[i] == name);
                }
                if list.contains(name) {
                    let i = choose|i: int| 0 <= i < list.len() && list[i] == name;
                    assert(r@[i]@ == name);
                }
            }
            assert(list.to_set() =~= self@);
        }
        r
    }
}

impl<V> NameMap<V> {
    /// Takes out what is under any name of a set.
    pub fn remove_names(&mut self, names: &NameSet)
        ensures
            final(self)@ == old(self)@.remove_keys(names@),
    {
        let list: Vec<String> = names.names();
        let ghost before = self@;
        assert(before.remove_keys(Set::empty()) =~= before);
        let ghost mut gone: Set<Seq<char>> = Set::empty();
        for i in 0..list.len()
            invariant
                self@ == before.remove_keys(gone),
                forall|name: Seq<char>|
                    gone.contains(name) <==> exists|j: int|
                        0 <= j < i && (#[trigger] list@[j])@ == name,
        {
            let name: &str = list[i].as_str();
            self.remove(name);
            proof {
                gone = gone.insert(name@);
                assert(before.remove_keys(gone) =~= self@);
                assert forall|n: Seq<char>| gone.contains(n) implies exists|j: int|
                    0 <= j < i + 1 && (#[trigger] list@[j])@ == n by {
                    if n == name@ {
                        assert(list@[i as int]@ == n);
                    } else {
                        let j = choose|j: int| 0 <= j < i && (#[trigger] list@[j])@ == n;
                        assert(0 <= j < i + 1 && list@[j]@ == n);
                    }
                }
            }
        }
        proof {
            assert(gone =~= names@);
        }
    }
}

/// One more name of a list was selected if it is wanted.
pub proof fn lemma_one_more(
    names: Seq<String>,
    i: int,
    before: Set<Seq<char>>,
    after: Set<Seq<char>>,
    wanted: Set<Seq<char>>,
)
    requires
        0 <= i < names.len(),
        forall|name: Seq<char>| #[trigger]
            before.contains(name) <==> wanted.contains(name) && exists|j: int|
                0 <= j < i && (#[trigger] names[j])@ == name,
        after == if wanted.contains(names[i]@) {
            before.insert(names[i]@)
        } else {
            before
        },
    ensures
        forall|name: Seq<char>| #[trigger]
            after.contains(name) <==> wanted.contains(name) && exists|j: int|
                0 <= j < i + 1 && (#[trigger] names[j])@ == name,
{
    assert forall|name: Seq<char>| #[trigger] after.contains(name) implies wanted.contains(name)
        && exists|j: int| 0 <= j < i + 1 && (#[trigger] names[j])@ == name by {
        if before.contains(name) {
            let j = choose|j: int| 0 <= j < i && (#[trigger] names[j])@ == name;
            assert(0 <= j < i + 1 && names[j]@ == name);
        } else {
            assert(names[i]@ == name);
        }
    }
    assert forall|name: Seq<char>|
        wanted.contains(name) && exists|j: int|
            0 <= j < i + 1 && (#[trigger] names[j])@ == name implies #[trigger] after.contains(
        name,
    ) by {
        let j = choose|j: int| 0 <= j < i + 1 && (#[trigger] names[j])@ == name;
        if j < i {
            assert(before.contains(name));
        }
    }
}

} // verus!
