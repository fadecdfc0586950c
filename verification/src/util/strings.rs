//! Strings as keys: a map from names to values and a set of names, kept as
//! lists in which no name occurs twice.

use vstd::prelude::*;

verus! {

/// What a list of pairs says of each name: the value of the last pair with
/// that name.
pub open spec fn pairs_map(pairs: Seq<(String, String)>) -> Map<Seq<char>, Seq<char>>
    decreases pairs.len(),
{
    if pairs.len() == 0 {
        Map::empty()
    } else {
        pairs_map(pairs.drop_last()).insert(pairs.last().0@, pairs.last().1@)
    }
}

/// No two pairs of the list have the same name.
pub open spec fn names_differ(pairs: Seq<(String, String)>) -> bool {
    forall|i: int, j: int|
        0 <= i < pairs.len() && 0 <= j < pairs.len() && i != j ==> pairs[i].0@ != pairs[j].0@
}

/// A name is in the map exactly when a pair has it.
proof fn lemma_pairs_names(pairs: Seq<(String, String)>, name: Seq<char>)
    ensures
        pairs_map(pairs).contains_key(name) <==> exists|i: int|
            0 <= i < pairs.len() && #[trigger] pairs[i].0@ == name,
    decreases pairs.len(),
{
    if pairs.len() > 0 {
        let front = pairs.drop_last();
        lemma_pairs_names(front, name);
        if pairs_map(pairs).contains_key(name) {
            if pairs.last().0@ == name {
                assert(pairs[pairs.len() - 1].0@ == name);
            } else {
                let i = choose|i: int| 0 <= i < front.len() && #[trigger] front[i].0@ == name;
                assert(pairs[i].0@ == name);
            }
        }
        if exists|i: int| 0 <= i < pairs.len() && #[trigger] pairs[i].0@ == name {
            let i = choose|i: int| 0 <= i < pairs.len() && #[trigger] pairs[i].0@ == name;
            if i < front.len() {
                assert(front[i].0@ == name);
            }
        }
    }
}

/// Where no name occurs twice, the map gives each name the value of its
/// pair.
proof fn lemma_pairs_value(pairs: Seq<(String, String)>, i: int)
    requires
        names_differ(pairs),
        0 <= i < pairs.len(),
    ensures
        pairs_map(pairs).contains_key(pairs[i].0@),
        pairs_map(pairs)[pairs[i].0@] == pairs[i].1@,
    decreases pairs.len(),
{
    let front = pairs.drop_last();
    if i < front.len() {
        assert(names_differ(front)) by {
            assert forall|a: int, b: int|
                0 <= a < front.len() && 0 <= b < front.len() && a != b implies front[a].0@
                != front[b].0@ by {
                assert(front[a] == pairs[a] && front[b] == pairs[b]);
            }
        }
        assert(front[i] == pairs[i]);
        lemma_pairs_value(front, i);
        assert(pairs[i].0@ != pairs[pairs.len() - 1].0@);
    }
}

/// Putting another value in the place of a pair is setting the name of the
/// pair to that value.
proof fn lemma_pairs_replace(pairs: Seq<(String, String)>, i: int, pair: (String, String))
    requires
        names_differ(pairs),
        0 <= i < pairs.len(),
        pair.0@ == pairs[i].0@,
    ensures
        names_differ(pairs.update(i, pair)),
        pairs_map(pairs.update(i, pair)) == pairs_map(pairs).insert(pair.0@, pair.1@),
    decreases pairs.len(),
{
    let after = pairs.update(i, pair);
    assert(names_differ(after)) by {
        assert forall|a: int, b: int|
            0 <= a < after.len() && 0 <= b < after.len() && a != b implies after[a].0@
            != after[b].0@ by {
            assert(after[a].0@ == pairs[a].0@ && after[b].0@ == pairs[b].0@);
        }
    }
    let front = pairs.drop_last();
    if i == pairs.len() - 1 {
        assert(after.drop_last() =~= front);
        assert(pairs_map(after) =~= pairs_map(pairs).insert(pair.0@, pair.1@));
    } else {
        assert(names_differ(front)) by {
            assert forall|a: int, b: int|
                0 <= a < front.len() && 0 <= b < front.len() && a != b implies front[a].0@
                != front[b].0@ by {
                assert(front[a] == pairs[a] && front[b] == pairs[b]);
            }
        }
        assert(front[i] == pairs[i]);
        lemma_pairs_replace(front, i, pair);
        assert(after.drop_last() =~= front.update(i, pair));
        assert(after.last() == pairs.last());
        assert(pairs[i].0@ != pairs[pairs.len() - 1].0@);
        assert(pairs_map(after) =~= pairs_map(pairs).insert(pair.0@, pair.1@));
    }
}

/// Taking a pair out is taking its name out of the map.
proof fn lemma_pairs_remove(pairs: Seq<(String, String)>, i: int)
    requires
        names_differ(pairs),
        0 <= i < pairs.len(),
    ensures
        names_differ(pairs.remove(i)),
        pairs_map(pairs.remove(i)) == pairs_map(pairs).remove(pairs[i].0@),
    decreases pairs.len(),
{
    let after = pairs.remove(i);
    assert(names_differ(after)) by {
        assert forall|a: int, b: int|
            0 <= a < after.len() && 0 <= b < after.len() && a != b implies after[a].0@
            != after[b].0@ by {
            let oa = if a < i {
                a
            } else {
                a + 1
            };
            let ob = if b < i {
                b
            } else {
                b + 1
            };
            assert(after[a] == pairs[oa] && after[b] == pairs[ob]);
        }
    }
    let front = pairs.drop_last();
    assert(names_differ(front)) by {
        assert forall|a: int, b: int|
            0 <= a < front.len() && 0 <= b < front.len() && a != b implies front[a].0@
            != front[b].0@ by {
            assert(front[a] == pairs[a] && front[b] == pairs[b]);
        }
    }
    if i == pairs.len() - 1 {
        assert(after =~= front);
        lemma_pairs_names(front, pairs[i].0@);
        if pairs_map(front).contains_key(pairs[i].0@) {
            let k = choose|k: int| 0 <= k < front.len() && #[trigger] front[k].0@ == pairs[i].0@;
            assert(pairs[k].0@ == pairs[i].0@);
        }
        assert(pairs_map(after) =~= pairs_map(pairs).remove(pairs[i].0@));
    } else {
        assert(front[i] == pairs[i]);
        lemma_pairs_remove(front, i);
        assert(after.drop_last() =~= front.remove(i));
        assert(after.last() == pairs.last());
        assert(pairs[i].0@ != pairs[pairs.len() - 1].0@);
        assert(pairs_map(after) =~= pairs_map(pairs).remove(pairs[i].0@));
    }
}

/// A map from names to values, both of them strings.
#[derive(Debug, Clone)]
pub struct StringMap {
    pairs: Vec<(String, String)>,
}

impl View for StringMap {
    type V = Map<Seq<char>, Seq<char>>;

    closed spec fn view(&self) -> Map<Seq<char>, Seq<char>> {
        pairs_map(self.pairs@)
    }
}

impl StringMap {
    /// No name is held twice.
    pub closed spec fn wf(&self) -> bool {
        names_differ(self.pairs@)
    }

    /// A map without names.
    pub fn new() -> (map: Self)
        ensures
            map.wf(),
            map@ == Map::<Seq<char>, Seq<char>>::empty(),
    {
        Self { pairs: Vec::new() }
    }

    /// The place of the pair with the given name.
    fn find(&self, name: &String) -> (at: Option<usize>)
        ensures
            match at {
                Some(i) => i < self.pairs@.len() && self.pairs@[i as int].0@ == name@,
                None => forall|i: int| 0 <= i < self.pairs@.len() ==> self.pairs@[i].0@ != name@,
            },
    {
        let mut i: usize = 0;
        while i < self.pairs.len()
            invariant
                i <= self.pairs@.len(),
                forall|k: int| 0 <= k < i ==> self.pairs@[k].0@ != name@,
            decreases self.pairs@.len() - i,
        {
            if self.pairs[i].0 == *name {
                return Some(i);
            }
            i += 1;
        }
        None
    }

    /// Sets a name to a value, in place of the value it may have had.
    pub fn insert(&mut self, name: String, value: String)
        requires
            old(self).wf(),
        ensures
            final(self).wf(),
            final(self)@ == old(self)@.insert(name@, value@),
    {
        match self.find(&name) {
            Some(i) => {
                proof {
                    lemma_pairs_replace(self.pairs@, i as int, (name, value));
                }
                self.pairs.set(i, (name, value));
            },
            None => {
                let ghost before = self.pairs@;
                self.pairs.push((name, value));
                proof {
                    assert(self.pairs@.drop_last() =~= before);
                    assert forall|a: int, b: int|
                        0 <= a < self.pairs@.len() && 0 <= b < self.pairs@.len() && a
                            != b implies self.pairs@[a].0@ != self.pairs@[b].0@ by {
                        if a < before.len() {
                            assert(self.pairs@[a] == before[a]);
                        }
                        if b < before.len() {
                            assert(self.pairs@[b] == before[b]);
                        }
                    }
                }
            },
        }
    }

    /// The value of a name; `None` where the name is not held.
    pub fn get(&self, name: &str) -> (value: Option<&String>)
        requires
            self.wf(),
        ensures
            match value {
                Some(v) => self@.contains_key(name@) && self@[name@] == v@,
                None => !self@.contains_key(name@),
            },
    {
        let wanted = name.to_owned();
        proof {
            lemma_pairs_names(self.pairs@, name@);
        }
        match self.find(&wanted) {
            Some(i) => {
                proof {
                    lemma_pairs_value(self.pairs@, i as int);
                }
                Some(&self.pairs[i].1)
            },
            None => None,
        }
    }

    /// Whether a name is held.
    pub fn contains_key(&self, name: &str) -> (held: bool)
        requires
            self.wf(),
        ensures
            held == self@.contains_key(name@),
    {
        self.get(name).is_some()
    }

    /// Takes a name out; says whether it was held.
    pub fn remove(&mut self, name: &str) -> (held: bool)
        requires
            old(self).wf(),
        ensures
            final(self).wf(),
            held == old(self)@.contains_key(name@),
            final(self)@ == old(self)@.remove(name@),
    {
        let wanted = name.to_owned();
        proof {
            lemma_pairs_names(self.pairs@, name@);
        }
        match self.find(&wanted) {
            Some(i) => {
                proof {
                    lemma_pairs_remove(self.pairs@, i as int);
                }
                let _ = self.pairs.remove(i);
                true
            },
            None => {
                assert(self@ =~= old(self)@.remove(name@));
                false
            },
        }
    }

    /// Forgets every name.
    pub fn clear(&mut self)
        ensures
            final(self).wf(),
            final(self)@ == Map::<Seq<char>, Seq<char>>::empty(),
    {
        self.pairs.clear();
    }

    /// The names held, each once, in the order in which they were first
    /// set.
    pub fn names(&self) -> (names: Vec<String>)
        requires
            self.wf(),
        ensures
            names@.len() == self.count(),
            forall|i: int, j: int|
                0 <= i < names@.len() && 0 <= j < names@.len() && i != j ==> names@[i]@
                    != names@[j]@,
            forall|name: Seq<char>|
                self@.contains_key(name) <==> exists|i: int|
                    0 <= i < names@.len() && #[trigger] names@[i]@ == name,
    {
        let mut names: Vec<String> = Vec::new();
        let mut i: usize = 0;
        while i < self.pairs.len()
            invariant
                i <= self.pairs@.len(),
                names@.len() == i,
                forall|k: int| 0 <= k < i ==> (#[trigger] names@[k])@ == self.pairs@[k].0@,
            decreases self.pairs@.len() - i,
        {
            names.push(self.pairs[i].0.clone());
            i += 1;
        }
        proof {
            assert forall|name: Seq<char>|
                self@.contains_key(name) <==> exists|i: int|
                    0 <= i < names@.len() && #[trigger] names@[i]@ == name by {
                lemma_pairs_names(self.pairs@, name);
                if self@.contains_key(name) {
                    let k = choose|k: int|
                        0 <= k < self.pairs@.len() && #[trigger] self.pairs@[k].0@ == name;
                    assert(names@[k]@ == name);
                }
                if exists|i: int| 0 <= i < names@.len() && #[trigger] names@[i]@ == name {
                    let k = choose|k: int| 0 <= k < names@.len() && #[trigger] names@[k]@ == name;
                    assert(self.pairs@[k].0@ == name);
                }
            }
        }
        names
    }

    /// The number of names held.
    pub fn len(&self) -> (n: usize)
        ensures
            n == self.count(),
    {
        self.pairs.len()
    }

    /// The number of names held.
    pub closed spec fn count(&self) -> nat {
        self.pairs@.len()
    }
}

/// A set of names.
#[derive(Debug, Clone)]
pub struct StringSet {
    names: StringMap,
}

impl View for StringSet {
    type V = Set<Seq<char>>;

    closed spec fn view(&self) -> Set<Seq<char>> {
        self.names@.dom()
    }
}

impl StringSet {
    /// No name is held twice.
    pub closed spec fn wf(&self) -> bool {
        self.names.wf()
    }

    /// A set without names.
    pub fn new() -> (set: Self)
        ensures
            set.wf(),
            set@ == Set::<Seq<char>>::empty(),
    {
        let set = Self { names: StringMap::new() };
        assert(set@ =~= Set::<Seq<char>>::empty());
        set
    }

    /// Puts a name into the set.
    pub fn insert(&mut self, name: String)
        requires
            old(self).wf(),
        ensures
            final(self).wf(),
            final(self)@ == old(self)@.insert(name@),
    {
        self.names.insert(name, String::new());
        assert(self@ =~= old(self)@.insert(name@));
    }

    /// Takes a name out of the set; says whether it was in it.
    pub fn remove(&mut self, name: &str) -> (held: bool)
        requires
            old(self).wf(),
        ensures
            final(self).wf(),
            held == old(self)@.contains(name@),
            final(self)@ == old(self)@.remove(name@),
    {
        let held = self.names.remove(name);
        assert(self@ =~= old(self)@.remove(name@));
        held
    }

    /// Whether a name is in the set.
    pub fn contains(&self, name: &str) -> (held: bool)
        requires
            self.wf(),
        ensures
            held == self@.contains(name@),
    {
        self.names.contains_key(name)
    }
}

} // verus!
