//! Helpers shared by the modules of the engine.

use vstd::prelude::*;
use vstd::std_specs::iter::IteratorSpec;
use std::collections::HashMap;

pub mod error;
pub mod math;
pub mod paths;
pub mod strings;

pub use error::{Error, Result};
pub use paths::get_extension;

verus! {

/// The keys of a table, each once, in no particular order.
pub fn keys_of<V>(table: &HashMap<u32, V>) -> (keys: Vec<u32>)
    ensures
        keys@.no_duplicates(),
        forall|k: u32| keys@.contains(k) <==> table@.contains_key(k),
{
    broadcast use vstd::std_specs::hash::group_hash_axioms;

    let mut out: Vec<u32> = Vec::new();
    let walk = table.keys();
    let ghost all = walk.remaining();
    assert(all.unref().to_set() == table@.dom());
    for k in it: walk
        invariant
            out@ == it.history().unref(),
            it.seq() == all,
    {
        out.push(*k);
    }
    proof {
        assert(out@ =~= all.unref());
        assert forall|i: int, j: int|
            0 <= i < out@.len() && 0 <= j < out@.len() && i != j implies out@[i] != out@[j] by {
            assert(all[i] != all[j]);
        }
        assert forall|k: u32| out@.contains(k) <==> table@.contains_key(k) by {
            assert(out@.to_set().contains(k) <==> out@.contains(k));
        }
    }
    out
}

/// The entry of a table under a key, to be changed in place.
///
/// This is `HashMap::get_mut` of the standard library, taken on trust: it
/// hands out the value filed under the key where there is one, and what
/// that value is when the caller lets go of it is what the table then
/// holds under the key; nothing else in the table changes.
#[verifier::external_body]
pub(crate) fn entry_mut<'a, V>(table: &'a mut HashMap<u32, V>, key: u32) -> (entry: Option<&'a mut V>)
    ensures
        match entry {
            Some(value) => {
                &&& old(table)@.contains_key(key)
                &&& *value == old(table)@[key]
                &&& final(table)@ == old(table)@.insert(key, *final(value))
            },
            None => !old(table)@.contains_key(key) && final(table)@ == old(table)@,
        },
{
    table.get_mut(&key)
}

/// `e` is one of the first `n` items of the list.
pub open spec fn among_first(all: Seq<u32>, n: int, e: u32) -> bool {
    exists|j: int| 0 <= j < n && all[j] == e
}

/// `picked` holds, each once, those of the first `n` items of `all` that
/// `keep` accepts.
pub open spec fn picked_from(
    all: Seq<u32>,
    n: int,
    keep: spec_fn(u32) -> bool,
    picked: Seq<u32>,
) -> bool {
    &&& picked.no_duplicates()
    &&& forall|e: u32| picked.contains(e) <==> among_first(all, n, e) && keep(e)
}

/// Looking at one more item of the list, and taking it if it is accepted,
/// keeps the pick in step with the list.
pub proof fn lemma_pick_next(
    all: Seq<u32>,
    n: int,
    keep: spec_fn(u32) -> bool,
    before: Seq<u32>,
    after: Seq<u32>,
)
    requires
        all.no_duplicates(),
        0 <= n < all.len(),
        picked_from(all, n, keep, before),
        after == if keep(all[n]) {
            before.push(all[n])
        } else {
            before
        },
    ensures
        picked_from(all, n + 1, keep, after),
{
    let id = all[n];
    assert forall|e: u32| after.contains(e) <==> among_first(all, n + 1, e) && keep(e) by {
        if keep(id) {
            if before.contains(e) {
                let i = choose|i: int| 0 <= i < before.len() && before[i] == e;
                assert(after[i] == e);
                let j = choose|j: int| 0 <= j < n && all[j] == e;
                assert(0 <= j < n + 1 && all[j] == e);
            }
            if e == id {
                assert(after[before.len() as int] == e);
                assert(0 <= n < n + 1 && all[n] == e);
            }
            if after.contains(e) && e != id {
                let i = choose|i: int| 0 <= i < after.len() && after[i] == e;
                assert(before[i] == e);
            }
        } else {
            if before.contains(e) {
                let j = choose|j: int| 0 <= j < n && all[j] == e;
                assert(0 <= j < n + 1 && all[j] == e);
            }
        }
        if among_first(all, n + 1, e) && e != id {
            let j = choose|j: int| 0 <= j < n + 1 && all[j] == e;
            assert(0 <= j < n && all[j] == e);
        }
    }
    if keep(id) {
        assert forall|i: int, k: int|
            0 <= i < after.len() && 0 <= k < after.len() && i != k implies after[i] != after[k] by {
            if i == before.len() && k < before.len() {
                assert(before.contains(before[k]));
                if before[k] == id {
                    let j = choose|j: int| 0 <= j < n && all[j] == id;
                }
            }
            if k == before.len() && i < before.len() {
                assert(before.contains(before[i]));
                if before[i] == id {
                    let j = choose|j: int| 0 <= j < n && all[j] == id;
                }
            }
        }
    }
}

/// When the whole list was looked at, the pick holds what is accepted of
/// it.
pub proof fn lemma_pick_done(all: Seq<u32>, keep: spec_fn(u32) -> bool, picked: Seq<u32>)
    requires
        picked_from(all, all.len() as int, keep, picked),
    ensures
        forall|e: u32| picked.contains(e) <==> all.contains(e) && keep(e),
{
    assert forall|e: u32| picked.contains(e) <==> all.contains(e) && keep(e) by {
        if all.contains(e) {
            let j = choose|j: int| 0 <= j < all.len() && all[j] == e;
            assert(among_first(all, all.len() as int, e));
        }
        if among_first(all, all.len() as int, e) {
            let j = choose|j: int| 0 <= j < all.len() && all[j] == e;
            assert(all.contains(all[j]));
        }
    }
}

/// The numbers grow strictly along the sequence.
pub open spec fn rising(list: Seq<u32>) -> bool {
    forall|i: int, j: int| 0 <= i < j < list.len() ==> list[i] < list[j]
}

/// Two rising sequences of the same numbers are the same sequence.
pub proof fn lemma_rising_unique(first: Seq<u32>, second: Seq<u32>)
    requires
        rising(first),
        rising(second),
        forall|x: u32| first.contains(x) <==> second.contains(x),
    ensures
        first == second,
    decreases first.len(),
{
    if first.len() == 0 {
        if second.len() > 0 {
            assert(second.contains(second[0]));
        }
        assert(first =~= second);
    } else {
        let last = first.last();
        assert(first.contains(first[first.len() - 1]));
        assert(second.contains(last));
        let k = choose|k: int| 0 <= k < second.len() && second[k] == last;
        if k < second.len() - 1 {
            let other = second[second.len() - 1];
            assert(second.contains(second[second.len() - 1]));
            assert(first.contains(other));
            let m = choose|m: int| 0 <= m < first.len() && first[m] == other;
            if m < first.len() - 1 {
                assert(first[m] < first[first.len() - 1]);
            }
        }
        assert(second.last() == last);
        let f = first.drop_last();
        let s = second.drop_last();
        assert forall|x: u32| f.contains(x) <==> s.contains(x) by {
            if f.contains(x) {
                let i = choose|i: int| 0 <= i < f.len() && f[i] == x;
                assert(first[i] == x);
                assert(first.contains(first[i]));
                assert(first[i] < first[first.len() - 1]);
                let j = choose|j: int| 0 <= j < second.len() && second[j] == x;
                assert(s[j] == x);
            }
            if s.contains(x) {
                let i = choose|i: int| 0 <= i < s.len() && s[i] == x;
                assert(second[i] == x);
                assert(second.contains(second[i]));
                assert(second[i] < second[second.len() - 1]);
                let j = choose|j: int| 0 <= j < first.len() && first[j] == x;
                assert(f[j] == x);
            }
        }
        assert(rising(f)) by {
            assert forall|i: int, j: int| 0 <= i < j < f.len() implies f[i] < f[j] by {
                assert(f[i] == first[i] && f[j] == first[j]);
            }
        }
        assert(rising(s)) by {
            assert forall|i: int, j: int| 0 <= i < j < s.len() implies s[i] < s[j] by {
                assert(s[i] == second[i] && s[j] == second[j]);
            }
        }
        lemma_rising_unique(f, s);
        assert(first =~= f.push(last));
        assert(second =~= s.push(last));
    }
}

} // verus!
