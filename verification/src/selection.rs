//! Set helpers for the page selection.

use std::collections::{HashMap, HashSet};
use std::sync::Arc;
use vstd::prelude::*;
use vstd::std_specs::hash::group_hash_axioms;
use vstd::std_specs::iter::IteratorSpec;

verus! {

broadcast use {group_hash_axioms, vstd::seq_lib::group_seq_properties};

/// The members of `s`, each once, in the set's iteration order.
pub fn set_to_vec(s: &HashSet<usize>) -> (v: Vec<usize>)
    ensures
        v@.to_set() == s@,
        v@.no_duplicates(),
{
    let mut v: Vec<usize> = Vec::new();
    let ghost keys = s.iter().remaining();
    for x in it: s.iter()
        invariant
            it.seq() == keys,
            keys.unref().to_set() == s@,
            keys.no_duplicates(),
            v@ == keys.take(it.index() as int).unref(),
    {
        v.push(*x);
        assert(keys.take(it.index() + 1).unref() =~= keys.take(it.index() as int).unref().push(
            *keys[it.index() as int],
        ));
    }
    assert(keys.take(keys.len() as int) == keys);
    v
}


/// The set of all indices below `n`.
pub open spec fn indices_below(n: nat) -> Set<usize> {
    Set::new(|i: usize| i < n)
}

/// A set holding `0, 1, ..., n - 1`.
pub fn all_indices(n: usize) -> (s: HashSet<usize>)
    ensures
        s@ == indices_below(n as nat),
{
    let mut s: HashSet<usize> = HashSet::new();
    let mut i: usize = 0;
    while i < n
        invariant
            i <= n,
            s@ == indices_below(i as nat),
        decreases n - i,
    {
        s.insert(i);
        i += 1;
        assert(s@ =~= indices_below(i as nat));
    }
    s
}

/// Removes every member of `items` from `s`.
pub fn remove_all(s: &mut HashSet<usize>, items: &Vec<usize>)
    ensures
        final(s)@ == old(s)@.difference(items@.to_set()),
{
    let mut i: usize = 0;
    let ghost start = s@;
    while i < items.len()
        invariant
            i <= items@.len(),
            s@ == start.difference(items@.take(i as int).to_set()),
        decreases items@.len() - i,
    {
        s.remove(&items[i]);
        proof {
            assert(items@.take(i + 1) == items@.take(i as int).push(items@[i as int]));
        }
        i += 1;
        assert(s@ =~= start.difference(items@.take(i as int).to_set()));
    }
    assert(items@.take(items@.len() as int) == items@);
}

/// Adds every member of `items` to `s`.
pub fn insert_all(s: &mut HashSet<usize>, items: &Vec<usize>)
    ensures
        final(s)@ == old(s)@.union(items@.to_set()),
{
    let mut i: usize = 0;
    let ghost start = s@;
    while i < items.len()
        invariant
            i <= items@.len(),
            s@ == start.union(items@.take(i as int).to_set()),
        decreases items@.len() - i,
    {
        s.insert(items[i]);
        proof {
            assert(items@.take(i + 1) == items@.take(i as int).push(items@[i as int]));
        }
        i += 1;
        assert(s@ =~= start.union(items@.take(i as int).to_set()));
    }
    assert(items@.take(items@.len() as int) == items@);
}

/// Whether every member of `items` is in `s`.
pub fn contains_all(s: &HashSet<usize>, items: &Vec<usize>) -> (b: bool)
    ensures
        b == items@.to_set().subset_of(s@),
{
    let mut i: usize = 0;
    while i < items.len()
        invariant
            i <= items@.len(),
            forall|j: int| 0 <= j < i ==> s@.contains(#[trigger] items@[j]),
        decreases items@.len() - i,
    {
        if !s.contains(&items[i]) {
            proof {
                assert(items@.to_set().contains(items@[i as int]));
            }
            return false;
        }
        i += 1;
    }
    proof {
        assert forall|x: usize| items@.to_set().contains(x) implies s@.contains(x) by {
            let j = choose|j: int| 0 <= j < items@.len() && items@[j] == x;
        }
    }
    true
}

/// Drops the entries of every member of `keys` from `m`.
pub fn remove_keys_from(m: &mut HashMap<usize, Arc<Vec<u8>>>, keys: &Vec<usize>)
    ensures
        final(m)@ == old(m)@.remove_keys(keys@.to_set()),
{
    let mut i: usize = 0;
    let ghost start = m@;
    while i < keys.len()
        invariant
            i <= keys@.len(),
            m@ == start.remove_keys(keys@.take(i as int).to_set()),
        decreases keys@.len() - i,
    {
        m.remove(&keys[i]);
        proof {
            assert(keys@.take(i + 1) == keys@.take(i as int).push(keys@[i as int]));
        }
        i += 1;
        assert(m@ =~= start.remove_keys(keys@.take(i as int).to_set()));
    }
    assert(keys@.take(keys@.len() as int) == keys@);
}

/// The keys of `m`, each once, in the map's iteration order.
pub fn map_keys(m: &HashMap<usize, Arc<Vec<u8>>>) -> (v: Vec<usize>)
    ensures
        v@.to_set() == m@.dom(),
        v@.no_duplicates(),
{
    let mut v: Vec<usize> = Vec::new();
    let ghost keys = m.keys().remaining();
    for x in it: m.keys()
        invariant
            it.seq() == keys,
            keys.unref().to_set() == m@.dom(),
            keys.no_duplicates(),
            v@ == keys.take(it.index() as int).unref(),
    {
        v.push(*x);
        assert(keys.take(it.index() + 1).unref() =~= keys.take(it.index() as int).unref().push(
            *keys[it.index() as int],
        ));
    }
    assert(keys.take(keys.len() as int) == keys);
    v
}

/// Moves every entry of `src` into `m`; an entry of `src` replaces an entry
/// of `m` with the same key.
pub fn move_entries(m: &mut HashMap<usize, Arc<Vec<u8>>>, src: HashMap<usize, Arc<Vec<u8>>>)
    ensures
        final(m)@ == old(m)@.union_prefer_right(src@),
{
    let keys = map_keys(&src);
    let ghost orig = src@;
    let ghost start = m@;
    let mut rest = src;
    let mut i: usize = 0;
    while i < keys.len()
        invariant
            keys@.to_set() == orig.dom(),
            keys@.no_duplicates(),
            i <= keys@.len(),
            rest@ == orig.remove_keys(keys@.take(i as int).to_set()),
            m@ == start.union_prefer_right(orig.restrict(keys@.take(i as int).to_set())),
        decreases keys@.len() - i,
    {
        let k = keys[i];
        let ghost done = keys@.take(i as int).to_set();
        let ghost next = keys@.take(i + 1).to_set();
        proof {
            assert(keys@.take(i + 1) == keys@.take(i as int).push(k));
            keys@.take(i as int).lemma_push_to_set_commute(k);
            assert(next == done.insert(k));
            assert(keys@.to_set().contains(k));
            assert(!done.contains(k)) by {
                if done.contains(k) {
                    let j = choose|j: int| 0 <= j < i && keys@.take(i as int)[j] == k;
                    assert(keys@[j] == keys@[i as int]);
                }
            }
        }
        match rest.remove(&k) {
            Some(v) => {
                m.insert(k, v);
            },
            None => {},
        }
        proof {
            assert(rest@ =~= orig.remove_keys(next));
            assert(m@ =~= start.union_prefer_right(orig.restrict(next)));
        }
        i += 1;
    }
    proof {
        assert(keys@.take(keys@.len() as int) == keys@);
        assert(orig.restrict(orig.dom()) =~= orig);
    }
}

} // verus!
