//! Maps that are filled entry by entry, where a later entry for a key
//! replaces an earlier one.

use vstd::prelude::*;
use std::collections::HashMap;

verus! {

broadcast use vstd::std_specs::hash::group_hash_axioms;

/// `base` after the steps of `steps` in order: a step that holds a key and a
/// value sets the key to the value, an empty step changes nothing.
pub open spec fn insert_some<K, V>(base: Map<K, V>, steps: Seq<Option<(K, V)>>) -> Map<K, V>
    decreases steps.len(),
{
    if steps.len() == 0 {
        base
    } else {
        let before = insert_some(base, steps.drop_last());
        match steps.last() {
            Some((k, v)) => before.insert(k, v),
            None => before,
        }
    }
}

/// The map that a list of pairs describes; a later pair replaces an earlier
/// one with the same key.
pub open spec fn map_of<K, V>(entries: Seq<(K, V)>) -> Map<K, V> {
    insert_some(Map::empty(), entries.map_values(|e: (K, V)| Some(e)))
}

/// One more step: the map after `n + 1` steps is the map after `n` steps
/// with step `n` applied.
pub proof fn lemma_insert_some_step<K, V>(base: Map<K, V>, steps: Seq<Option<(K, V)>>, n: int)
    requires
        0 <= n < steps.len(),
    ensures
        insert_some(base, steps.take(n + 1)) == match steps[n] {
            Some((k, v)) => insert_some(base, steps.take(n)).insert(k, v),
            None => insert_some(base, steps.take(n)),
        },
{
    assert(steps.take(n + 1).drop_last() =~= steps.take(n));
}

/// What a key holds after the steps: the value of the last step for that
/// key, and what `base` held where no step names the key.
pub proof fn lemma_insert_some_value<K, V>(base: Map<K, V>, steps: Seq<Option<(K, V)>>, key: K)
    ensures
        (forall|i: int| 0 <= i < steps.len() ==> !(steps[i] is Some && (steps[i]->0).0 == key)) ==> {
            &&& insert_some(base, steps).contains_key(key) == base.contains_key(key)
            &&& base.contains_key(key) ==> insert_some(base, steps)[key] == base[key]
        },
        forall|i: int|
            0 <= i < steps.len() && steps[i] is Some && (steps[i]->0).0 == key && (forall|j: int|
                i < j < steps.len() ==> !(steps[j] is Some && (steps[j]->0).0 == key)) ==> {
                &&& insert_some(base, steps).contains_key(key)
                &&& insert_some(base, steps)[key] == (steps[i]->0).1
            },
    decreases steps.len(),
{
    if steps.len() > 0 {
        let shorter = steps.drop_last();
        lemma_insert_some_value(base, shorter, key);
        assert forall|i: int|
            0 <= i < steps.len() && steps[i] is Some && (steps[i]->0).0 == key && (forall|j: int|
                i < j < steps.len() ==> !(steps[j] is Some && (steps[j]->0).0 == key)) implies {
            &&& insert_some(base, steps).contains_key(key)
            &&& insert_some(base, steps)[key] == (steps[i]->0).1
        } by {
            if i < steps.len() - 1 {
                assert(shorter[i] == steps[i]);
                assert(forall|j: int| i < j < shorter.len() ==> shorter[j] == steps[j]);
            }
        }
        if forall|i: int| 0 <= i < steps.len() ==> !(steps[i] is Some && (steps[i]->0).0 == key) {
            assert(forall|i: int| 0 <= i < shorter.len() ==> shorter[i] == steps[i]);
        }
    }
}

/// What holds of every value of `base` and of every step holds of every
/// value of the map after the steps.
pub proof fn lemma_insert_some_holds<K, V>(
    base: Map<K, V>,
    steps: Seq<Option<(K, V)>>,
    holds: spec_fn(V) -> bool,
)
    requires
        forall|k: K| base.contains_key(k) ==> holds(#[trigger] base[k]),
        forall|i: int|
            0 <= i < steps.len() && (#[trigger] steps[i]) is Some ==> holds((steps[i]->0).1),
    ensures
        forall|k: K|
            insert_some(base, steps).contains_key(k) ==> holds(
                #[trigger] insert_some(base, steps)[k],
            ),
    decreases steps.len(),
{
    if steps.len() > 0 {
        let shorter = steps.drop_last();
        assert forall|i: int| 0 <= i < shorter.len() && (#[trigger] shorter[i]) is Some implies holds(
            (shorter[i]->0).1,
        ) by {
            assert(shorter[i] == steps[i]);
        }
        lemma_insert_some_holds(base, shorter, holds);
        let last = steps[steps.len() - 1];
        assert(steps.last() == last);
        let before = insert_some(base, shorter);
        assert forall|k: K| insert_some(base, steps).contains_key(k) implies holds(
            #[trigger] insert_some(base, steps)[k],
        ) by {
            match last {
                Some((k2, v)) => {
                    assert(holds((last->0).1));
                    if k != k2 {
                        assert(before.contains_key(k));
                        assert(holds(before[k]));
                    }
                },
                None => {
                    assert(holds(before[k]));
                },
            }
        }
    }
}

/// Builds the index of a table of pairs: for every key the value of its
/// last pair.
pub fn index_u32(entries: &Vec<(u32, u32)>) -> (index: HashMap<u32, u32>)
    ensures
        index@ == map_of(entries@),
{
    let mut index: HashMap<u32, u32> = HashMap::new();
    let ghost steps = entries@.map_values(|e: (u32, u32)| Some(e));
    let mut i: usize = 0;
    assert(steps.take(0) =~= Seq::<Option<(u32, u32)>>::empty());
    while i < entries.len()
        invariant
            i <= entries.len(),
            steps == entries@.map_values(|e: (u32, u32)| Some(e)),
            index@ == insert_some(Map::<u32, u32>::empty(), steps.take(i as int)),
        decreases entries.len() - i,
    {
        proof {
            lemma_insert_some_step(Map::<u32, u32>::empty(), steps, i as int);
        }
        let (key, value): (u32, u32) = entries[i];
        index.insert(key, value);
        i += 1;
    }
    assert(steps.take(entries@.len() as int) =~= steps);
    index
}

/// Looks `key` up in an index.
pub fn lookup_u32(index: &HashMap<u32, u32>, key: u32) -> (r: Option<u32>)
    ensures
        r == (if index@.contains_key(key) {
            Some(index@[key])
        } else {
            None
        }),
{
    match index.get(&key) {
        Some(v) => Some(*v),
        None => None,
    }
}

} // verus!
