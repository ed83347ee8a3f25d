//! Tables of named things, searched in order.

use vstd::prelude::*;

verus! {

/// The index of the first entry at or after `from` that carries `name`.
pub open spec fn position_from<T>(table: Seq<(String, T)>, name: Seq<char>, from: int) -> Option<
    int,
>
    decreases table.len() - from,
{
    if from < 0 || from >= table.len() {
        None
    } else if table[from].0@ == name {
        Some(from)
    } else {
        position_from(table, name, from + 1)
    }
}

/// The index of the first entry that carries `name`.
pub open spec fn position<T>(table: Seq<(String, T)>, name: Seq<char>) -> Option<int> {
    position_from(table, name, 0)
}

/// `position_from` finds the first match and nothing before it matches.
pub proof fn lemma_position_from<T>(table: Seq<(String, T)>, name: Seq<char>, from: int)
    requires
        0 <= from,
    ensures
        match position_from(table, name, from) {
            Some(i) => {
                &&& from <= i < table.len()
                &&& table[i].0@ == name
                &&& forall|j: int| from <= j < i ==> table[j].0@ != name
            },
            None => forall|j: int| from <= j < table.len() ==> table[j].0@ != name,
        },
    decreases table.len() - from,
{
    if from < table.len() && table[from].0@ != name {
        lemma_position_from(table, name, from + 1);
    }
}

/// Looks `name` up in `table`: the index of the first entry with that name.
pub fn find<T>(table: &Vec<(String, T)>, name: &String) -> (r: Option<usize>)
    ensures
        match r {
            Some(i) => position(table@, name@) == Some(i as int) && i < table@.len(),
            None => position(table@, name@) is None,
        },
{
    let mut i: usize = 0;
    while i < table.len()
        invariant
            i <= table.len(),
            position(table@, name@) == position_from(table@, name@, i as int),
        decreases table.len() - i,
    {
        if table[i].0 == *name {
            return Some(i);
        }
        i += 1;
    }
    None
}

} // verus!
