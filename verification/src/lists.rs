//! Lists that are taken apart item by item.

use vstd::prelude::*;

verus! {

/// A list turned round, so that taking items off its end gives them in the order that they had.
pub fn turn_round<T>(list: Vec<T>) -> (r: Vec<T>)
    ensures
        r@.len() == list@.len(),
        forall|i: int| 0 <= i < r@.len() ==> #[trigger] r@[i] == list@[list@.len() - 1 - i],
{
    let ghost all = list@;
    let mut rest: Vec<T> = list;
    let mut turned: Vec<T> = Vec::new();
    while rest.len() > 0
        invariant
            rest@.len() + turned@.len() == all.len(),
            rest@ == all.take(rest@.len() as int),
            forall|i: int|
                0 <= i < turned@.len() ==> #[trigger] turned@[i] == all[all.len() - 1 - i],
        decreases rest.len(),
    {
        if let Some(item) = rest.pop() {
            turned.push(item);
            assert(rest@ =~= all.take(rest@.len() as int));
        }
    }
    turned
}

} // verus!
