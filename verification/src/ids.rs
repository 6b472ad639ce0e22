//! Lists of window ids in which no id stands twice.

use vstd::prelude::*;

verus! {

/// `list` with `id` at its end, unless `list` holds `id` already.
pub open spec fn push_unique(list: Seq<u32>, id: u32) -> Seq<u32> {
    if list.contains(id) {
        list
    } else {
        list.push(id)
    }
}

/// Adding an id that is not yet there keeps a list free of repetitions.
pub proof fn lemma_push_unique_no_duplicates(list: Seq<u32>, id: u32)
    requires
        list.no_duplicates(),
    ensures
        push_unique(list, id).no_duplicates(),
        push_unique(list, id).contains(id),
        forall|w: u32| list.contains(w) ==> push_unique(list, id).contains(w),
{
    let out = push_unique(list, id);
    if !list.contains(id) {
        assert(out[list.len() as int] == id);
        assert forall|w: u32| list.contains(w) implies out.contains(w) by {
            let i = choose|i: int| 0 <= i < list.len() && list[i] == w;
            assert(out[i] == w);
        }
    }
}

/// Whether `list` holds `id`.
pub fn holds(list: &Vec<u32>, id: u32) -> (found: bool)
    ensures
        found == list@.contains(id),
{
    let mut i: usize = 0;
    while i < list.len()
        invariant
            i <= list.len(),
            forall|j: int| 0 <= j < i ==> list@[j] != id,
        decreases list.len() - i,
    {
        if list[i] == id {
            return true;
        }
        i += 1;
    }
    false
}

/// Appends `id` to `list` unless it is there already.
pub fn add_unique(list: &mut Vec<u32>, id: u32)
    ensures
        final(list)@ == push_unique(old(list)@, id),
{
    if !holds(list, id) {
        list.push(id);
    }
}

} // verus!
