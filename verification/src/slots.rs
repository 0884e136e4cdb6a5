//! Routing by player slot (0 = first player, 1 = second player).

use vstd::prelude::*;

verus! {

/// The per-player accumulator a slot feeds: slot 0 the first, every
/// other slot the second.
pub fn slot_index(slot: u8) -> (i: usize)
    ensures
        i == if slot == 0 { 0usize } else { 1usize },
{
    if slot < 1 { slot as usize } else { 1 }
}

/// Position of the first entry of `slots` equal to `slot`.
pub fn find_slot(slots: &Vec<u8>, slot: u8) -> (r: Option<usize>)
    ensures
        match r {
            Some(i) => i < slots@.len() && slots@[i as int] == slot && forall|j: int| 0 <= j < i ==> slots@[j] != slot,
            None => forall|j: int| 0 <= j < slots@.len() ==> slots@[j] != slot,
        },
{
    let mut i: usize = 0;
    while i < slots.len()
        invariant
            i <= slots@.len(),
            forall|j: int| 0 <= j < i ==> slots@[j] != slot,
        decreases slots@.len() - i,
    {
        if slots[i] == slot {
            return Some(i);
        }
        i = i + 1;
    }
    None
}

/// The entry serving `slot`: the first one with that slot, otherwise the
/// first entry of all, or `None` when there is none.
pub fn find_slot_or_first(slots: &Vec<u8>, slot: u8) -> (r: Option<usize>)
    ensures
        slots@.contains(slot) ==> (r matches Some(i) && i < slots@.len() && slots@[i as int] == slot
            && forall|j: int| 0 <= j < i ==> slots@[j] != slot),
        !slots@.contains(slot) && slots@.len() > 0 ==> r == Some(0usize),
        slots@.len() == 0 ==> r == None::<usize>,
{
    match find_slot(slots, slot) {
        Some(i) => Some(i),
        None => {
            if slots.len() > 0 {
                Some(0)
            } else {
                None
            }
        },
    }
}

} // verus!
