//! Verified steps on the window's slots.

use crate::model::{key_of, value_of, Slot};
use std::collections::VecDeque;
use vstd::prelude::*;

verus! {

/// Grows the window with empty slots until it holds position `index`.
pub(crate) fn ensure_index<V>(window: &mut VecDeque<Slot<V>>, index: usize)
    requires
        index < usize::MAX,
    ensures
        old(window)@.len() > index ==> final(window)@.len() == old(window)@.len(),
        old(window)@.len() <= index ==> final(window)@.len() == index + 1,
        forall|p: int| 0 <= p < old(window)@.len() ==> final(window)@[p] == old(window)@[p],
        forall|p: int| old(window)@.len() <= p < final(window)@.len() ==> final(window)@[p] is None,
{
    while window.len() <= index
        invariant
            index < usize::MAX,
            window@.len() >= old(window)@.len(),
            window@.len() <= index + 1 || window@.len() == old(window)@.len(),
            forall|p: int| 0 <= p < old(window)@.len() ==> window@[p] == old(window)@[p],
            forall|p: int| old(window)@.len() <= p < window@.len() ==> window@[p] is None,
        decreases index + 1 - window@.len(),
    {
        window.push_back(None);
    }
}

/// The key of an occupied slot.
pub(crate) fn slot_key<V>(slot: &Slot<V>) -> (key: isize)
    requires
        *slot is Some,
    ensures
        key == key_of(*slot),
{
    match slot {
        Some((key, _)) => *key,
        None => vstd::pervasive::unreached(),
    }
}

/// The value of an occupied slot, to be written through. The slot keeps its
/// key.
pub(crate) fn slot_value_mut<V>(slot: &mut Slot<V>) -> (value: &mut V)
    requires
        *old(slot) is Some,
    ensures
        *value == value_of(*old(slot)),
        *final(slot) == Some((key_of(*old(slot)), *final(value))),
{
    match slot {
        Some((_, value)) => value,
        None => vstd::pervasive::unreached(),
    }
}

} // verus!
