//! The operations of the two backing stores, `VecDeque` and `BTreeMap`, that
//! the map needs and that come without a verified specification. Each is
//! called in one place, here, under a contract that is taken on trust.

use crate::model::Slot;
use std::collections::BTreeMap;
use std::collections::VecDeque;
use vstd::prelude::*;

verus! {

/// `VecDeque`'s mutable indexing (`IndexMut::index_mut`): a mutable reference
/// to the element at position `i`, counted from the front. Writing through
/// it changes that element and no other.
#[verifier::external_body]
pub(crate) fn slot_mut<V>(window: &mut VecDeque<Slot<V>>, i: usize) -> (slot: &mut Slot<V>)
    requires
        i < old(window)@.len(),
    ensures
        *slot == old(window)@[i as int],
        final(window)@ == old(window)@.update(i as int, *final(slot)),
{
    &mut window[i]
}

/// `VecDeque::try_reserve`: asks for room for `additional` more elements.
/// Whether or not the room is had, the elements stay as they are.
#[verifier::external_body]
pub(crate) fn reserve_slots<V>(window: &mut VecDeque<Slot<V>>, additional: usize)
    ensures
        final(window)@ == old(window)@,
{
    let _ = window.try_reserve(additional);
}

/// `BTreeMap::get_mut`: a mutable reference to the value stored under
/// `key`, or `None` where the map does not hold the key. Writing through
/// the reference changes that value and nothing else.
#[verifier::external_body]
pub(crate) fn value_mut<V>(overflow: &mut BTreeMap<isize, V>, key: isize) -> (value: Option<&mut V>)
    ensures
        value is Some <==> old(overflow)@.contains_key(key),
        value is Some ==> *value->0 == old(overflow)@[key] && final(overflow)@ == old(
            overflow,
        )@.insert(key, *final(value->0)),
        value is None ==> final(overflow)@ == old(overflow)@,
{
    overflow.get_mut(&key)
}

/// `BTreeMap::first_key_value`: the minimum key of the map, or `None` when
/// the map is empty.
#[verifier::external_body]
pub(crate) fn first_key<V>(overflow: &BTreeMap<isize, V>) -> (min: Option<isize>)
    ensures
        min is None <==> overflow@.dom().is_empty(),
        min is Some ==> overflow@.contains_key(min->0),
        min is Some ==> forall|k: isize| overflow@.contains_key(k) ==> min->0 <= k,
{
    match overflow.first_key_value() {
        Some((key, _)) => Some(*key),
        None => None,
    }
}

/// `VecDeque::iter_mut`: mutable references to all the elements at once,
/// from the front to the back. Writing through one of them changes its
/// element and no other; the number of elements stays.
#[verifier::external_body]
pub(crate) fn slots_mut<V>(window: &mut VecDeque<Slot<V>>) -> (slots: Vec<&mut Slot<V>>)
    ensures
        slots@.len() == old(window)@.len(),
        forall|p: int| 0 <= p < slots@.len() ==> *slots@[p] == old(window)@[p],
        final(window)@.len() == old(window)@.len(),
        forall|p: int| 0 <= p < slots@.len() ==> final(window)@[p] == *final(slots@[p]),
{
    window.iter_mut().collect()
}

/// `BTreeMap::iter_mut`: every key of the map once, in ascending order,
/// each with a mutable reference to its value. Writing through one of them
/// changes the value of its key and nothing else; the keys stay.
#[verifier::external_body]
pub(crate) fn entries_mut<V>(overflow: &mut BTreeMap<isize, V>) -> (entries: Vec<(isize, &mut V)>)
    ensures
        forall|i: int|
            0 <= i < entries@.len() ==> old(overflow)@.contains_key((#[trigger] entries@[i]).0)
                && *entries@[i].1 == old(overflow)@[entries@[i].0],
        forall|k: isize| #[trigger]
            old(overflow)@.contains_key(k) ==> exists|i: int|
                0 <= i < entries@.len() && (#[trigger] entries@[i]).0 == k,
        forall|i: int, j: int|
            0 <= i < j < entries@.len() ==> (#[trigger] entries@[i]).0 < (#[trigger] entries@[j]).0,
        final(overflow)@.dom() == old(overflow)@.dom(),
        forall|i: int|
            0 <= i < entries@.len() ==> final(overflow)@[(#[trigger] entries@[i]).0]
                == *final(entries@[i].1),
{
    overflow.iter_mut().map(|(key, value)| (*key, value)).collect()
}

} // verus!
