//! The entry handle: one classification of a key, then insert or update.

use crate::map::TopMap;
use crate::model::{holds, key_of, lookup, value_of};
use crate::offset::{classify, Place};
use crate::store::{slot_mut, value_mut};
use crate::window::slot_value_mut;
use vstd::prelude::*;

verus! {

/// A handle on the place of one key in a map: the key has been classified
/// once, and the handle inserts or updates at that place.
pub struct Entry<'a, V> {
    /// The map that the handle writes to.
    pub map: &'a mut TopMap<V>,
    /// The key that the handle stands for.
    pub key: isize,
    /// The place of the key in the map.
    pub place: Place,
}

/// Where a key that the map holds is stored.
pub(crate) enum Spot {
    /// In the window slot at this position.
    Slot(usize),
    /// In the overflow.
    Rest,
}

impl<V> TopMap<V> {
    /// Whether `t` is this map with a new value in the occupied slot at
    /// `offset`, and nothing else changed.
    pub(crate) open spec fn slot_rewritten(&self, t: &Self, offset: int) -> bool {
        &&& t.spec_width() == self.spec_width()
        &&& t.spec_low() == self.spec_low()
        &&& t.rest() == self.rest()
        &&& t.slots() == self.slots().update(
            offset,
            Some((key_of(self.slots()[offset]), value_of(t.slots()[offset]))),
        )
    }

    /// Whether `t` is this map with a new value under the overflow key
    /// `key`, and nothing else changed.
    pub(crate) open spec fn rest_rewritten(&self, t: &Self, key: isize) -> bool {
        &&& t.spec_width() == self.spec_width()
        &&& t.spec_low() == self.spec_low()
        &&& t.slots() == self.slots()
        &&& t.rest() == self.rest().insert(key, t.rest()[key])
    }

    /// A new value in an occupied slot keeps the invariant, and is an insert
    /// under the slot's key.
    pub(crate) proof fn lemma_slot_rewritten(&self, t: &Self, offset: int)
        requires
            self.wf(),
            0 <= offset < self.slots().len(),
            self.slots()[offset] is Some,
            self.slot_rewritten(t, offset),
        ensures
            t.wf(),
            t@ == self@.insert(key_of(self.slots()[offset]), value_of(t.slots()[offset])),
    {
    }

    /// A new value under an overflow key keeps the invariant, and is an
    /// insert under that key.
    pub(crate) proof fn lemma_rest_rewritten(&self, t: &Self, key: isize)
        requires
            self.wf(),
            self.rest().contains_key(key),
            self.rest_rewritten(t, key),
        ensures
            t.wf(),
            t@ == self@.insert(key, t.rest()[key]),
    {
    }

    /// Whether `key` is stored at `spot`.
    pub(crate) open spec fn stored_at(&self, spot: Spot, key: isize) -> bool {
        match spot {
            Spot::Slot(i) => i < self.slots().len() && self.slots()[i as int] is Some && key_of(
                self.slots()[i as int],
            ) == key,
            Spot::Rest => self.rest().contains_key(key),
        }
    }

    /// Where `key` is stored, if the map holds it.
    pub(crate) fn spot_of(&self, place: Place, key: isize) -> (spot: Option<Spot>)
        requires
            self.wf(),
            place == self.place(key),
        ensures
            spot is Some <==> self@.contains_key(key),
            spot is Some ==> self.stored_at(spot->0, key),
    {
        match place {
            Place::Below { distance: _ } => None,
            Place::Inside { offset } => {
                if offset < self.window.len() {
                    if self.window[offset].is_some() {
                        Some(Spot::Slot(offset))
                    } else {
                        None
                    }
                } else if self.low < self.width && self.overflow.contains_key(&key) {
                    Some(Spot::Rest)
                } else {
                    None
                }
            },
            Place::Overflow => {
                if self.overflow.contains_key(&key) {
                    Some(Spot::Rest)
                } else {
                    None
                }
            },
        }
    }

    /// The value stored under `key` at `spot`, to be written through.
    pub(crate) fn value_at(&mut self, spot: Spot, key: isize) -> (value: &mut V)
        requires
            old(self).wf(),
            old(self).stored_at(spot, key),
        ensures
            final(self).wf(),
            final(self).spec_width() == old(self).spec_width(),
            final(self).spec_low() == old(self).spec_low(),
            old(self)@.contains_key(key),
            *value == old(self)@[key],
            final(self)@ == old(self)@.insert(key, *final(value)),
            final(self).slots().len() == old(self).slots().len(),
    {
        proof {
            let this = *self;
            match spot {
                Spot::Slot(i) => {
                    assert forall|t: Self| this.slot_rewritten(&t, i as int) implies #[trigger] t.wf()
                        && t@ == this@.insert(key, value_of(t.slots()[i as int])) by {
                        this.lemma_slot_rewritten(&t, i as int);
                    }
                },
                Spot::Rest => {
                    assert forall|t: Self| this.rest_rewritten(&t, key) implies #[trigger] t.wf()
                        && t@ == this@.insert(key, t.rest()[key]) by {
                        this.lemma_rest_rewritten(&t, key);
                    }
                },
            }
        }
        match spot {
            Spot::Slot(i) => slot_value_mut(slot_mut(&mut self.window, i)),
            Spot::Rest => match value_mut(&mut self.overflow, key) {
                Some(value) => value,
                None => vstd::pervasive::unreached(),
            },
        }
    }

    /// The value stored under `key`, if any, to be written through. The map
    /// then holds the written value under `key`, and is otherwise as before.
    pub fn get_mut(&mut self, key: isize) -> (r: Option<&mut V>)
        requires
            old(self).wf(),
        ensures
            final(self).wf(),
            final(self).spec_width() == old(self).spec_width(),
            final(self).spec_low() == old(self).spec_low(),
            r is Some <==> old(self)@.contains_key(key),
            r is Some ==> *r->0 == old(self)@[key] && final(self)@ == old(self)@.insert(
                key,
                *final(r->0),
            ),
            r is None ==> final(self)@ == old(self)@ && final(self).same_layout(old(self)),
            final(self).slots().len() == old(self).slots().len(),
    {
        let place = classify(key, self.base_key(), self.width);
        match self.spot_of(place, key) {
            Some(spot) => Some(self.value_at(spot, key)),
            None => None,
        }
    }

    /// The value stored under `key`, which the map must hold, to be written
    /// through.
    pub fn index_mut(&mut self, key: isize) -> (value: &mut V)
        requires
            old(self).wf(),
            old(self)@.contains_key(key),
        ensures
            final(self).wf(),
            final(self).spec_width() == old(self).spec_width(),
            final(self).spec_low() == old(self).spec_low(),
            *value == old(self)@[key],
            final(self)@ == old(self)@.insert(key, *final(value)),
            final(self).slots().len() == old(self).slots().len(),
    {
        let place = classify(key, self.base_key(), self.width);
        match self.spot_of(place, key) {
            Some(spot) => self.value_at(spot, key),
            None => vstd::pervasive::unreached(),
        }
    }

    /// Stores `value` under `key`, which the map does not hold, at `place`,
    /// and says where it went.
    pub(crate) fn place_new(&mut self, place: Place, key: isize, value: V) -> (spot: Spot)
        requires
            old(self).wf(),
            place == old(self).place(key),
            !old(self)@.contains_key(key),
        ensures
            final(self).wf(),
            final(self).spec_width() == old(self).spec_width(),
            final(self).spec_low() == old(self).spec_low(),
            final(self)@ == old(self)@.insert(key, value),
            final(self).slots().len() == old(self).slots_after_insert(key),
            final(self).stored_at(spot, key),
    {
        match place {
            Place::Below { distance } => {
                self.insert_below(distance, key, value);
                Spot::Slot(0)
            },
            Place::Inside { offset } => {
                self.insert_inside(offset, key, value);
                assert(self@.contains_key(key));
                if offset < self.window.len() && self.window[offset].is_some() {
                    Spot::Slot(offset)
                } else {
                    Spot::Rest
                }
            },
            Place::Overflow => {
                self.insert_overflow(key, value);
                Spot::Rest
            },
        }
    }

    /// The handle for `key`.
    pub fn entry(&mut self, key: isize) -> (e: Entry<'_, V>)
        requires
            old(self).wf(),
        ensures
            e.key == key,
            e.place == old(self).place(key),
            *e.map == *old(self),
            *final(e.map) == *final(self),
    {
        let place = classify(key, self.base_key(), self.width);
        Entry { map: self, key, place }
    }

    /// Stores `value` under `key` and returns the value that the key had
    /// before, if any.
    pub fn insert(&mut self, key: isize, value: V) -> (prev: Option<V>)
        requires
            old(self).wf(),
        ensures
            final(self).wf(),
            final(self).spec_width() == old(self).spec_width(),
            final(self).spec_low() == old(self).spec_low(),
            final(self)@ == old(self)@.insert(key, value),
            prev == lookup(old(self)@, key),
            lookup(final(self)@, key) == Some(value),
            final(self).slots().len() == old(self).slots_after_insert(key),
            final(self).follows_insert(old(self), key, value),
    {
        self.entry(key).insert(value)
    }
}

impl<'a, V> Entry<'a, V> {
    /// Stores `value` under the key and returns the value that the key had
    /// before, if any.
    pub fn insert(self, value: V) -> (prev: Option<V>)
        requires
            old(self.map).wf(),
            self.place == old(self.map).place(self.key),
        ensures
            final(self.map).wf(),
            final(self.map).spec_width() == old(self.map).spec_width(),
            final(self.map).spec_low() == old(self.map).spec_low(),
            final(self.map)@ == old(self.map)@.insert(self.key, value),
            prev == lookup(old(self.map)@, self.key),
            final(self.map).slots().len() == old(self.map).slots_after_insert(self.key),
            final(self.map).follows_insert(old(self.map), self.key, value),
    {
        let Entry { map, key, place } = self;
        match place {
            Place::Below { distance } => {
                map.insert_below(distance, key, value);
                None
            },
            Place::Inside { offset } => map.insert_inside(offset, key, value),
            Place::Overflow => map.insert_overflow(key, value),
        }
    }

    /// The value under the key, to be written through, after `default` has
    /// been stored where the map did not hold the key.
    pub fn or_insert(self, default: V) -> (value: &'a mut V)
        requires
            old(self.map).wf(),
            self.place == old(self.map).place(self.key),
        ensures
            final(self.map).wf(),
            final(self.map).spec_width() == old(self.map).spec_width(),
            final(self.map).spec_low() == old(self.map).spec_low(),
            *value == (match lookup(old(self.map)@, self.key) {
                Some(held) => held,
                None => default,
            }),
            final(self.map)@ == old(self.map)@.insert(self.key, *final(value)),
            final(self.map).slots().len() == if old(self.map)@.contains_key(self.key) {
                old(self.map).slots().len() as int
            } else {
                old(self.map).slots_after_insert(self.key)
            },
    {
        let Entry { map, key, place } = self;
        let spot = match map.spot_of(place, key) {
            Some(spot) => spot,
            None => map.place_new(place, key, default),
        };
        map.value_at(spot, key)
    }

    /// The value under the key, to be written through, after the value that
    /// `default` makes has been stored where the map did not hold the key.
    /// `default` is called only in that case.
    pub fn or_insert_with<F: FnOnce() -> V>(self, default: F) -> (value: &'a mut V)
        requires
            old(self.map).wf(),
            self.place == old(self.map).place(self.key),
            !old(self.map)@.contains_key(self.key) ==> default.requires(()),
        ensures
            final(self.map).wf(),
            final(self.map).spec_width() == old(self.map).spec_width(),
            final(self.map).spec_low() == old(self.map).spec_low(),
            match lookup(old(self.map)@, self.key) {
                Some(held) => *value == held,
                None => default.ensures((), *value),
            },
            final(self.map)@ == old(self.map)@.insert(self.key, *final(value)),
            final(self.map).slots().len() == if old(self.map)@.contains_key(self.key) {
                old(self.map).slots().len() as int
            } else {
                old(self.map).slots_after_insert(self.key)
            },
    {
        let Entry { map, key, place } = self;
        let spot = match map.spot_of(place, key) {
            Some(spot) => spot,
            None => map.place_new(place, key, default()),
        };
        map.value_at(spot, key)
    }
}

} // verus!
