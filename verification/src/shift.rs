//! Storing a key: in its window slot, in the overflow, or below the window,
//! which shifts the window.

use crate::map::TopMap;
use crate::model::{joined, key_of, lookup};
use crate::store::{first_key, slot_mut};
use crate::window::ensure_index;
use vstd::prelude::*;

verus! {

impl<V> TopMap<V> {
    /// Stores `value` under `key` at a place inside the window's width: in
    /// its slot, or in the overflow where the overflow already reaches down
    /// to the key.
    pub(crate) fn insert_inside(&mut self, offset: usize, key: isize, value: V) -> (prev: Option<V>)
        requires
            old(self).wf(),
            old(self).spec_width() > 0,
            offset < old(self).spec_width(),
            old(self).slots().len() > 0 ==> offset == key - old(self).base(),
            old(self).slots().len() == 0 ==> offset == 0,
        ensures
            final(self).wf(),
            final(self).spec_width() == old(self).spec_width(),
            final(self).spec_low() == old(self).spec_low(),
            final(self)@ == old(self)@.insert(key, value),
            prev == lookup(old(self)@, key),
            final(self).slots().len() > 0 ==> offset == key - final(self).base(),
            final(self).slots().len() == if offset < old(self).slots().len() || old(self).reaches(
                key,
            ) {
                old(self).slots().len() as int
            } else {
                offset + 1
            },
    {
        if offset < self.window.len() {
            let slot = slot_mut(&mut self.window, offset);
            let prev = slot.take();
            *slot = Some((key, value));
            match prev {
                Some((_, v)) => Some(v),
                None => None,
            }
        } else {
            // Where the refill is eager, no overflow key lies within the width.
            let reaches = self.low < self.width && match first_key(&self.overflow) {
                Some(min) => min <= key,
                None => false,
            };
            if reaches {
                self.overflow.insert(key, value)
            } else {
                ensure_index(&mut self.window, offset);
                let slot = slot_mut(&mut self.window, offset);
                *slot = Some((key, value));
                None
            }
        }
    }

    /// Stores `value` under `key`, which lies `distance` below the base key:
    /// moves the slots that no longer fit into the overflow, shifts the rest
    /// of the window up by `distance`, and puts the key in the new front slot.
    pub(crate) fn insert_below(&mut self, distance: usize, key: isize, value: V)
        requires
            old(self).wf(),
            old(self).slots().len() > 0,
            distance >= 1,
            distance == old(self).base() - key,
        ensures
            final(self).wf(),
            final(self).spec_width() == old(self).spec_width(),
            final(self).spec_low() == old(self).spec_low(),
            !old(self)@.contains_key(key),
            final(self)@ == old(self)@.insert(key, value),
            final(self).slots().len() > 0,
            final(self).base() == key,
            final(self).slots().len() == if distance <= old(self).spec_width() {
                (if old(self).slots().len() <= old(self).spec_width() - distance {
                    old(self).slots().len() as int
                } else {
                    old(self).spec_width() - distance
                }) + distance
            } else {
                1
            },
    {
        let ghost b0 = self.base();
        let ghost s0 = self.slots();
        let keep: usize = if distance <= self.width {
            self.width - distance
        } else {
            0
        };
        while self.window.len() > keep
            invariant
                self.width == old(self).width,
                self.low == old(self).low,
                self.window@.len() <= s0.len(),
                self.window@.len() == s0.len() || self.window@.len() >= keep,
                self.window@ =~= s0.subrange(0, self.window@.len() as int),
                joined(self.window@, b0, self.overflow@) =~= old(self)@,
                forall|k: isize| #[trigger]
                    self.overflow@.contains_key(k) ==> k - b0 >= self.window@.len(),
                old(self).eager() ==> forall|k: isize| #[trigger]
                    self.overflow@.contains_key(k) ==> k - b0 >= keep,
                old(self).wf(),
                s0 == old(self).slots(),
                b0 == old(self).base(),
                keep <= old(self).spec_width(),
            decreases self.window@.len(),
        {
            match self.window.pop_back() {
                Some(Some((k, v))) => {
                    self.overflow.insert(k, v);
                },
                _ => {},
            }
        }
        let ghost kept = self.window@;
        let ghost moved = self.overflow@;
        if distance <= self.width {
            let mut i: usize = 1;
            while i < distance
                invariant
                    1 <= i <= distance,
                    self.window@.len() == kept.len() + (i - 1),
                    forall|p: int| 0 <= p < i - 1 ==> self.window@[p] is None,
                    forall|p: int| 0 <= p < kept.len() ==> self.window@[p + (i - 1)] == kept[p],
                    self.width == old(self).width,
                    self.low == old(self).low,
                    self.overflow@ == moved,
                decreases distance - i,
            {
                self.window.push_front(None);
                i += 1;
            }
        }
        self.window.push_front(Some((key, value)));
        proof {
            let s = self.slots();
            assert(self@ =~= old(self)@.insert(key, value));
            assert forall|p: int| 0 <= p < s.len() && #[trigger] s[p] is Some implies key_of(s[p])
                == key + p by {
                if p > 0 {
                    assert(kept[p - distance] == s0[p - distance]);
                }
            }
            assert forall|k: isize| #[trigger] self.rest().contains_key(k) implies k - key
                >= s.len() by {}
            if self.eager() {
                assert forall|k: isize| #[trigger] self.rest().contains_key(k) implies k - key
                    >= self.spec_width() by {}
            }
        }
    }

    /// Stores `value` under an overflow key.
    pub(crate) fn insert_overflow(&mut self, key: isize, value: V) -> (prev: Option<V>)
        requires
            old(self).wf(),
            old(self).place(key) is Overflow,
        ensures
            final(self).wf(),
            final(self).spec_width() == old(self).spec_width(),
            final(self).spec_low() == old(self).spec_low(),
            final(self).slots() == old(self).slots(),
            final(self).rest() == old(self).rest().insert(key, value),
            final(self)@ == old(self)@.insert(key, value),
            prev == lookup(old(self)@, key),
    {
        self.overflow.insert(key, value)
    }
}

} // verus!
