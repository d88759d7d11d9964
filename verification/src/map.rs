//! The map itself: its model, its invariant, and the operations that read
//! it or reset it.

use crate::model::{
    aligned, begins_with, holds, joined, key_of, lemma_joined_len, lemma_window_keys, lookup,
    occupied, trim, Slot,
};
use crate::offset::{classify, place_of, Place};
use crate::store::reserve_slots;
use std::collections::BTreeMap;
use std::collections::VecDeque;
use vstd::prelude::*;

verus! {

/// An ordered map from `isize` keys to values, with a window of at most
/// `width` slots over the lowest keys and an ordered overflow map for the
/// rest.
pub struct TopMap<V> {
    pub(crate) width: usize,
    pub(crate) low: usize,
    pub(crate) window: VecDeque<Slot<V>>,
    pub(crate) overflow: BTreeMap<isize, V>,
}

impl<V> View for TopMap<V> {
    type V = Map<isize, V>;

    /// The map as a whole: what the window holds, and what the overflow holds.
    open spec fn view(&self) -> Map<isize, V> {
        joined(self.slots(), self.base(), self.rest())
    }
}

impl<V> TopMap<V> {
    /// The window's slots, front first.
    pub open(crate) spec fn slots(&self) -> Seq<Slot<V>> {
        self.window@
    }

    /// The overflow map.
    pub open(crate) spec fn rest(&self) -> Map<isize, V> {
        self.overflow@
    }

    /// The window's capacity.
    pub open(crate) spec fn spec_width(&self) -> usize {
        self.width
    }

    /// The low-water mark: a front removal refills the window only once it
    /// has shrunk to at most this many slots, and only up to this offset.
    pub open(crate) spec fn spec_low(&self) -> usize {
        self.low
    }

    /// The base key: the key of the front slot. It has a meaning only while
    /// the window is not empty.
    pub open spec fn base(&self) -> isize {
        key_of(self.slots()[0])
    }

    /// Whether the window holds `k`.
    pub open spec fn in_window(&self, k: isize) -> bool {
        holds(self.slots(), self.base(), k)
    }

    /// The part of the invariant that holds at every moment: the window is
    /// within its width, its front slot is occupied, every occupied slot
    /// holds the key of its position, and every overflow key lies beyond the
    /// window's last slot.
    pub open spec fn ordered(&self) -> bool {
        let s = self.slots();
        &&& self.spec_low() <= self.spec_width()
        &&& s.len() <= self.spec_width()
        &&& s.len() > 0 ==> s[0] is Some
        &&& aligned(s, self.base())
        &&& s.len() > 0 ==> forall|k: isize| #[trigger]
            self.rest().contains_key(k) ==> k - self.base() >= s.len()
    }

    /// The invariant that every operation keeps. Where the window is
    /// refilled eagerly, the overflow holds only keys at or beyond the
    /// window's width, and nothing while the window is empty.
    pub open spec fn wf(&self) -> bool {
        let s = self.slots();
        &&& self.ordered()
        &&& self.eager() ==> {
            &&& s.len() == 0 ==> self.rest().dom().is_empty()
            &&& s.len() > 0 ==> forall|k: isize| #[trigger]
                self.rest().contains_key(k) ==> k - self.base() >= self.spec_width()
        }
    }

    /// Whether the low-water mark equals a positive width: the window is then
    /// refilled after every front removal, and the overflow holds only keys
    /// at or beyond the width.
    pub open spec fn eager(&self) -> bool {
        self.spec_low() == self.spec_width() && self.spec_width() > 0
    }

    /// The place of `key` in this map.
    pub open spec fn place(&self, key: isize) -> Place {
        place_of(
            key,
            if self.slots().len() > 0 {
                Some(self.base())
            } else {
                None
            },
            self.spec_width(),
        )
    }

    /// Whether the overflow reaches down to `key`: whether it holds a key
    /// that is not above it.
    pub open spec fn reaches(&self, key: isize) -> bool {
        exists|k: isize| #[trigger] self.rest().contains_key(k) && k <= key
    }

    /// The number of window slots after `key` has been stored. A key below
    /// the window shifts the slots that still fit; a key inside the width
    /// and beyond the last slot makes the window grow up to its place,
    /// unless the overflow reaches down to it.
    pub open spec fn slots_after_insert(&self, key: isize) -> int {
        let len = self.slots().len() as int;
        match self.place(key) {
            Place::Below { distance } => if distance <= self.spec_width() {
                let room = self.spec_width() - distance;
                (if len <= room {
                    len
                } else {
                    room
                }) + distance
            } else {
                1
            },
            Place::Inside { offset } => if offset < len || self.reaches(key) {
                len
            } else {
                offset + 1
            },
            Place::Overflow => len,
        }
    }

    /// Whether this map is what a refill makes of a window with the slots
    /// `t`: the window begins with `t`; where it is longer, its last slot is
    /// occupied; it is no longer than the low-water mark, unless `t` was, or
    /// it is the one front slot; and the overflow holds no key whose offset
    /// is below the low-water mark, and nothing where the window is empty.
    pub open spec fn refilled_from(&self, t: Seq<Slot<V>>) -> bool {
        let s = self.slots();
        &&& begins_with(s, t)
        &&& s.len() > t.len() ==> s.last() is Some
        &&& s.len() <= self.spec_low() || s.len() == t.len() || s.len() == 1
        &&& s.len() == 0 ==> self.rest().dom().is_empty()
        &&& s.len() > 0 ==> forall|k: isize| #[trigger]
            self.rest().contains_key(k) ==> k - self.base() >= self.spec_low()
    }

    /// Whether `key` is the base key of a window that is not empty.
    pub open spec fn at_front(&self, key: isize) -> bool {
        self.slots().len() > 0 && key == self.base()
    }

    /// Whether this map is what removing `key` makes of the window and the
    /// overflow of `before`. Away from the front, the window keeps its length.
    /// At the front, the front slot goes, and the empty slots behind it;
    /// where at most as many slots are left as the low-water mark says, the
    /// window is refilled.
    pub open spec fn removed_from(&self, before: &Self, key: isize) -> bool {
        let left = trim(before.slots().drop_first());
        if !before.at_front(key) {
            self.slots().len() == before.slots().len()
        } else if left.len() > before.spec_low() {
            self.slots() == left && self.rest() == before.rest()
        } else {
            self.refilled_from(left)
        }
    }

    /// Whether this map has the window, the overflow, the width and the
    /// low-water mark of `other`.
    pub open spec fn same_layout(&self, other: &Self) -> bool {
        &&& self.slots() == other.slots()
        &&& self.rest() == other.rest()
        &&& self.spec_width() == other.spec_width()
        &&& self.spec_low() == other.spec_low()
    }

    /// Whether this map is `before` after `value` has been stored under `key`.
    pub open spec fn follows_insert(&self, before: &Self, key: isize, value: V) -> bool {
        &&& self.wf()
        &&& self.spec_width() == before.spec_width()
        &&& self.spec_low() == before.spec_low()
        &&& self@ == before@.insert(key, value)
        &&& self.slots().len() == before.slots_after_insert(key)
    }

    /// Whether this map is `before` after `key` has been removed.
    pub open spec fn follows_remove(&self, before: &Self, key: isize) -> bool {
        &&& self.wf()
        &&& self.spec_width() == before.spec_width()
        &&& self.spec_low() == before.spec_low()
        &&& self@ == before@.remove(key)
        &&& self.removed_from(before, key)
    }

    /// An empty map whose window holds at most `width` slots and is refilled
    /// after every front removal.
    pub fn new(width: usize) -> (m: Self)
        ensures
            m.wf(),
            m@ == Map::<isize, V>::empty(),
            m.spec_width() == width,
            m.spec_low() == width,
            m.slots().len() == 0,
            m.rest() == Map::<isize, V>::empty(),
    {
        TopMap { width, low: width, window: VecDeque::new(), overflow: BTreeMap::new() }
    }

    /// An empty map whose window holds at most `width` slots, and is
    /// refilled only once a front removal has left it with at most `low`
    /// slots, and then only with keys whose offset is below `low`. A `low`
    /// beyond `width` counts as `width`.
    pub fn with_low_mark(width: usize, low: usize) -> (m: Self)
        ensures
            m.wf(),
            m@ == Map::<isize, V>::empty(),
            m.spec_width() == width,
            m.spec_low() == if low <= width {
                low
            } else {
                width
            },
            m.slots().len() == 0,
            m.rest() == Map::<isize, V>::empty(),
    {
        let low = if low <= width {
            low
        } else {
            width
        };
        TopMap { width, low, window: VecDeque::new(), overflow: BTreeMap::new() }
    }

    /// The window's capacity.
    pub fn width(&self) -> (w: usize)
        ensures
            w == self.spec_width(),
    {
        self.width
    }

    /// The low-water mark.
    pub fn low_mark(&self) -> (low: usize)
        ensures
            low == self.spec_low(),
    {
        self.low
    }

    /// The base key, while the window is not empty.
    pub(crate) fn base_key(&self) -> (b: Option<isize>)
        requires
            self.ordered(),
        ensures
            self.slots().len() == 0 ==> b is None,
            self.slots().len() > 0 ==> b == Some(self.base()),
    {
        if self.window.len() > 0 {
            match &self.window[0] {
                Some((k, _)) => Some(*k),
                None => None,
            }
        } else {
            None
        }
    }

    /// The value stored under `key`, if any.
    pub fn get(&self, key: isize) -> (r: Option<&V>)
        requires
            self.wf(),
        ensures
            r == (match lookup(self@, key) {
                Some(v) => Some(&v),
                None => None,
            }),
    {
        let place = classify(key, self.base_key(), self.width);
        match place {
            Place::Below { distance: _ } => None,
            Place::Inside { offset } => {
                if offset < self.window.len() {
                    match &self.window[offset] {
                        Some((_, v)) => Some(v),
                        None => None,
                    }
                } else if self.low < self.width {
                    self.overflow.get(&key)
                } else {
                    None
                }
            },
            Place::Overflow => self.overflow.get(&key),
        }
    }

    /// The map holds finitely many entries: as many as the window has
    /// occupied slots and the overflow has entries.
    pub proof fn lemma_len(&self)
        requires
            self.wf(),
        ensures
            self@.dom().finite(),
            self@.len() == occupied(self.slots()) + self.rest().len(),
            occupied(self.slots()) <= self.slots().len(),
    {
        lemma_window_keys(self.slots(), self.base());
        lemma_joined_len(self.slots(), self.base(), self.rest());
    }

    /// The number of slots of the window, empty ones included.
    pub fn window_slots(&self) -> (n: usize)
        requires
            self.wf(),
        ensures
            n == self.slots().len(),
            n <= self.spec_width(),
    {
        self.window.len()
    }

    /// The number of entries that the window holds.
    pub fn window_len(&self) -> (n: usize)
        requires
            self.wf(),
        ensures
            n == occupied(self.slots()),
    {
        let mut n: usize = 0;
        let mut i: usize = 0;
        while i < self.window.len()
            invariant
                i <= self.window@.len(),
                n <= i,
                n == occupied(self.window@.subrange(0, i as int)),
            decreases self.window@.len() - i,
        {
            proof {
                assert(self.window@.subrange(0, i + 1).drop_last() =~= self.window@.subrange(
                    0,
                    i as int,
                ));
            }
            if self.window[i].is_some() {
                n += 1;
            }
            i += 1;
        }
        proof {
            assert(self.window@.subrange(0, i as int) =~= self.window@);
        }
        n
    }

    /// The number of entries that the overflow holds.
    pub fn overflow_len(&self) -> (n: usize)
        requires
            self.wf(),
        ensures
            n == self.rest().len(),
    {
        self.overflow.len()
    }

    /// The number of entries, or `usize::MAX` where it is beyond that.
    pub fn len(&self) -> (n: usize)
        requires
            self.wf(),
        ensures
            self@.dom().finite(),
            self@.len() <= usize::MAX ==> n == self@.len(),
            self@.len() > usize::MAX ==> n == usize::MAX,
    {
        proof {
            self.lemma_len();
        }
        match self.window_len().checked_add(self.overflow.len()) {
            Some(n) => n,
            None => usize::MAX,
        }
    }

    /// Empties the window and the overflow.
    pub fn clear(&mut self)
        requires
            old(self).wf(),
        ensures
            final(self).wf(),
            final(self).spec_width() == old(self).spec_width(),
            final(self).spec_low() == old(self).spec_low(),
            final(self)@ == Map::<isize, V>::empty(),
            final(self).slots().len() == 0,
            final(self).rest() == Map::<isize, V>::empty(),
    {
        self.window.clear();
        self.overflow.clear();
    }

    /// Asks for room for `additional` more window slots, as far as the
    /// width allows. The map stays as it is.
    pub fn reserve(&mut self, additional: usize)
        requires
            old(self).wf(),
        ensures
            final(self).wf(),
            final(self).spec_width() == old(self).spec_width(),
            final(self).spec_low() == old(self).spec_low(),
            final(self).slots() == old(self).slots(),
            final(self).rest() == old(self).rest(),
            final(self)@ == old(self)@,
    {
        let room = self.width - self.window.len();
        reserve_slots(
            &mut self.window,
            if additional <= room {
                additional
            } else {
                room
            },
        );
        proof {
            assert(self.rest() == old(self).rest());
        }
    }
}

impl<V> std::ops::Index<isize> for TopMap<V> {
    type Output = V;

    /// The value stored under `key`, which the map must hold.
    fn index(&self, key: isize) -> (value: &V)
        ensures
            *value == self@[key],
    {
        match self.get(key) {
            Some(value) => value,
            None => vstd::pervasive::unreached(),
        }
    }
}

impl<V> vstd::std_specs::core::IndexSpecImpl<isize> for TopMap<V> {
    /// Indexing asks for a key that the map holds.
    open spec fn index_req(&self, key: &isize) -> bool {
        self.wf() && self@.contains_key(*key)
    }
}

} // verus!
