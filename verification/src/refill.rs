//! Removing a key, and what follows a removal at the front: the window is
//! trimmed and refilled from the overflow.

use crate::map::TopMap;
use crate::model::{begins_with, holds, joined, lookup, trim};
use crate::offset::{classify, Place};
use crate::store::{first_key, slot_mut};
use crate::window::ensure_index;
use vstd::prelude::*;

verus! {

impl<V> TopMap<V> {
    /// Brings the lowest overflow entries back into the window: a new front
    /// slot where the window is empty, then every overflow entry whose offset
    /// is below the low-water mark, the lowest first.
    fn refill(&mut self)
        requires
            old(self).ordered(),
            old(self).spec_width() > 0,
            old(self).slots().len() <= old(self).spec_low(),
        ensures
            final(self).wf(),
            final(self).spec_width() == old(self).spec_width(),
            final(self).spec_low() == old(self).spec_low(),
            final(self)@ == old(self)@,
            final(self).refilled_from(old(self).slots()),
    {
        let ghost t = self.slots();
        if self.window.len() == 0 {
            match first_key(&self.overflow) {
                Some(min) => {
                    match self.overflow.remove(&min) {
                        Some(v) => {
                            self.window.push_back(Some((min, v)));
                        },
                        None => {},
                    }
                },
                None => {},
            }
        }
        if self.window.len() > 0 {
            let base = self.base_key().unwrap();
            loop
                invariant_except_break
                    self.ordered(),
                    self.slots().len() > 0,
                    self.base() == base,
                    self.spec_width() == old(self).spec_width(),
                    self.spec_low() == old(self).spec_low(),
                    self@ == old(self)@,
                    t == old(self).slots(),
                    begins_with(self.slots(), t),
                    self.slots().len() > t.len() ==> self.slots().last() is Some,
                    self.slots().len() <= self.spec_low() || self.slots().len() == t.len()
                        || self.slots().len() == 1,
                ensures
                    self.wf(),
                    self.spec_width() == old(self).spec_width(),
                    self.spec_low() == old(self).spec_low(),
                    self@ == old(self)@,
                    self.refilled_from(t),
                decreases self.spec_low() - self.slots().len(),
            {
                match first_key(&self.overflow) {
                    None => {
                        break ;
                    },
                    Some(min) => {
                        let d: i128 = min as i128 - base as i128;
                        if d >= self.low as i128 {
                            break ;
                        }
                        let index: usize = d as usize;
                        match self.overflow.remove(&min) {
                            Some(v) => {
                                ensure_index(&mut self.window, index);
                                let slot = slot_mut(&mut self.window, index);
                                *slot = Some((min, v));
                            },
                            None => {},
                        }
                    },
                }
            }
        }
    }

    /// Removes the front slot's entry, drops the empty slots that then lead
    /// the window, and refills the window where it has shrunk to the
    /// low-water mark.
    fn remove_front(&mut self) -> (prev: Option<V>)
        requires
            old(self).wf(),
            old(self).slots().len() > 0,
        ensures
            final(self).wf(),
            final(self).spec_width() == old(self).spec_width(),
            final(self).spec_low() == old(self).spec_low(),
            final(self)@ == old(self)@.remove(old(self).base()),
            prev == lookup(old(self)@, old(self).base()),
            final(self).removed_from(old(self), old(self).base()),
    {
        let ghost s0 = self.slots();
        let front = self.window.pop_front();
        let ghost mut gone: int = 1;
        while self.window.len() > 0 && self.window[0].is_none()
            invariant
                1 <= gone <= s0.len(),
                self.window@ =~= s0.subrange(gone, s0.len() as int),
                forall|p: int| 1 <= p < gone ==> s0[p] is None,
                trim(self.window@) == trim(s0.drop_first()),
                self.width == old(self).width,
                self.low == old(self).low,
                self.overflow@ == old(self).overflow@,
            decreases self.window@.len(),
        {
            self.window.pop_front();
            proof {
                gone = gone + 1;
            }
        }
        if self.window.len() <= self.low {
            self.refill();
        }
        match front {
            Some(Some((_, v))) => Some(v),
            _ => None,
        }
    }

    /// Removes `key` and returns the value that it had, if any.
    pub fn remove(&mut self, key: isize) -> (prev: Option<V>)
        requires
            old(self).wf(),
        ensures
            final(self).wf(),
            final(self).spec_width() == old(self).spec_width(),
            final(self).spec_low() == old(self).spec_low(),
            final(self)@ == old(self)@.remove(key),
            prev == lookup(old(self)@, key),
            !old(self)@.contains_key(key) ==> prev is None && final(self).slots() == old(
                self,
            ).slots() && final(self).rest() == old(self).rest(),
            final(self).removed_from(old(self), key),
            final(self).follows_remove(old(self), key),
    {
        match classify(key, self.base_key(), self.width) {
            Place::Below { distance: _ } => {
                None
            },
            Place::Inside { offset } => {
                if offset >= self.window.len() {
                    if self.low < self.width {
                        let prev = self.overflow.remove(&key);
                        proof {
                            assert(self@ =~= old(self)@.remove(key));
                        }
                        prev
                    } else {
                        proof {
                            assert(self@ =~= old(self)@.remove(key));
                        }
                        None
                    }
                } else if offset > 0 {
                    let slot = slot_mut(&mut self.window, offset);
                    let prev = slot.take();
                    match prev {
                        Some((_, v)) => Some(v),
                        None => None,
                    }
                } else {
                    self.remove_front()
                }
            },
            Place::Overflow => {
                let prev = self.overflow.remove(&key);
                proof {
                    assert(self@ =~= old(self)@.remove(key));
                }
                prev
            },
        }
    }

    /// Shrinks the window to the low-water mark: the entries of the slots
    /// beyond it move to the overflow. The map holds what it held.
    pub fn shrink_to_fit(&mut self)
        requires
            old(self).wf(),
        ensures
            final(self).wf(),
            final(self).spec_width() == old(self).spec_width(),
            final(self).spec_low() == old(self).spec_low(),
            final(self)@ == old(self)@,
            final(self).slots().len() == if old(self).slots().len() <= old(self).spec_low() {
                old(self).slots().len()
            } else {
                old(self).spec_low() as nat
            },
            final(self).slots() == old(self).slots().subrange(
                0,
                final(self).slots().len() as int,
            ),
    {
        let ghost b0 = self.base();
        let ghost s0 = self.slots();
        while self.window.len() > self.low
            invariant
                self.width == old(self).width,
                self.low == old(self).low,
                old(self).wf(),
                s0 == old(self).slots(),
                b0 == old(self).base(),
                self.window@.len() <= s0.len(),
                self.window@.len() == s0.len() || self.window@.len() >= self.low,
                self.window@ =~= s0.subrange(0, self.window@.len() as int),
                self.window@.len() < s0.len() ==> !old(self).eager(),
                self.window@.len() == s0.len() ==> self.overflow@ == old(self).overflow@,
                joined(self.window@, b0, self.overflow@) =~= old(self)@,
                s0.len() > 0 ==> forall|k: isize| #[trigger]
                    self.overflow@.contains_key(k) ==> k - b0 >= self.window@.len(),
            decreases self.window@.len(),
        {
            match self.window.pop_back() {
                Some(Some((k, v))) => {
                    self.overflow.insert(k, v);
                },
                _ => {},
            }
        }
    }
}

} // verus!
