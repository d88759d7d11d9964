//! The entries in order, and inserting many pairs at once.

use crate::map::TopMap;
use crate::model::{extended, holds, key_of, lemma_increasing_keys, value_of};
use crate::store::{entries_mut, slots_mut};
use crate::window::{slot_key, slot_value_mut};
use vstd::prelude::*;
use vstd::std_specs::iter::IteratorSpec;

verus! {

/// Whether `items` lists the entries of `m`: each item is an entry of `m`,
/// each key of `m` occurs, and the keys ascend strictly.
pub open spec fn listing<V>(items: Seq<(isize, &V)>, m: Map<isize, V>) -> bool {
    &&& forall|j: int|
        0 <= j < items.len() ==> m.contains_key((#[trigger] items[j]).0) && *items[j].1
            == m[items[j].0]
    &&& forall|k: isize| #[trigger]
        m.contains_key(k) ==> exists|j: int| 0 <= j < items.len() && (#[trigger] items[j]).0 == k
    &&& forall|j: int, l: int|
        0 <= j < l < items.len() ==> (#[trigger] items[j]).0 < (#[trigger] items[l]).0
}

/// Whether `items` lists the entries of `m`, each with its value to be
/// written through: each item is an entry of `m`, each key of `m` occurs,
/// and the keys ascend strictly.
pub open spec fn listing_mut<V>(items: Seq<(isize, &mut V)>, m: Map<isize, V>) -> bool {
    &&& forall|j: int|
        0 <= j < items.len() ==> m.contains_key((#[trigger] items[j]).0) && *items[j].1
            == m[items[j].0]
    &&& forall|k: isize| #[trigger]
        m.contains_key(k) ==> exists|j: int| 0 <= j < items.len() && (#[trigger] items[j]).0 == k
    &&& forall|j: int, l: int|
        0 <= j < l < items.len() ==> (#[trigger] items[j]).0 < (#[trigger] items[l]).0
}

impl<V> TopMap<V> {
    /// Whether `t` is this map with other values: the same slots are
    /// occupied, by the same keys, and the overflow holds the same keys.
    pub(crate) open spec fn revalued(&self, t: &Self) -> bool {
        &&& t.spec_width() == self.spec_width()
        &&& t.spec_low() == self.spec_low()
        &&& t.slots().len() == self.slots().len()
        &&& forall|p: int|
            0 <= p < self.slots().len() ==> ((#[trigger] t.slots()[p]) is Some
                <==> self.slots()[p] is Some) && (self.slots()[p] is Some ==> key_of(t.slots()[p])
                == key_of(self.slots()[p]))
        &&& t.rest().dom() == self.rest().dom()
    }

    /// Other values leave the invariant and the keys as they are.
    pub(crate) proof fn lemma_revalued(&self, t: &Self)
        requires
            self.wf(),
            self.revalued(t),
        ensures
            t.wf(),
            t@.dom() == self@.dom(),
            t.base() == self.base() || self.slots().len() == 0,
            forall|p: int|
                0 <= p < self.slots().len() && self.slots()[p] is Some ==> t@[key_of(
                    self.slots()[p],
                )] == value_of(#[trigger] t.slots()[p]),
            forall|k: isize| #[trigger] self.rest().contains_key(k) ==> t@[k] == t.rest()[k],
    {
    }

    /// The entries in ascending order of their keys, each with its value to
    /// be written through. The map then holds the written values under the
    /// same keys.
    pub fn iter_mut(&mut self) -> (items: Vec<(isize, &mut V)>)
        requires
            old(self).wf(),
        ensures
            listing_mut(items@, old(self)@),
            final(self).wf(),
            final(self).spec_width() == old(self).spec_width(),
            final(self).spec_low() == old(self).spec_low(),
            final(self).slots().len() == old(self).slots().len(),
            final(self)@.dom() == old(self)@.dom(),
            forall|i: int|
                0 <= i < items@.len() ==> final(self)@[(#[trigger] items@[i]).0]
                    == *final(items@[i].1),
    {
        let ghost this = *self;
        let ghost b = self.base();
        let ghost s = self.slots();
        let ghost r = self.rest();
        proof {
            assert forall|t: Self| this.revalued(&t) implies #[trigger] t.wf() && t@.dom()
                == this@.dom() && (forall|p: int|
                0 <= p < s.len() && s[p] is Some ==> t@[key_of(s[p])] == value_of(
                    #[trigger] t.slots()[p],
                )) && (forall|k: isize| #[trigger] r.contains_key(k) ==> t@[k] == t.rest()[k]) by {
                this.lemma_revalued(&t);
            }
        }
        let slots = slots_mut(&mut self.window);
        let entries = entries_mut(&mut self.overflow);
        let mut items: Vec<(isize, &mut V)> = Vec::new();
        let ghost all = slots@;
        let ghost mut src: Seq<int> = Seq::empty();
        for slot in it: slots
            invariant
                it.seq() == all,
                all.len() == s.len(),
                forall|p: int| 0 <= p < all.len() ==> *all[p] == s[p],
                items@.len() == src.len(),
                forall|p: int| 0 <= p < it.index() && s[p] is None ==> *final(all[p]) is None,
                forall|i: int|
                    0 <= i < items@.len() ==> 0 <= (#[trigger] src[i]) < it.index() && s[src[i]] is Some
                        && items@[i].0 == key_of(s[src[i]]) && *items@[i].1 == value_of(s[src[i]])
                        && *final(all[src[i]]) == Some((items@[i].0, *final(items@[i].1))),
                forall|i: int, j: int|
                    0 <= i < j < items@.len() ==> (#[trigger] src[i]) < (#[trigger] src[j]),
                forall|p: int|
                    0 <= p < it.index() && (#[trigger] s[p]) is Some ==> exists|i: int|
                        0 <= i < items@.len() && (#[trigger] src[i]) == p,
        {
            let ghost at = it.index();
            let ghost before = src;
            if slot.is_some() {
                let key = slot_key(slot);
                let value = slot_value_mut(slot);
                items.push((key, value));
                proof {
                    src = before.push(at);
                    assert forall|p: int| 0 <= p < at + 1 && (#[trigger] s[p]) is Some implies exists|
                        i: int,
                    | 0 <= i < items@.len() && (#[trigger] src[i]) == p by {
                        if p < at {
                            let i = choose|i: int| 0 <= i < before.len() && (#[trigger] before[i]) == p;
                            assert(src[i] == p);
                        } else {
                            assert(src[before.len() as int] == p);
                        }
                    }
                }
            }
        }
        let ghost head = items@;
        let ghost tail = entries@;
        for entry in it: entries
            invariant
                it.seq() == tail,
                items@.len() == head.len() + it.index(),
                forall|i: int| 0 <= i < head.len() ==> items@[i] == head[i],
                forall|j: int| 0 <= j < it.index() ==> (#[trigger] items@[head.len() + j]) == tail[j],
        {
            items.push(entry);
        }
        proof {
            let n = head.len() as int;
            assert forall|k: isize| #[trigger] this@.contains_key(k) implies exists|j: int|
                0 <= j < items@.len() && (#[trigger] items@[j]).0 == k by {
                if !holds(s, b, k) {
                    let j = choose|j: int| 0 <= j < tail.len() && (#[trigger] tail[j]).0 == k;
                    assert(items@[n + j] == tail[j]);
                }
            }
            assert forall|j: int, l: int| 0 <= j < l < items@.len() implies (#[trigger] items@[j]).0
                < (#[trigger] items@[l]).0 by {
                if l < n {
                    assert(src[j] < src[l]);
                } else if j < n {
                    assert(items@[n + (l - n)] == tail[l - n]);
                } else {
                    assert(items@[n + (j - n)] == tail[j - n]);
                }
            }
            assert forall|i: int| 0 <= i < items@.len() implies (i < n ==> s[src[i]] is Some
                && items@[i].0 == key_of(s[src[i]]) && *final(all[src[i]]) == Some(
                (items@[i].0, *final(items@[i].1)),
            )) && (i >= n ==> r.contains_key(tail[i - n].0) && (#[trigger] items@[i]) == tail[i
                - n]) by {
                if i >= n {
                    assert(items@[n + (i - n)] == tail[i - n]);
                }
            }
        }
        items
    }

    /// Whether each of the `states` but the first is the one before it
    /// after the next of the `pairs` has been inserted.
    pub open spec fn chain_of_inserts(states: Seq<Self>, pairs: Seq<(isize, V)>) -> bool {
        &&& states.len() == pairs.len() + 1
        &&& forall|i: int|
            1 <= i < states.len() ==> (#[trigger] states[i]).follows_insert(
                &states[i - 1],
                pairs[i - 1].0,
                pairs[i - 1].1,
            )
    }

    /// Whether this map is `before` after the pairs have been inserted one
    /// by one, the first pair first.
    pub open spec fn follows_extend(&self, before: &Self, pairs: Seq<(isize, V)>) -> bool {
        exists|states: Seq<Self>| #[trigger]
            Self::chain_of_inserts(states, pairs) && states[0] == *before && states.last()
                == *self
    }

    /// Inserts the pairs one by one, the first pair first.
    pub fn extend(&mut self, pairs: Vec<(isize, V)>)
        requires
            old(self).wf(),
        ensures
            final(self).wf(),
            final(self).spec_width() == old(self).spec_width(),
            final(self).spec_low() == old(self).spec_low(),
            final(self)@ == extended(old(self)@, pairs@),
            final(self).follows_extend(old(self), pairs@),
    {
        let ghost all = pairs@;
        let ghost mut states: Seq<Self> = seq![*self];
        for pair in it: pairs
            invariant
                it.seq() == all,
                self.wf(),
                self.spec_width() == old(self).spec_width(),
                self.spec_low() == old(self).spec_low(),
                self@ == extended(old(self)@, all.subrange(0, it.index())),
                Self::chain_of_inserts(states, all.subrange(0, it.index())),
                states[0] == *old(self),
                states.last() == *self,
        {
            let ghost at = it.index();
            let ghost so_far = states;
            proof {
                assert(all.subrange(0, at + 1).drop_last() =~= all.subrange(0, at));
            }
            let (key, value) = pair;
            self.insert(key, value);
            proof {
                states = so_far.push(*self);
            }
        }
        proof {
            assert(all.subrange(0, all.len() as int) =~= all);
        }
    }

    /// A map of the given width, refilled eagerly, that holds the pairs: of
    /// two pairs with one key, the later one.
    pub fn from_pairs(width: usize, pairs: Vec<(isize, V)>) -> (m: Self)
        ensures
            m.wf(),
            m.spec_width() == width,
            m.spec_low() == width,
            m@ == extended(Map::<isize, V>::empty(), pairs@),
            exists|empty: Self|
                empty.slots().len() == 0 && empty.rest() == Map::<isize, V>::empty()
                    && empty.spec_width() == width && empty.spec_low() == width
                    && #[trigger] m.follows_extend(&empty, pairs@),
    {
        let mut m = TopMap::new(width);
        let ghost empty = m;
        m.extend(pairs);
        m
    }

    /// The entries in ascending order of their keys: those of the window,
    /// then those of the overflow.
    pub fn iter(&self) -> (items: Vec<(isize, &V)>)
        requires
            self.wf(),
        ensures
            listing(items@, self@),
    {
        let mut items: Vec<(isize, &V)> = Vec::new();
        let mut i: usize = 0;
        let ghost b = self.base();
        let ghost s = self.slots();
        while i < self.window.len()
            invariant
                self.wf(),
                b == self.base(),
                s == self.slots(),
                i <= s.len(),
                forall|j: int|
                    0 <= j < items@.len() ==> holds(s, b, (#[trigger] items@[j]).0) && items@[j].0
                        - b < i && *items@[j].1 == value_of(s[items@[j].0 - b]),
                forall|j: int, l: int|
                    0 <= j < l < items@.len() ==> (#[trigger] items@[j]).0 < (#[trigger] items@[l]).0,
                forall|k: isize|
                    holds(s, b, k) && k - b < i ==> exists|j: int|
                        0 <= j < items@.len() && (#[trigger] items@[j]).0 == k,
            decreases s.len() - i,
        {
            match &self.window[i] {
                Some((k, v)) => {
                    let ghost before = items@;
                    items.push((*k, v));
                    proof {
                        assert forall|j: isize| holds(s, b, j) && j - b < i + 1 implies exists|l: int|
                            0 <= l < items@.len() && (#[trigger] items@[l]).0 == j by {
                            if j - b < i {
                                let l = choose|l: int|
                                    0 <= l < before.len() && (#[trigger] before[l]).0 == j;
                                assert(items@[l] == before[l]);
                            } else {
                                assert(items@[before.len() as int].0 == j);
                            }
                        }
                    }
                },
                None => {},
            }
            i += 1;
        }
        let ghost head = items@;
        let ghost all = vstd::std_specs::btree::spec_btree_map_iter(&self.overflow).remaining();
        for pair in it: self.overflow.iter()
            invariant
                self.wf(),
                b == self.base(),
                s == self.slots(),
                it.seq() == all,
                vstd::std_specs::btree::increasing_seq(
                    all.map_values(|kv: (&isize, &V)| *kv.0),
                ),
                items@.len() == head.len() + it.index(),
                forall|j: int| 0 <= j < head.len() ==> items@[j] == head[j],
                forall|j: int|
                    0 <= j < it.index() ==> (#[trigger] items@[head.len() + j]).0 == *all[j].0
                        && items@[head.len() + j].1 == all[j].1,
        {
            items.push((*pair.0, pair.1));
        }
        proof {
            let keys = all.map_values(|kv: (&isize, &V)| *kv.0);
            let n = head.len() as int;
            assert forall|j: int| 0 <= j < items@.len() implies self@.contains_key(
                (#[trigger] items@[j]).0,
            ) && *items@[j].1 == self@[items@[j].0] by {
                if j < n {
                    assert(items@[j] == head[j]);
                } else {
                    assert(items@[n + (j - n)].0 == *all[j - n].0);
                }
            }
            assert forall|k: isize| #[trigger] self@.contains_key(k) implies exists|j: int|
                0 <= j < items@.len() && (#[trigger] items@[j]).0 == k by {
                if !holds(s, b, k) {
                    let j = choose|j: int| 0 <= j < all.len() && all[j] == (&k, &self.rest()[k]);
                    assert(items@[n + j].0 == k);
                }
            }
            assert forall|j: int, l: int| 0 <= j < l < items@.len() implies (#[trigger] items@[j]).0
                < (#[trigger] items@[l]).0 by {
                if l < n {
                    assert(items@[l] == head[l]);
                } else if j < n {
                    assert(items@[j] == head[j]);
                    assert(self.rest().contains_key(*all[l - n].0));
                } else {
                    assert(items@[n + (j - n)].0 == keys[j - n]);
                    assert(items@[n + (l - n)].0 == keys[l - n]);
                    lemma_increasing_keys(keys);
                }
            }
        }
        items
    }
}

} // verus!
