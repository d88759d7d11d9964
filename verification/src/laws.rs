//! What holds of the map as a whole, stated over its model.

use crate::map::TopMap;
use crate::model::{holds, key_of, lookup, trim, value_of, Slot};
use vstd::prelude::*;

verus! {

/// The window never holds more slots than its width.
pub proof fn law_window_bound<V>(m: TopMap<V>)
    requires
        m.wf(),
    ensures
        m.slots().len() <= m.spec_width(),
{
}

/// The base key is the smallest key of the map: no key lies below the window.
pub proof fn law_base_is_minimum<V>(m: TopMap<V>, k: isize)
    requires
        m.wf(),
        m.slots().len() > 0,
        m@.contains_key(k),
    ensures
        m@.contains_key(m.base()),
        m.base() <= k,
{
}

/// No key is held by both the window and the overflow, and every window key
/// is smaller than every overflow key.
pub proof fn law_window_before_overflow<V>(m: TopMap<V>, k: isize, j: isize)
    requires
        m.wf(),
        m.in_window(k),
        m.rest().contains_key(j),
    ensures
        k < j,
        !m.rest().contains_key(k),
{
}

/// Where the window is refilled eagerly, the map alone decides what the
/// window holds: the keys whose offset from the smallest key is below the
/// width. The overflow holds the others.
pub proof fn law_eager_split<V>(m: TopMap<V>, k: isize)
    requires
        m.wf(),
        m.eager(),
        m@.contains_key(k),
    ensures
        m.slots().len() > 0,
        m.in_window(k) <==> k - m.base() < m.spec_width(),
        m.rest().contains_key(k) <==> k - m.base() >= m.spec_width(),
{
}

/// Two maps that hold the same entries have the same base key.
pub proof fn law_same_base<V>(a: TopMap<V>, b: TopMap<V>)
    requires
        a.wf(),
        b.wf(),
        a@ == b@,
        a.slots().len() > 0,
        b.slots().len() > 0,
    ensures
        a.base() == b.base(),
{
    law_base_is_minimum(a, b.base());
    law_base_is_minimum(b, a.base());
}

/// The entries and the number of window slots decide the whole layout: two
/// maps that agree on both have the same slots and the same overflow.
pub proof fn law_layout_determined<V>(a: TopMap<V>, b: TopMap<V>)
    requires
        a.wf(),
        b.wf(),
        a@ == b@,
        a.slots().len() == b.slots().len(),
    ensures
        a.slots() == b.slots(),
        a.rest() == b.rest(),
{
    let n = a.slots().len();
    if n > 0 {
        law_same_base(a, b);
        assert forall|p: int| 0 <= p < n implies a.slots()[p] == b.slots()[p] by {
            lemma_same_slot(a, b, p);
        }
        assert forall|k: isize| a.rest().contains_key(k) <==> b.rest().contains_key(k) by {
            if a.rest().contains_key(k) {
                assert(b@.contains_key(k));
            }
            if b.rest().contains_key(k) {
                assert(a@.contains_key(k));
            }
        }
        assert forall|k: isize| a.rest().contains_key(k) implies a.rest()[k] == b.rest()[k] by {
            assert(b@[k] == b.rest()[k]);
        }
    } else {
        assert forall|k: isize| a.rest().contains_key(k) <==> b.rest().contains_key(k) by {
            assert(b@.contains_key(k) <==> b.rest().contains_key(k));
        }
        assert forall|k: isize| a.rest().contains_key(k) implies a.rest()[k] == b.rest()[k] by {
            assert(b@[k] == b.rest()[k]);
        }
    }
}

/// Two maps with the same entries, the same base key and equally many slots
/// hold the same in the slot at `p`.
proof fn lemma_same_slot<V>(a: TopMap<V>, b: TopMap<V>, p: int)
    requires
        a.wf(),
        b.wf(),
        a@ == b@,
        a.slots().len() == b.slots().len(),
        a.base() == b.base(),
        0 <= p < a.slots().len(),
    ensures
        a.slots()[p] == b.slots()[p],
{
    let x = a.slots()[p];
    let y = b.slots()[p];
    if x is Some {
        let k = key_of(x);
        assert(b@.contains_key(k));
        assert(b@[k] == value_of(y));
    } else if y is Some {
        let k = key_of(y);
        assert(a@.contains_key(k));
    }
}

/// A refill has one outcome: two maps that a refill makes of the same
/// slots, with the same entries and the same low-water mark, have equally
/// many window slots, and so the same layout.
pub proof fn law_refill_determined<V>(a: TopMap<V>, b: TopMap<V>, t: Seq<Slot<V>>)
    requires
        a.wf(),
        b.wf(),
        a@ == b@,
        a.spec_low() == b.spec_low(),
        a.refilled_from(t),
        b.refilled_from(t),
    ensures
        a.slots() == b.slots(),
        a.rest() == b.rest(),
{
    lemma_refill_not_shorter(a, b, t);
    lemma_refill_not_shorter(b, a, t);
    law_layout_determined(a, b);
}

/// Of two outcomes of one refill, the first has at least as many window
/// slots as the second.
proof fn lemma_refill_not_shorter<V>(a: TopMap<V>, b: TopMap<V>, t: Seq<Slot<V>>)
    requires
        a.wf(),
        b.wf(),
        a@ == b@,
        a.spec_low() == b.spec_low(),
        a.refilled_from(t),
        b.refilled_from(t),
    ensures
        a.slots().len() >= b.slots().len(),
{
    if a.slots().len() < b.slots().len() {
        let n = b.slots().len() as int;
        let last = b.slots()[n - 1];
        let k = key_of(last);
        assert(a@.contains_key(k));
        if a.slots().len() > 0 {
            law_same_base(a, b);
        }
    }
}

/// Storing a value has one outcome: the map before, the key and the value
/// decide the window and the overflow afterwards.
pub proof fn law_insert_determined<V>(
    a: TopMap<V>,
    b: TopMap<V>,
    before: TopMap<V>,
    key: isize,
    value: V,
)
    requires
        a.follows_insert(&before, key, value),
        b.follows_insert(&before, key, value),
    ensures
        a.same_layout(&b),
{
    law_layout_determined(a, b);
}

/// Removing a key has one outcome: the map before and the key decide the
/// window and the overflow afterwards.
pub proof fn law_remove_determined<V>(a: TopMap<V>, b: TopMap<V>, before: TopMap<V>, key: isize)
    requires
        a.follows_remove(&before, key),
        b.follows_remove(&before, key),
    ensures
        a.same_layout(&b),
{
    let left = trim(before.slots().drop_first());
    if !before.at_front(key) {
        law_layout_determined(a, b);
    } else if left.len() <= before.spec_low() {
        law_refill_determined(a, b, left);
    }
}

/// Removing a key that the map does not hold answers nothing and leaves the
/// map as it is, so that removing it again answers nothing again.
pub proof fn law_remove_absent<V>(before: TopMap<V>, after: TopMap<V>, k: isize)
    requires
        !before@.contains_key(k),
        after@ == before@.remove(k),
    ensures
        lookup(before@, k) is None,
        after@ == before@,
        lookup(after@, k) is None,
        after@.remove(k) == after@,
{
}

/// After a key has been stored with a value, the map answers that value for
/// the key, wherever the key was placed.
pub proof fn law_round_trip<V>(before: TopMap<V>, after: TopMap<V>, k: isize, v: V)
    requires
        after@ == before@.insert(k, v),
    ensures
        lookup(after@, k) == Some(v),
{
}

} // verus!
