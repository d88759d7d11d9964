//! The mathematical model: slots, and the map that a window and an overflow
//! map stand for together.

use vstd::prelude::*;
use vstd::std_specs::btree::increasing_seq;
use vstd::std_specs::cmp::OrdSpec;

verus! {

/// A window slot: empty, or a key with its value.
pub type Slot<V> = Option<(isize, V)>;

/// The key that an occupied slot holds.
pub open spec fn key_of<V>(slot: Slot<V>) -> isize {
    let (key, _) = slot->0;
    key
}

/// The value that an occupied slot holds.
pub open spec fn value_of<V>(slot: Slot<V>) -> V {
    let (_, value) = slot->0;
    value
}

/// Whether the slots `s`, whose front slot stands for the key `base`, hold
/// the key `k`.
pub open spec fn holds<V>(s: Seq<Slot<V>>, base: isize, k: isize) -> bool {
    0 <= k - base < s.len() && s[k - base] is Some
}

/// The map that the slots `s`, based at `base`, and the overflow map `rest`
/// stand for together.
pub open spec fn joined<V>(s: Seq<Slot<V>>, base: isize, rest: Map<isize, V>) -> Map<isize, V> {
    Map::new(
        |k: isize| holds(s, base, k) || rest.contains_key(k),
        |k: isize|
            if holds(s, base, k) {
                value_of(s[k - base])
            } else {
                rest[k]
            },
    )
}

/// The slots `s` without the empty slots that lead them.
pub open spec fn trim<V>(s: Seq<Slot<V>>) -> Seq<Slot<V>>
    decreases s.len(),
{
    if s.len() > 0 && s[0] is None {
        trim(s.drop_first())
    } else {
        s
    }
}

/// Whether the slots `s` begin with the slots `t`.
pub open spec fn begins_with<V>(s: Seq<Slot<V>>, t: Seq<Slot<V>>) -> bool {
    t.len() <= s.len() && forall|p: int| 0 <= p < t.len() ==> s[p] == t[p]
}

/// The number of occupied slots.
pub open spec fn occupied<V>(s: Seq<Slot<V>>) -> nat
    decreases s.len(),
{
    if s.len() == 0 {
        0
    } else {
        occupied(s.drop_last()) + if s.last() is Some {
            1nat
        } else {
            0nat
        }
    }
}

/// The keys that the slots `s`, based at `base`, hold.
pub open spec fn window_keys<V>(s: Seq<Slot<V>>, base: isize) -> Set<isize> {
    Set::new(|k: isize| holds(s, base, k))
}

/// Whether every occupied slot of `s` holds the key of its position.
pub open spec fn aligned<V>(s: Seq<Slot<V>>, base: isize) -> bool {
    forall|p: int| 0 <= p < s.len() && #[trigger] s[p] is Some ==> key_of(s[p]) == base + p
}

/// Aligned slots hold as many keys as they have occupied slots.
pub proof fn lemma_window_keys<V>(s: Seq<Slot<V>>, base: isize)
    requires
        aligned(s, base),
    ensures
        window_keys(s, base).finite(),
        window_keys(s, base).len() == occupied(s),
        occupied(s) <= s.len(),
    decreases s.len(),
{
    if s.len() == 0 {
        assert(window_keys(s, base) =~= Set::<isize>::empty());
    } else {
        let t = s.drop_last();
        assert forall|p: int| 0 <= p < t.len() && #[trigger] t[p] is Some implies key_of(t[p])
            == base + p by {}
        lemma_window_keys(t, base);
        if s.last() is Some {
            let k = key_of(s.last());
            assert(window_keys(s, base) =~= window_keys(t, base).insert(k));
        } else {
            assert(window_keys(s, base) =~= window_keys(t, base));
        }
    }
}

/// The joined map holds the window's keys and the overflow's keys, and where
/// the two share no key, as many entries as both together.
pub proof fn lemma_joined_len<V>(s: Seq<Slot<V>>, base: isize, rest: Map<isize, V>)
    requires
        aligned(s, base),
        rest.dom().finite(),
        forall|k: isize| #[trigger] rest.contains_key(k) ==> !holds(s, base, k),
    ensures
        joined(s, base, rest).dom() == window_keys(s, base) + rest.dom(),
        joined(s, base, rest).dom().finite(),
        joined(s, base, rest).len() == occupied(s) + rest.len(),
{
    lemma_window_keys(s, base);
    vstd::set_lib::lemma_set_disjoint_lens(window_keys(s, base), rest.dom());
}

/// Keys that an ordered map hands out in increasing order ascend strictly.
pub proof fn lemma_increasing_keys(keys: Seq<isize>)
    requires
        increasing_seq(keys),
    ensures
        forall|i: int, j: int| 0 <= i < j < keys.len() ==> keys[i] < keys[j],
{
    assert forall|i: int, j: int| 0 <= i < j < keys.len() implies keys[i] < keys[j] by {
        assert(keys[i].cmp_spec(&keys[j]) is Less);
    }
}

/// The map `m` after the pairs have been inserted one by one, the first
/// pair first: of two pairs with one key, the later one stays.
pub open spec fn extended<V>(m: Map<isize, V>, pairs: Seq<(isize, V)>) -> Map<isize, V>
    decreases pairs.len(),
{
    if pairs.len() == 0 {
        m
    } else {
        let (key, value) = pairs.last();
        extended(m, pairs.drop_last()).insert(key, value)
    }
}

/// What a map returns for a key: its value, or nothing.
pub open spec fn lookup<V>(m: Map<isize, V>, k: isize) -> Option<V> {
    if m.contains_key(k) {
        Some(m[k])
    } else {
        None
    }
}

} // verus!
