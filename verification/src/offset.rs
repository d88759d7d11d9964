//! Offset arithmetic: the signed distance of a key from the base key, and the
//! three-way classification of a key that every operation starts from.

use vstd::prelude::*;

verus! {

/// Where a key belongs, relative to the window.
#[derive(Clone, Copy, Debug, PartialEq, Eq)]
pub enum Place {
    /// The key is smaller than the base key, by `distance`.
    Below { distance: usize },
    /// The key lies `offset` slots after the base key, within the window's width.
    Inside { offset: usize },
    /// The key lies at or beyond the window's width.
    Overflow,
}

/// The signed distance of `key` from `base`.
pub open spec fn offset_of(key: isize, base: isize) -> int {
    key - base
}

/// The place of `key` for a window of `width` slots whose front slot holds
/// `base` (`None` while the window is empty).
///
/// A window of width zero holds no key. An empty window of positive width
/// takes any key at its front.
pub open spec fn place_of(key: isize, base: Option<isize>, width: usize) -> Place {
    if width == 0 {
        Place::Overflow
    } else {
        match base {
            None => Place::Inside { offset: 0 },
            Some(b) => if offset_of(key, b) < 0 {
                Place::Below { distance: (-offset_of(key, b)) as usize }
            } else if offset_of(key, b) >= width {
                Place::Overflow
            } else {
                Place::Inside { offset: offset_of(key, b) as usize }
            },
        }
    }
}

/// The offset as an index, when it is not negative.
pub fn positive(i: isize) -> (r: Option<usize>)
    ensures
        i >= 0 ==> r == Some(i as usize),
        i < 0 ==> r is None,
{
    if i >= 0 {
        Some(i as usize)
    } else {
        None
    }
}

/// Classifies `key` against the base key and the width. The distance is
/// computed without overflow for every pair of keys.
pub fn classify(key: isize, base: Option<isize>, width: usize) -> (place: Place)
    ensures
        place == place_of(key, base, width),
        place is Below ==> base is Some && place->distance == base->0 - key && key < base->0,
        place is Inside ==> place->offset < width && (base is Some ==> place->offset == key
            - base->0),
{
    if width == 0 {
        return Place::Overflow;
    }
    match base {
        None => Place::Inside { offset: 0 },
        Some(b) => {
            let d: i128 = key as i128 - b as i128;
            if d < 0 {
                Place::Below { distance: (-d) as usize }
            } else if d >= width as i128 {
                Place::Overflow
            } else {
                Place::Inside { offset: d as usize }
            }
        },
    }
}

} // verus!
