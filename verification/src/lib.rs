//! An ordered map for integer keys that cluster near the current minimum.
//!
//! The lowest keys live in a bounded window of directly addressable slots:
//! the front slot holds the smallest key of the map, the base key, and the
//! slot at position `p` stands for the key `base + p`. Every other key lives
//! in an ordered overflow map. Storing a key below the base key shifts the
//! window; removing the base key trims the window and refills it from the
//! overflow.
//!
//! - [`map`]: the map, its model as a `Map<isize, V>`, its invariant, and
//!   the operations that read or reset it.
//! - [`offset`]: the classification of a key against the window.
//! - [`shift`]: storing a key, and the window shift.
//! - [`refill`]: removing a key, and the window refill.
//! - [`entry`]: the entry handle, and access to values for writing.
//! - [`listing`]: the entries in key order, and bulk insertion.
//! - [`replay`]: sequences of actions, measured against a plain map.
//! - [`model`]: the spec functions that the contracts are stated over.
//! - [`laws`]: what holds of every map.
//!
//! Two private modules stand below these: `window`, with verified steps on
//! the slots, and `store`, with the few operations of `VecDeque` and
//! `BTreeMap` whose contracts are taken on trust.

pub mod entry;
pub mod laws;
pub mod listing;
pub mod map;
pub mod model;
pub mod offset;
pub mod refill;
pub mod replay;
pub mod shift;
mod store;
mod window;
