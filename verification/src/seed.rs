//! The per-frame random seed: a fresh 32-bit value drawn every frame and
//! written unconditionally to its device uniform, feeding the `init` and
//! `update` programs' randomness.

use vstd::prelude::*;

verus! {

/// Relies on rand::random for the draw. Nothing can be promised of a random
/// value, so this carries no postcondition.
pub assume_specification<T>[ rand::random::<T> ]() -> (r: T)
    where
        rand::distributions::Standard: rand::distributions::Distribution<T>,
;

/// Draws the seed for one frame. Two frames' seeds may differ — a replay of
/// a recorded run must capture them.
pub fn draw_seed() -> u32 {
    rand::random::<u32>()
}

} // verus!
