//! The four grid directions and the two facings of a sprite.
use vstd::prelude::*;

verus! {

#[derive(Debug, PartialEq, Eq, Structural, Copy, Clone, Hash, PartialOrd, Ord)]
pub enum CardinalPrime {
    Right,
    Up,
    Left,
    Down,
}

#[derive(Debug, PartialEq, Eq, Structural, Copy, Clone, Hash, PartialOrd, Ord)]
pub enum FacingHorizontal {
    Right,
    Left,
}

#[derive(Debug, PartialEq, Eq, Structural, Copy, Clone, Hash, PartialOrd, Ord)]
pub enum FacingVertical {
    Up,
    Down,
}

impl Default for CardinalPrime {
    fn default() -> (d: Self)
        ensures
            d == CardinalPrime::Right,
    {
        CardinalPrime::Right
    }
}

impl Default for FacingHorizontal {
    fn default() -> (d: Self)
        ensures
            d == FacingHorizontal::Right,
    {
        FacingHorizontal::Right
    }
}

impl Default for FacingVertical {
    fn default() -> (d: Self)
        ensures
            d == FacingVertical::Up,
    {
        FacingVertical::Up
    }
}

/// Applies what the facing selectors returned: each selection that was made
/// replaces its facing. Returns whether any selection was made.
pub fn inspect_facing(
    facing_horizontal: &mut FacingHorizontal,
    facing_vertical: &mut FacingVertical,
    new_horizontal: Option<FacingHorizontal>,
    new_vertical: Option<FacingVertical>,
) -> (dirty: bool)
    ensures
        dirty == (new_horizontal is Some || new_vertical is Some),
        *final(facing_horizontal) == match new_horizontal {
            Some(h) => h,
            None => *old(facing_horizontal),
        },
        *final(facing_vertical) == match new_vertical {
            Some(v) => v,
            None => *old(facing_vertical),
        },
{
    let mut dirty = false;
    if let Some(h) = new_horizontal {
        dirty = true;
        *facing_horizontal = h;
    }
    if let Some(v) = new_vertical {
        dirty = true;
        *facing_vertical = v;
    }
    dirty
}

} // verus!
