//! Integer 2D vectors, used for grid and tile coordinates.
use vstd::prelude::*;

use crate::vec_iter::GameVec;

verus! {

#[derive(Debug, Clone, Copy, PartialEq, Eq, Structural, Hash)]
pub struct Vec2Int {
    pub x: i32,
    pub y: i32,
}

impl Vec2Int {
    pub fn new(x: i32, y: i32) -> (v: Vec2Int)
        ensures
            v.x == x,
            v.y == y,
    {
        Vec2Int { x, y }
    }
}

impl GameVec<i32> for Vec2Int {
    open spec fn spec_x(&self) -> i32 {
        self.x
    }

    open spec fn spec_y(&self) -> i32 {
        self.y
    }

    fn x(&self) -> (r: &i32) {
        &self.x
    }

    fn y(&self) -> (r: &i32) {
        &self.y
    }
}

} // verus!
