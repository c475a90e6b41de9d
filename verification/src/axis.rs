//! The two axes of the plane.
use vstd::prelude::*;

verus! {

#[derive(Debug, Copy, Clone, PartialEq, Eq, Structural, Hash)]
pub enum Axis {
    X,
    Y,
}

} // verus!
