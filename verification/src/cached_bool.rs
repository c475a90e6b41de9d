//! A boolean that remembers whether it has changed since it was cleaned.
use vstd::prelude::*;

verus! {

#[derive(Debug, Copy, Clone, PartialEq, Eq, Structural, Hash)]
pub struct CachedBool {
    pub value: bool,
    dirty: bool,
}

impl CachedBool {
    /// The held value: the public field `value`. (Outside this module Verus
    /// cannot read that field in a contract, since `dirty` is private.)
    pub closed spec fn spec_value(&self) -> bool {
        self.value
    }

    /// Whether the value changed since the last clean.
    pub closed spec fn spec_is_dirty(&self) -> bool {
        self.dirty
    }

    /// A clean cached bool holding `value`.
    pub fn new(value: bool) -> (c: Self)
        ensures
            c.spec_value() == value,
            !c.spec_is_dirty(),
    {
        Self { value, dirty: false }
    }

    pub fn is_dirty(&self) -> (d: bool)
        ensures
            d == self.spec_is_dirty(),
    {
        self.dirty
    }

    /// Marks the value as unchanged.
    pub fn clean(&mut self)
        ensures
            final(self).spec_value() == old(self).spec_value(),
            !final(self).spec_is_dirty(),
    {
        self.dirty = false;
    }

    /// Takes the value the user left in the inspector's checkbox; the dirty
    /// flag is left as it was.
    pub fn inspect(&mut self, checkbox_value: bool)
        ensures
            final(self).spec_value() == checkbox_value,
            final(self).spec_is_dirty() == old(self).spec_is_dirty(),
    {
        self.value = checkbox_value;
    }
}

impl Default for CachedBool {
    fn default() -> (c: Self)
        ensures
            !c.spec_value(),
            !c.spec_is_dirty(),
    {
        Self { value: false, dirty: false }
    }
}

} // verus!
