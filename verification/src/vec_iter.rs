//! Iterating over the two components of a 2D vector, `x` first.
use vstd::prelude::*;

use crate::axis::Axis;

verus! {

/// A two-component vector.
pub trait GameVec<T: Copy> {
    spec fn spec_x(&self) -> T;

    spec fn spec_y(&self) -> T;

    fn x(&self) -> (r: &T)
        ensures
            *r == self.spec_x(),
    ;

    fn y(&self) -> (r: &T)
        ensures
            *r == self.spec_y(),
    ;
}

/// Walks the components of a vector: `x`, then `y`, then nothing.
pub struct VecIter<'a, T: Copy, V: GameVec<T>> {
    inner: &'a V,
    axis: Option<Axis>,
    component: core::marker::PhantomData<T>,
}

impl<'a, T: Copy, V: GameVec<T>> VecIter<'a, T, V> {
    /// The components still to come.
    pub closed spec fn remaining(&self) -> Seq<T> {
        match self.axis {
            Some(Axis::X) => seq![self.inner.spec_x(), self.inner.spec_y()],
            Some(Axis::Y) => seq![self.inner.spec_y()],
            None => Seq::empty(),
        }
    }

    /// An iterator over `inner`, positioned before `x`.
    pub fn new(inner: &'a V) -> (it: VecIter<'a, T, V>)
        ensures
            it.remaining() == seq![inner.spec_x(), inner.spec_y()],
    {
        VecIter { inner, axis: Some(Axis::X), component: core::marker::PhantomData }
    }

    /// The next component, if any is left.
    pub fn next(&mut self) -> (r: Option<&'a T>)
        ensures
            old(self).remaining().len() == 0 ==> r is None && final(self).remaining().len() == 0,
            old(self).remaining().len() > 0 ==> (r matches Some(v) && *v == old(self).remaining()[0]
                && final(self).remaining() == old(self).remaining().drop_first()),
    {
        match self.axis {
            Some(Axis::X) => {
                self.axis = Some(Axis::Y);
                Some(self.inner.x())
            },
            Some(Axis::Y) => {
                self.axis = None;
                Some(self.inner.y())
            },
            None => None,
        }
    }
}

} // verus!
