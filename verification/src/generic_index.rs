//! Indexing that hands out a handle to the element in place of a reference,
//! for containers whose elements are computed when asked for and have no
//! address of their own.

use std::ops::{Deref, DerefMut};
use vstd::prelude::*;

verus! {

/// Reading an element through a handle.
pub trait Index<Idx> {
    /// The type of the element.
    type Output;

    /// The handle that is handed out; it derefs to the element.
    type DerefOutput<'a>: Deref<Target = Self::Output> where Self: 'a;

    /// Whether the container can be asked for the element at `index`.
    spec fn index_accepts(&self, index: Idx) -> bool;

    /// Whether `e` is a value that the container may give at `index`.
    spec fn index_yields(&self, index: Idx, e: Self::Output) -> bool;

    /// The element that the handle holds.
    spec fn handle_value<'a>(handle: Self::DerefOutput<'a>) -> Self::Output;

    /// A handle to the element at `index`.
    fn index<'a>(&'a self, index: Idx) -> (r: Self::DerefOutput<'a>)
        requires
            self.index_accepts(index),
        ensures
            self.index_yields(index, Self::handle_value(r)),
    ;
}

/// Reading and writing an element through a handle, for containers that
/// store their elements.
pub trait IndexMut<Idx>: Index<Idx> {
    /// The handle that is handed out; it derefs mutably to the element.
    type DerefMutOutput<'a>: DerefMut<Target = Self::Output> where Self: 'a;

    /// A handle to the element at `index`, through which it can be changed.
    fn index_mut<'a>(&'a mut self, index: Idx) -> Self::DerefMutOutput<'a>
        requires
            old(self).index_accepts(index),
    ;
}

} // verus!
