//! A kernel global that is set once at run time and then read.
//!
//! The cell is either holding a value or not yet initialised; reading it requires that it
//! holds one.

use vstd::prelude::*;

verus! {

/// Kernel global static variable.
pub struct UnsafeStatic<T> {
    inner: Option<T>,
}

impl<T> UnsafeStatic<T> {
    /// The value held, `None` before initialisation.
    pub closed spec fn view(&self) -> Option<T> {
        self.inner
    }

    /// A cell initialised with `val`.
    pub fn new(val: T) -> (r: Self)
        ensures
            r@ == Some(val),
    {
        UnsafeStatic { inner: Some(val) }
    }

    /// A cell to be initialised at run time.
    pub fn uninit() -> (r: Self)
        ensures
            r@ is None,
    {
        UnsafeStatic { inner: None }
    }

    /// Stores `val`; a cell is initialised once, and only when made with `uninit`.
    pub fn init(&mut self, val: T)
        requires
            old(self)@ is None,
        ensures
            final(self)@ == Some(val),
    {
        self.inner = Some(val);
    }

    /// The value held; the cell must be initialised.
    pub fn get(&self) -> (r: &T)
        requires
            self@ is Some,
        ensures
            Some(*r) == self@,
    {
        self.inner.as_ref().unwrap()
    }

    /// Exclusive access to the value held; the cell must be initialised.
    pub fn get_mut(&mut self) -> (r: &mut T)
        requires
            old(self)@ is Some,
        ensures
            Some(*r) == old(self)@,
            final(self)@ == Some(*final(r)),
    {
        self.inner.as_mut().unwrap()
    }
}

} // verus!
