//! Shared ownership of runtime objects.  Coroutines on the single scheduler
//! thread hold clones of one handle; the last dropper frees the object.

use std::rc::Rc;

use vstd::prelude::*;

verus! {

/// A shared handle to an object used by several coroutines.
pub struct SharedObject<T> {
    inner: Rc<T>,
}

impl<T> SharedObject<T> {
    /// The object the handle shares.
    pub closed spec fn value_spec(self) -> T {
        *self.inner
    }

    /// Wraps `object` for sharing.
    pub fn new(object: T) -> (r: Self)
        ensures
            r.value_spec() == object,
    {
        SharedObject { inner: Rc::new(object) }
    }

    /// Borrows the shared object.
    pub fn as_ref(&self) -> (r: &T)
        ensures
            *r == self.value_spec(),
    {
        &*self.inner
    }
}

impl<T> Clone for SharedObject<T> {
    /// Another handle to the same object.
    fn clone(&self) -> (r: Self)
        ensures
            r.value_spec() == self.value_spec(),
    {
        SharedObject { inner: self.inner.clone() }
    }
}

} // verus!
