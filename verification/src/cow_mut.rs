//! A value that is either owned or borrowed for writing.

use vstd::prelude::*;

verus! {

/// A `T` to read and write that is either held here or borrowed from
/// elsewhere.
#[derive(Debug)]
pub enum CowMut<'a, T> {
    Owned(T),
    Borrowed(&'a mut T),
}

impl<'a, T> CowMut<'a, T> {
    /// The value that is read and written through this.
    pub open spec fn value(&self) -> T {
        match self {
            CowMut::Owned(it) => *it,
            CowMut::Borrowed(it) => **it,
        }
    }
}

impl<T> std::ops::Deref for CowMut<'_, T> {
    type Target = T;

    /// The value, to read.
    fn deref(&self) -> (r: &T)
        ensures
            *r == self.value(),
    {
        match self {
            CowMut::Owned(it) => it,
            CowMut::Borrowed(it) => &**it,
        }
    }
}

impl<T> std::ops::DerefMut for CowMut<'_, T> {
    /// The value, to write.
    fn deref_mut(&mut self) -> (r: &mut T)
        ensures
            *r == old(self).value(),
            final(self).value() == *final(r),
            *old(self) is Owned <==> *final(self) is Owned,
    {
        match self {
            CowMut::Owned(it) => it,
            CowMut::Borrowed(it) => &mut **it,
        }
    }
}

impl<T: Default> Default for CowMut<'_, T> {
    /// An owned default value.
    fn default() -> (r: Self)
        ensures
            r is Owned,
            T::default.ensures((), r.value()),
    {
        CowMut::Owned(T::default())
    }
}

} // verus!
