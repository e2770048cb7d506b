//! The difference between an old and a new amount.

use vstd::prelude::*;
use vstd::std_specs::cmp::PartialOrdSpec;
use vstd::std_specs::ops::SubSpec;
use core::cmp::Ordering;
use core::ops::Sub;

verus! {

/// How far a new amount lies above or below an old one.
#[derive(Clone, Copy, Debug)]
pub enum Delta<T> {
    Add(T),
    Sub(T),
}

/// Whether `a` is greater than `b`.
pub open spec fn exceeds<T: Ord>(a: T, b: T) -> bool {
    a.partial_cmp_spec(&b) == Some(Ordering::Greater)
}

/// The change that leads from `old` to `new`: the growth where `new` is the
/// greater, else the loss.
pub open spec fn delta_between<T: Ord + Sub<Output = T>>(old: T, new: T) -> Delta<T> {
    if exceeds(new, old) {
        Delta::Add(new.sub_spec(old))
    } else {
        Delta::Sub(old.sub_spec(new))
    }
}

impl<T: Ord + Sub<Output = T>> Delta<T> {
    /// The change that leads from `old` to `new`.
    ///
    /// The subtraction that is made must be one that `T` allows: the smaller
    /// amount is taken from the greater.
    pub fn new(old: T, new: T) -> (d: Delta<T>)
        requires
            T::obeys_partial_cmp_spec(),
            exceeds(new, old) ==> new.sub_req(old),
            !exceeds(new, old) ==> old.sub_req(new),
        ensures
            T::obeys_sub_spec() ==> d == delta_between(old, new),
            d is Add <==> exceeds(new, old),
    {
        if new > old {
            Delta::Add(new - old)
        } else {
            Delta::Sub(old - new)
        }
    }
}

impl Delta<usize> {
    /// The amount after the change.
    pub open spec fn applied(self, amount: int) -> int {
        match self {
            Delta::Add(n) => amount + n,
            Delta::Sub(n) => amount - n,
        }
    }
}

impl core::ops::AddAssign<Delta<usize>> for usize {
    /// Applies the change to the amount.
    fn add_assign(&mut self, rhs: Delta<usize>)
        requires
            0 <= rhs.applied(*old(self) as int) <= usize::MAX,
        ensures
            *final(self) == rhs.applied(*old(self) as int),
    {
        match rhs {
            Delta::Add(amt) => *self += amt,
            Delta::Sub(amt) => *self -= amt,
        }
    }
}

} // verus!
