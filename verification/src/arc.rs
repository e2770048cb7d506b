//! Shared ownership of immutable values.
//!
//! An [`Arc`] is a handle to a value that any number of owners, on any number
//! of threads, hold together. The value lives as long as one handle does.
//! Handles are counted atomically; the counting, and the freeing of the value
//! with its last handle, are those of `std::sync::Arc`, which this type wraps.
//!
//! To the verifier a handle is what it holds: two handles are equal when the
//! values they hold are. That two handles are one allocation can be tested
//! ([`Arc::ptr_eq`]) but says, in a contract, no more than that they are
//! equal.

use vstd::prelude::*;
use vstd::std_specs::cmp::PartialEqSpec;

verus! {

/// `std::sync::Arc::clone`: another handle to the same allocation, and so to
/// the same value.
#[verifier::external_body]
fn std_clone<T>(p: &std::sync::Arc<T>) -> (r: std::sync::Arc<T>)
    ensures
        r == p,
{
    std::sync::Arc::clone(p)
}

/// `std::sync::Arc::ptr_eq`: whether the two handles point to the same
/// allocation. Where they do, they hold the same value.
#[verifier::external_body]
fn std_ptr_eq<T>(p: &std::sync::Arc<T>, q: &std::sync::Arc<T>) -> (r: bool)
    ensures
        r ==> p == q,
{
    std::sync::Arc::ptr_eq(p, q)
}

/// `std::sync::Arc::strong_count`: the number of handles to the allocation
/// at the moment of the call. Nothing is claimed of it: other owners may
/// come and go.
#[verifier::external_body]
fn std_strong_count<T>(p: &std::sync::Arc<T>) -> (r: usize) {
    std::sync::Arc::strong_count(p)
}

/// `std::sync::Arc::get_mut`: the value to write, if no other handle to the
/// allocation exists, else nothing. What is written through the reference is
/// what the handle holds afterwards; where nothing is handed out, the handle
/// is as it was.
#[verifier::external_body]
fn std_get_mut<T>(p: &mut std::sync::Arc<T>) -> (r: Option<&mut T>)
    ensures
        match r {
            Some(m) => *m == **old(p) && **final(p) == *final(m),
            None => *final(p) == *old(p),
        },
{
    std::sync::Arc::get_mut(p)
}

/// The most handles that one allocation is let to have. A count above it
/// is taken for a sign that handles are being leaked without end.
pub const MAX_REFCOUNT: usize = usize::MAX / 2;

/// Whether a count of handles says that there is one owner only.
pub fn is_sole(count: usize) -> (r: bool)
    ensures
        r == (count == 1),
{
    count == 1
}

/// Whether a count of handles, as it stood before one more was taken, is
/// beyond the limit.
pub fn is_over_limit(count_before: usize) -> (r: bool)
    ensures
        r == (count_before > MAX_REFCOUNT),
{
    count_before > MAX_REFCOUNT
}

/// A handle to a shared value.
#[derive(Debug, PartialOrd, Ord, Hash)]
pub struct Arc<T> {
    p: std::sync::Arc<T>,
}

impl<T> View for Arc<T> {
    type V = T;

    /// The value that the handle holds.
    closed spec fn view(&self) -> T {
        *self.p
    }
}

impl<T> Arc<T> {
    /// A handle is larger than what it holds, so that recursion on a tree
    /// may pass through the handles to its subtrees.
    pub proof fn lemma_view_decreases(self)
        ensures
            decreases_to!(self => self@),
    {
    }

    /// A new allocation that holds `value`, and the one handle to it.
    pub fn new(value: T) -> (h: Arc<T>)
        ensures
            h@ == value,
    {
        Arc { p: std::sync::Arc::new(value) }
    }

    /// Whether the two handles are one allocation, whatever it holds. Two
    /// handles that are one allocation hold the same value.
    pub fn ptr_eq(this: &Self, other: &Self) -> (r: bool)
        ensures
            r ==> *this == *other,
    {
        std_ptr_eq(&this.p, &other.p)
    }

    /// Whether this handle was the only one to its allocation when asked.
    pub fn is_unique(&self) -> bool {
        is_sole(std_strong_count(&self.p))
    }

    /// The value, to write, if this is the only handle to it; nothing if the
    /// value is shared.
    ///
    /// What is written through the reference is what the handle holds
    /// afterwards. Where nothing is handed out, the handle is as it was.
    pub fn get_mut(this: &mut Self) -> (r: Option<&mut T>)
        ensures
            match r {
                Some(m) => *m == old(this)@ && final(this)@ == *final(m),
                None => *final(this) == *old(this),
            },
    {
        if this.is_unique() {
            std_get_mut(&mut this.p)
        } else {
            None
        }
    }
}

impl<T> Clone for Arc<T> {
    /// Another handle to the same allocation. The value is not copied.
    fn clone(&self) -> (r: Self)
        ensures
            r == *self,
    {
        Arc { p: std_clone(&self.p) }
    }
}

impl<T> std::ops::Deref for Arc<T> {
    type Target = T;

    /// The value that the handle holds, to read.
    fn deref(&self) -> (r: &T)
        ensures
            *r == self@,
    {
        &*self.p
    }
}

impl<T: PartialEq> PartialEq for Arc<T> {
    /// Whether the two handles hold equal values. Two handles to one
    /// allocation do, and the values are not looked into.
    fn eq(&self, other: &Self) -> (r: bool) {
        Arc::ptr_eq(self, other) || *self.p == *other.p
    }
}

impl<T: PartialEq> vstd::std_specs::cmp::PartialEqSpecImpl for Arc<T> {
    /// Handles compare as their values do where the values compare by a rule
    /// under which each value equals itself.
    open spec fn obeys_eq_spec() -> bool {
        T::obeys_eq_spec() && forall|x: T| #[trigger] x.eq_spec(&x)
    }

    open spec fn eq_spec(&self, other: &Self) -> bool {
        self@.eq_spec(&other@)
    }
}

impl<T: Eq> Eq for Arc<T> {}

} // verus!
