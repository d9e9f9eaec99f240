//! A tagged pointer in one atomic word, shared between threads.
use core::marker::PhantomData;
use core::sync::atomic::{AtomicUsize, Ordering};
use vstd::prelude::*;

use crate::ptr::MarkedPtr;

verus! {

/// True for the orderings that a plain load accepts.
pub open spec fn is_load_ordering(order: Ordering) -> bool {
    !(order is Release) && !(order is AcqRel)
}

/// True for the orderings that a plain store accepts.
pub open spec fn is_store_ordering(order: Ordering) -> bool {
    !(order is Acquire) && !(order is AcqRel)
}

/// Relies on `AtomicUsize::compare_exchange`: it writes `new` exactly when the
/// cell holds `current`, and returns the value it found, `Ok` when it wrote.
/// It panics on a failure ordering that a load does not accept.
#[verifier::external_body]
fn compare_exchange_word(
    cell: &AtomicUsize,
    current: usize,
    new: usize,
    success: Ordering,
    failure: Ordering,
) -> (r: Result<usize, usize>)
    requires
        is_load_ordering(failure),
    ensures
        r matches Ok(v) ==> v == current,
        r matches Err(v) ==> v != current,
{
    cell.compare_exchange(current, new, success, failure)
}

/// Relies on `AtomicUsize::compare_exchange_weak`: a success returns the value
/// found, which is `current`; it may fail even when the cell holds `current`.
/// It panics on a failure ordering that a load does not accept.
#[verifier::external_body]
fn compare_exchange_weak_word(
    cell: &AtomicUsize,
    current: usize,
    new: usize,
    success: Ordering,
    failure: Ordering,
) -> (r: Result<usize, usize>)
    requires
        is_load_ordering(failure),
    ensures
        r matches Ok(v) ==> v == current,
{
    cell.compare_exchange_weak(current, new, success, failure)
}

/// A [`MarkedPtr`] held in one atomic word.
///
/// Every operation reads or writes the whole packed word at once with the
/// ordering that the caller gives. What a load returns depends on the other
/// threads, so only what holds of every outcome is stated.
pub struct AtomicMarkedPtr<T, const N: usize> {
    ptr: AtomicUsize,
    _marker: PhantomData<T>,
}

impl<T, const N: usize> AtomicMarkedPtr<T, N> {
    /// A cell that holds the word of `ptr`.
    pub fn new(ptr: MarkedPtr<T, N>) -> (r: Self) {
        AtomicMarkedPtr { ptr: AtomicUsize::new(ptr.into_usize()), _marker: PhantomData }
    }

    /// A cell that holds the null pointer with a zero tag.
    pub fn null() -> (r: Self) {
        Self::new(MarkedPtr::null())
    }

    /// Reads the word.
    pub fn load(&self, order: Ordering) -> (r: MarkedPtr<T, N>)
        requires
            is_load_ordering(order),
    {
        MarkedPtr::from_usize(self.ptr.load(order))
    }

    /// Writes the word of `ptr`.
    pub fn store(&self, ptr: MarkedPtr<T, N>, order: Ordering)
        requires
            is_store_ordering(order),
    {
        self.ptr.store(ptr.into_usize(), order)
    }

    /// Writes the word of `ptr` and returns the word it replaced.
    pub fn swap(&self, ptr: MarkedPtr<T, N>, order: Ordering) -> (r: MarkedPtr<T, N>) {
        MarkedPtr::from_usize(self.ptr.swap(ptr.into_usize(), order))
    }

    /// Writes `new` if the cell holds the word of `current`, tag included.
    ///
    /// Returns `Ok` with the word it replaced, which is `current`, or `Err`
    /// with the word it found instead, which differs from `current`.
    pub fn compare_exchange(
        &self,
        current: MarkedPtr<T, N>,
        new: MarkedPtr<T, N>,
        success: Ordering,
        failure: Ordering,
    ) -> (r: Result<MarkedPtr<T, N>, MarkedPtr<T, N>>)
        requires
            is_load_ordering(failure),
        ensures
            r matches Ok(p) ==> p@ == current@,
            r matches Err(p) ==> p@ != current@,
    {
        match compare_exchange_word(&self.ptr, current.into_usize(), new.into_usize(), success, failure) {
            Ok(w) => Ok(MarkedPtr::from_usize(w)),
            Err(w) => Err(MarkedPtr::from_usize(w)),
        }
    }

    /// Like [`compare_exchange`](Self::compare_exchange), but it may fail even
    /// when the cell holds `current`; call it in a loop.
    pub fn compare_exchange_weak(
        &self,
        current: MarkedPtr<T, N>,
        new: MarkedPtr<T, N>,
        success: Ordering,
        failure: Ordering,
    ) -> (r: Result<MarkedPtr<T, N>, MarkedPtr<T, N>>)
        requires
            is_load_ordering(failure),
        ensures
            r matches Ok(p) ==> p@ == current@,
    {
        match compare_exchange_weak_word(
            &self.ptr,
            current.into_usize(),
            new.into_usize(),
            success,
            failure,
        ) {
            Ok(w) => Ok(MarkedPtr::from_usize(w)),
            Err(w) => Err(MarkedPtr::from_usize(w)),
        }
    }

    /// Adds `value` to the whole word, wrapping at the top, and returns the
    /// word it replaced. As with [`MarkedPtr::add_tag`], a carry out of the
    /// tag field runs into the address field.
    pub fn fetch_add(&self, value: usize, order: Ordering) -> (r: MarkedPtr<T, N>) {
        MarkedPtr::from_usize(self.ptr.fetch_add(value, order))
    }

    /// Subtracts `value` from the whole word, wrapping at zero, and returns the
    /// word it replaced. As with [`MarkedPtr::sub_tag`], a borrow out of the
    /// tag field runs into the address field.
    pub fn fetch_sub(&self, value: usize, order: Ordering) -> (r: MarkedPtr<T, N>) {
        MarkedPtr::from_usize(self.ptr.fetch_sub(value, order))
    }
}

} // verus!
