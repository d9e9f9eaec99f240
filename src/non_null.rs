//! A tagged pointer whose address field is never zero.
use core::cmp::Ordering;
use core::marker::PhantomData;
use vstd::prelude::*;

use crate::bits::{address_of, compose_spec, mask_of, tag_of};
use crate::ptr::{word_order, MarkedPtr};

verus! {

/// The error of a construction whose address field came out zero.
#[derive(Debug, Clone, Copy, PartialEq, Eq, Structural)]
pub struct Null;

/// An address of a `T` and an `N`-bit tag packed into one word, like
/// [`MarkedPtr`], whose address field is never zero, whatever the tag.
///
/// Equality, order and hashing go by the packed word.
#[derive(Debug, Ord, Hash)]
pub struct MarkedNonNull<T, const N: usize> {
    inner: usize,
    _marker: PhantomData<T>,
}

impl<T, const N: usize> View for MarkedNonNull<T, N> {
    type V = usize;

    /// The packed word.
    closed spec fn view(&self) -> usize {
        self.inner
    }
}

impl<T, const N: usize> MarkedNonNull<T, N> {
    /// The address field is not zero.
    #[verifier::type_invariant]
    spec fn non_null(self) -> bool {
        address_of(self.inner, N as nat) != 0
    }

    /// Takes a packed word whose address field is known not to be zero.
    pub fn new_unchecked(word: usize) -> (r: Self)
        requires
            address_of(word, N as nat) != 0,
        ensures
            r@ == word,
    {
        MarkedNonNull { inner: word, _marker: PhantomData }
    }

    /// Takes a packed word as it is; fails when its address field is zero.
    pub fn from_usize(word: usize) -> (r: Result<Self, Null>)
        requires
            N <= usize::BITS,
        ensures
            r is Ok <==> address_of(word, N as nat) != 0,
            r matches Ok(p) ==> p@ == word,
    {
        if crate::bits::decompose_ptr(word, N) == 0 {
            Err(Null)
        } else {
            Ok(Self::new_unchecked(word))
        }
    }

    /// The address `addr` with a zero tag; fails when its address field is zero.
    pub fn new(addr: usize) -> (r: Result<Self, Null>)
        requires
            N <= usize::BITS,
        ensures
            r is Ok <==> address_of(addr, N as nat) != 0,
            r matches Ok(p) ==> p@ == addr,
    {
        Self::from_usize(addr)
    }

    /// The same word as a non-null pointer; fails when `ptr` is null.
    pub fn from_marked_ptr(ptr: MarkedPtr<T, N>) -> (r: Result<Self, Null>)
        requires
            N <= usize::BITS,
        ensures
            r is Ok <==> address_of(ptr@, N as nat) != 0,
            r matches Ok(p) ==> p@ == ptr@,
    {
        Self::from_usize(ptr.into_usize())
    }

    /// Packs `addr` and the low `N` bits of `tag`; fails when the address
    /// field of `addr` is zero.
    pub fn compose(addr: usize, tag: usize) -> (r: Result<Self, Null>)
        requires
            N <= usize::BITS,
        ensures
            r is Ok <==> address_of(addr, N as nat) != 0,
            r matches Ok(p) ==> p@ == compose_spec(addr, tag, N as nat),
    {
        let word = crate::bits::compose(addr, tag, N);
        proof {
            crate::bits::lemma_fields_of_compose(addr, tag, N as nat);
            crate::bits::lemma_address_field(addr, N as nat);
        }
        Self::from_usize(word)
    }

    /// The same word as a nullable tagged pointer.
    pub fn into_marked_ptr(self) -> (r: MarkedPtr<T, N>)
        ensures
            r == MarkedPtr::<T, N>::from_word(self@),
            r@ == self@,
    {
        MarkedPtr::from_usize(self.inner)
    }

    /// Returns the packed word.
    pub fn into_usize(self) -> (r: usize)
        ensures
            r == self@,
            N <= usize::BITS ==> address_of(r, N as nat) != 0,
    {
        proof {
            use_type_invariant(&self);
        }
        self.inner
    }

    /// The same word, read as an address of a `U`.
    pub fn cast<U>(self) -> (r: MarkedNonNull<U, N>)
        ensures
            r@ == self@,
    {
        proof {
            use_type_invariant(&self);
        }
        MarkedNonNull { inner: self.inner, _marker: PhantomData }
    }

    /// The same address with a zero tag.
    pub fn clear_tag(self) -> (r: Self)
        requires
            N <= usize::BITS,
        ensures
            r@ == address_of(self@, N as nat),
            tag_of(r@, N as nat) == 0,
    {
        proof {
            use_type_invariant(&self);
            crate::bits::lemma_address_field(self.inner, N as nat);
        }
        Self::new_unchecked(self.decompose_ptr())
    }

    /// The pointer with a zero tag, and the tag that was taken off.
    pub fn split_tag(self) -> (r: (Self, usize))
        requires
            N <= usize::BITS,
        ensures
            r.0@ == address_of(self@, N as nat),
            r.1 == tag_of(self@, N as nat),
    {
        (self.clear_tag(), self.decompose_tag())
    }

    /// The same address with the low `N` bits of `tag` as its tag.
    pub fn set_tag(self, tag: usize) -> (r: Self)
        requires
            N <= usize::BITS,
        ensures
            r@ == compose_spec(address_of(self@, N as nat), tag, N as nat),
            address_of(r@, N as nat) == address_of(self@, N as nat),
            tag_of(r@, N as nat) == tag & mask_of(N as nat),
    {
        proof {
            use_type_invariant(&self);
            crate::bits::lemma_fields_of_compose(self.inner & !mask_of(N as nat), tag, N as nat);
            crate::bits::lemma_address_field(self.inner, N as nat);
        }
        let word = crate::bits::compose(self.decompose_ptr(), tag, N);
        Self::new_unchecked(word)
    }

    /// Replaces the tag with `func` of the current tag, cut to `N` bits.
    ///
    /// Whatever `func` returns, only the tag field changes.
    pub fn update_tag<F: FnOnce(usize) -> usize>(self, func: F) -> (r: Self)
        requires
            N <= usize::BITS,
            func.requires((tag_of(self@, N as nat),)),
        ensures
            address_of(r@, N as nat) == address_of(self@, N as nat),
            exists|t: usize|
                {
                    &&& #[trigger] func.ensures((tag_of(self@, N as nat),), t)
                    &&& r@ == compose_spec(address_of(self@, N as nat), t, N as nat)
                    &&& tag_of(r@, N as nat) == t & mask_of(N as nat)
                },
    {
        let t = func(self.decompose_tag());
        self.set_tag(t)
    }

    /// The address field and the tag field.
    pub fn decompose(self) -> (r: (usize, usize))
        requires
            N <= usize::BITS,
        ensures
            r == (address_of(self@, N as nat), tag_of(self@, N as nat)),
            r.0 != 0,
    {
        (self.decompose_ptr(), self.decompose_tag())
    }

    /// The address field, which is not zero.
    pub fn decompose_ptr(self) -> (r: usize)
        requires
            N <= usize::BITS,
        ensures
            r == address_of(self@, N as nat),
            r != 0,
    {
        proof {
            use_type_invariant(&self);
        }
        crate::bits::decompose_ptr(self.inner, N)
    }

    /// The tag field.
    pub fn decompose_tag(self) -> (r: usize)
        requires
            N <= usize::BITS,
        ensures
            r == tag_of(self@, N as nat),
    {
        crate::bits::decompose_tag(self.inner, N)
    }
}

impl<T, const N: usize> From<MarkedNonNull<T, N>> for MarkedPtr<T, N> {
    fn from(ptr: MarkedNonNull<T, N>) -> (r: Self) {
        ptr.into_marked_ptr()
    }
}

impl<T, const N: usize> vstd::std_specs::convert::FromSpecImpl<MarkedNonNull<T, N>> for MarkedPtr<T, N> {
    open spec fn obeys_from_spec() -> bool {
        true
    }

    open spec fn from_spec(ptr: MarkedNonNull<T, N>) -> Self {
        MarkedPtr::from_word(ptr@)
    }
}

impl<T, const N: usize> PartialEq for MarkedNonNull<T, N> {
    fn eq(&self, other: &Self) -> (r: bool) {
        self.inner == other.inner
    }
}

impl<T, const N: usize> vstd::std_specs::cmp::PartialEqSpecImpl for MarkedNonNull<T, N> {
    open spec fn obeys_eq_spec() -> bool {
        true
    }

    open spec fn eq_spec(&self, other: &Self) -> bool {
        self@ == other@
    }
}

impl<T, const N: usize> Eq for MarkedNonNull<T, N> {
}

impl<T, const N: usize> PartialOrd for MarkedNonNull<T, N> {
    fn partial_cmp(&self, other: &Self) -> (r: Option<Ordering>) {
        if self.inner < other.inner {
            Some(Ordering::Less)
        } else if self.inner == other.inner {
            Some(Ordering::Equal)
        } else {
            Some(Ordering::Greater)
        }
    }
}

impl<T, const N: usize> vstd::std_specs::cmp::PartialOrdSpecImpl for MarkedNonNull<T, N> {
    open spec fn obeys_partial_cmp_spec() -> bool {
        true
    }

    open spec fn partial_cmp_spec(&self, other: &Self) -> Option<Ordering> {
        Some(word_order(self@, other@))
    }
}

impl<T, const N: usize> Clone for MarkedNonNull<T, N> {
    fn clone(&self) -> (r: Self)
        ensures
            r == *self,
    {
        *self
    }
}

impl<T, const N: usize> Copy for MarkedNonNull<T, N> {
}

/// An address whose tag field is clear is its own address field and has a
/// zero tag. So building a non-null pointer from it fails exactly when it is
/// zero, and otherwise splits back into the address and a zero tag.
pub proof fn lemma_non_null_from_aligned(addr: usize, tag_bits: nat)
    requires
        addr & mask_of(tag_bits) == 0,
    ensures
        address_of(addr, tag_bits) == addr,
        tag_of(addr, tag_bits) == 0,
        address_of(addr, tag_bits) != 0 <==> addr != 0,
{
    let m = mask_of(tag_bits);
    assert(addr & m == 0 ==> addr & !m == addr) by (bit_vector);
}

} // verus!
