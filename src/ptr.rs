//! A nullable address with a tag of `N` bits packed into one word.
use core::marker::PhantomData;
use vstd::prelude::*;

use core::cmp::Ordering;
use vstd::arithmetic::power2::pow2;
use vstd::std_specs::cmp::PartialEqSpec;

use crate::bits::{
    add_word, address_of, compose_spec, mask_of, sub_word, tag_of, word_modulus,
    wrapping_add_word, wrapping_sub_word,
};

verus! {

/// An address of a `T` and an `N`-bit tag, packed into one machine word.
///
/// The tag takes the low `N` bits, the address the rest. Addresses must be
/// aligned to at least `2^N` bytes for the pair to come back intact; nothing
/// here checks it. The value does not own the `T`.
///
/// Equality, order and hashing go by the packed word.
#[derive(Debug, Ord, Hash)]
pub struct MarkedPtr<T, const N: usize> {
    inner: usize,
    _marker: PhantomData<T>,
}

impl<T, const N: usize> View for MarkedPtr<T, N> {
    type V = usize;

    /// The packed word.
    closed spec fn view(&self) -> usize {
        self.inner
    }
}

impl<T, const N: usize> MarkedPtr<T, N> {
    /// The number of tag bits.
    pub fn tag_bits() -> (r: usize)
        ensures
            r == N,
    {
        N
    }

    /// The mask of the tag field, `2^N - 1`.
    pub fn tag_mask() -> (r: usize)
        requires
            N <= usize::BITS,
        ensures
            r == mask_of(N as nat),
    {
        crate::bits::mask(N)
    }

    /// The mask of the address field, the complement of the tag mask.
    pub fn pointer_mask() -> (r: usize)
        requires
            N <= usize::BITS,
        ensures
            r == !mask_of(N as nat),
    {
        !crate::bits::mask(N)
    }

    /// The null address with a zero tag.
    pub fn null() -> (r: Self)
        ensures
            r@ == 0,
            address_of(r@, N as nat) == 0,
            tag_of(r@, N as nat) == 0,
    {
        proof {
            crate::bits::lemma_zero_fields(N as nat);
        }
        Self::new(0)
    }

    /// The address `addr` with a zero tag; the word is `addr` as it is.
    pub fn new(addr: usize) -> (r: Self)
        ensures
            r@ == addr,
    {
        MarkedPtr { inner: addr, _marker: PhantomData }
    }

    /// The value that holds `word`.
    pub closed spec fn from_word(word: usize) -> Self {
        MarkedPtr { inner: word, _marker: PhantomData }
    }

    /// Takes a packed word as it is.
    pub fn from_usize(val: usize) -> (r: Self)
        ensures
            r == Self::from_word(val),
            r@ == val,
    {
        MarkedPtr { inner: val, _marker: PhantomData }
    }

    /// Returns the packed word.
    pub fn into_usize(self) -> (r: usize)
        ensures
            r == self@,
    {
        self.inner
    }

    /// The same word, read as an address of a `U`.
    pub fn cast<U>(self) -> (r: MarkedPtr<U, N>)
        ensures
            r@ == self@,
    {
        MarkedPtr { inner: self.inner, _marker: PhantomData }
    }

    /// Packs `addr` and the low `N` bits of `tag`.
    pub fn compose(addr: usize, tag: usize) -> (r: Self)
        requires
            N <= usize::BITS,
        ensures
            r@ == compose_spec(addr, tag, N as nat),
    {
        Self::new(crate::bits::compose(addr, tag, N))
    }

    /// True when the address field is zero, whatever the tag.
    pub fn is_null(self) -> (r: bool)
        requires
            N <= usize::BITS,
        ensures
            r == (address_of(self@, N as nat) == 0),
    {
        self.decompose_ptr() == 0
    }

    /// The same address with a zero tag.
    pub fn clear_tag(self) -> (r: Self)
        requires
            N <= usize::BITS,
        ensures
            r@ == address_of(self@, N as nat),
            address_of(r@, N as nat) == address_of(self@, N as nat),
            tag_of(r@, N as nat) == 0,
    {
        let addr = self.decompose_ptr();
        proof {
            crate::bits::lemma_address_field(self@, N as nat);
        }
        Self::new(addr)
    }

    /// The pointer with a zero tag, and the tag that was taken off.
    pub fn split_tag(self) -> (r: (Self, usize))
        requires
            N <= usize::BITS,
        ensures
            r.0@ == address_of(self@, N as nat),
            r.1 == tag_of(self@, N as nat),
    {
        let (addr, tag) = self.decompose();
        (Self::new(addr), tag)
    }

    /// The same address with the low `N` bits of `tag` as its tag.
    pub fn set_tag(self, tag: usize) -> (r: Self)
        requires
            N <= usize::BITS,
        ensures
            r@ == compose_spec(address_of(self@, N as nat), tag, N as nat),
            address_of(r@, N as nat) == address_of(self@, N as nat),
            tag_of(r@, N as nat) == tag & mask_of(N as nat),
    {
        let addr = self.decompose_ptr();
        proof {
            crate::bits::lemma_fields_of_compose(addr, tag, N as nat);
            crate::bits::lemma_address_field(self@, N as nat);
        }
        Self::compose(addr, tag)
    }

    /// Replaces the tag with `func` of the current tag, cut to `N` bits.
    ///
    /// Whatever `func` returns, only the tag field changes.
    pub fn update_tag<F: FnOnce(usize) -> usize>(self, func: F) -> (r: Self)
        requires
            N <= usize::BITS,
            func.requires((tag_of(self@, N as nat),)),
        ensures
            address_of(r@, N as nat) == address_of(self@, N as nat),
            exists|t: usize|
                {
                    &&& #[trigger] func.ensures((tag_of(self@, N as nat),), t)
                    &&& r@ == compose_spec(address_of(self@, N as nat), t, N as nat)
                    &&& tag_of(r@, N as nat) == t & mask_of(N as nat)
                },
    {
        let (addr, tag) = self.decompose();
        let t = func(tag);
        proof {
            crate::bits::lemma_fields_of_compose(addr, t, N as nat);
            crate::bits::lemma_address_field(self@, N as nat);
        }
        Self::compose(addr, t)
    }

    /// Adds `value` to the whole packed word, wrapping at the top of the word.
    ///
    /// A carry out of the tag field runs into the address field.
    pub fn add_tag(self, value: usize) -> (r: Self)
        ensures
            r@ == add_word(self@, value),
    {
        Self::from_usize(wrapping_add_word(self.into_usize(), value))
    }

    /// Subtracts `value` from the whole packed word, wrapping at zero.
    ///
    /// A borrow out of the tag field runs into the address field.
    pub fn sub_tag(self, value: usize) -> (r: Self)
        ensures
            r@ == sub_word(self@, value),
    {
        Self::from_usize(wrapping_sub_word(self.into_usize(), value))
    }

    /// The address field and the tag field.
    pub fn decompose(self) -> (r: (usize, usize))
        requires
            N <= usize::BITS,
        ensures
            r == (address_of(self@, N as nat), tag_of(self@, N as nat)),
    {
        (self.decompose_ptr(), self.decompose_tag())
    }

    /// The address field.
    pub fn decompose_ptr(self) -> (r: usize)
        requires
            N <= usize::BITS,
        ensures
            r == address_of(self@, N as nat),
    {
        crate::bits::decompose_ptr(self.inner, N)
    }

    /// The tag field.
    pub fn decompose_tag(self) -> (r: usize)
        requires
            N <= usize::BITS,
        ensures
            r == tag_of(self@, N as nat),
    {
        crate::bits::decompose_tag(self.inner, N)
    }
}

impl<T, const N: usize> Default for MarkedPtr<T, N> {
    /// The null pointer with a zero tag.
    fn default() -> (r: Self)
        ensures
            r@ == 0,
    {
        Self::new(0)
    }
}

impl<T, const N: usize> PartialEq for MarkedPtr<T, N> {
    fn eq(&self, other: &Self) -> (r: bool) {
        self.inner == other.inner
    }
}

impl<T, const N: usize> vstd::std_specs::cmp::PartialEqSpecImpl for MarkedPtr<T, N> {
    open spec fn obeys_eq_spec() -> bool {
        true
    }

    open spec fn eq_spec(&self, other: &Self) -> bool {
        self@ == other@
    }
}

impl<T, const N: usize> Eq for MarkedPtr<T, N> {
}

/// The order of two packed words.
pub open spec fn word_order(a: usize, b: usize) -> Ordering {
    if a < b {
        Ordering::Less
    } else if a == b {
        Ordering::Equal
    } else {
        Ordering::Greater
    }
}

impl<T, const N: usize> PartialOrd for MarkedPtr<T, N> {
    fn partial_cmp(&self, other: &Self) -> (r: Option<Ordering>) {
        if self.inner < other.inner {
            Some(Ordering::Less)
        } else if self.inner == other.inner {
            Some(Ordering::Equal)
        } else {
            Some(Ordering::Greater)
        }
    }
}

impl<T, const N: usize> vstd::std_specs::cmp::PartialOrdSpecImpl for MarkedPtr<T, N> {
    open spec fn obeys_partial_cmp_spec() -> bool {
        true
    }

    open spec fn partial_cmp_spec(&self, other: &Self) -> Option<Ordering> {
        Some(word_order(self@, other@))
    }
}

impl<T, const N: usize> Clone for MarkedPtr<T, N> {
    fn clone(&self) -> (r: Self)
        ensures
            r == *self,
    {
        *self
    }
}

impl<T, const N: usize> Copy for MarkedPtr<T, N> {
}

/// The word after `count` steps of `add_tag(1)` from `word`.
pub open spec fn add_tag_steps(word: usize, count: nat) -> usize
    decreases count,
{
    if count == 0 {
        word
    } else {
        add_word(add_tag_steps(word, (count - 1) as nat), 1)
    }
}

/// Stepping the tag one at a time moves the whole word: after `count` steps it
/// is `word + count`, wrapped at the top of the word.
pub proof fn lemma_add_tag_steps(word: usize, count: nat)
    ensures
        add_tag_steps(word, count) as int == (word as int + count) % word_modulus(),
    decreases count,
{
    if count == 0 {
        vstd::arithmetic::div_mod::lemma_small_mod(word as nat, word_modulus() as nat);
    } else {
        lemma_add_tag_steps(word, (count - 1) as nat);
        let prev = add_tag_steps(word, (count - 1) as nat);
        vstd::arithmetic::div_mod::lemma_add_mod_noop(
            word as int + count - 1,
            1,
            word_modulus(),
        );
        vstd::arithmetic::div_mod::lemma_small_mod(1, word_modulus() as nat);
        vstd::arithmetic::div_mod::lemma_mod_bound(prev as int + 1, word_modulus());
    }
}

/// `2^tag_bits` steps of `add_tag(1)` from an address with a zero tag leave a
/// zero tag and carry one into the address field: the word becomes
/// `addr + 2^tag_bits`, wrapped at the top of the word.
pub proof fn lemma_tag_cycle_carries(addr: usize, tag_bits: nat)
    requires
        tag_bits <= usize::BITS,
        addr & mask_of(tag_bits) == 0,
    ensures
        add_tag_steps(addr, pow2(tag_bits)) as int == (addr as int + pow2(tag_bits))
            % word_modulus(),
        tag_of(add_tag_steps(addr, pow2(tag_bits)), tag_bits) == 0,
{
    let k = pow2(tag_bits) as int;
    let w = add_tag_steps(addr, pow2(tag_bits));
    lemma_add_tag_steps(addr, pow2(tag_bits));
    vstd::layout::unsigned_int_max_values();
    vstd::arithmetic::power2::lemma_pow2_pos(tag_bits);
    vstd::arithmetic::power2::lemma_pow2_pos((usize::BITS - tag_bits) as nat);
    vstd::arithmetic::power2::lemma_pow2_adds(tag_bits, (usize::BITS - tag_bits) as nat);
    let rest = pow2((usize::BITS - tag_bits) as nat) as int;
    assert(word_modulus() == k * rest);
    vstd::arithmetic::div_mod::lemma_mod_mod(addr as int + k, k, rest);
    crate::bits::lemma_mask_is_mod(w, tag_bits);
    crate::bits::lemma_mask_is_mod(addr, tag_bits);
    vstd::arithmetic::div_mod::lemma_mod_add_multiples_vanish(addr as int, k);
}

/// With a tag field as wide as the word, `2^N` steps of `add_tag(1)` from the
/// null address come back to the word they started from. With any narrower
/// tag field they do not: the carry reaches the address field.
pub proof fn lemma_full_width_tag_cycle(addr: usize)
    requires
        addr & mask_of(usize::BITS as nat) == 0,
    ensures
        add_tag_steps(addr, pow2(usize::BITS as nat)) == addr,
{
    lemma_tag_cycle_carries(addr, usize::BITS as nat);
    vstd::layout::unsigned_int_max_values();
    vstd::arithmetic::div_mod::lemma_mod_add_multiples_vanish(addr as int, word_modulus());
    vstd::arithmetic::div_mod::lemma_small_mod(addr as nat, word_modulus() as nat);
}

/// Two tagged pointers with the same address field and the same tag field are
/// the same word, so they are equal, order as equal and hash alike, however
/// each was built.
pub proof fn lemma_equal_by_fields<T, const N: usize>(a: MarkedPtr<T, N>, b: MarkedPtr<T, N>)
    requires
        address_of(a@, N as nat) == address_of(b@, N as nat),
        tag_of(a@, N as nat) == tag_of(b@, N as nat),
    ensures
        a@ == b@,
        a.eq_spec(&b),
{
    let m = mask_of(N as nat);
    let x = a@;
    let y = b@;
    assert(x & !m == y & !m && x & m == y & m ==> x == y) by (bit_vector);
}

} // verus!
