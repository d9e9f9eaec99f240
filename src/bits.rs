//! Packing an address and a tag into one machine word, and splitting it again.
use vstd::arithmetic::power2::pow2;
use vstd::prelude::*;

verus! {

/// The mask that selects the low `tag_bits` bits of a word: `2^tag_bits - 1`.
pub open spec fn mask_of(tag_bits: nat) -> usize {
    (pow2(tag_bits) - 1) as usize
}

/// Returns `2^tag_bits - 1`, the mask of the tag field.
pub fn mask(tag_bits: usize) -> (r: usize)
    requires
        tag_bits <= usize::BITS,
    ensures
        r == mask_of(tag_bits as nat),
        r as int == pow2(tag_bits as nat) - 1,
{
    if tag_bits < usize::BITS as usize {
        proof {
            vstd::bits::lemma_usize_pow2_no_overflow(tag_bits as nat);
            vstd::bits::lemma_usize_shl_is_mul(1, tag_bits);
        }
        (1usize << tag_bits) - 1
    } else {
        proof {
            vstd::layout::unsigned_int_max_values();
        }
        usize::MAX
    }
}

/// The word that holds the high bits of `addr` and the low `tag_bits` bits of `tag`.
pub open spec fn compose_spec(addr: usize, tag: usize, tag_bits: nat) -> usize {
    (addr & !mask_of(tag_bits)) | (tag & mask_of(tag_bits))
}

/// The address field of `word`: all but its low `tag_bits` bits.
pub open spec fn address_of(word: usize, tag_bits: nat) -> usize {
    word & !mask_of(tag_bits)
}

/// The tag field of `word`: its low `tag_bits` bits.
pub open spec fn tag_of(word: usize, tag_bits: nat) -> usize {
    word & mask_of(tag_bits)
}

/// Taking the low `tag_bits` bits of a word is taking it modulo `2^tag_bits`.
pub proof fn lemma_mask_is_mod(x: usize, tag_bits: nat)
    requires
        tag_bits <= usize::BITS,
    ensures
        (x & mask_of(tag_bits)) as int == x as int % (pow2(tag_bits) as int),
        x as int <= mask_of(tag_bits) ==> x & mask_of(tag_bits) == x,
{
    let m = mask_of(tag_bits);
    if tag_bits < usize::BITS {
        vstd::bits::lemma_usize_pow2_no_overflow(tag_bits);
        vstd::bits::lemma_usize_low_bits_mask_is_mod(x, tag_bits);
        assert(vstd::bits::low_bits_mask(tag_bits) as usize == m);
    } else {
        vstd::layout::unsigned_int_max_values();
        assert(m == usize::MAX);
        assert(!0usize <= m);
        assert(!0usize <= m ==> x & m == x) by (bit_vector);
        vstd::arithmetic::div_mod::lemma_small_mod(x as nat, pow2(tag_bits));
    }
    if x as int <= m {
        vstd::arithmetic::power2::lemma_pow2_pos(tag_bits);
        vstd::arithmetic::div_mod::lemma_small_mod(x as nat, pow2(tag_bits));
    }
}

/// The number of distinct machine words, `2^usize::BITS`.
pub open spec fn word_modulus() -> int {
    usize::MAX as int + 1
}

/// `word + delta`, wrapping around at the top of the machine word.
pub open spec fn add_word(word: usize, delta: usize) -> usize {
    ((word as int + delta as int) % word_modulus()) as usize
}

/// `word - delta`, wrapping around at zero.
pub open spec fn sub_word(word: usize, delta: usize) -> usize {
    ((word as int - delta as int) % word_modulus()) as usize
}

/// Adds `delta` to the whole word, wrapping around at the top.
pub(crate) fn wrapping_add_word(word: usize, delta: usize) -> (r: usize)
    ensures
        r == add_word(word, delta),
{
    let r = word.wrapping_add(delta);
    proof {
        let s = word as int + delta as int;
        if s > usize::MAX {
            vstd::arithmetic::div_mod::lemma_mod_sub_multiples_vanish(s, word_modulus());
            vstd::arithmetic::div_mod::lemma_small_mod((s - word_modulus()) as nat, word_modulus() as nat);
        } else {
            vstd::arithmetic::div_mod::lemma_small_mod(s as nat, word_modulus() as nat);
        }
    }
    r
}

/// Subtracts `delta` from the whole word, wrapping around at zero.
pub(crate) fn wrapping_sub_word(word: usize, delta: usize) -> (r: usize)
    ensures
        r == sub_word(word, delta),
{
    let r = word.wrapping_sub(delta);
    proof {
        let s = word as int - delta as int;
        if s < 0 {
            vstd::arithmetic::div_mod::lemma_mod_add_multiples_vanish(s, word_modulus());
            vstd::arithmetic::div_mod::lemma_small_mod((s + word_modulus()) as nat, word_modulus() as nat);
        } else {
            vstd::arithmetic::div_mod::lemma_small_mod(s as nat, word_modulus() as nat);
        }
    }
    r
}

/// Packs `addr` and `tag` into one word: `(addr & !mask) | (tag & mask)`.
///
/// Bits of `tag` above the tag field are dropped; low bits of `addr` inside the
/// tag field are overwritten.
pub fn compose(addr: usize, tag: usize, tag_bits: usize) -> (r: usize)
    requires
        tag_bits <= usize::BITS,
    ensures
        r == compose_spec(addr, tag, tag_bits as nat),
{
    let m = mask(tag_bits);
    (addr & !m) | (tag & m)
}

/// Returns the address field of `word`.
pub fn decompose_ptr(word: usize, tag_bits: usize) -> (r: usize)
    requires
        tag_bits <= usize::BITS,
    ensures
        r == address_of(word, tag_bits as nat),
{
    word & !mask(tag_bits)
}

/// Returns the tag field of `word`.
pub fn decompose_tag(word: usize, tag_bits: usize) -> (r: usize)
    requires
        tag_bits <= usize::BITS,
    ensures
        r == tag_of(word, tag_bits as nat),
        r as int == word as int % (pow2(tag_bits as nat) as int),
{
    proof {
        lemma_mask_is_mod(word, tag_bits as nat);
    }
    word & mask(tag_bits)
}

/// Splits `word` into its address field and its tag field.
pub fn decompose(word: usize, tag_bits: usize) -> (r: (usize, usize))
    requires
        tag_bits <= usize::BITS,
    ensures
        r == (address_of(word, tag_bits as nat), tag_of(word, tag_bits as nat)),
{
    (decompose_ptr(word, tag_bits), decompose_tag(word, tag_bits))
}

/// An aligned address and a tag that fits the tag field come back unchanged
/// from packing and splitting.
pub proof fn lemma_compose_decompose(addr: usize, tag: usize, tag_bits: nat)
    requires
        tag_bits <= usize::BITS,
        tag < pow2(tag_bits),
        addr & mask_of(tag_bits) == 0,
    ensures
        address_of(compose_spec(addr, tag, tag_bits), tag_bits) == addr,
        tag_of(compose_spec(addr, tag, tag_bits), tag_bits) == tag,
{
    let m = mask_of(tag_bits);
    lemma_fields_of_compose(addr, tag, tag_bits);
    lemma_mask_is_mod(tag, tag_bits);
    vstd::arithmetic::div_mod::lemma_small_mod(tag as nat, pow2(tag_bits));
    assert(addr & m == 0 ==> addr & !m == addr) by (bit_vector);
}

/// The fields of a packed word are the masked inputs, whatever the inputs.
pub proof fn lemma_fields_of_compose(addr: usize, tag: usize, tag_bits: nat)
    ensures
        address_of(compose_spec(addr, tag, tag_bits), tag_bits) == addr & !mask_of(tag_bits),
        tag_of(compose_spec(addr, tag, tag_bits), tag_bits) == tag & mask_of(tag_bits),
{
    let m = mask_of(tag_bits);
    assert(((addr & !m) | (tag & m)) & !m == addr & !m) by (bit_vector);
    assert(((addr & !m) | (tag & m)) & m == tag & m) by (bit_vector);
}

/// The address field of a word has a zero tag and is its own address field.
pub proof fn lemma_address_field(word: usize, tag_bits: nat)
    ensures
        address_of(address_of(word, tag_bits), tag_bits) == address_of(word, tag_bits),
        tag_of(address_of(word, tag_bits), tag_bits) == 0,
{
    let m = mask_of(tag_bits);
    assert((word & !m) & !m == word & !m) by (bit_vector);
    assert((word & !m) & m == 0) by (bit_vector);
}

/// The zero word has a zero address and a zero tag.
pub proof fn lemma_zero_fields(tag_bits: nat)
    ensures
        address_of(0, tag_bits) == 0,
        tag_of(0, tag_bits) == 0,
{
    let m = mask_of(tag_bits);
    assert(0usize & !m == 0 && 0usize & m == 0) by (bit_vector);
}

/// Only the tag modulo `2^tag_bits` enters a packed word.
pub proof fn lemma_compose_truncates(addr: usize, tag: usize, tag_bits: nat)
    requires
        tag_bits <= usize::BITS,
    ensures
        compose_spec(addr, tag, tag_bits) == compose_spec(
            addr,
            (tag as int % (pow2(tag_bits) as int)) as usize,
            tag_bits,
        ),
{
    let m = mask_of(tag_bits);
    vstd::arithmetic::power2::lemma_pow2_pos(tag_bits);
    let t = (tag as int % (pow2(tag_bits) as int)) as usize;
    lemma_mask_is_mod(tag, tag_bits);
    lemma_mask_is_mod(t, tag_bits);
    vstd::arithmetic::div_mod::lemma_mod_twice(tag as int, pow2(tag_bits) as int);
}

} // verus!
