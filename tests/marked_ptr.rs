use std::collections::hash_map::DefaultHasher;
use std::hash::{Hash, Hasher};

type MarkedPtr = conquer_pointer::MarkedPtr<i32, 2>;
type ErasedPtr = conquer_pointer::MarkedPtr<(), 2>;
type WidePtr = conquer_pointer::MarkedPtr<u64, 3>;

/// The address of a live `i32`, which is aligned to 4.
fn address(reference: &i32) -> usize {
    let text = format!("{:p}", reference);
    usize::from_str_radix(text.trim_start_matches("0x"), 16).unwrap()
}

fn hash_of(ptr: &MarkedPtr) -> u64 {
    let mut state = DefaultHasher::new();
    ptr.hash(&mut state);
    state.finish()
}

#[test]
fn cast() {
    let reference = &mut 1;
    let addr = address(reference);
    let ptr = MarkedPtr::compose(addr, 0b11);
    let cast: ErasedPtr = ptr.cast().set_tag(0b10);

    assert_eq!(cast.into_usize(), addr | 0b10);
    assert_eq!(cast.cast(), MarkedPtr::compose(addr, 0b10));
}

#[test]
fn from_usize() {
    let reference = &1;
    let addr = address(reference);
    let ptr = MarkedPtr::from_usize(addr | 0b1);
    assert_eq!(ptr.decompose(), (addr, 0b1));
}

#[test]
fn compose() {
    let reference = &mut 1;
    let addr = address(reference);
    let ptr1 = MarkedPtr::compose(addr, 0b11);
    let ptr2 = MarkedPtr::compose(addr, 0b111);
    // compose silently truncates excess bits, so ptr1 and ptr2 are identical
    assert_eq!(ptr1, ptr2);
    assert_eq!(ptr2.decompose(), (addr, 0b11));
}

#[test]
fn set_tag() {
    let reference = &mut 1;
    let addr = address(reference);
    let ptr = MarkedPtr::compose(addr, 0b11);
    // set_tag must silently truncate excess tag bits
    assert_eq!(ptr, ptr.set_tag(0b111));
}

#[test]
fn overflow_tag() {
    let reference = &mut 1;
    let addr = address(reference);
    let ptr = MarkedPtr::compose(addr, 0b11);

    // add must cause overflow (corrupt the pointer)
    assert_eq!(ptr.add_tag(1).into_usize(), addr + 0b11 + 1);
    // update must only overflow the tag bits
    assert_eq!(ptr.update_tag(|tag| tag + 1).decompose(), (addr, 0));
}

#[test]
fn underflow_tag() {
    let reference = &mut 1;
    let addr = address(reference);
    let ptr = MarkedPtr::new(addr);

    // sub_tag must underflow the entire pointer
    assert_eq!(ptr.sub_tag(1).into_usize(), addr - 1);
    // update_tag must only underflow the tag value
    assert_eq!(ptr.update_tag(|tag| tag.wrapping_sub(1)).decompose(), (addr, 0b11));
}

#[test]
fn masks_follow_tag_bits() {
    assert_eq!(MarkedPtr::tag_bits(), 2);
    assert_eq!(MarkedPtr::tag_mask(), 0b11);
    assert_eq!(MarkedPtr::pointer_mask(), !0b11);
    assert_eq!(WidePtr::tag_mask(), 0b111);
    assert_eq!(conquer_pointer::bits::mask(0), 0);
    assert_eq!(conquer_pointer::bits::mask(5), 31);
    assert_eq!(conquer_pointer::bits::mask(usize::BITS as usize), usize::MAX);
}

#[test]
fn free_functions_pack_and_split() {
    let word = conquer_pointer::bits::compose(0x1000, 0b1011, 2);
    assert_eq!(word, 0x1003);
    assert_eq!(conquer_pointer::bits::decompose_ptr(0x1003, 2), 0x1000);
    assert_eq!(conquer_pointer::bits::decompose_tag(0x1003, 2), 0b11);
    assert_eq!(conquer_pointer::bits::decompose(0x1003, 2), (0x1000, 0b11));
    // misaligned address bits under the tag field are overwritten
    assert_eq!(conquer_pointer::bits::compose(0x1003, 0b01, 2), 0x1001);
    // no tag bits at all: the whole word is the address
    assert_eq!(conquer_pointer::bits::decompose(0x1003, 0), (0x1003, 0));
}

#[test]
fn round_trip_of_aligned_address_and_small_tag() {
    let addr = 0x7f00_1238usize;
    for tag in 0..8usize {
        let ptr = WidePtr::compose(addr, tag);
        assert_eq!(ptr.decompose(), (addr, tag));
    }
}

#[test]
fn oversized_tag_is_taken_modulo() {
    let addr = 0x4000usize;
    for tag in [4usize, 5, 6, 7, 100, usize::MAX] {
        assert_eq!(MarkedPtr::compose(addr, tag), MarkedPtr::compose(addr, tag % 4));
    }
}

#[test]
fn null_splits_into_zero_address_and_zero_tag() {
    let ptr = MarkedPtr::null();
    assert_eq!(ptr.decompose(), (0, 0));
    assert_eq!(ptr.into_usize(), 0);
    assert!(ptr.is_null());
    assert_eq!(MarkedPtr::default(), ptr);
}

#[test]
fn tagged_null_is_still_null() {
    assert!(MarkedPtr::compose(0, 0b11).is_null());
    assert!(!MarkedPtr::compose(0x1000, 0).is_null());
}

#[test]
fn set_tag_replaces_only_the_tag() {
    let ptr = MarkedPtr::compose(0x2000, 0b01);
    let set = ptr.set_tag(0b110);
    assert_eq!(set.decompose_tag(), 0b10);
    assert_eq!(set.decompose_ptr(), 0x2000);
}

#[test]
fn clear_and_split_tag() {
    let ptr = MarkedPtr::compose(0x2000, 0b11);
    assert_eq!(ptr.clear_tag().decompose(), (0x2000, 0));
    assert_eq!(ptr.split_tag(), (MarkedPtr::new(0x2000), 0b11));
}

#[test]
fn update_tag_keeps_address_when_result_is_large() {
    let ptr = MarkedPtr::compose(0x2000, 0b10);
    assert_eq!(ptr.update_tag(|_| usize::MAX).decompose(), (0x2000, 0b11));
    assert_eq!(ptr.update_tag(|tag| tag << 8).decompose(), (0x2000, 0));
}

#[test]
fn add_tag_carries_through_whole_word() {
    let addr = 0x3000usize;
    let mut ptr = MarkedPtr::new(addr);
    for _ in 0..4 {
        ptr = ptr.add_tag(1);
    }
    assert_eq!(ptr.into_usize(), addr + 4);
    assert_eq!(ptr.decompose(), (addr + 4, 0));
    assert_ne!(ptr.into_usize(), addr);
}

#[test]
fn add_and_sub_wrap_at_word_ends() {
    assert_eq!(MarkedPtr::from_usize(usize::MAX).add_tag(1).into_usize(), 0);
    assert_eq!(MarkedPtr::null().sub_tag(1).into_usize(), usize::MAX);
    assert_eq!(MarkedPtr::compose(0x1000, 0b10).add_tag(1).decompose(), (0x1000, 0b11));
    assert_eq!(MarkedPtr::compose(0x1000, 0b10).sub_tag(1).decompose(), (0x1000, 0b01));
}

#[test]
fn equal_words_are_equal_however_built() {
    let addr = 0x5000usize;
    let composed = MarkedPtr::compose(addr, 0b10);
    let by_set_tag = MarkedPtr::compose(addr, 0b01).set_tag(0b10);
    let by_word = MarkedPtr::from_usize(addr | 0b10);
    assert_eq!(composed, by_set_tag);
    assert_eq!(composed, by_word);
    assert_eq!(hash_of(&composed), hash_of(&by_set_tag));
    assert_eq!(hash_of(&composed), hash_of(&by_word));
    assert_ne!(composed, MarkedPtr::compose(addr, 0b11));
}

#[test]
fn order_follows_the_packed_word() {
    let low = MarkedPtr::compose(0x1000, 0b11);
    let high = MarkedPtr::compose(0x2000, 0b00);
    assert!(low < high);
    assert!(MarkedPtr::compose(0x1000, 0b01) < low);
    assert_eq!(low.cmp(&high), std::cmp::Ordering::Less);
    assert_eq!(low.partial_cmp(&low), Some(std::cmp::Ordering::Equal));
    assert!(high > low);
}
