//! Pointer-sized words that carry a small integer tag in their low bits.
//!
//! [`bits`] packs an address and a tag into one word and splits it again;
//! [`MarkedPtr`] and [`MarkedNonNull`] are typed values over such a word, and
//! [`AtomicMarkedPtr`] holds one in an atomic cell.
pub mod atomic;
pub mod bits;
pub mod non_null;
pub mod ptr;

pub use atomic::AtomicMarkedPtr;
pub use non_null::{MarkedNonNull, Null};
pub use ptr::MarkedPtr;
