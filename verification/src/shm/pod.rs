//! Types whose values may live in shared memory.
use vstd::prelude::*;

verus! {

/// Marker for plain-data types safe to place in shared memory: no heap
/// pointers, no drop glue, every bit pattern of their size a valid value.
pub trait Pod: Sized + Copy + 'static {}

impl Pod for u8 {}
impl Pod for u16 {}
impl Pod for u32 {}
impl Pod for u64 {}
impl Pod for u128 {}
impl Pod for i8 {}
impl Pod for i16 {}
impl Pod for i32 {}
impl Pod for i64 {}
impl Pod for i128 {}
/// Pointer-width integers: both ends of a channel must share the
/// architecture.
impl Pod for usize {}
impl Pod for isize {}
impl<T: Pod, const N: usize> Pod for [T; N] {}

} // verus!
