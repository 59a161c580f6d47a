//! Byte buffers from the heap allocator that the coder shares with the
//! codecs around it.

use vstd::prelude::*;

verus! {

use brotli::{Allocator, HeapAlloc};

/// A buffer of `len` zero bytes.
///
/// This calls `HeapAlloc::<u8>::new(0).alloc_cell(len)` and is taken on
/// trust: the allocator fills a cell of the length asked for with clones
/// of the value it was made with, here 0. The lengths left out are those
/// at which the allocation cannot be made at all.
#[verifier::external_body]
pub(crate) fn alloc_cell(len: usize) -> (r: Vec<u8>)
    requires
        len <= isize::MAX,
    ensures
        r@ == Seq::new(len as nat, |i: int| 0u8),
{
    let cell: Box<[u8]> = HeapAlloc::<u8>::new(0).alloc_cell(len).into();
    cell.into_vec()
}

} // verus!
