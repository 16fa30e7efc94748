//! The order gateway: how many orders are moved at a time.

use vstd::layout::size_of;
use vstd::prelude::*;

verus! {

/// Bytes that one batch may take.
pub const BATCH_BYTE_SIZE: usize = 128;

/// The number of items of a type that fit a batch of `BATCH_BYTE_SIZE` bytes,
/// and 1 for an item that is larger than that.
pub open spec fn spec_batch_size<T>() -> nat {
    if BATCH_BYTE_SIZE as nat / size_of::<T>() == 0 {
        1
    } else {
        BATCH_BYTE_SIZE as nat / size_of::<T>()
    }
}

/// The number of items of type `T` that are moved at a time.
pub fn batch_size<T>() -> (n: usize)
    requires
        size_of::<T>() > 0,
    ensures
        n == spec_batch_size::<T>(),
        1 <= n <= BATCH_BYTE_SIZE,
{
    let elem_size = core::mem::size_of::<T>();
    let n = BATCH_BYTE_SIZE / elem_size;
    assert(n <= BATCH_BYTE_SIZE) by (nonlinear_arith)
        requires
            n == BATCH_BYTE_SIZE / elem_size,
            elem_size > 0,
    ;
    if n == 0 {
        1
    } else {
        n
    }
}

} // verus!
