//! The ring of recent order ids, kept in a `circular_buffer::FixedCircularBuffer`,
//! and the random picks of `fastrand`. Nothing in this file is proved: each
//! contract restates what the crates document.

use crate::lob::order::OrderId;
use circular_buffer::FixedCircularBuffer;
use vstd::prelude::*;

verus! {

/// Order ids that each ring of recent orders remembers.
pub const ACTIVE_ORDER_BUFFER_SIZE: usize = 1000000;

/// `circular_buffer::FixedCircularBuffer`: a queue of at most `N` items that
/// drops its oldest item to make room for a new one.
#[verifier::external_type_specification]
#[verifier::external_body]
#[verifier::reject_recursive_types(T)]
pub struct ExFixedCircularBuffer<T, const N: usize>(FixedCircularBuffer<T, N>);

/// The ids that a ring holds, oldest first.
pub uninterp spec fn ring_contents(ring: &FixedCircularBuffer<OrderId, 1000000>) -> Seq<OrderId>;

/// `FixedCircularBuffer::boxed`: an empty ring on the heap.
#[verifier::external_body]
pub(crate) fn ring_boxed() -> (ring: Box<FixedCircularBuffer<OrderId, 1000000>>)
    ensures
        ring_contents(&ring) == Seq::<OrderId>::empty(),
{
    FixedCircularBuffer::boxed()
}

/// `CircularBuffer::push_back`: appends `id`. A ring that already holds
/// `ACTIVE_ORDER_BUFFER_SIZE` ids first drops its oldest id and returns it.
#[verifier::external_body]
pub(crate) fn ring_push_back(ring: &mut Box<FixedCircularBuffer<OrderId, 1000000>>, id: OrderId) -> (dropped:
    Option<OrderId>)
    ensures
        ring_contents(old(ring)).len() < ACTIVE_ORDER_BUFFER_SIZE ==> dropped is None
            && ring_contents(final(ring)) == ring_contents(old(ring)).push(id),
        ring_contents(old(ring)).len() >= ACTIVE_ORDER_BUFFER_SIZE ==> dropped == Some(
            ring_contents(old(ring))[0],
        ) && ring_contents(final(ring)) == ring_contents(old(ring)).drop_first().push(id),
{
    ring.push_back(id)
}

/// `<CircularBuffer as Index<usize>>::index`: the id at `index`, counted from
/// the oldest.
#[verifier::external_body]
pub(crate) fn ring_get(ring: &Box<FixedCircularBuffer<OrderId, 1000000>>, index: usize) -> (id:
    OrderId)
    requires
        index < ring_contents(ring).len(),
    ensures
        id == ring_contents(ring)[index as int],
{
    ring[index]
}

/// `fastrand::usize` on the range `0..n`: some number below `n`.
#[verifier::external_body]
pub(crate) fn random_below(n: usize) -> (pick: usize)
    requires
        n > 0,
    ensures
        pick < n,
{
    fastrand::usize(0..n)
}

} // verus!
