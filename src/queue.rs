//! The bounded ring buffer of `circular_queue`, as seen by the proofs.
//!
//! A queue's contents are named by `queue_items` (oldest first) and its bound
//! by `queue_capacity`; each wrapper below states what the crate's method does
//! to them.

use vstd::prelude::*;
use circular_queue::CircularQueue;
use crate::models::TimestampedValue;

verus! {

#[verifier::external_type_specification]
#[verifier::external_body]
#[verifier::reject_recursive_types(T)]
pub struct ExCircularQueue<T>(CircularQueue<T>);

/// The samples a queue holds, oldest first.
pub uninterp spec fn queue_items(q: CircularQueue<TimestampedValue>) -> Seq<TimestampedValue>;

/// The capacity a queue was made with.
pub uninterp spec fn queue_capacity(q: CircularQueue<TimestampedValue>) -> nat;

/// The contents after pushing `x` onto a ring of capacity `cap` that holds `s`:
/// a full ring drops its oldest item, and a ring of capacity zero keeps nothing.
pub open spec fn ring_push<T>(s: Seq<T>, cap: nat, x: T) -> Seq<T> {
    if cap == 0 {
        s
    } else if s.len() < cap {
        s.push(x)
    } else {
        s.drop_first().push(x)
    }
}

/// Relies on `CircularQueue::with_capacity`: an empty queue with that bound.
#[verifier::external_body]
pub(crate) fn queue_new(capacity: usize) -> (q: CircularQueue<TimestampedValue>)
    ensures
        queue_items(q) == Seq::<TimestampedValue>::empty(),
        queue_capacity(q) == capacity,
{
    CircularQueue::with_capacity(capacity)
}

/// Relies on `CircularQueue::push`: the item becomes the newest; once the queue
/// is full the oldest one is overwritten; with capacity zero nothing is kept.
#[verifier::external_body]
pub(crate) fn queue_push(q: &mut CircularQueue<TimestampedValue>, item: TimestampedValue)
    ensures
        queue_capacity(*final(q)) == queue_capacity(*old(q)),
        queue_items(*final(q)) == ring_push(queue_items(*old(q)), queue_capacity(*old(q)), item),
{
    q.push(item);
}

/// Relies on `CircularQueue::clear`: no items are left, the bound stays.
#[verifier::external_body]
pub(crate) fn queue_clear(q: &mut CircularQueue<TimestampedValue>)
    ensures
        queue_capacity(*final(q)) == queue_capacity(*old(q)),
        queue_items(*final(q)) == Seq::<TimestampedValue>::empty(),
{
    q.clear();
}

/// Relies on `CircularQueue::asc_iter`: the items from the oldest to the newest.
#[verifier::external_body]
pub(crate) fn queue_to_vec(q: &CircularQueue<TimestampedValue>) -> (v: Vec<TimestampedValue>)
    ensures
        v@ == queue_items(*q),
{
    q.asc_iter().copied().collect()
}

/// Relies on `CircularQueue::len`: the number of items held.
#[verifier::external_body]
pub(crate) fn queue_len(q: &CircularQueue<TimestampedValue>) -> (n: usize)
    ensures
        n == queue_items(*q).len(),
{
    q.len()
}

} // verus!
