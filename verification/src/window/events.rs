//! The queue of events waiting for a userspace window: the action ids of the
//! buttons that were clicked, oldest first.

use vstd::prelude::*;

use crossbeam_queue::SegQueue;

verus! {

/// The unbounded first-in-first-out queue of `crossbeam_queue`.
#[verifier::external_type_specification]
#[verifier::external_body]
#[verifier::reject_recursive_types(T)]
pub struct ExSegQueue<T>(crossbeam_queue::SegQueue<T>);

/// What a queue holds, oldest first.
pub uninterp spec fn queued(q: SegQueue<u64>) -> Seq<u64>;

/// `SegQueue::new` makes an empty queue.
#[verifier::external_body]
pub(crate) fn new_queue() -> (q: SegQueue<u64>)
    ensures
        queued(q) == Seq::<u64>::empty(),
{
    SegQueue::new()
}

/// `SegQueue::push` appends behind everything that waits. Nobody else can
/// touch the queue while it is borrowed mutably.
#[verifier::external_body]
pub(crate) fn enqueue(q: &mut SegQueue<u64>, v: u64)
    ensures
        queued(*final(q)) == queued(*old(q)).push(v),
{
    q.push(v)
}

/// `SegQueue::pop` takes the oldest item, or nothing from an empty queue.
#[verifier::external_body]
pub(crate) fn dequeue(q: &mut SegQueue<u64>) -> (r: Option<u64>)
    ensures
        match r {
            Some(v) => {
                &&& queued(*old(q)).len() > 0
                &&& v == queued(*old(q))[0]
                &&& queued(*final(q)) == queued(*old(q)).skip(1)
            },
            None => queued(*old(q)).len() == 0 && queued(*final(q)) == queued(*old(q)),
        },
{
    q.pop()
}

/// `SegQueue::len` counts the items that wait.
#[verifier::external_body]
pub(crate) fn queue_len(q: &SegQueue<u64>) -> (n: usize)
    ensures
        n == queued(*q).len(),
{
    q.len()
}

} // verus!
