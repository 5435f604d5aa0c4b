//! The ring of chunks, kept in a `circular_queue::CircularQueue`.
//!
//! Nothing in this file is proved.  It states what the queue's methods do, as their source
//! shows it, over two names: the chunks a queue holds and the capacity it was made with.
use circular_queue::CircularQueue;
use vstd::prelude::*;

verus! {

/// `circular_queue::CircularQueue`, as an opaque type: nothing is known of a queue but what
/// the two names below say of it.
#[verifier::external_type_specification]
#[verifier::external_body]
#[verifier::reject_recursive_types(T)]
pub struct ExCircularQueue<T>(CircularQueue<T>);

/// The chunks that a queue holds, in the order in which they were pushed: oldest first.  It is
/// what `CircularQueue::asc_iter` walks.
pub uninterp spec fn queue_chunks(queue: CircularQueue<Vec<u32>>) -> Seq<Seq<u32>>;

/// The number of chunks that a queue was made to hold: what `CircularQueue::capacity`
/// returns.
pub uninterp spec fn queue_capacity(queue: CircularQueue<Vec<u32>>) -> nat;

/// The largest capacity a queue is made with here.  Room for that many chunks is reserved
/// when the queue is made, and this many slots fit into the address space of every target.
pub const MAX_QUEUE_CAPACITY: usize = 65536;

/// What a queue of the given capacity holds after `chunk` is pushed onto `chunks`: the chunk
/// is appended, and once the queue is full the oldest chunk makes room for it.  A queue of
/// capacity zero stays empty.
pub open spec fn chunks_after_push(chunks: Seq<Seq<u32>>, capacity: nat, chunk: Seq<u32>) -> Seq<
    Seq<u32>,
> {
    if capacity == 0 {
        chunks
    } else if chunks.len() != capacity {
        chunks.push(chunk)
    } else {
        chunks.skip(1).push(chunk)
    }
}

/// `CircularQueue::with_capacity`: the new queue is empty and remembers its capacity.  It
/// reserves room for `capacity` chunks at once, which is why the capacity is bounded.
#[verifier::external_body]
pub(crate) fn queue_with_capacity(capacity: usize) -> (queue: CircularQueue<Vec<u32>>)
    requires
        capacity <= MAX_QUEUE_CAPACITY,
    ensures
        queue_chunks(queue) == Seq::<Seq<u32>>::empty(),
        queue_capacity(queue) == capacity,
{
    CircularQueue::with_capacity(capacity)
}

/// `CircularQueue::len`: the number of chunks held.
#[verifier::external_body]
pub(crate) fn queue_len(queue: &CircularQueue<Vec<u32>>) -> (len: usize)
    ensures
        len == queue_chunks(*queue).len(),
{
    queue.len()
}

/// `CircularQueue::push`: the capacity stays, and the chunks become what
/// [`chunks_after_push`] says.  The queue hands back the chunk that was overwritten, if any;
/// it is dropped here.
#[verifier::external_body]
pub(crate) fn queue_push(queue: &mut CircularQueue<Vec<u32>>, chunk: Vec<u32>)
    ensures
        queue_capacity(*final(queue)) == queue_capacity(*old(queue)),
        queue_chunks(*final(queue)) == chunks_after_push(
            queue_chunks(*old(queue)),
            queue_capacity(*old(queue)),
            chunk@,
        ),
{
    queue.push(chunk);
}

/// `CircularQueue::iter`: walks every chunk once, the most recently pushed one first.  The
/// chunks are handed out by reference, in that order.
#[verifier::external_body]
pub(crate) fn queue_newest_first<'a>(queue: &'a CircularQueue<Vec<u32>>) -> (chunks: Vec<
    &'a Vec<u32>,
>)
    ensures
        chunks@.len() == queue_chunks(*queue).len(),
        forall|i: int|
            0 <= i < chunks@.len() ==> (#[trigger] chunks@[i])@ == queue_chunks(
                *queue,
            )[chunks@.len() - 1 - i],
{
    queue.iter().collect()
}

} // verus!
