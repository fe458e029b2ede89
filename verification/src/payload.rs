//! Queues of payloads, as the sequences of bytes that they hold.

use std::collections::VecDeque;
use vstd::prelude::*;

verus! {

/// The payloads of a queue, as byte sequences.
pub open spec fn payloads(queue: Seq<Vec<u8>>) -> Seq<Seq<u8>> {
    queue.map_values(|p: Vec<u8>| p@)
}

/// Dropping the oldest entries of a queue drops the oldest payloads.
pub proof fn lemma_payloads_skip(queue: Seq<Vec<u8>>, k: int)
    requires
        0 <= k <= queue.len(),
    ensures
        payloads(queue.skip(k)) == payloads(queue).skip(k),
        payloads(queue.subrange(k, queue.len() as int)) == payloads(queue).skip(k),
{
    assert(payloads(queue.skip(k)) =~= payloads(queue).skip(k));
    assert(queue.subrange(k, queue.len() as int) =~= queue.skip(k));
}

/// Appending an entry to a queue appends its payload.
pub proof fn lemma_payloads_push(queue: Seq<Vec<u8>>, entry: Vec<u8>)
    ensures
        payloads(queue.push(entry)) == payloads(queue).push(entry@),
{
    assert(payloads(queue.push(entry)) =~= payloads(queue).push(entry@));
}

/// The oldest payload of a queue that holds one: the payload that leaves
/// next.
pub fn oldest(queue: &VecDeque<Vec<u8>>) -> (r: &[u8])
    requires
        queue@.len() > 0,
    ensures
        r@ == payloads(queue@)[0],
{
    queue[0].as_slice()
}

} // verus!
