//! Collecting answered queries into batches for storage.

use crate::state::DnsQueryLog;
use vstd::prelude::*;

verus! {

/// What waiting for the next entry gave.
#[derive(Debug)]
pub enum BatchEvent {
    /// An entry arrived.
    Entry(DnsQueryLog),
    /// The sending side is gone.
    Closed,
    /// Nothing arrived in time.
    TimedOut,
}

/// Takes one event into the batch being collected; whether the batch is
/// done. An entry is added, and the batch is done once it holds
/// `batch_size` entries; a closed channel or a timeout ends the batch as it is.
pub fn absorb(batch: &mut Vec<DnsQueryLog>, event: BatchEvent, batch_size: usize) -> (done: bool)
    ensures
        match event {
            BatchEvent::Entry(e) => final(batch)@ == old(batch)@.push(e)
                && done == (final(batch)@.len() >= batch_size),
            _ => final(batch)@ == old(batch)@ && done,
        },
{
    match event {
        BatchEvent::Entry(e) => {
            batch.push(e);
            batch.len() >= batch_size
        },
        _ => true,
    }
}

/// A batch that is collected until done holds at most `batch_size`
/// entries, or one entry when `batch_size` is zero: each entry is added to
/// a batch that was not done, so below the limit.
pub proof fn lemma_batch_bounded(before: Seq<DnsQueryLog>, e: DnsQueryLog, batch_size: usize)
    requires
        before.len() < batch_size || before.len() == 0,
    ensures
        before.push(e).len() <= if batch_size == 0 {
            1
        } else {
            batch_size as int
        },
{
}

} // verus!
