//! The producer: one tag, sent a fixed number of times.

use crate::channel::Outbox;
use vstd::prelude::*;

verus! {

/// `count` copies of `message`.
pub open spec fn repeat(message: u64, count: nat) -> Seq<u64> {
    Seq::new(count, |i: int| message)
}

/// A producer that had to give up: the receive-end was gone.
#[derive(Clone, Copy, Debug, PartialEq, Eq)]
pub struct Undelivered {
    /// How many messages the queue had accepted before the one it refused.
    pub sent: u64,
}

/// Sends `data` through `tx`, `limit` times, one after the other. It stops
/// at the first message that the queue refuses and reports how many went
/// before it.
pub fn sender(tx: &mut Outbox, data: u64, limit: u64) -> (done: Result<(), Undelivered>)
    ensures
        match done {
            Ok(()) => final(tx)@ == old(tx)@ + repeat(data, limit as nat),
            Err(fault) => {
                &&& fault.sent < limit
                &&& final(tx)@ == old(tx)@ + repeat(data, fault.sent as nat)
            },
        },
{
    let mut sent: u64 = 0;
    while sent < limit
        invariant
            sent <= limit,
            tx@ == old(tx)@ + repeat(data, sent as nat),
        decreases limit - sent,
    {
        match tx.send(data) {
            Ok(()) => {
                assert(repeat(data, sent as nat).push(data) =~= repeat(data, (sent + 1) as nat));
                sent = sent + 1;
            },
            Err(_) => {
                return Err(Undelivered { sent });
            },
        }
    }
    Ok(())
}

} // verus!
