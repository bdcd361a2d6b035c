//! The consumer: counts tags until a message that is no tag arrives.

use crate::channel::Inbox;
use crate::tally::{all_tags, fits, is_tag, occurrences, tally, Counters, Step};
use vstd::prelude::*;

verus! {

/// Why the consumer ended without a result.
#[derive(Clone, Copy, Debug, PartialEq, Eq)]
pub enum ConsumeError {
    /// Every send-end was gone and the queue empty before a stop came.
    Disconnected,
    /// A tag came whose counter was already at its maximum.
    Overflow,
}

/// Raising the counter of `message` in the tally of `seen` gives the tally of
/// `seen` with `message` behind it.
proof fn lemma_tally_push(seen: Seq<u64>, message: u64)
    requires
        is_tag(message),
    ensures
        tally(seen.push(message)) == tally(seen).update(
            message as int,
            tally(seen)[message as int] + 1,
        ),
        tally(seen)[message as int] == occurrences(seen, message),
{
    vstd::seq_lib::to_multiset_build(seen, message);
    assert(tally(seen.push(message)) =~= tally(seen).update(
        message as int,
        tally(seen)[message as int] + 1,
    ));
}

/// How the messages taken in one run of the consumer and the run's result
/// hang together.
///
/// A result with counts: the last message taken is no tag, all before it
/// are tags, and the counts say how often each of them came. No result
/// because the other side was gone: only tags were taken, and they all fit.
/// No result because a counter was full: only tags were taken, and the last
/// is the one that did not fit any more.
pub open spec fn consumed(taken: Seq<u64>, result: Result<Seq<nat>, ConsumeError>) -> bool {
    match result {
        Ok(counts) => {
            &&& taken.len() > 0
            &&& !is_tag(taken.last())
            &&& all_tags(taken.drop_last())
            &&& fits(taken.drop_last())
            &&& counts == tally(taken.drop_last())
        },
        Err(ConsumeError::Disconnected) => all_tags(taken) && fits(taken),
        Err(ConsumeError::Overflow) => {
            &&& taken.len() > 0
            &&& all_tags(taken)
            &&& fits(taken.drop_last())
            &&& occurrences(taken.drop_last(), taken.last()) == u64::MAX
        },
    }
}

/// The result of a run with the counters as plain numbers.
pub open spec fn result_view(done: Result<Counters, ConsumeError>) -> Result<
    Seq<nat>,
    ConsumeError,
> {
    match done {
        Ok(counters) => Ok(counters@),
        Err(fault) => Err(fault),
    }
}

/// Takes messages from `rx` and counts the tags, until a message comes that
/// is no tag. That message is the last one taken, and the result holds how
/// often each tag came before it.
///
/// The call also ends, without a result, when the other side is gone or when
/// a counter would pass its maximum. In each case nothing is taken after
/// the message that decided.
pub fn receiver(rx: &mut Inbox) -> (done: Result<Counters, ConsumeError>)
    ensures
        old(rx)@.is_prefix_of(final(rx)@),
        consumed(final(rx)@.skip(old(rx)@.len() as int), result_view(done)),
{
    let mut counters = Counters::new();
    let ghost before = rx@;
    proof {
        assert(rx@.skip(before.len() as int) =~= Seq::<u64>::empty());
        Seq::<u64>::empty().to_multiset_ensures();
        assert(tally(Seq::<u64>::empty()) =~= seq![0nat, 0nat, 0nat]);
    }
    loop
        invariant
            before == old(rx)@,
            before.is_prefix_of(rx@),
            all_tags(rx@.skip(before.len() as int)),
            counters@ == tally(rx@.skip(before.len() as int)),
            fits(rx@.skip(before.len() as int)),
        decreases 3 * u64::MAX - (counters@[0] + counters@[1] + counters@[2]),
    {
        let ghost seen = rx@.skip(before.len() as int);
        match rx.recv() {
            Err(_) => {
                return Err(ConsumeError::Disconnected);
            },
            Ok(message) => {
                let ghost taken = rx@.skip(before.len() as int);
                proof {
                    assert(taken =~= seen.push(message));
                    assert(taken.drop_last() =~= seen);
                }
                match counters.record(message) {
                    Step::Counted => {
                        proof {
                            lemma_tally_push(seen, message);
                        }
                    },
                    Step::Stop => {
                        return Ok(counters);
                    },
                    Step::Overflow => {
                        proof {
                            lemma_tally_push(seen, message);
                        }
                        return Err(ConsumeError::Overflow);
                    },
                }
            },
        }
    }
}

} // verus!
