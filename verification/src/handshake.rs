//! Why the consumer's counts come out the same however the producers'
//! messages interleave.
//!
//! The queue keeps each producer's messages in the order in which they were
//! sent and says nothing of the order between producers. So what the
//! consumer takes is some interleaving of what the three producers sent. The
//! stop message is sent after all three have finished and comes last.

use crate::consumer::{consumed, ConsumeError};
use crate::producer::repeat;
use crate::tally::{all_tags, fits, is_tag, occurrences, tally};
use vstd::prelude::*;

verus! {

/// `stream` holds the messages of `first`, `second` and `third`, each in its
/// own order, and nothing else.
pub open spec fn is_interleaving(
    first: Seq<u64>,
    second: Seq<u64>,
    third: Seq<u64>,
    stream: Seq<u64>,
) -> bool
    decreases stream.len(),
{
    if stream.len() == 0 {
        first.len() == 0 && second.len() == 0 && third.len() == 0
    } else {
        ||| {
            &&& first.len() > 0
            &&& first.last() == stream.last()
            &&& is_interleaving(first.drop_last(), second, third, stream.drop_last())
        }
        ||| {
            &&& second.len() > 0
            &&& second.last() == stream.last()
            &&& is_interleaving(first, second.drop_last(), third, stream.drop_last())
        }
        ||| {
            &&& third.len() > 0
            &&& third.last() == stream.last()
            &&& is_interleaving(first, second, third.drop_last(), stream.drop_last())
        }
    }
}

/// A sequence with its last message taken off and put back is itself, as a
/// multiset too.
proof fn lemma_last_multiset(messages: Seq<u64>)
    requires
        messages.len() > 0,
    ensures
        messages.to_multiset() == messages.drop_last().to_multiset().insert(messages.last()),
{
    assert(messages.drop_last().push(messages.last()) =~= messages);
    vstd::seq_lib::to_multiset_build(messages.drop_last(), messages.last());
}

/// An interleaving holds each message as often as the three sequences
/// together.
pub proof fn lemma_interleaving_multiset(
    first: Seq<u64>,
    second: Seq<u64>,
    third: Seq<u64>,
    stream: Seq<u64>,
)
    requires
        is_interleaving(first, second, third, stream),
    ensures
        stream.to_multiset() == first.to_multiset().add(second.to_multiset()).add(
            third.to_multiset(),
        ),
    decreases stream.len(),
{
    broadcast use vstd::multiset::group_multiset_axioms;

    let sum = first.to_multiset().add(second.to_multiset()).add(third.to_multiset());
    if stream.len() == 0 {
        first.to_multiset_ensures();
        second.to_multiset_ensures();
        third.to_multiset_ensures();
        stream.to_multiset_ensures();
        assert(stream.to_multiset() =~= sum);
    } else {
        let rest = stream.drop_last();
        lemma_last_multiset(stream);
        if first.len() > 0 && first.last() == stream.last() && is_interleaving(
            first.drop_last(),
            second,
            third,
            rest,
        ) {
            lemma_interleaving_multiset(first.drop_last(), second, third, rest);
            lemma_last_multiset(first);
        } else if second.len() > 0 && second.last() == stream.last() && is_interleaving(
            first,
            second.drop_last(),
            third,
            rest,
        ) {
            lemma_interleaving_multiset(first, second.drop_last(), third, rest);
            lemma_last_multiset(second);
        } else {
            lemma_interleaving_multiset(first, second, third.drop_last(), rest);
            lemma_last_multiset(third);
        }
        assert(stream.to_multiset() =~= sum);
    }
}

/// Among `count` copies of one message, that message occurs `count` times and
/// no other occurs at all.
pub proof fn lemma_repeat_occurrences(message: u64, count: nat, tag: u64)
    ensures
        occurrences(repeat(message, count), tag) == if tag == message {
            count
        } else {
            0
        },
    decreases count,
{
    broadcast use vstd::multiset::group_multiset_axioms;

    if count == 0 {
        repeat(message, count).to_multiset_ensures();
        assert(!repeat(message, count).contains(tag));
    } else {
        let shorter = repeat(message, (count - 1) as nat);
        lemma_repeat_occurrences(message, (count - 1) as nat, tag);
        assert(shorter.push(message) =~= repeat(message, count));
        vstd::seq_lib::to_multiset_build(shorter, message);
    }
}

/// Whether all messages are tags depends on the multiset alone.
proof fn lemma_all_tags_by_multiset(messages: Seq<u64>)
    ensures
        all_tags(messages) <==> forall|message: u64|
            messages.to_multiset().count(message) > 0 ==> is_tag(message),
{
    messages.to_multiset_ensures();
    if all_tags(messages) {
        assert forall|message: u64| messages.to_multiset().count(message) > 0 implies is_tag(
            message,
        ) by {
            assert(messages.contains(message));
            let i = choose|i: int| 0 <= i < messages.len() && messages[i] == message;
            assert(is_tag(messages[i]));
        }
    }
    if forall|message: u64| messages.to_multiset().count(message) > 0 ==> is_tag(message) {
        assert forall|i: int| 0 <= i < messages.len() implies is_tag(#[trigger] messages[i]) by {
            assert(messages.contains(messages[i]));
        }
    }
}

/// An interleaving holds tags only exactly when the three sequences do.
pub proof fn lemma_interleaving_tags(
    first: Seq<u64>,
    second: Seq<u64>,
    third: Seq<u64>,
    stream: Seq<u64>,
)
    requires
        is_interleaving(first, second, third, stream),
    ensures
        all_tags(stream) <==> all_tags(first) && all_tags(second) && all_tags(third),
{
    broadcast use vstd::multiset::group_multiset_axioms;

    lemma_interleaving_multiset(first, second, third, stream);
    lemma_all_tags_by_multiset(first);
    lemma_all_tags_by_multiset(second);
    lemma_all_tags_by_multiset(third);
    lemma_all_tags_by_multiset(stream);
}

/// Where three producers send the tags 0, 1 and 2, `limit` times each, the
/// consumer takes tags only, no counter passes its maximum, and every counter
/// ends at `limit`: whatever the order in which the messages arrive.
pub proof fn lemma_counters_reach_limit(limit: u64, stream: Seq<u64>)
    requires
        is_interleaving(
            repeat(0, limit as nat),
            repeat(1, limit as nat),
            repeat(2, limit as nat),
            stream,
        ),
    ensures
        all_tags(stream),
        fits(stream),
        tally(stream) == seq![limit as nat, limit as nat, limit as nat],
{
    broadcast use vstd::multiset::group_multiset_axioms;

    let zeros = repeat(0, limit as nat);
    let ones = repeat(1, limit as nat);
    let twos = repeat(2, limit as nat);
    lemma_interleaving_multiset(zeros, ones, twos, stream);
    assert forall|tag: u64|
        occurrences(stream, tag) == if is_tag(tag) {
            limit as nat
        } else {
            0
        } by {
        lemma_repeat_occurrences(0, limit as nat, tag);
        lemma_repeat_occurrences(1, limit as nat, tag);
        lemma_repeat_occurrences(2, limit as nat, tag);
    }
    assert forall|message: u64| stream.to_multiset().count(message) > 0 implies is_tag(
        message,
    ) by {
        assert(occurrences(stream, message) > 0);
    }
    lemma_all_tags_by_multiset(stream);
    assert(tally(stream) =~= seq![limit as nat, limit as nat, limit as nat]);
}

/// Two orders of arrival of the same three producers' messages give the same
/// counts: the interleaving is not seen in the result.
pub proof fn lemma_order_of_arrival_is_not_seen(
    first: Seq<u64>,
    second: Seq<u64>,
    third: Seq<u64>,
    one_order: Seq<u64>,
    other_order: Seq<u64>,
)
    requires
        is_interleaving(first, second, third, one_order),
        is_interleaving(first, second, third, other_order),
    ensures
        tally(one_order) == tally(other_order),
        all_tags(one_order) == all_tags(other_order),
        fits(one_order) == fits(other_order),
{
    lemma_interleaving_multiset(first, second, third, one_order);
    lemma_interleaving_multiset(first, second, third, other_order);
    lemma_all_tags_by_multiset(one_order);
    lemma_all_tags_by_multiset(other_order);
    assert forall|tag: u64| occurrences(one_order, tag) == occurrences(other_order, tag) by {}
}

/// Among the first messages of a sequence a tag occurs no more often than
/// in the whole of it.
proof fn lemma_prefix_occurrences(shorter: Seq<u64>, whole: Seq<u64>, tag: u64)
    requires
        shorter.is_prefix_of(whole),
    ensures
        occurrences(shorter, tag) <= occurrences(whole, tag),
{
    broadcast use vstd::multiset::group_multiset_axioms;

    let rest = whole.skip(shorter.len() as int);
    assert(shorter + rest =~= whole);
    vstd::seq_lib::lemma_multiset_commutative(shorter, rest);
}

/// A message that is no tag ends the consumer's run with the counts of the
/// tags before it, whatever its value.
pub proof fn lemma_stop_ends_the_run(taken: Seq<u64>, result: Result<Seq<nat>, ConsumeError>)
    requires
        consumed(taken, result),
    ensures
        (taken.len() > 0 && !is_tag(taken.last())) <==> result is Ok,
        result is Ok ==> result == Ok::<Seq<nat>, ConsumeError>(tally(taken.drop_last())),
{
}

/// What a run comes to when nothing cuts it short: the counts of the tags
/// that arrive before the stop message, if the counters can hold them.
pub open spec fn expected(stream: Seq<u64>) -> Result<Seq<nat>, ConsumeError> {
    if fits(stream) {
        Ok(tally(stream))
    } else {
        Err(ConsumeError::Overflow)
    }
}

/// Tags arrive, then a stop message, and the consumer takes from the front
/// of what arrives. Unless the senders vanish under it, its result is
/// decided by the tags alone; where the counters can hold them, it takes
/// everything up to the stop message and nothing more.
pub proof fn lemma_run_is_decided(
    stream: Seq<u64>,
    stop: u64,
    taken: Seq<u64>,
    result: Result<Seq<nat>, ConsumeError>,
)
    requires
        all_tags(stream),
        !is_tag(stop),
        taken.is_prefix_of(stream.push(stop)),
        consumed(taken, result),
        result != Err::<Seq<nat>, ConsumeError>(ConsumeError::Disconnected),
    ensures
        result == expected(stream),
        fits(stream) ==> taken == stream.push(stop),
{
    let arrived = stream.push(stop);
    let last = taken.len() - 1;
    assert(taken[last] == arrived[last]);
    match result {
        Ok(counts) => {
            if last < stream.len() {
                assert(is_tag(stream[last]));
            }
            assert(taken =~= arrived);
            assert(taken.drop_last() =~= stream);
        },
        Err(_) => {
            let tag = taken.last();
            assert(is_tag(taken[last]));
            assert(taken.is_prefix_of(stream));
            lemma_prefix_occurrences(taken, stream, tag);
            lemma_last_multiset(taken);
            assert(occurrences(taken, tag) == occurrences(taken.drop_last(), tag) + 1);
        },
    }
}

/// The whole exchange. Three producers send the tags 0, 1 and 2, `limit`
/// times each; the stop message is sent when they are done; the consumer
/// takes from the front of what arrives. Then, unless the senders vanish
/// under it, the consumer takes everything up to the stop message and every
/// counter ends at `limit`. No counter overflows.
pub proof fn lemma_run_counts_limit(
    limit: u64,
    stream: Seq<u64>,
    stop: u64,
    taken: Seq<u64>,
    result: Result<Seq<nat>, ConsumeError>,
)
    requires
        is_interleaving(
            repeat(0, limit as nat),
            repeat(1, limit as nat),
            repeat(2, limit as nat),
            stream,
        ),
        !is_tag(stop),
        taken.is_prefix_of(stream.push(stop)),
        consumed(taken, result),
        result != Err::<Seq<nat>, ConsumeError>(ConsumeError::Disconnected),
    ensures
        taken == stream.push(stop),
        result == Ok::<Seq<nat>, ConsumeError>(seq![limit as nat, limit as nat, limit as nat]),
{
    lemma_counters_reach_limit(limit, stream);
    lemma_run_is_decided(stream, stop, taken, result);
}

/// Two runs over the same three producers' tags come to the same result,
/// though the messages arrive in another order and another value stops the
/// consumer.
pub proof fn lemma_runs_agree(
    first: Seq<u64>,
    second: Seq<u64>,
    third: Seq<u64>,
    one_order: Seq<u64>,
    one_stop: u64,
    one_taken: Seq<u64>,
    one_result: Result<Seq<nat>, ConsumeError>,
    other_order: Seq<u64>,
    other_stop: u64,
    other_taken: Seq<u64>,
    other_result: Result<Seq<nat>, ConsumeError>,
)
    requires
        all_tags(first),
        all_tags(second),
        all_tags(third),
        is_interleaving(first, second, third, one_order),
        is_interleaving(first, second, third, other_order),
        !is_tag(one_stop),
        !is_tag(other_stop),
        one_taken.is_prefix_of(one_order.push(one_stop)),
        other_taken.is_prefix_of(other_order.push(other_stop)),
        consumed(one_taken, one_result),
        consumed(other_taken, other_result),
        one_result != Err::<Seq<nat>, ConsumeError>(ConsumeError::Disconnected),
        other_result != Err::<Seq<nat>, ConsumeError>(ConsumeError::Disconnected),
    ensures
        one_result == other_result,
{
    lemma_interleaving_tags(first, second, third, one_order);
    lemma_order_of_arrival_is_not_seen(first, second, third, one_order, other_order);
    lemma_run_is_decided(one_order, one_stop, one_taken, one_result);
    lemma_run_is_decided(other_order, other_stop, other_taken, other_result);
}

} // verus!
