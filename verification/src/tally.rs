//! Messages, tags and the consumer's three counters.

use vstd::prelude::*;

verus! {

/// A message is a producer's tag when it is 0, 1 or 2. Every other value
/// tells the consumer to stop.
pub open spec fn is_tag(message: u64) -> bool {
    message <= 2
}

/// The message that the program sends to stop the consumer.
pub const SENTINEL: u64 = 309;

/// Every message of the sequence is a tag.
pub open spec fn all_tags(messages: Seq<u64>) -> bool {
    forall|i: int| 0 <= i < messages.len() ==> is_tag(#[trigger] messages[i])
}

/// How often `tag` occurs among `messages`.
pub open spec fn occurrences(messages: Seq<u64>, tag: u64) -> nat {
    messages.to_multiset().count(tag)
}

/// The three counts that a run of messages amounts to, in tag order.
pub open spec fn tally(messages: Seq<u64>) -> Seq<nat> {
    seq![occurrences(messages, 0), occurrences(messages, 1), occurrences(messages, 2)]
}

/// No tag occurs more often among `messages` than a counter can hold.
pub open spec fn fits(messages: Seq<u64>) -> bool {
    forall|tag: u64| is_tag(tag) ==> #[trigger] occurrences(messages, tag) <= u64::MAX
}

/// What the consumer did with one message.
#[derive(Clone, Copy, Debug, PartialEq, Eq)]
pub enum Step {
    /// The message was a tag and its counter went up by one.
    Counted,
    /// The message was no tag: the consumer is done.
    Stop,
    /// The message was a tag whose counter is already at its maximum.
    Overflow,
}

/// One count per tag, owned by the consumer.
#[derive(Clone, Copy, Debug, PartialEq, Eq)]
pub struct Counters {
    counts: [u64; 3],
}

impl View for Counters {
    type V = Seq<nat>;

    closed spec fn view(&self) -> Seq<nat> {
        Seq::new(3, |tag: int| self.counts[tag] as nat)
    }
}

impl Counters {
    /// Three counters at zero.
    pub fn new() -> (counters: Counters)
        ensures
            counters@ == seq![0nat, 0nat, 0nat],
    {
        let counters = Counters { counts: [0, 0, 0] };
        assert(counters@ =~= seq![0nat, 0nat, 0nat]);
        counters
    }

    /// Counters that stand at the given counts, in tag order.
    pub fn from_counts(counts: [u64; 3]) -> (counters: Counters)
        ensures
            counters@ == seq![counts[0] as nat, counts[1] as nat, counts[2] as nat],
    {
        let counters = Counters { counts };
        assert(counters@ =~= seq![counts[0] as nat, counts[1] as nat, counts[2] as nat]);
        counters
    }

    /// The three counts in tag order.
    pub fn counts(&self) -> (counts: [u64; 3])
        ensures
            self@ == seq![counts[0] as nat, counts[1] as nat, counts[2] as nat],
    {
        assert(self@ =~= seq![self.counts[0] as nat, self.counts[1] as nat, self.counts[2] as nat]);
        self.counts
    }

    /// Takes one message into account: a tag raises its counter, anything
    /// else stops the consumer and leaves the counters as they are.
    pub fn record(&mut self, message: u64) -> (step: Step)
        ensures
            old(self)@.len() == 3,
            match step {
                Step::Counted => {
                    &&& is_tag(message)
                    &&& old(self)@[message as int] < u64::MAX
                    &&& final(self)@ == old(self)@.update(
                        message as int,
                        old(self)@[message as int] + 1,
                    )
                },
                Step::Stop => !is_tag(message) && final(self)@ == old(self)@,
                Step::Overflow => {
                    &&& is_tag(message)
                    &&& old(self)@[message as int] == u64::MAX
                    &&& final(self)@ == old(self)@
                },
            },
    {
        if message > 2 {
            return Step::Stop;
        }
        let tag: usize = message as usize;
        let count: u64 = self.counts[tag];
        if count == u64::MAX {
            return Step::Overflow;
        }
        self.counts[tag] = count + 1;
        assert(self@ =~= old(self)@.update(message as int, old(self)@[message as int] + 1));
        Step::Counted
    }
}

} // verus!
