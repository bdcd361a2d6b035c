use mpsc_tally::channel::{arrival, channel, delivery, Disconnected};
use mpsc_tally::consumer::{receiver, ConsumeError};
use mpsc_tally::producer::{sender, Undelivered};
use mpsc_tally::tally::{Counters, Step, SENTINEL};
use mpsc_tally::text::summary;
use std::sync::mpsc::{RecvError, SendError};

fn run(limit: u64) -> [u64; 3] {
    let (mut tx, mut rx) = channel();
    let mut first = tx.duplicate();
    let mut second = tx.duplicate();
    let mut third = tx.duplicate();
    assert_eq!(sender(&mut first, 0, limit), Ok(()));
    assert_eq!(sender(&mut second, 1, limit), Ok(()));
    assert_eq!(sender(&mut third, 2, limit), Ok(()));
    drop(first);
    drop(second);
    drop(third);
    assert_eq!(tx.send(SENTINEL), Ok(()));
    match receiver(&mut rx) {
        Ok(counters) => counters.counts(),
        Err(fault) => panic!("consumer failed: {:?}", fault),
    }
}

#[test]
fn no_messages_gives_zero_counts() {
    assert_eq!(run(0), [0, 0, 0]);
}

#[test]
fn each_counter_reaches_the_limit() {
    assert_eq!(run(1), [1, 1, 1]);
    assert_eq!(run(5), [5, 5, 5]);
    assert_eq!(run(1000), [1000, 1000, 1000]);
}

#[test]
fn order_of_arrival_does_not_change_the_counts() {
    let (mut tx, mut rx) = channel();
    let mut first = tx.duplicate();
    let mut second = tx.duplicate();
    let mut third = tx.duplicate();
    for _ in 0..4 {
        assert_eq!(sender(&mut third, 2, 1), Ok(()));
        assert_eq!(sender(&mut first, 0, 1), Ok(()));
        assert_eq!(sender(&mut second, 1, 1), Ok(()));
    }
    assert_eq!(tx.send(SENTINEL), Ok(()));
    let interleaved = receiver(&mut rx).map(|c| c.counts());
    assert_eq!(interleaved, Ok([4, 4, 4]));
    assert_eq!(interleaved.unwrap(), run(4));
}

#[test]
fn counts_follow_the_messages_not_the_senders() {
    let (mut tx, mut rx) = channel();
    for message in [2, 2, 0, 2, 1, 0] {
        assert_eq!(tx.send(message), Ok(()));
    }
    assert_eq!(tx.send(SENTINEL), Ok(()));
    assert_eq!(receiver(&mut rx).map(|c| c.counts()), Ok([2, 1, 3]));
}

#[test]
fn any_value_that_is_no_tag_stops_the_consumer() {
    for stop in [3, 4, 309, 1 << 32, u64::MAX] {
        let (mut tx, mut rx) = channel();
        assert_eq!(tx.send(1), Ok(()));
        assert_eq!(tx.send(stop), Ok(()));
        assert_eq!(receiver(&mut rx).map(|c| c.counts()), Ok([0, 1, 0]));
    }
}

#[test]
fn nothing_is_taken_after_the_stop() {
    let (mut tx, mut rx) = channel();
    for message in [1, SENTINEL, 2, 2, 7, 0] {
        assert_eq!(tx.send(message), Ok(()));
    }
    assert_eq!(receiver(&mut rx).map(|c| c.counts()), Ok([0, 1, 0]));
    assert_eq!(rx.recv(), Ok(2));
    assert_eq!(receiver(&mut rx).map(|c| c.counts()), Ok([0, 0, 1]));
    assert_eq!(rx.recv(), Ok(0));
}

#[test]
fn several_stops_end_one_run_each() {
    let (mut tx, mut rx) = channel();
    for message in [SENTINEL, SENTINEL, 0, SENTINEL] {
        assert_eq!(tx.send(message), Ok(()));
    }
    assert_eq!(receiver(&mut rx).map(|c| c.counts()), Ok([0, 0, 0]));
    assert_eq!(receiver(&mut rx).map(|c| c.counts()), Ok([0, 0, 0]));
    assert_eq!(receiver(&mut rx).map(|c| c.counts()), Ok([1, 0, 0]));
}

#[test]
fn consumer_fails_when_every_sender_is_gone() {
    let (mut tx, mut rx) = channel();
    assert_eq!(sender(&mut tx, 1, 3), Ok(()));
    drop(tx);
    assert_eq!(receiver(&mut rx).map(|c| c.counts()), Err(ConsumeError::Disconnected));
    assert_eq!(rx.recv(), Err(Disconnected));
}

#[test]
fn producer_fails_when_the_receiver_is_gone() {
    let (mut tx, rx) = channel();
    drop(rx);
    assert_eq!(tx.send(0), Err(Disconnected));
    assert_eq!(sender(&mut tx, 0, 5), Err(Undelivered { sent: 0 }));
    assert_eq!(sender(&mut tx, 0, 0), Ok(()));
}

#[test]
fn a_duplicate_feeds_the_same_queue() {
    let (mut tx, mut rx) = channel();
    let mut other = tx.duplicate();
    assert_eq!(other.send(2), Ok(()));
    assert_eq!(tx.send(1), Ok(()));
    drop(other);
    assert_eq!(rx.recv(), Ok(2));
    assert_eq!(rx.recv(), Ok(1));
}

#[test]
fn record_counts_tags_and_stops_on_the_rest() {
    let mut counters = Counters::new();
    assert_eq!(counters.counts(), [0, 0, 0]);
    assert_eq!(counters.record(0), Step::Counted);
    assert_eq!(counters.record(2), Step::Counted);
    assert_eq!(counters.record(2), Step::Counted);
    assert_eq!(counters.counts(), [1, 0, 2]);
    assert_eq!(counters.record(3), Step::Stop);
    assert_eq!(counters.record(309), Step::Stop);
    assert_eq!(counters.record(u64::MAX), Step::Stop);
    assert_eq!(counters.counts(), [1, 0, 2]);
    assert_eq!(counters.record(1), Step::Counted);
    assert_eq!(counters.counts(), [1, 1, 2]);
}

#[test]
fn record_refuses_to_pass_the_maximum() {
    let mut counters = Counters::from_counts([7, u64::MAX - 1, u64::MAX]);
    assert_eq!(counters.record(2), Step::Overflow);
    assert_eq!(counters.counts(), [7, u64::MAX - 1, u64::MAX]);
    assert_eq!(counters.record(1), Step::Counted);
    assert_eq!(counters.counts(), [7, u64::MAX, u64::MAX]);
    assert_eq!(counters.record(1), Step::Overflow);
    assert_eq!(counters.record(0), Step::Counted);
    assert_eq!(counters.counts(), [8, u64::MAX, u64::MAX]);
}

#[test]
fn summary_of_five_each() {
    let (mut tx, mut rx) = channel();
    for tag in 0..3 {
        assert_eq!(sender(&mut tx, tag, 5), Ok(()));
    }
    assert_eq!(tx.send(SENTINEL), Ok(()));
    let counters = receiver(&mut rx).unwrap();
    let lines = summary(&counters);
    assert_eq!(
        lines,
        vec![
            "thread 0 => 5".to_string(),
            "thread 1 => 5".to_string(),
            "thread 2 => 5".to_string(),
            "receiver done.".to_string(),
        ]
    );
}

#[test]
fn summary_of_an_empty_run() {
    let lines = summary(&Counters::new());
    assert_eq!(
        lines,
        vec![
            "thread 0 => 0".to_string(),
            "thread 1 => 0".to_string(),
            "thread 2 => 0".to_string(),
            "receiver done.".to_string(),
        ]
    );
}

#[test]
fn the_sentinel_is_no_tag() {
    assert_eq!(SENTINEL, 309);
    assert_eq!(Counters::new().record(SENTINEL), Step::Stop);
}

#[test]
fn counters_compare_by_their_counts() {
    let mut counters = Counters::new();
    assert_eq!(counters, Counters::from_counts([0, 0, 0]));
    assert_eq!(counters.record(1), Step::Counted);
    assert_eq!(counters, Counters::from_counts([0, 1, 0]));
    assert_ne!(counters, Counters::new());
    assert_eq!(counters.clone().counts(), [0, 1, 0]);
}

#[test]
fn delivery_follows_the_answer_of_the_queue() {
    assert_eq!(delivery(Ok(())), Ok(()));
    assert_eq!(delivery(Err(SendError(0))), Err(Disconnected));
    assert_eq!(delivery(Err(SendError(309))), Err(Disconnected));
}

#[test]
fn arrival_follows_the_answer_of_the_queue() {
    assert_eq!(arrival(Ok(0)), Ok(0));
    assert_eq!(arrival(Ok(2)), Ok(2));
    assert_eq!(arrival(Ok(309)), Ok(309));
    assert_eq!(arrival(Ok(u64::MAX)), Ok(u64::MAX));
    assert_eq!(arrival(Err(RecvError)), Err(Disconnected));
}

#[test]
fn send_and_recv_pass_the_message_through() {
    let (mut tx, mut rx) = channel();
    for message in [0, 2, 309, u64::MAX, 1] {
        assert_eq!(tx.send(message), Ok(()));
        assert_eq!(rx.recv(), Ok(message));
    }
    drop(tx);
    assert_eq!(rx.recv(), Err(Disconnected));
}
