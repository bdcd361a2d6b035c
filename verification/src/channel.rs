//! The two ends of the channel, each with a record of what went through it.
//!
//! The queue itself is `std::sync::mpsc`. Nothing is proved of it: the
//! declarations at the top of this file only let verified code name its types
//! and call it. What is proved is the bookkeeping around the calls.

use std::sync::mpsc::{Receiver, RecvError, SendError, Sender};
use vstd::prelude::*;

verus! {

/// `std::sync::mpsc::Sender`, the send-end of a channel. Opaque here.
#[verifier::external_type_specification]
#[verifier::external_body]
#[verifier::reject_recursive_types(T)]
pub struct ExSender<T>(Sender<T>);

/// `std::sync::mpsc::Receiver`, the receive-end of a channel. Opaque here.
#[verifier::external_type_specification]
#[verifier::external_body]
#[verifier::reject_recursive_types(T)]
pub struct ExReceiver<T>(Receiver<T>);

/// `std::sync::mpsc::SendError`, returned when the receive-end is gone.
/// Opaque here.
#[verifier::external_type_specification]
#[verifier::external_body]
#[verifier::reject_recursive_types(T)]
pub struct ExSendError<T>(SendError<T>);

/// `std::sync::mpsc::RecvError`, returned when every send-end is gone and the
/// queue is empty. Opaque here.
#[verifier::external_type_specification]
#[verifier::external_body]
pub struct ExRecvError(RecvError);

/// `std::sync::mpsc::channel` makes an unbounded queue and hands out its two
/// ends. Nothing is claimed of them.
pub assume_specification<T>[ std::sync::mpsc::channel::<T> ]() -> (ends: (Sender<T>, Receiver<T>));

/// `Sender::send` enqueues a value, or fails when the receive-end is gone.
/// Nothing is claimed of which it does: that depends on the other end.
pub assume_specification<T>[ Sender::<T>::send ](tx: &Sender<T>, value: T) -> (sent: Result<
    (),
    SendError<T>,
>);

/// `Sender::clone` makes another send-end of the same queue. Nothing is
/// claimed of it.
pub assume_specification<T>[ <Sender<T> as Clone>::clone ](tx: &Sender<T>) -> (other: Sender<T>);

/// `Receiver::recv` waits until a value is there and returns it, or fails when
/// every send-end is gone and the queue is empty. Nothing is claimed of which
/// it does, nor of the value. While a send-end lives and sends nothing, the
/// call waits.
pub assume_specification<T>[ Receiver::<T>::recv ](rx: &Receiver<T>) -> (got: Result<
    T,
    RecvError,
>);

/// The other side of the channel is gone.
#[derive(Clone, Copy, Debug, PartialEq, Eq)]
pub struct Disconnected;

/// A send-end, together with the messages that the queue has accepted
/// through it, oldest first.
pub struct Outbox {
    tx: Sender<u64>,
    accepted: Ghost<Seq<u64>>,
}

impl View for Outbox {
    type V = Seq<u64>;

    closed spec fn view(&self) -> Seq<u64> {
        self.accepted@
    }
}

/// The receive-end, together with the messages that were taken from the
/// queue through it, oldest first.
pub struct Inbox {
    rx: Receiver<u64>,
    taken: Ghost<Seq<u64>>,
}

impl View for Inbox {
    type V = Seq<u64>;

    closed spec fn view(&self) -> Seq<u64> {
        self.taken@
    }
}

/// A new queue: one send-end and the receive-end, nothing sent or taken yet.
pub fn channel() -> (ends: (Outbox, Inbox))
    ensures
        ends.0@ == Seq::<u64>::empty(),
        ends.1@ == Seq::<u64>::empty(),
{
    let (tx, rx) = std::sync::mpsc::channel::<u64>();
    (Outbox { tx, accepted: Ghost(Seq::empty()) }, Inbox { rx, taken: Ghost(Seq::empty()) })
}

impl Outbox {
    /// Another send-end of the same queue, with a record of its own.
    pub fn duplicate(&self) -> (other: Outbox)
        ensures
            other@ == Seq::<u64>::empty(),
    {
        Outbox { tx: self.tx.clone(), accepted: Ghost(Seq::empty()) }
    }

    /// Sends one message. The record grows by it exactly when the queue
    /// accepted it.
    pub fn send(&mut self, message: u64) -> (sent: Result<(), Disconnected>)
        ensures
            match sent {
                Ok(()) => final(self)@ == old(self)@.push(message),
                Err(_) => final(self)@ == old(self)@,
            },
    {
        let sent = delivery(self.tx.send(message));
        if sent.is_ok() {
            // Only what the queue accepted goes on record: a refused
            // message leaves the record as it was.
            self.accepted = Ghost(self.accepted@.push(message));
        }
        sent
    }
}

impl Inbox {
    /// Waits for the next message. The record grows by it exactly when one
    /// came.
    pub fn recv(&mut self) -> (got: Result<u64, Disconnected>)
        ensures
            match got {
                Ok(message) => final(self)@ == old(self)@.push(message),
                Err(_) => final(self)@ == old(self)@,
            },
    {
        let got = arrival(self.rx.recv());
        match got {
            Ok(message) => {
                self.taken = Ghost(self.taken@.push(message));
            },
            Err(_) => {},
        }
        got
    }
}

/// What the queue's answer to a send means to the sender: the message was
/// accepted, or the receive-end is gone.
pub fn delivery(answer: Result<(), SendError<u64>>) -> (sent: Result<(), Disconnected>)
    ensures
        sent == (match answer {
            Ok(_) => Ok::<(), Disconnected>(()),
            Err(_) => Err::<(), Disconnected>(Disconnected),
        }),
{
    match answer {
        Ok(()) => Ok(()),
        Err(_) => Err(Disconnected),
    }
}

/// What the queue's answer to a receive means to the receiver: the message
/// that came, or that every send-end is gone and nothing is left.
pub fn arrival(answer: Result<u64, RecvError>) -> (got: Result<u64, Disconnected>)
    ensures
        got == (match answer {
            Ok(message) => Ok::<u64, Disconnected>(message),
            Err(_) => Err::<u64, Disconnected>(Disconnected),
        }),
{
    match answer {
        Ok(message) => Ok(message),
        Err(_) => Err(Disconnected),
    }
}

} // verus!
