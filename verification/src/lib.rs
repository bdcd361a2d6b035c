//! Three producers, one consumer, one sentinel: the tagged-message handshake
//! over a multi-producer channel, with the bookkeeping on both ends.

pub mod channel;
pub mod consumer;
pub mod handshake;
pub mod producer;
pub mod tally;
pub mod text;
