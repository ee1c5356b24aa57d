//! Decoding of the account layouts of an on-chain order book: the padding that
//! brackets every account, the market record in its two shapes, the keys derived
//! from it, and the ring of events that the program writes.

pub mod error;
pub mod event;
pub mod flags;
pub mod keys;
pub mod load;
pub mod market;
pub mod padding;
pub mod pubkey;
pub mod queue;
pub mod words;
