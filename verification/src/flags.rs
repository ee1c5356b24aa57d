//! The bits of the flags word with which every account's interior begins.

use vstd::prelude::*;

verus! {

/// The account has been set up.
pub const INITIALIZED: u64 = 0x1;

/// The account holds a market record.
pub const MARKET: u64 = 0x2;

/// The account holds the open orders of one owner.
pub const OPEN_ORDERS: u64 = 0x4;

/// The account holds a request queue.
pub const REQUEST_QUEUE: u64 = 0x8;

/// The account holds an event queue.
pub const EVENT_QUEUE: u64 = 0x10;

/// The account holds the bids of an order book.
pub const BIDS: u64 = 0x20;

/// The account holds the asks of an order book.
pub const ASKS: u64 = 0x40;

/// The market has been disabled.
pub const DISABLED: u64 = 0x80;

/// The account has been closed.
pub const CLOSED: u64 = 0x100;

/// The market record has the wrapping shape, with its authorities.
pub const PERMISSIONED: u64 = 0x200;

/// Only the market's authority may consume its events.
pub const CRANK_AUTHORITY_REQUIRED: u64 = 0x400;

/// The flags of a plain market record: initialized and market.
pub const MARKET_FLAGS: u64 = 0x3;

/// The flags of a wrapping market record: initialized, market and
/// permissioned.
pub const PERMISSIONED_MARKET_FLAGS: u64 = 0x203;

/// Whether a flags word announces the wrapping shape.
pub open spec fn is_permissioned(flags: u64) -> bool {
    flags & PERMISSIONED != 0
}

/// The two flag sets of a market are made of the named bits, and only the
/// second announces the wrapping shape.
pub proof fn lemma_market_flag_sets()
    ensures
        MARKET_FLAGS == INITIALIZED | MARKET,
        PERMISSIONED_MARKET_FLAGS == INITIALIZED | MARKET | PERMISSIONED,
        !is_permissioned(MARKET_FLAGS),
        is_permissioned(PERMISSIONED_MARKET_FLAGS),
{
    assert(0x3u64 == 0x1u64 | 0x2u64 && 0x203u64 == 0x1u64 | 0x2u64 | 0x200u64 && 0x3u64 & 0x200u64
        == 0 && 0x203u64 & 0x200u64 != 0) by (bit_vector);
}

} // verus!
