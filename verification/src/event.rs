//! One slot of the event queue, and what it says.

use vstd::prelude::*;
use crate::error::Error;
use crate::pubkey::Pubkey;
use crate::words::{word_of_bytes, words_of_bytes, bytes_of_word, lemma_bytes_of_their_word};

verus! {

/// The number of words in one event record.
pub const EVENT_WORDS: usize = 11;

/// Tag bit: the record tells of a trade.
pub const FILL: u8 = 0x1;

/// Tag bit: the record tells of an order that left the book.
pub const OUT: u8 = 0x2;

/// Tag bit: the order was a bid; without it, an ask.
pub const BID: u8 = 0x4;

/// Tag bit of a fill: the order was the maker.
pub const MAKER: u8 = 0x8;

/// Tag bit of an out: the order's funds are released.
pub const RELEASE_FUNDS: u8 = 0x10;

/// The side of the book on which an order stands.
#[derive(Clone, Copy, Debug, PartialEq, Eq, Structural, Hash)]
pub enum Side {
    Bid,
    Ask,
}

/// What an event record says, by its tag.
#[derive(Clone, Copy, Debug, PartialEq, Eq, Hash)]
pub enum EventView {
    /// A trade.
    Fill {
        side: Side,
        maker: bool,
        native_qty_paid: u64,
        native_qty_received: u64,
        native_fee_or_rebate: u64,
        order_id: u128,
        owner: Pubkey,
        owner_slot: u8,
        fee_tier: u8,
        client_order_id: Option<u64>,
    },
    /// An order, or a part of it, leaving the book.
    Out {
        side: Side,
        release_funds: bool,
        native_qty_unlocked: u64,
        native_qty_still_locked: u64,
        order_id: u128,
        owner: Pubkey,
        owner_slot: u8,
        client_order_id: Option<u64>,
    },
}

/// Whether a tag names a fill: the fill bit, and beside it at most the bid
/// and maker bits.
pub open spec fn is_fill_tag(tag: u8) -> bool {
    tag & FILL != 0 && tag & (FILL | BID | MAKER) == tag
}

/// Whether a tag names an out: the out bit, and beside it at most the bid
/// and release bits.
pub open spec fn is_out_tag(tag: u8) -> bool {
    tag & OUT != 0 && tag & (OUT | BID | RELEASE_FUNDS) == tag
}

/// The side that a tag names.
pub open spec fn side_of_tag(tag: u8) -> Side {
    if tag & BID != 0 {
        Side::Bid
    } else {
        Side::Ask
    }
}

/// An order identifier from its two words, the low one first.
pub open spec fn order_id_of(low: u64, high: u64) -> u128 {
    (low as int + 0x1_0000_0000_0000_0000 * (high as int)) as u128
}

/// A client's order identifier, where the client gave one: zero stands for
/// none.
pub open spec fn client_order_id_of(word: u64) -> Option<u64> {
    if word == 0 {
        None
    } else {
        Some(word)
    }
}

/// The tag of a record: the lowest byte of its first word.
pub open spec fn tag_of(first: u64) -> u8 {
    (first % 0x100) as u8
}

/// The owner's slot of a record: the second byte of its first word.
pub open spec fn owner_slot_of(first: u64) -> u8 {
    (first / 0x100 % 0x100) as u8
}

/// The fee tier of a record: the third byte of its first word.
pub open spec fn fee_tier_of(first: u64) -> u8 {
    (first / 0x1_0000 % 0x100) as u8
}

/// What the eleven words of an event record say. The tag alone chooses
/// between the two views; one that names neither is refused. No quantity is
/// computed from another.
pub open spec fn event_of(words: Seq<u64>) -> Result<EventView, Error>
    recommends
        words.len() == 11,
{
    let tag = tag_of(words[0]);
    if is_fill_tag(tag) {
        Ok(
            EventView::Fill {
                side: side_of_tag(tag),
                maker: tag & MAKER != 0,
                native_qty_paid: words[2],
                native_qty_received: words[1],
                native_fee_or_rebate: words[3],
                order_id: order_id_of(words[4], words[5]),
                owner: Pubkey::of_words(words, 6),
                owner_slot: owner_slot_of(words[0]),
                fee_tier: fee_tier_of(words[0]),
                client_order_id: client_order_id_of(words[10]),
            },
        )
    } else if is_out_tag(tag) {
        Ok(
            EventView::Out {
                side: side_of_tag(tag),
                release_funds: tag & RELEASE_FUNDS != 0,
                native_qty_unlocked: words[1],
                native_qty_still_locked: words[2],
                order_id: order_id_of(words[4], words[5]),
                owner: Pubkey::of_words(words, 6),
                owner_slot: owner_slot_of(words[0]),
                client_order_id: client_order_id_of(words[10]),
            },
        )
    } else {
        Err(Error::UnknownEventTag)
    }
}

/// Decodes the event record that starts at word `at`.
pub fn decode_event(words: &[u64], at: usize) -> (event: Result<EventView, Error>)
    requires
        at + 11 <= words.len(),
    ensures
        event == event_of(words@.subrange(at as int, at + 11)),
{
    let first = words[at];
    let tag: u8 = (first % 0x100) as u8;
    let owner_slot: u8 = (first / 0x100 % 0x100) as u8;
    let fee_tier: u8 = (first / 0x1_0000 % 0x100) as u8;
    let side = if tag & BID != 0 {
        Side::Bid
    } else {
        Side::Ask
    };
    let order_id: u128 = words[at + 4] as u128 + 0x1_0000_0000_0000_0000 * (words[at + 5] as u128);
    let owner = Pubkey::from_words(words, at + 6);
    let client_order_id = if words[at + 10] == 0 {
        None
    } else {
        Some(words[at + 10])
    };
    if tag & FILL != 0 && tag & (FILL | BID | MAKER) == tag {
        Ok(
            EventView::Fill {
                side,
                maker: tag & MAKER != 0,
                native_qty_paid: words[at + 2],
                native_qty_received: words[at + 1],
                native_fee_or_rebate: words[at + 3],
                order_id,
                owner,
                owner_slot,
                fee_tier,
                client_order_id,
            },
        )
    } else if tag & OUT != 0 && tag & (OUT | BID | RELEASE_FUNDS) == tag {
        Ok(
            EventView::Out {
                side,
                release_funds: tag & RELEASE_FUNDS != 0,
                native_qty_unlocked: words[at + 1],
                native_qty_still_locked: words[at + 2],
                order_id,
                owner,
                owner_slot,
                client_order_id,
            },
        )
    } else {
        Err(Error::UnknownEventTag)
    }
}

/// The tags that name a fill are 1, 5, 9 and 13; those that name an out are
/// 2, 6, 18 and 22.
pub proof fn lemma_known_tags(tag: u8)
    ensures
        is_fill_tag(tag) <==> tag == 1 || tag == 5 || tag == 9 || tag == 13,
        is_out_tag(tag) <==> tag == 2 || tag == 6 || tag == 18 || tag == 22,
{
    assert((tag & 0x1u8 != 0 && tag & (0x1u8 | 0x4u8 | 0x8u8) == tag) <==> (tag == 1 || tag == 5
        || tag == 9 || tag == 13)) by (bit_vector);
    assert((tag & 0x2u8 != 0 && tag & (0x2u8 | 0x4u8 | 0x10u8) == tag) <==> (tag == 2 || tag == 6
        || tag == 18 || tag == 22)) by (bit_vector);
}

/// No tag names both a fill and an out.
pub proof fn lemma_tags_are_disjoint(tag: u8)
    ensures
        !(is_fill_tag(tag) && is_out_tag(tag)),
{
    assert(!((tag & 0x1u8 != 0 && tag & (0x1u8 | 0x4u8 | 0x8u8) == tag) && (tag & 0x2u8 != 0 && tag
        & (0x2u8 | 0x4u8 | 0x10u8) == tag))) by (bit_vector);
}

/// The first three bytes of a record are its tag, its owner's slot and its
/// fee tier.
proof fn lemma_first_word(record: Seq<u8>)
    requires
        record.len() == 88,
    ensures
        tag_of(words_of_bytes(record)[0]) == record[0],
        owner_slot_of(words_of_bytes(record)[0]) == record[1],
        fee_tier_of(words_of_bytes(record)[0]) == record[2],
{
    let chunk = record.subrange(0, 8);
    lemma_bytes_of_their_word(chunk);
    let back = bytes_of_word(word_of_bytes(chunk));
    assert(back[0] == chunk[0] && back[1] == chunk[1] && back[2] == chunk[2]);
}

/// The owner of a record is spelled by its bytes 48 to 80.
proof fn lemma_owner_bytes(record: Seq<u8>)
    requires
        record.len() == 88,
    ensures
        Pubkey::of_words(words_of_bytes(record), 6) == Pubkey::of_bytes(record.subrange(48, 80)),
{
    let owner = record.subrange(48, 80);
    assert(owner.subrange(0, 8) =~= record.subrange(48, 56));
    assert(owner.subrange(8, 16) =~= record.subrange(56, 64));
    assert(owner.subrange(16, 24) =~= record.subrange(64, 72));
    assert(owner.subrange(24, 32) =~= record.subrange(72, 80));
}

/// A record of 88 bytes whose first byte names a fill decodes to a fill, and
/// every field of the fill is read from the record's bytes where the layout
/// holds it, lowest byte first.
pub proof fn lemma_fill_matches_bytes(record: Seq<u8>)
    requires
        record.len() == 88,
        is_fill_tag(record[0]),
    ensures
        event_of(words_of_bytes(record)) == Ok::<EventView, Error>(
            EventView::Fill {
                side: side_of_tag(record[0]),
                maker: record[0] & MAKER != 0,
                native_qty_paid: word_of_bytes(record.subrange(16, 24)),
                native_qty_received: word_of_bytes(record.subrange(8, 16)),
                native_fee_or_rebate: word_of_bytes(record.subrange(24, 32)),
                order_id: order_id_of(
                    word_of_bytes(record.subrange(32, 40)),
                    word_of_bytes(record.subrange(40, 48)),
                ),
                owner: Pubkey::of_bytes(record.subrange(48, 80)),
                owner_slot: record[1],
                fee_tier: record[2],
                client_order_id: client_order_id_of(word_of_bytes(record.subrange(80, 88))),
            },
        ),
{
    lemma_first_word(record);
    lemma_owner_bytes(record);
}

/// A record of 88 bytes whose first byte names an out decodes to an out, and
/// every field of the out is read from the record's bytes where the layout
/// holds it, lowest byte first.
pub proof fn lemma_out_matches_bytes(record: Seq<u8>)
    requires
        record.len() == 88,
        is_out_tag(record[0]),
    ensures
        event_of(words_of_bytes(record)) == Ok::<EventView, Error>(
            EventView::Out {
                side: side_of_tag(record[0]),
                release_funds: record[0] & RELEASE_FUNDS != 0,
                native_qty_unlocked: word_of_bytes(record.subrange(8, 16)),
                native_qty_still_locked: word_of_bytes(record.subrange(16, 24)),
                order_id: order_id_of(
                    word_of_bytes(record.subrange(32, 40)),
                    word_of_bytes(record.subrange(40, 48)),
                ),
                owner: Pubkey::of_bytes(record.subrange(48, 80)),
                owner_slot: record[1],
                client_order_id: client_order_id_of(word_of_bytes(record.subrange(80, 88))),
            },
        ),
{
    lemma_first_word(record);
    lemma_owner_bytes(record);
    lemma_tags_are_disjoint(record[0]);
}

/// A record of 88 bytes whose first byte names neither a fill nor an out is
/// refused.
pub proof fn lemma_unknown_tag_is_refused(record: Seq<u8>)
    requires
        record.len() == 88,
        !is_fill_tag(record[0]),
        !is_out_tag(record[0]),
    ensures
        event_of(words_of_bytes(record)) == Err::<EventView, Error>(Error::UnknownEventTag),
{
    lemma_first_word(record);
}

} // verus!
