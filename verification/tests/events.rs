use serum_iq::error::Error;
use serum_iq::event::{
    decode_event, EventView, Side, BID, EVENT_WORDS, FILL, MAKER, OUT, RELEASE_FUNDS,
};
use serum_iq::pubkey::Pubkey;

const OWNER: [u64; 4] = [0x1111, 0x2222_0000_0000_0000, 0x3333, u64::MAX];
const ORDER_ID: u128 = 0x0123_4567_89ab_cdef_0fed_cba9_8765_4321;

fn owner() -> Pubkey {
    Pubkey { w0: OWNER[0], w1: OWNER[1], w2: OWNER[2], w3: OWNER[3] }
}

/// The eleven words of a record. The five spare bytes of the first word are
/// set, to show that nothing reads them.
fn record(tag: u8, owner_slot: u8, fee_tier: u8, client: u64) -> [u64; 11] {
    let first = tag as u64 | (owner_slot as u64) << 8 | (fee_tier as u64) << 16 | 0xabcd_ef01_23 << 24;
    [
        first,
        1_000,
        2_000,
        30,
        ORDER_ID as u64,
        (ORDER_ID >> 64) as u64,
        OWNER[0],
        OWNER[1],
        OWNER[2],
        OWNER[3],
        client,
    ]
}

fn fill(side: Side, maker: bool, client: Option<u64>) -> EventView {
    EventView::Fill {
        side,
        maker,
        native_qty_paid: 2_000,
        native_qty_received: 1_000,
        native_fee_or_rebate: 30,
        order_id: ORDER_ID,
        owner: owner(),
        owner_slot: 7,
        fee_tier: 3,
        client_order_id: client,
    }
}

fn out(side: Side, release_funds: bool, client: Option<u64>) -> EventView {
    EventView::Out {
        side,
        release_funds,
        native_qty_unlocked: 1_000,
        native_qty_still_locked: 2_000,
        order_id: ORDER_ID,
        owner: owner(),
        owner_slot: 7,
        client_order_id: client,
    }
}

/// What the protocol's own reader makes of a record, in this library's terms.
fn reference(words: &[u64; 11]) -> Option<EventView> {
    let bytes = safe_transmute::transmute_to_bytes(&words[..]);
    let event: serum_dex::state::Event =
        safe_transmute::transmute_one_pedantic(bytes).expect("the size of a record");
    let side_of = |side: serum_dex::matching::Side| match side {
        serum_dex::matching::Side::Bid => Side::Bid,
        serum_dex::matching::Side::Ask => Side::Ask,
    };
    let key_of = |w: [u64; 4]| Pubkey { w0: w[0], w1: w[1], w2: w[2], w3: w[3] };
    match event.as_view().ok()? {
        serum_dex::state::EventView::Fill {
            side,
            maker,
            native_qty_paid,
            native_qty_received,
            native_fee_or_rebate,
            order_id,
            owner,
            owner_slot,
            fee_tier,
            client_order_id,
        } => Some(EventView::Fill {
            side: side_of(side),
            maker,
            native_qty_paid,
            native_qty_received,
            native_fee_or_rebate,
            order_id,
            owner: key_of(owner),
            owner_slot,
            fee_tier: u8::from(fee_tier),
            client_order_id: client_order_id.map(|c| c.get()),
        }),
        serum_dex::state::EventView::Out {
            side,
            release_funds,
            native_qty_unlocked,
            native_qty_still_locked,
            order_id,
            owner,
            owner_slot,
            client_order_id,
        } => Some(EventView::Out {
            side: side_of(side),
            release_funds,
            native_qty_unlocked,
            native_qty_still_locked,
            order_id,
            owner: key_of(owner),
            owner_slot,
            client_order_id: client_order_id.map(|c| c.get()),
        }),
    }
}

#[test]
fn record_size_is_the_protocols() {
    assert_eq!(EVENT_WORDS * 8, std::mem::size_of::<serum_dex::state::Event>());
    assert_eq!(EVENT_WORDS, 11);
}

#[test]
fn fill_tags_decode_to_fills() {
    assert_eq!(decode_event(&record(FILL, 7, 3, 55), 0), Ok(fill(Side::Ask, false, Some(55))));
    assert_eq!(decode_event(&record(FILL | BID, 7, 3, 55), 0), Ok(fill(Side::Bid, false, Some(55))));
    assert_eq!(decode_event(&record(FILL | MAKER, 7, 3, 0), 0), Ok(fill(Side::Ask, true, None)));
    assert_eq!(
        decode_event(&record(FILL | BID | MAKER, 7, 3, u64::MAX), 0),
        Ok(fill(Side::Bid, true, Some(u64::MAX)))
    );
}

#[test]
fn out_tags_decode_to_outs() {
    assert_eq!(decode_event(&record(OUT, 7, 0, 55), 0), Ok(out(Side::Ask, false, Some(55))));
    assert_eq!(decode_event(&record(OUT | BID, 7, 0, 0), 0), Ok(out(Side::Bid, false, None)));
    assert_eq!(
        decode_event(&record(OUT | RELEASE_FUNDS, 7, 0, 1), 0),
        Ok(out(Side::Ask, true, Some(1)))
    );
    assert_eq!(
        decode_event(&record(OUT | BID | RELEASE_FUNDS, 7, 0, 1), 0),
        Ok(out(Side::Bid, true, Some(1)))
    );
}

#[test]
fn out_ignores_the_fee_tier_byte() {
    assert_eq!(decode_event(&record(OUT, 7, 200, 55), 0), Ok(out(Side::Ask, false, Some(55))));
}

#[test]
fn every_other_tag_is_refused() {
    let known = [
        FILL,
        FILL | BID,
        FILL | MAKER,
        FILL | BID | MAKER,
        OUT,
        OUT | BID,
        OUT | RELEASE_FUNDS,
        OUT | BID | RELEASE_FUNDS,
    ];
    assert_eq!(known, [1, 5, 9, 13, 2, 6, 18, 22]);
    for tag in 0..=255u8 {
        let decoded = decode_event(&record(tag, 7, 3, 55), 0);
        if known.contains(&tag) {
            assert!(decoded.is_ok());
        } else {
            assert_eq!(decoded, Err(Error::UnknownEventTag));
        }
    }
}

#[test]
fn a_tag_without_fill_or_out_is_no_out() {
    assert_eq!(decode_event(&record(0, 7, 3, 55), 0), Err(Error::UnknownEventTag));
    assert_eq!(decode_event(&record(BID, 7, 3, 55), 0), Err(Error::UnknownEventTag));
    assert_eq!(decode_event(&record(FILL | OUT, 7, 3, 55), 0), Err(Error::UnknownEventTag));
}

#[test]
fn known_tags_decode_as_the_protocol_reads_them() {
    for tag in [1u8, 5, 9, 13, 2, 6, 18, 22] {
        for fee_tier in 0..8u8 {
            for client in [0u64, 9] {
                let words = record(tag, 200, fee_tier, client);
                let expected = reference(&words).expect("a tag that the protocol writes");
                assert_eq!(decode_event(&words, 0), Ok(expected));
            }
        }
    }
}

#[test]
fn tags_that_the_protocol_refuses_are_refused() {
    for tag in [3u8, 7, 11, 17, 19, 21, 25, 29, 31, 10, 14, 26, 30] {
        let words = record(tag, 7, 3, 55);
        assert_eq!(reference(&words), None);
        assert_eq!(decode_event(&words, 0), Err(Error::UnknownEventTag));
    }
}

#[test]
fn fields_are_read_from_the_records_bytes() {
    let mut bytes = [0u8; 88];
    for (i, b) in bytes.iter_mut().enumerate() {
        *b = i as u8 + 100;
    }
    bytes[0] = FILL | BID;
    let words: Vec<u64> =
        bytes.chunks(8).map(|c| u64::from_le_bytes(c.try_into().unwrap())).collect();
    let word = |at: usize| u64::from_le_bytes(bytes[at..at + 8].try_into().unwrap());
    let mut owner_bytes = [0u8; 32];
    owner_bytes.copy_from_slice(&bytes[48..80]);
    assert_eq!(
        decode_event(&words, 0),
        Ok(EventView::Fill {
            side: Side::Bid,
            maker: false,
            native_qty_paid: word(16),
            native_qty_received: word(8),
            native_fee_or_rebate: word(24),
            order_id: u128::from_le_bytes(bytes[32..48].try_into().unwrap()),
            owner: Pubkey::from_bytes(&owner_bytes),
            owner_slot: 101,
            fee_tier: 102,
            client_order_id: Some(word(80)),
        })
    );
}

#[test]
fn a_record_is_read_where_it_starts() {
    let mut words = vec![0u64; 3];
    words.extend_from_slice(&record(OUT | BID, 7, 0, 55));
    words.extend_from_slice(&record(FILL, 7, 3, 66));
    assert_eq!(decode_event(&words, 3), Ok(out(Side::Bid, false, Some(55))));
    assert_eq!(decode_event(&words, 14), Ok(fill(Side::Ask, false, Some(66))));
}

#[test]
fn order_id_extremes() {
    let mut words = record(FILL, 0, 0, 0);
    words[4] = u64::MAX;
    words[5] = u64::MAX;
    match decode_event(&words, 0) {
        Ok(EventView::Fill { order_id, .. }) => assert_eq!(order_id, u128::MAX),
        other => panic!("not a fill: {:?}", other),
    }
    words[4] = 0;
    words[5] = 1;
    match decode_event(&words, 0) {
        Ok(EventView::Fill { order_id, .. }) => assert_eq!(order_id, 1u128 << 64),
        other => panic!("not a fill: {:?}", other),
    }
}
