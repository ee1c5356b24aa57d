//! The market record and its two shapes.

use vstd::prelude::*;
use crate::error::Error;
use crate::flags::{MARKET_FLAGS, PERMISSIONED, PERMISSIONED_MARKET_FLAGS, is_permissioned, lemma_market_flag_sets};
use crate::pubkey::Pubkey;

verus! {

/// The number of words in a plain market record.
pub const MARKET_STATE_WORDS: usize = 47;

/// The number of words in a wrapping market record: the plain record, three
/// authorities and 992 spare bytes.
pub const MARKET_STATE_V2_WORDS: usize = 183;

/// The word at which a market record's own address starts.
pub const OWN_ADDRESS_AT: usize = 1;

/// The word that holds the vault signer's nonce.
pub const VAULT_SIGNER_NONCE_AT: usize = 5;

/// The word at which the coin vault's address starts.
pub const COIN_VAULT_AT: usize = 14;

/// The word at which the price-currency vault's address starts.
pub const PC_VAULT_AT: usize = 20;

/// The word at which the request queue's address starts.
pub const REQ_Q_AT: usize = 27;

/// The word at which the event queue's address starts.
pub const EVENT_Q_AT: usize = 31;

/// The word at which the bids' address starts.
pub const BIDS_AT: usize = 35;

/// The word at which the asks' address starts.
pub const ASKS_AT: usize = 39;

/// What a market account says of itself and of the accounts that belong to it.
/// Both shapes of the record decode to this.
#[derive(Clone, Copy, Debug, PartialEq, Eq, Structural)]
pub struct MarketState {
    pub account_flags: u64,
    pub own_address: Pubkey,
    pub vault_signer_nonce: u64,
    pub coin_vault: Pubkey,
    pub pc_vault: Pubkey,
    pub req_q: Pubkey,
    pub event_q: Pubkey,
    pub bids: Pubkey,
    pub asks: Pubkey,
}

/// The fields of the plain record with which `words` begins.
pub open spec fn market_fields(words: Seq<u64>) -> MarketState
    recommends
        words.len() >= 47,
{
    MarketState {
        account_flags: words[0],
        own_address: Pubkey::of_words(words, 1),
        vault_signer_nonce: words[5],
        coin_vault: Pubkey::of_words(words, 14),
        pc_vault: Pubkey::of_words(words, 20),
        req_q: Pubkey::of_words(words, 27),
        event_q: Pubkey::of_words(words, 31),
        bids: Pubkey::of_words(words, 35),
        asks: Pubkey::of_words(words, 39),
    }
}

/// What a market account's interior decodes to. The permissioned bit of the
/// first word chooses the shape; the interior must then have exactly that
/// shape's size, and its flags must be exactly that shape's flags.
pub open spec fn market_state_of(words: Seq<u64>) -> Result<MarketState, Error> {
    if words.len() == 0 {
        Err(Error::LayoutSizeMismatch)
    } else if is_permissioned(words[0]) {
        if words.len() != 183 {
            Err(Error::LayoutSizeMismatch)
        } else if words[0] != PERMISSIONED_MARKET_FLAGS {
            Err(Error::FlagMismatch)
        } else {
            Ok(market_fields(words))
        }
    } else {
        if words.len() != 47 {
            Err(Error::LayoutSizeMismatch)
        } else if words[0] != MARKET_FLAGS {
            Err(Error::FlagMismatch)
        } else {
            Ok(market_fields(words))
        }
    }
}

/// Reads the fields of the plain record with which `words` begins.
fn read_market_fields(words: &[u64]) -> (state: MarketState)
    requires
        words.len() >= 47,
    ensures
        state == market_fields(words@),
{
    MarketState {
        account_flags: words[0],
        own_address: Pubkey::from_words(words, OWN_ADDRESS_AT),
        vault_signer_nonce: words[VAULT_SIGNER_NONCE_AT],
        coin_vault: Pubkey::from_words(words, COIN_VAULT_AT),
        pc_vault: Pubkey::from_words(words, PC_VAULT_AT),
        req_q: Pubkey::from_words(words, REQ_Q_AT),
        event_q: Pubkey::from_words(words, EVENT_Q_AT),
        bids: Pubkey::from_words(words, BIDS_AT),
        asks: Pubkey::from_words(words, ASKS_AT),
    }
}

/// Decodes the interior of a market account, in whichever of the two shapes
/// its flags announce.
pub fn decode_market(words: &[u64]) -> (state: Result<MarketState, Error>)
    ensures
        state == market_state_of(words@),
{
    if words.len() == 0 {
        return Err(Error::LayoutSizeMismatch);
    }
    let flags = words[0];
    if flags & PERMISSIONED != 0 {
        if words.len() != MARKET_STATE_V2_WORDS {
            return Err(Error::LayoutSizeMismatch);
        }
        if flags != PERMISSIONED_MARKET_FLAGS {
            return Err(Error::FlagMismatch);
        }
        Ok(read_market_fields(words))
    } else {
        if words.len() != MARKET_STATE_WORDS {
            return Err(Error::LayoutSizeMismatch);
        }
        if flags != MARKET_FLAGS {
            return Err(Error::FlagMismatch);
        }
        Ok(read_market_fields(words))
    }
}

/// `words` with an address written into the four words that start at `at`.
pub open spec fn with_key(words: Seq<u64>, at: int, key: Pubkey) -> Seq<u64> {
    words.update(at, key.w0).update(at + 1, key.w1).update(at + 2, key.w2).update(at + 3, key.w3)
}

/// `rest` with the fields of `state` written where a market record holds
/// them. The plain record is the head of the wrapping one, so this serves
/// both shapes: `rest` gives the size, and the words that the record does not
/// name.
pub open spec fn market_layout(state: MarketState, rest: Seq<u64>) -> Seq<u64> {
    let w = rest.update(0, state.account_flags).update(5, state.vault_signer_nonce);
    let w = with_key(w, 1, state.own_address);
    let w = with_key(w, 14, state.coin_vault);
    let w = with_key(w, 20, state.pc_vault);
    let w = with_key(w, 27, state.req_q);
    let w = with_key(w, 31, state.event_q);
    let w = with_key(w, 35, state.bids);
    with_key(w, 39, state.asks)
}

/// A record whose flags are initialized and market, laid out in the plain
/// shape, decodes to itself, whatever the other words of the shape hold.
pub proof fn lemma_plain_market_round_trip(state: MarketState, rest: Seq<u64>)
    requires
        rest.len() == 47,
        state.account_flags == MARKET_FLAGS,
    ensures
        market_state_of(market_layout(state, rest)) == Ok::<MarketState, Error>(state),
{
    lemma_market_flag_sets();
}

/// A record whose flags are initialized, market and permissioned, laid out
/// as the head of the wrapping shape, decodes to itself, whatever the other
/// words of the shape hold.
pub proof fn lemma_permissioned_market_round_trip(state: MarketState, rest: Seq<u64>)
    requires
        rest.len() == 183,
        state.account_flags == PERMISSIONED_MARKET_FLAGS,
    ensures
        market_state_of(market_layout(state, rest)) == Ok::<MarketState, Error>(state),
{
    lemma_market_flag_sets();
}

/// The wrapping shape projects its head: making a plain record permissioned
/// and appending the 136 words of the wrapper changes nothing of what is
/// decoded but the flags.
pub proof fn lemma_permissioned_projects_inner(plain: Seq<u64>, wrapper: Seq<u64>)
    requires
        plain.len() == 47,
        wrapper.len() == 136,
        plain[0] == MARKET_FLAGS,
    ensures
        market_state_of(plain) == Ok::<MarketState, Error>(market_fields(plain)),
        market_state_of(plain.update(0, PERMISSIONED_MARKET_FLAGS) + wrapper) == Ok::<
            MarketState,
            Error,
        >(MarketState { account_flags: PERMISSIONED_MARKET_FLAGS, ..market_fields(plain) }),
{
    lemma_market_flag_sets();
}

} // verus!
