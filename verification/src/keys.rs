//! The accounts of a market, and the signer of its vaults.

use vstd::prelude::*;
use crate::error::Error;
use crate::flags::{MARKET_FLAGS, PERMISSIONED_MARKET_FLAGS};
use crate::market::{
    decode_market, lemma_permissioned_market_round_trip, lemma_plain_market_round_trip,
    market_layout, market_state_of, MarketState,
};
use crate::padding::{lemma_padding_round_trip, padded, remove_dex_account_padding, stripped};
use crate::pubkey::Pubkey;
use crate::words::{bytes_of_word, write_word};

verus! {

/// The accounts that belong to a market, and the signer of its vaults.
#[derive(Clone, Debug, PartialEq, Eq)]
pub struct MarketPubkeys {
    pub market: Box<Pubkey>,
    pub req_q: Box<Pubkey>,
    pub event_q: Box<Pubkey>,
    pub bids: Box<Pubkey>,
    pub asks: Box<Pubkey>,
    pub coin_vault: Box<Pubkey>,
    pub pc_vault: Box<Pubkey>,
    pub vault_signer_key: Box<Pubkey>,
}

/// The error of `solana_sdk::pubkey::Pubkey::create_program_address`. It is
/// carried from the call to the place that turns it into an error of this
/// library, and never looked into.
#[verifier::external_type_specification]
#[verifier::external_body]
pub struct ExPubkeyError(solana_sdk::pubkey::PubkeyError);

/// The address that `solana_sdk::pubkey::Pubkey::create_program_address`
/// derives from a list of seeds and a program's identifier, or `None` where
/// it derives none: a hash of the seeds, the identifier and a marker, refused
/// where it is a point of the curve.
pub uninterp spec fn program_address(seeds: Seq<Seq<u8>>, program_id: Seq<u8>) -> Option<Seq<u8>>;

/// Calls `solana_sdk::pubkey::Pubkey::create_program_address` with two seeds.
/// The contract gives its result a name and claims nothing else of it: what
/// comes back is `program_address` of the seeds and the identifier, the
/// address on success and `None` on any error.
#[verifier::external_body]
fn create_program_address(seed0: &[u8; 32], seed1: &[u8; 8], program_id: &[u8; 32]) -> (address:
    Result<[u8; 32], solana_sdk::pubkey::PubkeyError>)
    ensures
        match address {
            Ok(a) => program_address(seq![seed0@, seed1@], program_id@) == Some(a@),
            Err(_) => program_address(seq![seed0@, seed1@], program_id@) is None,
        },
{
    let program_id = solana_sdk::pubkey::Pubkey::new_from_array(*program_id);
    let seeds: [&[u8]; 2] = [seed0, seed1];
    solana_sdk::pubkey::Pubkey::create_program_address(&seeds, &program_id).map(|a| a.to_bytes())
}

/// The signer of a market's vaults: the program address of the market's
/// identifier and the eight little-endian bytes of the nonce, under the
/// program's identifier.
pub open spec fn vault_signer_key(nonce: u64, market: Pubkey, program_id: Pubkey) -> Result<
    Pubkey,
    Error,
> {
    match program_address(seq![market@, bytes_of_word(nonce)], program_id@) {
        Some(address) => Ok(Pubkey::of_bytes(address)),
        None => Err(Error::SignerDerivationFailed),
    }
}

/// Derives the signer of a market's vaults from the nonce that the market
/// stores.
pub fn gen_vault_signer_key(nonce: u64, market: &Pubkey, program_id: &Pubkey) -> (key: Result<
    Pubkey,
    Error,
>)
    ensures
        key == vault_signer_key(nonce, *market, *program_id),
{
    let market_bytes = market.to_bytes();
    let nonce_bytes = write_word(nonce);
    let program_bytes = program_id.to_bytes();
    match create_program_address(&market_bytes, &nonce_bytes, &program_bytes) {
        Ok(address) => Ok(Pubkey::from_bytes(&address)),
        Err(_) => Err(Error::SignerDerivationFailed),
    }
}

/// The accounts that `state` names, for the market `market` and with
/// `signer` as the signer of its vaults.
pub open spec fn keys_of(state: MarketState, market: Pubkey, signer: Pubkey) -> MarketPubkeys {
    MarketPubkeys {
        market: Box::new(market),
        req_q: Box::new(state.req_q),
        event_q: Box::new(state.event_q),
        bids: Box::new(state.bids),
        asks: Box::new(state.asks),
        coin_vault: Box::new(state.coin_vault),
        pc_vault: Box::new(state.pc_vault),
        vault_signer_key: Box::new(signer),
    }
}

/// What a market record and the outcome of the signer's derivation give for
/// the market asked for: a record that names another account is refused
/// whatever else it holds; then a failed derivation is handed on; else the
/// record's accounts come back with the signer.
pub open spec fn keys_with_signer(
    state: MarketState,
    market: Pubkey,
    signer: Result<Pubkey, Error>,
) -> Result<MarketPubkeys, Error> {
    if state.own_address != market {
        Err(Error::SelfReferenceMismatch)
    } else {
        match signer {
            Ok(key) => Ok(keys_of(state, market, key)),
            Err(e) => Err(e),
        }
    }
}

/// Checks a market record against the market asked for and joins its accounts
/// with the outcome of the signer's derivation.
pub fn market_keys(state: &MarketState, market: &Pubkey, signer: Result<Pubkey, Error>) -> (keys:
    Result<MarketPubkeys, Error>)
    ensures
        keys == keys_with_signer(*state, *market, signer),
{
    if state.own_address != *market {
        return Err(Error::SelfReferenceMismatch);
    }
    match signer {
        Ok(key) => Ok(
            MarketPubkeys {
                market: Box::new(*market),
                req_q: Box::new(state.req_q),
                event_q: Box::new(state.event_q),
                bids: Box::new(state.bids),
                asks: Box::new(state.asks),
                coin_vault: Box::new(state.coin_vault),
                pc_vault: Box::new(state.pc_vault),
                vault_signer_key: Box::new(key),
            },
        ),
        Err(e) => Err(e),
    }
}

/// What a market record gives for the market asked for, under a program.
pub open spec fn derived_keys(state: MarketState, program_id: Pubkey, market: Pubkey) -> Result<
    MarketPubkeys,
    Error,
> {
    keys_with_signer(
        state,
        market,
        vault_signer_key(state.vault_signer_nonce, market, program_id),
    )
}

/// Checks that a market record is the record of `market`, derives the signer
/// of its vaults and returns the market's accounts.
pub fn derive_market_keys(state: &MarketState, program_id: &Pubkey, market: &Pubkey) -> (keys: Result<
    MarketPubkeys,
    Error,
>)
    ensures
        keys == derived_keys(*state, *program_id, *market),
{
    if state.own_address != *market {
        return Err(Error::SelfReferenceMismatch);
    }
    let signer = gen_vault_signer_key(state.vault_signer_nonce, market, program_id);
    market_keys(state, market, signer)
}

/// What a market account's buffer gives for the market asked for: the first
/// failure of removing the padding, decoding the record and deriving the
/// keys, or the market's accounts.
pub open spec fn market_keys_of(data: Seq<u8>, program_id: Pubkey, market: Pubkey) -> Result<
    MarketPubkeys,
    Error,
> {
    match stripped(data) {
        Err(e) => Err(e),
        Ok(words) => match market_state_of(words) {
            Err(e) => Err(e),
            Ok(state) => derived_keys(state, program_id, market),
        },
    }
}

/// Decodes the buffer of a market account and returns the market's accounts.
pub fn get_keys_for_market(account_data: &[u8], program_id: &Pubkey, market: &Pubkey) -> (keys:
    Result<MarketPubkeys, Error>)
    ensures
        keys == market_keys_of(account_data@, *program_id, *market),
{
    let words = match remove_dex_account_padding(account_data) {
        Ok(words) => words,
        Err(e) => {
            return Err(e);
        },
    };
    let state = match decode_market(words.as_slice()) {
        Ok(state) => state,
        Err(e) => {
            return Err(e);
        },
    };
    derive_market_keys(&state, program_id, market)
}

/// A record that names another account than the one asked for is refused as
/// such, whatever its other fields hold and whatever the derivation gives.
pub proof fn lemma_other_address_is_refused(
    state: MarketState,
    program_id: Pubkey,
    market: Pubkey,
)
    requires
        state.own_address != market,
    ensures
        derived_keys(state, program_id, market) == Err::<MarketPubkeys, Error>(
            Error::SelfReferenceMismatch,
        ),
{
}

/// A market's account, built from a record in either shape and put between
/// the two paddings, gives what the record itself gives: every field is
/// read back as it was written.
pub proof fn lemma_market_account_round_trip(
    state: MarketState,
    rest: Seq<u64>,
    program_id: Pubkey,
    market: Pubkey,
)
    requires
        state.account_flags == MARKET_FLAGS && rest.len() == 47 || state.account_flags
            == PERMISSIONED_MARKET_FLAGS && rest.len() == 183,
    ensures
        market_keys_of(padded(market_layout(state, rest)), program_id, market) == derived_keys(
            state,
            program_id,
            market,
        ),
{
    lemma_padding_round_trip(market_layout(state, rest));
    if rest.len() == 47 {
        lemma_plain_market_round_trip(state, rest);
    } else {
        lemma_permissioned_market_round_trip(state, rest);
    }
}

} // verus!
