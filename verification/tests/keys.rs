use std::str::FromStr;

use serum_iq::error::Error;
use serum_iq::flags::{MARKET_FLAGS, PERMISSIONED_MARKET_FLAGS};
use serum_iq::keys::{
    derive_market_keys, gen_vault_signer_key, get_keys_for_market, market_keys, MarketPubkeys,
};
use serum_iq::market::MarketState;
use serum_iq::pubkey::Pubkey;

const PROGRAM: &str = "9xQeWvG816bUx9EPjHmaT23yvVM2ZWbrrpZb9PusVFin";
const MARKET: &str = "9wFFyRfZBsuAha4YcuxcXLKwMxJR43S7fPfQLusDBzvT";

fn chain_key(text: &str) -> solana_sdk::pubkey::Pubkey {
    solana_sdk::pubkey::Pubkey::from_str(text).expect("a base58 key")
}

fn key_of(chain: &solana_sdk::pubkey::Pubkey) -> Pubkey {
    Pubkey::from_bytes(&chain.to_bytes())
}

fn key(seed: u64) -> Pubkey {
    Pubkey { w0: seed, w1: seed ^ 0xa5a5, w2: seed.wrapping_mul(31), w3: !seed }
}

fn reference(nonce: u64, market: &solana_sdk::pubkey::Pubkey, program: &solana_sdk::pubkey::Pubkey) -> Option<Pubkey> {
    serum_dex::state::gen_vault_signer_key(nonce, market, program).ok().map(|k| key_of(&k))
}

/// The first nonce from `from` on for which the reference derivation does,
/// or does not, give a key.
fn nonce_with(valid: bool, from: u64, market: &solana_sdk::pubkey::Pubkey, program: &solana_sdk::pubkey::Pubkey) -> u64 {
    (from..from + 1000)
        .find(|n| reference(*n, market, program).is_some() == valid)
        .expect("both kinds of nonce occur among a thousand")
}

fn state_for(market: Pubkey, nonce: u64, flags: u64) -> MarketState {
    MarketState {
        account_flags: flags,
        own_address: market,
        vault_signer_nonce: nonce,
        coin_vault: key(2),
        pc_vault: key(3),
        req_q: key(4),
        event_q: key(5),
        bids: key(6),
        asks: key(7),
    }
}

fn expected_keys(state: &MarketState, market: Pubkey, signer: Pubkey) -> MarketPubkeys {
    MarketPubkeys {
        market: Box::new(market),
        req_q: Box::new(state.req_q),
        event_q: Box::new(state.event_q),
        bids: Box::new(state.bids),
        asks: Box::new(state.asks),
        coin_vault: Box::new(state.coin_vault),
        pc_vault: Box::new(state.pc_vault),
        vault_signer_key: Box::new(signer),
    }
}

fn account(state: &MarketState, len: usize) -> Vec<u8> {
    let mut words = vec![0u64; len];
    words[0] = state.account_flags;
    words[5] = state.vault_signer_nonce;
    for (at, k) in [
        (1, &state.own_address),
        (14, &state.coin_vault),
        (20, &state.pc_vault),
        (27, &state.req_q),
        (31, &state.event_q),
        (35, &state.bids),
        (39, &state.asks),
    ] {
        words[at] = k.w0;
        words[at + 1] = k.w1;
        words[at + 2] = k.w2;
        words[at + 3] = k.w3;
    }
    let mut data = b"serum".to_vec();
    for w in words {
        data.extend_from_slice(&w.to_le_bytes());
    }
    data.extend_from_slice(b"padding");
    data
}

#[test]
fn signer_is_the_reference_derivation() {
    let program = chain_key(PROGRAM);
    let market = chain_key(MARKET);
    let mut found = 0;
    for nonce in 0..64u64 {
        let ours = gen_vault_signer_key(nonce, &key_of(&market), &key_of(&program));
        match reference(nonce, &market, &program) {
            Some(k) => {
                found += 1;
                assert_eq!(ours, Ok(k));
                assert_ne!(k, key_of(&market));
                assert_ne!(k, key_of(&program));
            }
            None => assert_eq!(ours, Err(Error::SignerDerivationFailed)),
        }
    }
    assert!(found > 0 && found < 64);
}

#[test]
fn signer_is_the_program_address_of_market_and_nonce() {
    let program = chain_key(PROGRAM);
    let market = chain_key(MARKET);
    let nonce = nonce_with(true, 0, &market, &program);
    let seeds: [&[u8]; 2] = [market.as_ref(), &nonce.to_le_bytes()];
    let expected = solana_sdk::pubkey::Pubkey::create_program_address(&seeds, &program).unwrap();
    assert_eq!(
        gen_vault_signer_key(nonce, &key_of(&market), &key_of(&program)),
        Ok(key_of(&expected))
    );
}

#[test]
fn another_nonce_gives_another_signer_or_none() {
    let program = chain_key(PROGRAM);
    let market = chain_key(MARKET);
    let nonce = nonce_with(true, 0, &market, &program);
    let signer = gen_vault_signer_key(nonce, &key_of(&market), &key_of(&program)).unwrap();
    for other in 0..200u64 {
        if other != nonce {
            match gen_vault_signer_key(other, &key_of(&market), &key_of(&program)) {
                Ok(k) => assert_ne!(k, signer),
                Err(e) => assert_eq!(e, Error::SignerDerivationFailed),
            }
        }
    }
}

#[test]
fn signer_depends_on_market_and_program() {
    let program = chain_key(PROGRAM);
    let market = chain_key(MARKET);
    let nonce = nonce_with(true, 0, &market, &program);
    let signer = gen_vault_signer_key(nonce, &key_of(&market), &key_of(&program)).unwrap();
    let swapped = gen_vault_signer_key(nonce, &key_of(&program), &key_of(&market));
    assert_eq!(swapped.ok(), reference(nonce, &program, &market));
    assert_ne!(swapped, Ok(signer));
}

#[test]
fn keys_are_copied_from_the_record() {
    let market = key(1);
    let state = state_for(market, 9, MARKET_FLAGS);
    let signer = key(99);
    assert_eq!(market_keys(&state, &market, Ok(signer)), Ok(expected_keys(&state, market, signer)));
}

#[test]
fn failed_derivation_is_handed_on() {
    let market = key(1);
    let state = state_for(market, 9, MARKET_FLAGS);
    assert_eq!(
        market_keys(&state, &market, Err(Error::SignerDerivationFailed)),
        Err(Error::SignerDerivationFailed)
    );
}

#[test]
fn record_of_another_market_is_refused() {
    let market = key(1);
    let state = state_for(key(8), 9, MARKET_FLAGS);
    assert_eq!(market_keys(&state, &market, Ok(key(99))), Err(Error::SelfReferenceMismatch));
    assert_eq!(
        market_keys(&state, &market, Err(Error::SignerDerivationFailed)),
        Err(Error::SelfReferenceMismatch)
    );
    let near = Pubkey { w3: market.w3 ^ 1, ..market };
    assert_eq!(
        market_keys(&state_for(near, 9, MARKET_FLAGS), &market, Ok(key(99))),
        Err(Error::SelfReferenceMismatch)
    );
}

#[test]
fn derive_checks_the_address_whatever_the_nonce() {
    let program = chain_key(PROGRAM);
    let market = chain_key(MARKET);
    for nonce in 0..16u64 {
        let state = state_for(key(8), nonce, MARKET_FLAGS);
        assert_eq!(
            derive_market_keys(&state, &key_of(&program), &key_of(&market)),
            Err(Error::SelfReferenceMismatch)
        );
    }
}

#[test]
fn derive_gives_the_keys_with_the_signer() {
    let program = chain_key(PROGRAM);
    let market = chain_key(MARKET);
    let nonce = nonce_with(true, 0, &market, &program);
    let state = state_for(key_of(&market), nonce, MARKET_FLAGS);
    let signer = reference(nonce, &market, &program).unwrap();
    assert_eq!(
        derive_market_keys(&state, &key_of(&program), &key_of(&market)),
        Ok(expected_keys(&state, key_of(&market), signer))
    );
}

#[test]
fn derive_fails_on_a_nonce_that_derives_nothing() {
    let program = chain_key(PROGRAM);
    let market = chain_key(MARKET);
    let nonce = nonce_with(false, 0, &market, &program);
    let state = state_for(key_of(&market), nonce, MARKET_FLAGS);
    assert_eq!(
        derive_market_keys(&state, &key_of(&program), &key_of(&market)),
        Err(Error::SignerDerivationFailed)
    );
}

#[test]
fn market_account_end_to_end() {
    let program = chain_key(PROGRAM);
    let market = chain_key(MARKET);
    let nonce = nonce_with(true, 0, &market, &program);
    let signer = reference(nonce, &market, &program).unwrap();
    let state = state_for(key_of(&market), nonce, MARKET_FLAGS);
    let data = account(&state, 47);
    assert_eq!(data.len(), 388);
    assert_eq!(
        get_keys_for_market(&data, &key_of(&program), &key_of(&market)),
        Ok(expected_keys(&state, key_of(&market), signer))
    );
}

#[test]
fn permissioned_market_account_end_to_end() {
    let program = chain_key(PROGRAM);
    let market = chain_key(MARKET);
    let nonce = nonce_with(true, 0, &market, &program);
    let signer = reference(nonce, &market, &program).unwrap();
    let state = state_for(key_of(&market), nonce, PERMISSIONED_MARKET_FLAGS);
    let data = account(&state, 183);
    assert_eq!(
        get_keys_for_market(&data, &key_of(&program), &key_of(&market)),
        Ok(expected_keys(&state, key_of(&market), signer))
    );
}

#[test]
fn market_account_fails_at_the_first_stage_that_fails() {
    let program = key_of(&chain_key(PROGRAM));
    let chain_market = chain_key(MARKET);
    let market = key_of(&chain_market);
    let bad_nonce = nonce_with(false, 0, &chain_market, &chain_key(PROGRAM));
    let good = account(&state_for(market, bad_nonce, MARKET_FLAGS), 47);
    assert_eq!(get_keys_for_market(&good[..11], &program, &market), Err(Error::TooSmall));
    let mut bad_head = good.clone();
    bad_head[4] = b'n';
    assert_eq!(get_keys_for_market(&bad_head, &program, &market), Err(Error::HeadMismatch));
    let mut bad_tail = good.clone();
    let last = bad_tail.len() - 1;
    bad_tail[last] = b'!';
    assert_eq!(get_keys_for_market(&bad_tail, &program, &market), Err(Error::TailMismatch));
    let mut ragged = good[..good.len() - 7].to_vec();
    ragged.push(0);
    ragged.extend_from_slice(b"padding");
    assert_eq!(get_keys_for_market(&ragged, &program, &market), Err(Error::MisalignedLength));
    let short = account(&state_for(market, bad_nonce, MARKET_FLAGS), 46);
    assert_eq!(get_keys_for_market(&short, &program, &market), Err(Error::LayoutSizeMismatch));
    let unflagged = account(&state_for(market, bad_nonce, 1), 47);
    assert_eq!(get_keys_for_market(&unflagged, &program, &market), Err(Error::FlagMismatch));
    let other = account(&state_for(key(8), bad_nonce, MARKET_FLAGS), 47);
    assert_eq!(get_keys_for_market(&other, &program, &market), Err(Error::SelfReferenceMismatch));
    assert_eq!(get_keys_for_market(&good, &program, &market), Err(Error::SignerDerivationFailed));
}
