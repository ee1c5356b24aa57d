//! Loading a market's event queue: two accounts are fetched in turn, and
//! this module decides after each what comes next. It fetches nothing
//! itself; its caller does, and hands over what came back.

use vstd::prelude::*;
use crate::error::Error;
use crate::keys::{get_keys_for_market, market_keys_of};
use crate::padding::{remove_dex_account_padding, stripped};
use crate::pubkey::Pubkey;
use crate::queue::{EventQueue, EventQueueView, event_queue_of, parse_event_queue};

verus! {

/// How far a load has come: which account's buffer it waits for.
#[derive(Clone, Copy, Debug, PartialEq, Eq, Structural, Hash)]
pub enum LoadState {
    /// The market's own account. Every load starts here.
    Market,
    /// The market's event queue, whose identifier the market record gave.
    EventQueue(Pubkey),
}

/// Why a load ended without a queue.
#[derive(Clone, Debug, PartialEq, Eq)]
pub enum LoadError<E> {
    /// The account could not be fetched; the data source's own error is
    /// handed on as it came.
    DataSource(E),
    /// The account was fetched and its buffer refused.
    Decode(Error),
}

/// What a load does next.
#[derive(Clone, Debug, PartialEq, Eq)]
pub enum LoadStep<E> {
    /// Fetch the account that the new state waits for, and come back with it.
    Fetch(LoadState),
    /// The queue has been read.
    Done(EventQueue),
    /// The load has failed on the given account. Nothing of what was read
    /// before is returned.
    Failed { account: Pubkey, error: LoadError<E> },
}

impl LoadState {
    /// The account whose buffer this state waits for, in a load for `market`.
    pub open spec fn spec_account(&self, market: &Pubkey) -> Pubkey {
        match *self {
            LoadState::Market => *market,
            LoadState::EventQueue(account) => account,
        }
    }

    /// The account whose buffer this state waits for, in a load for `market`.
    #[verifier::when_used_as_spec(spec_account)]
    pub fn account(&self, market: &Pubkey) -> (account: Pubkey)
        ensures
            account == self.spec_account(market),
    {
        match *self {
            LoadState::Market => *market,
            LoadState::EventQueue(account) => account,
        }
    }
}

/// What the buffer of an event queue's account decodes to: the first failure
/// of removing the padding and reading the ring, or the queue.
pub open spec fn event_queue_of_account(data: Seq<u8>) -> Result<EventQueueView, Error> {
    match stripped(data) {
        Err(e) => Err(e),
        Ok(words) => event_queue_of(words),
    }
}

/// Decodes the buffer of an event queue's account.
pub fn read_event_queue(account_data: &[u8]) -> (queue: Result<EventQueue, Error>)
    ensures
        match queue {
            Ok(q) => event_queue_of_account(account_data@) == Ok::<EventQueueView, Error>(q@),
            Err(e) => event_queue_of_account(account_data@) == Err::<EventQueueView, Error>(e),
        },
{
    match remove_dex_account_padding(account_data) {
        Ok(words) => parse_event_queue(words.as_slice()),
        Err(e) => Err(e),
    }
}

/// Whether `step` is what a load for `market` under `program_id` does next,
/// having waited in `state` and been handed `fetched`. A fetch that failed,
/// or a buffer that is refused, ends the load with that error and the
/// account it arose on. The market's buffer, decoded, sends the load on to
/// the event queue that the record names; the queue's buffer, decoded, ends
/// it with the queue.
pub open spec fn is_next_step<E>(
    program_id: Pubkey,
    market: Pubkey,
    state: LoadState,
    fetched: Result<Vec<u8>, E>,
    step: LoadStep<E>,
) -> bool {
    match fetched {
        Err(source) => step == (LoadStep::Failed {
            account: state.spec_account(&market),
            error: LoadError::DataSource(source),
        }),
        Ok(data) => match state {
            LoadState::Market => match market_keys_of(data@, program_id, market) {
                Ok(keys) => step == LoadStep::<E>::Fetch(LoadState::EventQueue(*keys.event_q)),
                Err(e) => step == (LoadStep::<E>::Failed {
                    account: market,
                    error: LoadError::Decode(e),
                }),
            },
            LoadState::EventQueue(account) => match event_queue_of_account(data@) {
                Ok(queue) => step matches LoadStep::Done(q) && q@ == queue,
                Err(e) => step == (LoadStep::<E>::Failed { account, error: LoadError::Decode(e) }),
            },
        },
    }
}

/// Takes one step of loading the event queue of `market`: given the state
/// the load waited in and what fetching that state's account brought, says
/// what to do next. A load starts in `LoadState::Market`.
pub fn load_event_queue<E>(
    program_id: &Pubkey,
    market: &Pubkey,
    state: LoadState,
    fetched: Result<Vec<u8>, E>,
) -> (step: LoadStep<E>)
    ensures
        is_next_step(*program_id, *market, state, fetched, step),
{
    let data = match fetched {
        Ok(data) => data,
        Err(source) => {
            return LoadStep::Failed {
                account: state.account(market),
                error: LoadError::DataSource(source),
            };
        },
    };
    match state {
        LoadState::Market => match get_keys_for_market(data.as_slice(), program_id, market) {
            Ok(keys) => LoadStep::Fetch(LoadState::EventQueue(*keys.event_q)),
            Err(e) => LoadStep::Failed { account: *market, error: LoadError::Decode(e) },
        },
        LoadState::EventQueue(account) => match read_event_queue(data.as_slice()) {
            Ok(queue) => LoadStep::Done(queue),
            Err(e) => LoadStep::Failed { account, error: LoadError::Decode(e) },
        },
    }
}

} // verus!
