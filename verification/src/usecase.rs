//! The orchestrator: a single run as a small state machine. Each run fetches
//! the address, stamps the current time once, stores one record, and stops at
//! the first failure; no error is retried or recovered.
//!
//! The outside work — the HTTP fetch and the database insert — is performed
//! by the caller, which asks `next_action` what to do and hands each outcome
//! back through `on_fetched` or `on_stored`.

use vstd::prelude::*;

use crate::domain::{Ipv4Address, PollingRecord};
use crate::error::Error;

verus! {

/// Where a run stands: not yet fetched, fetched with a record waiting to be
/// stored, finished, or failed with the first error encountered.
#[derive(Clone, Copy, Debug, PartialEq, Eq)]
pub enum RunState {
    Start,
    Pending(PollingRecord),
    Done,
    Failed(Error),
}

/// What the caller must do next for a run in a given state.
#[derive(Clone, Copy, Debug, PartialEq, Eq)]
pub enum RunAction {
    DoFetch,
    DoStore(PollingRecord),
    Finish(Result<(), Error>),
}

pub open spec fn spec_next_action(s: RunState) -> RunAction {
    match s {
        RunState::Start => RunAction::DoFetch,
        RunState::Pending(record) => RunAction::DoStore(record),
        RunState::Done => RunAction::Finish(Ok(())),
        RunState::Failed(e) => RunAction::Finish(Err(e)),
    }
}

/// The next step of a run: fetch first, then store the pending record, then
/// finish with the run's outcome — the first error, or success.
pub fn next_action(s: &RunState) -> (a: RunAction)
    ensures
        a == spec_next_action(*s),
{
    match s {
        RunState::Start => RunAction::DoFetch,
        RunState::Pending(record) => RunAction::DoStore(*record),
        RunState::Done => RunAction::Finish(Ok(())),
        RunState::Failed(e) => RunAction::Finish(Err(*e)),
    }
}

pub open spec fn spec_on_fetched(result: Result<Ipv4Address, Error>, now: i64) -> RunState {
    match result {
        Ok(address) => RunState::Pending(PollingRecord { address, timestamp: now }),
        Err(e) => RunState::Failed(e),
    }
}

/// Takes the fetch outcome at a given instant: a fetched address becomes the
/// pending record, stamped with that instant; a fetch failure fails the run
/// with the same error, unchanged.
pub fn on_fetched_at(s: &RunState, result: Result<Ipv4Address, Error>, now: i64) -> (s2: RunState)
    requires
        *s is Start,
    ensures
        s2 == spec_on_fetched(result, now),
{
    match result {
        Ok(address) => RunState::Pending(PollingRecord { address, timestamp: now }),
        Err(e) => RunState::Failed(e),
    }
}

/// Relies on `chrono::Utc::now` and `chrono::DateTime::timestamp`: the
/// current UTC wall-clock time as whole seconds since the Unix epoch. The
/// result depends on the clock, so nothing is promised of its value.
#[verifier::external_body]
fn current_epoch_seconds() -> i64 {
    chrono::Utc::now().timestamp()
}

/// Takes the fetch outcome, stamping the current UTC time exactly once, at
/// this moment between fetch and store. The timestamp is whatever the clock
/// gave; everything else is as `on_fetched_at` pins it.
pub fn on_fetched(s: &RunState, result: Result<Ipv4Address, Error>) -> (s2: RunState)
    requires
        *s is Start,
    ensures
        result matches Ok(address) ==> (s2 matches RunState::Pending(record)
            && record.address == address),
        result matches Err(e) ==> s2 == RunState::Failed(e),
{
    let now: i64 = current_epoch_seconds();
    on_fetched_at(s, result, now)
}

pub open spec fn spec_on_stored(result: Result<(), Error>) -> RunState {
    match result {
        Ok(_) => RunState::Done,
        Err(e) => RunState::Failed(e),
    }
}

/// Takes the store outcome: success finishes the run; a store failure fails
/// it with the same error, unchanged.
pub fn on_stored(s: &RunState, result: Result<(), Error>) -> (s2: RunState)
    requires
        *s is Pending,
    ensures
        s2 == spec_on_stored(result),
{
    match result {
        Ok(_) => RunState::Done,
        Err(e) => RunState::Failed(e),
    }
}

/// A run whose fetch yields an address and whose store succeeds finishes
/// without error, and the one record it stores carries exactly the fetched
/// address and the stamped instant.
pub proof fn lemma_successful_run_stores_fetched_address(address: Ipv4Address, now: i64)
    ensures
        ({
            let fetched = spec_on_fetched(Ok(address), now);
            &&& spec_next_action(fetched) == RunAction::DoStore(
                PollingRecord { address, timestamp: now },
            )
            &&& spec_on_stored(Ok(())) == RunState::Done
            &&& spec_next_action(RunState::Done) == RunAction::Finish(Ok::<(), Error>(()))
        }),
{
}

/// A run whose fetch fails, fails with that same error, and never asks for a
/// store: no record is written.
pub proof fn lemma_failed_fetch_never_stores(e: Error, now: i64)
    ensures
        ({
            let fetched = spec_on_fetched(Err(e), now);
            &&& fetched == RunState::Failed(e)
            &&& spec_next_action(fetched) == RunAction::Finish(Err::<(), Error>(e))
            &&& !(spec_next_action(fetched) is DoStore)
        }),
{
}

} // verus!
