//! The status oracle: the chain's definite answer on what became of an
//! action.
//!
//! The oracle polls the chain until a poll brings an answer. A poll that
//! fails on the way says nothing about the action, so it is never taken
//! for "not on chain yet": the oracle polls again, as often as it takes.

use crate::types::BridgeActionStatus;
use vstd::prelude::*;

verus! {

/// What one poll of the chain brought.
#[derive(Clone, Copy, Debug, PartialEq, Eq)]
pub enum StatusPoll {
    /// The chain answered.
    Answer(BridgeActionStatus),
    /// The poll failed on the way to the chain or back.
    TransportError,
}

/// What the oracle does after a poll.
#[derive(Clone, Copy, Debug, PartialEq, Eq)]
pub enum OracleStep {
    /// Hand this status to the caller.
    Definite(BridgeActionStatus),
    /// Poll the chain again.
    PollAgain,
}

/// What the oracle does after `poll`.
pub open spec fn oracle_step(poll: StatusPoll) -> OracleStep {
    match poll {
        StatusPoll::Answer(status) => OracleStep::Definite(status),
        StatusPoll::TransportError => OracleStep::PollAgain,
    }
}

/// The status that the oracle hands to its caller when the chain is polled
/// and `polls` come back one after the other: that of the first poll that
/// brought an answer, and none as long as every poll failed.
pub open spec fn first_answer(polls: Seq<StatusPoll>) -> Option<BridgeActionStatus>
    decreases polls.len(),
{
    if polls.len() == 0 {
        None
    } else {
        match oracle_step(polls.first()) {
            OracleStep::Definite(status) => Some(status),
            OracleStep::PollAgain => first_answer(polls.drop_first()),
        }
    }
}

/// Decides what to do after one poll.
pub fn on_poll(poll: StatusPoll) -> (step: OracleStep)
    ensures
        step == oracle_step(poll),
{
    match poll {
        StatusPoll::Answer(status) => OracleStep::Definite(status),
        StatusPoll::TransportError => OracleStep::PollAgain,
    }
}

/// Goes through the polls in order and hands back the status that the
/// oracle gives to its caller, if any poll brought one.
pub fn status_until_success(polls: &[StatusPoll]) -> (answer: Option<BridgeActionStatus>)
    ensures
        answer == first_answer(polls@),
{
    let mut i: usize = 0;
    assert(polls@.skip(0) =~= polls@);
    while i < polls.len()
        invariant
            i <= polls@.len(),
            first_answer(polls@) == first_answer(polls@.skip(i as int)),
        decreases polls@.len() - i,
    {
        assert(polls@.skip(i as int).first() == polls@[i as int]);
        match on_poll(polls[i]) {
            OracleStep::Definite(status) => {
                return Some(status);
            },
            OracleStep::PollAgain => {
                assert(polls@.skip(i as int).drop_first() =~= polls@.skip(i + 1));
            },
        }
        i = i + 1;
    }
    None
}

/// The oracle has no limit on its polls: after any number of failed polls
/// the first answer is still handed on, unchanged.
pub proof fn lemma_oracle_outlasts_failures(failures: nat, status: BridgeActionStatus)
    ensures
        first_answer(
            Seq::new(failures, |i: int| StatusPoll::TransportError).push(StatusPoll::Answer(status)),
        ) == Some(status),
    decreases failures,
{
    let polls = Seq::new(failures, |i: int| StatusPoll::TransportError).push(
        StatusPoll::Answer(status),
    );
    if failures > 0 {
        lemma_oracle_outlasts_failures((failures - 1) as nat, status);
        assert(polls.drop_first() =~= Seq::new(
            (failures - 1) as nat,
            |i: int| StatusPoll::TransportError,
        ).push(StatusPoll::Answer(status)));
    }
}

} // verus!
