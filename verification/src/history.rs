//! What holds of every run of a task, whatever comes back from outside.
//!
//! A run is a task that takes a sequence of events, one after the other.
//! This module names the commands that a run gives and the pending log that
//! they leave, and proves what every run has in common: the order of its
//! commands, when the action leaves the pending log, that an action seen
//! approved on chain is never submitted, that nothing is signed once the
//! gas object is found in other hands, and how often and how far apart a
//! failing action is tried again.

use crate::backoff::{
    backoff_ms, lemma_backoff_bounds, lemma_backoff_monotonic, MAX_EXECUTION_ATTEMPTS,
    MAX_SIGNING_ATTEMPTS,
};
use crate::execution::{
    execution_run, execution_start, execution_step, log_after_execution_command,
    ExecutionCommandView, ExecutionEventView, ExecutionOutcome, ExecutionStateView,
    ExecutionTaskView,
};
use crate::pending_log::PendingActions;
use crate::signing::{
    log_after_signing_command, signing_run, signing_start, signing_step, SigningCommandView,
    SigningEventView, SigningOutcome, SigningTaskView, VALIDITY_THRESHOLD,
};
use crate::types::{
    BridgeActionStatus, BridgeActionView, CertifiedBridgeActionView, GasData, MgoAddress, ObjectID,
    Owner,
};
use vstd::prelude::*;

verus! {

// ---------------------------------------------------------------------
// The signing stage
// ---------------------------------------------------------------------
/// The commands that ask for something to be done: all but `Nothing`, in
/// the same order.
pub open spec fn signing_effective(commands: Seq<SigningCommandView>) -> Seq<SigningCommandView>
    decreases commands.len(),
{
    if commands.len() == 0 {
        Seq::empty()
    } else if commands.last() is Nothing {
        signing_effective(commands.drop_last())
    } else {
        signing_effective(commands.drop_last()).push(commands.last())
    }
}

/// The pending log after the commands of the signing stage were carried
/// out, one after the other.
pub open spec fn log_after_signing(
    log: PendingActions,
    commands: Seq<SigningCommandView>,
) -> PendingActions
    decreases commands.len(),
{
    if commands.len() == 0 {
        log
    } else {
        log_after_signing_command(
            log_after_signing(log, commands.drop_last()),
            commands.last(),
        )
    }
}

/// The commands that a signing task for `action` at `attempt` has given by
/// the time it stands at `task`: the only histories that there are.
pub open spec fn signing_history(
    action: BridgeActionView,
    attempt: u64,
    task: SigningTaskView,
    given: Seq<SigningCommandView>,
) -> bool {
    let request = SigningCommandView::RequestSignatures { threshold: VALIDITY_THRESHOLD };
    match task {
        SigningTaskView::AwaitingStatus { action: held, attempt: number } => {
            &&& held == action
            &&& number == attempt
            &&& given.len() == 0
        },
        SigningTaskView::AwaitingSignatures { action: held, attempt: number } => {
            &&& held == action
            &&& number == attempt
            &&& given.len() == 1
            &&& given[0] == request
        },
        SigningTaskView::Finished(SigningOutcome::AlreadyProcessed) => {
            &&& given.len() == 1
            &&& given[0] == SigningCommandView::RemovePendingAction(action.digest)
        },
        SigningTaskView::Finished(SigningOutcome::Certified) => {
            &&& given.len() == 2
            &&& given[0] == request
            &&& given[1] is SendToExecution
            &&& given[1]->SendToExecution_attempt == 0
        },
        SigningTaskView::Finished(SigningOutcome::RetryScheduled) => {
            &&& attempt < MAX_SIGNING_ATTEMPTS
            &&& given.len() == 2
            &&& given[0] == request
            &&& given[1] == SigningCommandView::RetryAfter {
                delay_ms: backoff_ms(attempt) as u64,
                action,
                attempt: (attempt + 1) as u64,
            }
        },
        SigningTaskView::Finished(SigningOutcome::GaveUp) => {
            &&& attempt >= MAX_SIGNING_ATTEMPTS
            &&& given.len() == 2
            &&& given[0] == request
            &&& given[1] == SigningCommandView::GiveUp
        },
    }
}

/// A run that starts with `first` is the step on `first` and then the run
/// on the rest.
pub proof fn lemma_signing_run_unfolds(task: SigningTaskView, events: Seq<SigningEventView>)
    requires
        events.len() > 0,
    ensures
        signing_run(task, events) == ({
            let (next, command) = signing_step(task, events.first());
            let (last, commands) = signing_run(next, events.drop_first());
            (last, seq![command] + commands)
        }),
    decreases events.len(),
{
    let (next, command) = signing_step(task, events.first());
    let rest = events.drop_first();
    let nothing = Seq::<SigningCommandView>::empty();
    if events.len() == 1 {
        assert(signing_run(task, events.drop_last()) == (task, nothing));
        assert(signing_run(next, rest) == (next, nothing));
        assert(nothing.push(command) =~= seq![command] + nothing);
    } else {
        let init = events.drop_last();
        lemma_signing_run_unfolds(task, init);
        assert(init.first() == events.first());
        assert(init.drop_first() =~= rest.drop_last());
        assert(rest.last() == events.last());
        let (before, commands) = signing_run(next, rest.drop_last());
        let (after, last_command) = signing_step(before, events.last());
        assert(signing_run(task, init) == (before, seq![command] + commands));
        assert(signing_run(next, rest) == (after, commands.push(last_command)));
        assert((seq![command] + commands).push(last_command) =~= seq![command] + commands.push(
            last_command,
        ));
    }
}

/// A finished signing task stays as it is and gives no more commands.
pub proof fn lemma_signing_finished_is_final(
    outcome: SigningOutcome,
    events: Seq<SigningEventView>,
)
    ensures
        signing_run(SigningTaskView::Finished(outcome), events).0 == SigningTaskView::Finished(
            outcome,
        ),
        signing_run(SigningTaskView::Finished(outcome), events).1.len() == events.len(),
        forall|i: int|
            0 <= i < events.len() ==> signing_run(SigningTaskView::Finished(outcome), events).1[i]
                == SigningCommandView::Nothing,
    decreases events.len(),
{
    if events.len() > 0 {
        lemma_signing_finished_is_final(outcome, events.drop_last());
    }
}

/// The signing stage works in one order only. Whatever events a task for
/// `action` takes, the commands that it has given are those of
/// [`signing_history`]: at most one request for signatures, after it at
/// most one of certificate, retry and giving up, and a removal from the
/// pending log only in place of all of them.
pub proof fn lemma_signing_history(
    action: BridgeActionView,
    attempt: u64,
    events: Seq<SigningEventView>,
)
    ensures
        ({
            let (task, commands) = signing_run(signing_start(action, attempt), events);
            &&& commands.len() == events.len()
            &&& signing_history(action, attempt, task, signing_effective(commands))
        }),
    decreases events.len(),
{
    if events.len() > 0 {
        lemma_signing_history(action, attempt, events.drop_last());
        let (before, commands) = signing_run(signing_start(action, attempt), events.drop_last());
        let (after, command) = signing_step(before, events.last());
        assert(commands.push(command).drop_last() =~= commands);
    }
}

/// An action leaves the pending log in the signing stage if and only if it
/// was seen approved or claimed on chain. After any run of a signing task
/// for `action`, the log is the log before without the action where the
/// task ended as already processed, and the log before in every other
/// case.
pub proof fn lemma_signing_log(
    action: BridgeActionView,
    attempt: u64,
    events: Seq<SigningEventView>,
    log: PendingActions,
)
    ensures
        ({
            let (task, commands) = signing_run(signing_start(action, attempt), events);
            log_after_signing(log, commands) == if task == SigningTaskView::Finished(
                SigningOutcome::AlreadyProcessed,
            ) {
                log.remove(action.digest)
            } else {
                log
            }
        }),
    decreases events.len(),
{
    if events.len() > 0 {
        lemma_signing_log(action, attempt, events.drop_last(), log);
        lemma_signing_history(action, attempt, events.drop_last());
        let (before, commands) = signing_run(signing_start(action, attempt), events.drop_last());
        let (after, command) = signing_step(before, events.last());
        assert(commands.push(command).drop_last() =~= commands);
        assert(log.remove(action.digest).remove(action.digest) =~= log.remove(action.digest));
    }
}

/// An action that the chain reports approved or claimed is not signed for:
/// the task takes it out of the pending log, once, and does nothing else,
/// whatever comes after.
pub proof fn lemma_signing_skips_processed_action(
    action: BridgeActionView,
    attempt: u64,
    status: BridgeActionStatus,
    later: Seq<SigningEventView>,
)
    requires
        status.finalized(),
    ensures
        ({
            let events = seq![SigningEventView::Status(status)] + later;
            let (task, commands) = signing_run(signing_start(action, attempt), events);
            &&& task == SigningTaskView::Finished(SigningOutcome::AlreadyProcessed)
            &&& commands.len() == later.len() + 1
            &&& commands[0] == SigningCommandView::RemovePendingAction(action.digest)
            &&& forall|i: int| 1 <= i < commands.len() ==> commands[i] == SigningCommandView::Nothing
        }),
{
    let events = seq![SigningEventView::Status(status)] + later;
    assert(events.drop_first() =~= later);
    lemma_signing_run_unfolds(signing_start(action, attempt), events);
    lemma_signing_finished_is_final(SigningOutcome::AlreadyProcessed, later);
}

/// Every command of the signing stage that asks for something is among
/// the effective ones.
proof fn lemma_signing_effective_keeps(commands: Seq<SigningCommandView>, i: int) -> (k: int)
    requires
        0 <= i < commands.len(),
        !(commands[i] is Nothing),
    ensures
        0 <= k < signing_effective(commands).len(),
        signing_effective(commands)[k] == commands[i],
    decreases commands.len(),
{
    if i == commands.len() - 1 {
        signing_effective(commands).len() - 1
    } else {
        lemma_signing_effective_keeps(commands.drop_last(), i)
    }
}

/// A signing task takes nothing out of the pending log but its own
/// action, and that only where it ends as already processed. So tasks for
/// different actions never touch each other's entries, and several tasks
/// for one action, in whatever order their commands are carried out, can
/// only agree.
pub proof fn lemma_signing_removes_only_its_action(
    action: BridgeActionView,
    attempt: u64,
    events: Seq<SigningEventView>,
    i: int,
)
    requires
        0 <= i < events.len(),
        signing_run(signing_start(action, attempt), events).1[i] is RemovePendingAction,
    ensures
        ({
            let (task, commands) = signing_run(signing_start(action, attempt), events);
            &&& commands[i] == SigningCommandView::RemovePendingAction(action.digest)
            &&& task == SigningTaskView::Finished(SigningOutcome::AlreadyProcessed)
        }),
{
    let (task, commands) = signing_run(signing_start(action, attempt), events);
    lemma_signing_history(action, attempt, events);
    let k = lemma_signing_effective_keeps(commands, i);
}

// ---------------------------------------------------------------------
// The execution stage
// ---------------------------------------------------------------------
/// The commands that ask for something to be done: all but `Nothing`, in
/// the same order.
pub open spec fn execution_effective(commands: Seq<ExecutionCommandView>) -> Seq<
    ExecutionCommandView,
>
    decreases commands.len(),
{
    if commands.len() == 0 {
        Seq::empty()
    } else if commands.last() is Nothing {
        execution_effective(commands.drop_last())
    } else {
        execution_effective(commands.drop_last()).push(commands.last())
    }
}

/// The pending log after the commands of the execution stage were carried
/// out, one after the other.
pub open spec fn log_after_execution(
    log: PendingActions,
    commands: Seq<ExecutionCommandView>,
) -> PendingActions
    decreases commands.len(),
{
    if commands.len() == 0 {
        log
    } else {
        log_after_execution_command(
            log_after_execution(log, commands.drop_last()),
            commands.last(),
        )
    }
}

/// Whether `given` begins with the fetch of the gas object and the request
/// to build the transaction for this node.
pub open spec fn fetched_and_built(
    mgo_address: MgoAddress,
    gas_object_id: ObjectID,
    given: Seq<ExecutionCommandView>,
) -> bool {
    &&& given.len() >= 2
    &&& given[0] == ExecutionCommandView::FetchGasData(gas_object_id)
    &&& given[1] is BuildTransaction
    &&& given[1]->sender == mgo_address
}

/// The commands that an execution task for `certificate` at `attempt` has
/// given by the time it stands at `task`: the only histories that there
/// are.
pub open spec fn execution_history(
    start: ExecutionTaskView,
    certificate: CertifiedBridgeActionView,
    attempt: u64,
    task: ExecutionTaskView,
    given: Seq<ExecutionCommandView>,
) -> bool {
    let mgo_address = start.mgo_address;
    let gas_object_id = start.gas_object_id;
    let digest = certificate.action.digest;
    &&& task.mgo_address == mgo_address
    &&& task.gas_object_id == gas_object_id
    &&& match task.state {
        ExecutionStateView::AwaitingStatus { certificate: held, attempt: number } => {
            &&& held == certificate
            &&& number == attempt
            &&& given.len() == 0
        },
        ExecutionStateView::AwaitingGasData { certificate: held, attempt: number } => {
            &&& held == certificate
            &&& number == attempt
            &&& given.len() == 1
            &&& given[0] == ExecutionCommandView::FetchGasData(gas_object_id)
        },
        ExecutionStateView::AwaitingTransaction { certificate: held, attempt: number } => {
            &&& held == certificate
            &&& number == attempt
            &&& given.len() == 2
            &&& fetched_and_built(mgo_address, gas_object_id, given)
        },
        ExecutionStateView::AwaitingEffects { certificate: held, attempt: number } => {
            &&& held == certificate
            &&& number == attempt
            &&& given.len() == 3
            &&& fetched_and_built(mgo_address, gas_object_id, given)
            &&& given[2] is SignAndSubmit
        },
        ExecutionStateView::Finished(ExecutionOutcome::AlreadyProcessed) => {
            &&& given.len() == 1
            &&& given[0] == ExecutionCommandView::RemovePendingAction(digest)
        },
        ExecutionStateView::Finished(ExecutionOutcome::Aborted) => {
            &&& given.len() == 2
            &&& given[0] == ExecutionCommandView::FetchGasData(gas_object_id)
            &&& given[1] == ExecutionCommandView::Abort
        },
        ExecutionStateView::Finished(ExecutionOutcome::BuildFailed) => {
            &&& given.len() == 3
            &&& fetched_and_built(mgo_address, gas_object_id, given)
            &&& given[2] == ExecutionCommandView::Abandon
        },
        ExecutionStateView::Finished(ExecutionOutcome::Settled) => {
            &&& given.len() == 4
            &&& fetched_and_built(mgo_address, gas_object_id, given)
            &&& given[2] is SignAndSubmit
            &&& given[3] == ExecutionCommandView::RemovePendingAction(digest)
        },
        ExecutionStateView::Finished(ExecutionOutcome::Escalated) => {
            &&& given.len() == 4
            &&& fetched_and_built(mgo_address, gas_object_id, given)
            &&& given[2] is SignAndSubmit
            &&& given[3] is Escalate
        },
        ExecutionStateView::Finished(ExecutionOutcome::RetryScheduled) => {
            &&& attempt < MAX_EXECUTION_ATTEMPTS
            &&& given.len() == 4
            &&& fetched_and_built(mgo_address, gas_object_id, given)
            &&& given[2] is SignAndSubmit
            &&& given[3] == ExecutionCommandView::RetryAfter {
                delay_ms: backoff_ms(attempt) as u64,
                certificate,
                attempt: (attempt + 1) as u64,
            }
        },
        ExecutionStateView::Finished(ExecutionOutcome::GaveUp) => {
            &&& attempt >= MAX_EXECUTION_ATTEMPTS
            &&& given.len() == 4
            &&& fetched_and_built(mgo_address, gas_object_id, given)
            &&& given[2] is SignAndSubmit
            &&& given[3] == ExecutionCommandView::GiveUp
        },
    }
}

/// A run that starts with `first` is the step on `first` and then the run
/// on the rest.
pub proof fn lemma_execution_run_unfolds(task: ExecutionTaskView, events: Seq<ExecutionEventView>)
    requires
        events.len() > 0,
    ensures
        execution_run(task, events) == ({
            let (next, command) = execution_step(task, events.first());
            let (last, commands) = execution_run(next, events.drop_first());
            (last, seq![command] + commands)
        }),
    decreases events.len(),
{
    let (next, command) = execution_step(task, events.first());
    let rest = events.drop_first();
    let nothing = Seq::<ExecutionCommandView>::empty();
    if events.len() == 1 {
        assert(execution_run(task, events.drop_last()) == (task, nothing));
        assert(execution_run(next, rest) == (next, nothing));
        assert(nothing.push(command) =~= seq![command] + nothing);
    } else {
        let init = events.drop_last();
        lemma_execution_run_unfolds(task, init);
        assert(init.first() == events.first());
        assert(init.drop_first() =~= rest.drop_last());
        assert(rest.last() == events.last());
        let (before, commands) = execution_run(next, rest.drop_last());
        let (after, last_command) = execution_step(before, events.last());
        assert(execution_run(task, init) == (before, seq![command] + commands));
        assert(execution_run(next, rest) == (after, commands.push(last_command)));
        assert((seq![command] + commands).push(last_command) =~= seq![command] + commands.push(
            last_command,
        ));
    }
}

/// A finished execution task stays as it is and gives no more commands.
pub proof fn lemma_execution_finished_is_final(
    task: ExecutionTaskView,
    events: Seq<ExecutionEventView>,
)
    requires
        task.state is Finished,
    ensures
        execution_run(task, events).0 == task,
        execution_run(task, events).1.len() == events.len(),
        forall|i: int|
            0 <= i < events.len() ==> execution_run(task, events).1[i]
                == ExecutionCommandView::Nothing,
    decreases events.len(),
{
    if events.len() > 0 {
        lemma_execution_finished_is_final(task, events.drop_last());
    }
}

/// The execution stage works in one order only. Whatever events a task
/// takes, the commands that it has given are those of
/// [`execution_history`]: status first, then the gas object, then the
/// build, then the submission, each at most once and none before the one
/// before it; and it stops at the first step that ends the task.
pub proof fn lemma_execution_history(
    mgo_address: MgoAddress,
    gas_object_id: ObjectID,
    certificate: CertifiedBridgeActionView,
    attempt: u64,
    events: Seq<ExecutionEventView>,
)
    ensures
        ({
            let start = execution_start(mgo_address, gas_object_id, certificate, attempt);
            let (task, commands) = execution_run(start, events);
            &&& commands.len() == events.len()
            &&& execution_history(start, certificate, attempt, task, execution_effective(commands))
        }),
    decreases events.len(),
{
    if events.len() > 0 {
        lemma_execution_history(mgo_address, gas_object_id, certificate, attempt, events.drop_last());
        let start = execution_start(mgo_address, gas_object_id, certificate, attempt);
        let (before, commands) = execution_run(start, events.drop_last());
        let (after, command) = execution_step(before, events.last());
        assert(commands.push(command).drop_last() =~= commands);
    }
}

/// An action leaves the pending log in the execution stage if and only if
/// its transaction took effect or it was seen approved or claimed on
/// chain. After any run of an execution task, the log is the log before
/// without the action where the task ended as settled or as already
/// processed, and the log before in every other case: while the task is
/// under way, after a failed build, after a failed transaction, after a
/// failed submission with or without a retry, and after an abort.
pub proof fn lemma_execution_log(
    mgo_address: MgoAddress,
    gas_object_id: ObjectID,
    certificate: CertifiedBridgeActionView,
    attempt: u64,
    events: Seq<ExecutionEventView>,
    log: PendingActions,
)
    ensures
        ({
            let start = execution_start(mgo_address, gas_object_id, certificate, attempt);
            let (task, commands) = execution_run(start, events);
            log_after_execution(log, commands) == if task.state == ExecutionStateView::Finished(
                ExecutionOutcome::Settled,
            ) || task.state == ExecutionStateView::Finished(ExecutionOutcome::AlreadyProcessed) {
                log.remove(certificate.action.digest)
            } else {
                log
            }
        }),
    decreases events.len(),
{
    if events.len() > 0 {
        lemma_execution_log(mgo_address, gas_object_id, certificate, attempt, events.drop_last(), log);
        lemma_execution_history(mgo_address, gas_object_id, certificate, attempt, events.drop_last());
        let start = execution_start(mgo_address, gas_object_id, certificate, attempt);
        let (before, commands) = execution_run(start, events.drop_last());
        let (after, command) = execution_step(before, events.last());
        assert(commands.push(command).drop_last() =~= commands);
        let digest = certificate.action.digest;
        assert(log.remove(digest).remove(digest) =~= log.remove(digest));
    }
}

/// An action that the chain reports approved or claimed is not submitted:
/// the task takes it out of the pending log, once, and does nothing else,
/// whatever comes after. No gas is fetched, nothing is built and nothing is
/// signed.
pub proof fn lemma_execution_skips_processed_action(
    mgo_address: MgoAddress,
    gas_object_id: ObjectID,
    certificate: CertifiedBridgeActionView,
    attempt: u64,
    status: BridgeActionStatus,
    later: Seq<ExecutionEventView>,
)
    requires
        status.finalized(),
    ensures
        ({
            let start = execution_start(mgo_address, gas_object_id, certificate, attempt);
            let events = seq![ExecutionEventView::Status(status)] + later;
            let (task, commands) = execution_run(start, events);
            &&& task.state == ExecutionStateView::Finished(ExecutionOutcome::AlreadyProcessed)
            &&& commands.len() == later.len() + 1
            &&& commands[0] == ExecutionCommandView::RemovePendingAction(certificate.action.digest)
            &&& forall|i: int|
                1 <= i < commands.len() ==> commands[i] == ExecutionCommandView::Nothing
        }),
{
    let start = execution_start(mgo_address, gas_object_id, certificate, attempt);
    let events = seq![ExecutionEventView::Status(status)] + later;
    assert(events.drop_first() =~= later);
    lemma_execution_run_unfolds(start, events);
    lemma_execution_finished_is_final(execution_step(start, events.first()).0, later);
}

/// The ownership gate. A task that waits for the gas object and finds it
/// owned by anybody but this node orders the executor to stop, and gives
/// no other command, whatever comes after: nothing is built and nothing is
/// signed.
pub proof fn lemma_ownership_gate(
    task: ExecutionTaskView,
    gas: GasData,
    later: Seq<ExecutionEventView>,
)
    requires
        task.state is AwaitingGasData,
        gas.owner != Owner::AddressOwner(task.mgo_address),
    ensures
        ({
            let events = seq![ExecutionEventView::GasData(gas)] + later;
            let (end, commands) = execution_run(task, events);
            &&& end.state == ExecutionStateView::Finished(ExecutionOutcome::Aborted)
            &&& commands.len() == later.len() + 1
            &&& commands[0] == ExecutionCommandView::Abort
            &&& forall|i: int|
                1 <= i < commands.len() ==> commands[i] == ExecutionCommandView::Nothing
        }),
{
    let events = seq![ExecutionEventView::GasData(gas)] + later;
    assert(events.drop_first() =~= later);
    lemma_execution_run_unfolds(task, events);
    lemma_execution_finished_is_final(execution_step(task, events.first()).0, later);
}

/// Every command of the execution stage that asks for something is among
/// the effective ones.
proof fn lemma_execution_effective_keeps(commands: Seq<ExecutionCommandView>, i: int) -> (k: int)
    requires
        0 <= i < commands.len(),
        !(commands[i] is Nothing),
    ensures
        0 <= k < execution_effective(commands).len(),
        execution_effective(commands)[k] == commands[i],
    decreases commands.len(),
{
    if i == commands.len() - 1 {
        execution_effective(commands).len() - 1
    } else {
        lemma_execution_effective_keeps(commands.drop_last(), i)
    }
}

/// A transaction is only ever signed for a gas object that this node
/// owns: no run of an execution task holds both the order to stop and a
/// request to build or to sign a transaction.
pub proof fn lemma_abort_excludes_signing(
    mgo_address: MgoAddress,
    gas_object_id: ObjectID,
    certificate: CertifiedBridgeActionView,
    attempt: u64,
    events: Seq<ExecutionEventView>,
    stopped: int,
    other: int,
)
    requires
        0 <= stopped < events.len(),
        0 <= other < events.len(),
        execution_run(
            execution_start(mgo_address, gas_object_id, certificate, attempt),
            events,
        ).1[stopped] == ExecutionCommandView::Abort,
    ensures
        ({
            let start = execution_start(mgo_address, gas_object_id, certificate, attempt);
            let (task, commands) = execution_run(start, events);
            &&& task.state == ExecutionStateView::Finished(ExecutionOutcome::Aborted)
            &&& !(commands[other] is BuildTransaction)
            &&& !(commands[other] is SignAndSubmit)
        }),
{
    let start = execution_start(mgo_address, gas_object_id, certificate, attempt);
    let (task, commands) = execution_run(start, events);
    lemma_execution_history(mgo_address, gas_object_id, certificate, attempt, events);
    let given = execution_effective(commands);
    let k = lemma_execution_effective_keeps(commands, stopped);
    assert(given[k] == ExecutionCommandView::Abort);
    if !(commands[other] is Nothing) {
        let m = lemma_execution_effective_keeps(commands, other);
    }
}

/// An execution task takes nothing out of the pending log but the action
/// of its certificate, and that only where it ends as settled or as
/// already processed.
pub proof fn lemma_execution_removes_only_its_action(
    mgo_address: MgoAddress,
    gas_object_id: ObjectID,
    certificate: CertifiedBridgeActionView,
    attempt: u64,
    events: Seq<ExecutionEventView>,
    i: int,
)
    requires
        0 <= i < events.len(),
        execution_run(
            execution_start(mgo_address, gas_object_id, certificate, attempt),
            events,
        ).1[i] is RemovePendingAction,
    ensures
        ({
            let start = execution_start(mgo_address, gas_object_id, certificate, attempt);
            let (task, commands) = execution_run(start, events);
            &&& commands[i] == ExecutionCommandView::RemovePendingAction(certificate.action.digest)
            &&& (task.state == ExecutionStateView::Finished(ExecutionOutcome::Settled)
                || task.state == ExecutionStateView::Finished(ExecutionOutcome::AlreadyProcessed))
        }),
{
    let start = execution_start(mgo_address, gas_object_id, certificate, attempt);
    let (task, commands) = execution_run(start, events);
    lemma_execution_history(mgo_address, gas_object_id, certificate, attempt, events);
    let k = lemma_execution_effective_keeps(commands, i);
}

/// What the builder of the settlement transaction is given depends on the
/// node's address, the reference of the gas object and the certificate, and
/// on nothing else: two tasks that agree on these ask for the same build
/// and hold the same certificate for it, whatever their attempt numbers
/// and whatever else the chain reported of the gas object.
pub proof fn lemma_build_request_is_determined(
    first: ExecutionTaskView,
    second: ExecutionTaskView,
    first_gas: GasData,
    second_gas: GasData,
)
    requires
        first.state is AwaitingGasData,
        second.state is AwaitingGasData,
        first.state->AwaitingGasData_certificate == second.state->AwaitingGasData_certificate,
        first.mgo_address == second.mgo_address,
        first_gas.object_ref == second_gas.object_ref,
        first_gas.owner == Owner::AddressOwner(first.mgo_address),
        second_gas.owner == Owner::AddressOwner(second.mgo_address),
    ensures
        ({
            let (first_next, first_command) = execution_step(
                first,
                ExecutionEventView::GasData(first_gas),
            );
            let (second_next, second_command) = execution_step(
                second,
                ExecutionEventView::GasData(second_gas),
            );
            &&& first_command == ExecutionCommandView::BuildTransaction {
                sender: first.mgo_address,
                gas_object_ref: first_gas.object_ref,
            }
            &&& second_command == first_command
            &&& first_next.state is AwaitingTransaction
            &&& second_next.state is AwaitingTransaction
            &&& first_next.state->AwaitingTransaction_certificate
                == first.state->AwaitingGasData_certificate
            &&& second_next.state->AwaitingTransaction_certificate
                == first.state->AwaitingGasData_certificate
        }),
{
}

// ---------------------------------------------------------------------
// Both stages together
// ---------------------------------------------------------------------
/// One run of a task on the way of an action through the executor.
pub enum StageRun {
    /// A signing task for the action at `attempt` took `events`.
    Signing { attempt: u64, events: Seq<SigningEventView> },
    /// An execution task for `certificate` at `attempt` took `events`.
    Execution {
        mgo_address: MgoAddress,
        gas_object_id: ObjectID,
        certificate: CertifiedBridgeActionView,
        attempt: u64,
        events: Seq<ExecutionEventView>,
    },
}

/// Whether the run belongs to `action`: every signing run does, and an
/// execution run does when its certificate is for the action.
pub open spec fn run_is_for(action: BridgeActionView, run: StageRun) -> bool {
    match run {
        StageRun::Signing { .. } => true,
        StageRun::Execution { certificate, .. } => certificate.action == action,
    }
}

/// Whether the run saw the action settled: its transaction took effect, or
/// the chain reported the action approved or claimed.
pub open spec fn run_settles(action: BridgeActionView, run: StageRun) -> bool {
    match run {
        StageRun::Signing { attempt, events } => signing_run(
            signing_start(action, attempt),
            events,
        ).0 == SigningTaskView::Finished(SigningOutcome::AlreadyProcessed),
        StageRun::Execution { mgo_address, gas_object_id, certificate, attempt, events } => {
            let end = execution_run(
                execution_start(mgo_address, gas_object_id, certificate, attempt),
                events,
            ).0.state;
            ||| end == ExecutionStateView::Finished(ExecutionOutcome::Settled)
            ||| end == ExecutionStateView::Finished(ExecutionOutcome::AlreadyProcessed)
        },
    }
}

/// The pending log after the commands of one run were carried out.
pub open spec fn log_after_run(
    action: BridgeActionView,
    log: PendingActions,
    run: StageRun,
) -> PendingActions {
    match run {
        StageRun::Signing { attempt, events } => log_after_signing(
            log,
            signing_run(signing_start(action, attempt), events).1,
        ),
        StageRun::Execution { mgo_address, gas_object_id, certificate, attempt, events } => {
            log_after_execution(
                log,
                execution_run(
                    execution_start(mgo_address, gas_object_id, certificate, attempt),
                    events,
                ).1,
            )
        },
    }
}

/// The pending log after the commands of these runs were carried out, one
/// run after the other.
pub open spec fn log_after_runs(
    action: BridgeActionView,
    log: PendingActions,
    runs: Seq<StageRun>,
) -> PendingActions
    decreases runs.len(),
{
    if runs.len() == 0 {
        log
    } else {
        log_after_run(action, log_after_runs(action, log, runs.drop_last()), runs.last())
    }
}

/// Settlement. Whatever runs an action goes through, in either stage, at
/// whatever attempt and with whatever events, the executor takes the action
/// out of the pending log if one of the runs saw it settled, and leaves the
/// log exactly as it was if none did. So an action that was seen settled is
/// absent from the log, an action that was logged and not seen settled is
/// still there, and no other action is ever touched.
pub proof fn lemma_settlement(action: BridgeActionView, runs: Seq<StageRun>, log: PendingActions)
    requires
        forall|i: int| 0 <= i < runs.len() ==> run_is_for(action, #[trigger] runs[i]),
    ensures
        log_after_runs(action, log, runs) == if exists|i: int|
            0 <= i < runs.len() && run_settles(action, #[trigger] runs[i]) {
            log.remove(action.digest)
        } else {
            log
        },
        (exists|i: int| 0 <= i < runs.len() && run_settles(action, #[trigger] runs[i]))
            ==> !log_after_runs(action, log, runs).contains_key(action.digest),
        !(exists|i: int| 0 <= i < runs.len() && run_settles(action, #[trigger] runs[i]))
            && log.contains_key(action.digest) ==> log_after_runs(action, log, runs).contains_key(
            action.digest,
        ) && log_after_runs(action, log, runs)[action.digest] == log[action.digest],
    decreases runs.len(),
{
    if runs.len() > 0 {
        let earlier = runs.drop_last();
        let last = runs.last();
        assert forall|i: int| 0 <= i < earlier.len() implies run_is_for(
            action,
            #[trigger] earlier[i],
        ) by {
            assert(earlier[i] == runs[i]);
        }
        lemma_settlement(action, earlier, log);
        let before = log_after_runs(action, log, earlier);
        match last {
            StageRun::Signing { attempt, events } => {
                lemma_signing_log(action, attempt, events, before);
            },
            StageRun::Execution { mgo_address, gas_object_id, certificate, attempt, events } => {
                lemma_execution_log(
                    mgo_address,
                    gas_object_id,
                    certificate,
                    attempt,
                    events,
                    before,
                );
            },
        }
        let settled_earlier = exists|i: int|
            0 <= i < earlier.len() && run_settles(action, #[trigger] earlier[i]);
        let settled = exists|i: int| 0 <= i < runs.len() && run_settles(action, #[trigger] runs[i]);
        if settled_earlier {
            let i = choose|i: int| 0 <= i < earlier.len() && run_settles(action, #[trigger] earlier[i]);
            assert(runs[i] == earlier[i]);
        }
        if run_settles(action, last) {
            assert(runs[runs.len() - 1] == last);
        }
        if settled {
            let i = choose|i: int| 0 <= i < runs.len() && run_settles(action, #[trigger] runs[i]);
            if i < earlier.len() {
                assert(earlier[i] == runs[i]);
            }
        }
        assert(log.remove(action.digest).remove(action.digest) =~= log.remove(action.digest));
    }
}

// ---------------------------------------------------------------------
// Retries
// ---------------------------------------------------------------------
/// What the failure of a signing attempt puts back on the signing queue;
/// nothing where the attempt is not tried again.
pub open spec fn signing_retry(item: (BridgeActionView, u64)) -> Option<(BridgeActionView, u64)> {
    let waiting = SigningTaskView::AwaitingSignatures { action: item.0, attempt: item.1 };
    match signing_step(waiting, SigningEventView::SigningFailed).1 {
        SigningCommandView::RetryAfter { delay_ms, action, attempt } => Some((action, attempt)),
        _ => None,
    }
}

/// For how many milliseconds the retry of a failed signing attempt is put
/// off; nothing where the attempt is not tried again.
pub open spec fn signing_retry_delay(item: (BridgeActionView, u64)) -> Option<u64> {
    let waiting = SigningTaskView::AwaitingSignatures { action: item.0, attempt: item.1 };
    match signing_step(waiting, SigningEventView::SigningFailed).1 {
        SigningCommandView::RetryAfter { delay_ms, action, attempt } => Some(delay_ms),
        _ => None,
    }
}

/// The attempts at signing one action within one life of the executor: the
/// first has the number zero, and each later one is the retry of the one
/// before it.
pub open spec fn signing_retry_chain(chain: Seq<(BridgeActionView, u64)>) -> bool {
    &&& chain.len() > 0
    &&& chain[0].1 == 0
    &&& forall|i: int| 0 < i < chain.len() ==> signing_retry(chain[i - 1]) == Some(#[trigger] chain[i])
}

/// The `i`-th attempt of a chain is for the action of the first, and has
/// the number `i`.
proof fn lemma_signing_chain_item(chain: Seq<(BridgeActionView, u64)>, i: int)
    requires
        signing_retry_chain(chain),
        0 <= i < chain.len(),
    ensures
        chain[i] == (chain[0].0, i as u64),
        i <= MAX_SIGNING_ATTEMPTS,
    decreases i,
{
    if i > 0 {
        lemma_signing_chain_item(chain, i - 1);
        assert(signing_retry(chain[i - 1]) == Some(chain[i]));
    }
}

/// The retry cap of the signing stage. The attempts at signing one action
/// are numbered from zero upwards without a gap, all are for the same
/// action, and the last number is at most the limit: a first attempt and
/// at most sixteen retries. As long as the attempt with the last number
/// below the limit has not failed, there are at most sixteen attempts.
pub proof fn lemma_signing_retry_cap(chain: Seq<(BridgeActionView, u64)>)
    requires
        signing_retry_chain(chain),
    ensures
        chain.len() <= MAX_SIGNING_ATTEMPTS + 1,
        forall|i: int| 0 <= i < chain.len() ==> #[trigger] chain[i] == (chain[0].0, i as u64),
        chain.last().1 < MAX_SIGNING_ATTEMPTS ==> chain.len() <= MAX_SIGNING_ATTEMPTS,
{
    assert forall|i: int| 0 <= i < chain.len() implies #[trigger] chain[i] == (
        chain[0].0,
        i as u64,
    ) by {
        lemma_signing_chain_item(chain, i);
    }
    lemma_signing_chain_item(chain, chain.len() - 1);
}

/// The retry cap of the signing stage is reached: an action whose every
/// attempt fails is tried with each number from zero to the limit, the
/// limit included.
pub proof fn lemma_signing_retry_cap_is_reached(action: BridgeActionView)
    ensures
        signing_retry_chain(
            Seq::new((MAX_SIGNING_ATTEMPTS + 1) as nat, |i: int| (action, i as u64)),
        ),
{
    let chain = Seq::new((MAX_SIGNING_ATTEMPTS + 1) as nat, |i: int| (action, i as u64));
    assert forall|i: int| 0 < i < chain.len() implies signing_retry(chain[i - 1]) == Some(
        #[trigger] chain[i],
    ) by {
        lemma_backoff_bounds((i - 1) as u64);
    }
}

/// The delays between the attempts at signing one action never shrink:
/// the delay that follows attempt `earlier` is `100 * 2^earlier`
/// milliseconds, and it is at most the delay that follows any later
/// attempt.
pub proof fn lemma_signing_delays_grow(
    chain: Seq<(BridgeActionView, u64)>,
    earlier: int,
    later: int,
)
    requires
        signing_retry_chain(chain),
        0 <= earlier <= later < chain.len() - 1,
    ensures
        signing_retry_delay(chain[earlier]) == Some(backoff_ms(earlier as u64) as u64),
        signing_retry_delay(chain[later]) == Some(backoff_ms(later as u64) as u64),
        backoff_ms(earlier as u64) <= backoff_ms(later as u64) <= u64::MAX,
{
    lemma_signing_chain_item(chain, earlier);
    lemma_signing_chain_item(chain, later);
    assert(signing_retry(chain[earlier + 1 - 1]) == Some(chain[earlier + 1]));
    assert(signing_retry(chain[later + 1 - 1]) == Some(chain[later + 1]));
    lemma_backoff_bounds(earlier as u64);
    lemma_backoff_bounds(later as u64);
    lemma_backoff_monotonic(earlier as u64, later as u64);
}

/// What the failure of a submission puts back on the execution queue;
/// nothing where the attempt is not tried again.
pub open spec fn execution_retry(
    mgo_address: MgoAddress,
    gas_object_id: ObjectID,
    item: (CertifiedBridgeActionView, u64),
) -> Option<(CertifiedBridgeActionView, u64)> {
    let waiting = ExecutionTaskView {
        mgo_address,
        gas_object_id,
        state: ExecutionStateView::AwaitingEffects { certificate: item.0, attempt: item.1 },
    };
    match execution_step(waiting, ExecutionEventView::SubmissionFailed).1 {
        ExecutionCommandView::RetryAfter { delay_ms, certificate, attempt } => Some(
            (certificate, attempt),
        ),
        _ => None,
    }
}

/// For how many milliseconds the retry of a failed submission is put off;
/// nothing where the attempt is not tried again.
pub open spec fn execution_retry_delay(
    mgo_address: MgoAddress,
    gas_object_id: ObjectID,
    item: (CertifiedBridgeActionView, u64),
) -> Option<u64> {
    let waiting = ExecutionTaskView {
        mgo_address,
        gas_object_id,
        state: ExecutionStateView::AwaitingEffects { certificate: item.0, attempt: item.1 },
    };
    match execution_step(waiting, ExecutionEventView::SubmissionFailed).1 {
        ExecutionCommandView::RetryAfter { delay_ms, certificate, attempt } => Some(delay_ms),
        _ => None,
    }
}

/// The attempts at submitting one certificate within one life of the
/// executor: the first has the number zero, and each later one is the
/// retry of the one before it.
pub open spec fn execution_retry_chain(
    mgo_address: MgoAddress,
    gas_object_id: ObjectID,
    chain: Seq<(CertifiedBridgeActionView, u64)>,
) -> bool {
    &&& chain.len() > 0
    &&& chain[0].1 == 0
    &&& forall|i: int|
        0 < i < chain.len() ==> execution_retry(mgo_address, gas_object_id, chain[i - 1]) == Some(
            #[trigger] chain[i],
        )
}

/// The `i`-th attempt of a chain is for the certificate of the first, and
/// has the number `i`.
proof fn lemma_execution_chain_item(
    mgo_address: MgoAddress,
    gas_object_id: ObjectID,
    chain: Seq<(CertifiedBridgeActionView, u64)>,
    i: int,
)
    requires
        execution_retry_chain(mgo_address, gas_object_id, chain),
        0 <= i < chain.len(),
    ensures
        chain[i] == (chain[0].0, i as u64),
        i <= MAX_EXECUTION_ATTEMPTS,
    decreases i,
{
    if i > 0 {
        lemma_execution_chain_item(mgo_address, gas_object_id, chain, i - 1);
        assert(execution_retry(mgo_address, gas_object_id, chain[i - 1]) == Some(chain[i]));
    }
}

/// The retry cap of the execution stage. The attempts at submitting one
/// certificate are numbered from zero upwards without a gap, all are for
/// the same certificate, and the last number is at most the limit: a first
/// attempt and at most sixteen retries. As long as the attempt with the
/// last number below the limit has not failed, there are at most sixteen
/// attempts.
pub proof fn lemma_execution_retry_cap(
    mgo_address: MgoAddress,
    gas_object_id: ObjectID,
    chain: Seq<(CertifiedBridgeActionView, u64)>,
)
    requires
        execution_retry_chain(mgo_address, gas_object_id, chain),
    ensures
        chain.len() <= MAX_EXECUTION_ATTEMPTS + 1,
        forall|i: int| 0 <= i < chain.len() ==> #[trigger] chain[i] == (chain[0].0, i as u64),
        chain.last().1 < MAX_EXECUTION_ATTEMPTS ==> chain.len() <= MAX_EXECUTION_ATTEMPTS,
{
    assert forall|i: int| 0 <= i < chain.len() implies #[trigger] chain[i] == (
        chain[0].0,
        i as u64,
    ) by {
        lemma_execution_chain_item(mgo_address, gas_object_id, chain, i);
    }
    lemma_execution_chain_item(mgo_address, gas_object_id, chain, chain.len() - 1);
}

/// The retry cap of the execution stage is reached: a certificate whose
/// every submission fails is tried with each number from zero to the
/// limit, the limit included.
pub proof fn lemma_execution_retry_cap_is_reached(
    mgo_address: MgoAddress,
    gas_object_id: ObjectID,
    certificate: CertifiedBridgeActionView,
)
    ensures
        execution_retry_chain(
            mgo_address,
            gas_object_id,
            Seq::new((MAX_EXECUTION_ATTEMPTS + 1) as nat, |i: int| (certificate, i as u64)),
        ),
{
    let chain = Seq::new((MAX_EXECUTION_ATTEMPTS + 1) as nat, |i: int| (certificate, i as u64));
    assert forall|i: int| 0 < i < chain.len() implies execution_retry(
        mgo_address,
        gas_object_id,
        chain[i - 1],
    ) == Some(#[trigger] chain[i]) by {
        lemma_backoff_bounds((i - 1) as u64);
    }
}

/// The delays between the attempts at submitting one certificate never
/// shrink: the delay that follows attempt `earlier` is `100 * 2^earlier`
/// milliseconds, and it is at most the delay that follows any later
/// attempt.
pub proof fn lemma_execution_delays_grow(
    mgo_address: MgoAddress,
    gas_object_id: ObjectID,
    chain: Seq<(CertifiedBridgeActionView, u64)>,
    earlier: int,
    later: int,
)
    requires
        execution_retry_chain(mgo_address, gas_object_id, chain),
        0 <= earlier <= later < chain.len() - 1,
    ensures
        execution_retry_delay(mgo_address, gas_object_id, chain[earlier]) == Some(
            backoff_ms(earlier as u64) as u64,
        ),
        execution_retry_delay(mgo_address, gas_object_id, chain[later]) == Some(
            backoff_ms(later as u64) as u64,
        ),
        backoff_ms(earlier as u64) <= backoff_ms(later as u64) <= u64::MAX,
{
    lemma_execution_chain_item(mgo_address, gas_object_id, chain, earlier);
    lemma_execution_chain_item(mgo_address, gas_object_id, chain, later);
    assert(execution_retry(mgo_address, gas_object_id, chain[earlier + 1 - 1]) == Some(
        chain[earlier + 1],
    ));
    assert(execution_retry(mgo_address, gas_object_id, chain[later + 1 - 1]) == Some(
        chain[later + 1],
    ));
    lemma_backoff_bounds(earlier as u64);
    lemma_backoff_bounds(later as u64);
    lemma_backoff_monotonic(earlier as u64, later as u64);
}

} // verus!
