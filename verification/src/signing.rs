//! The signing stage: what is done with one action taken from the signing
//! queue.
//!
//! A task is a small state machine. It asks for the action's status on
//! chain, then for the committee's signatures, and ends in one of four
//! ways: the action was already approved on chain and leaves the pending
//! log; the committee certified it and the certificate goes to the
//! execution queue; the committee did not and the action goes back to the
//! signing queue after a delay; or the attempts are used up and the action
//! is left in the pending log for an operator.
//!
//! The task performs nothing itself. Each step takes what came back from
//! outside as an event and says, as a command, what is to be done next.

use crate::backoff::{backoff_ms, delay_ms, MAX_SIGNING_ATTEMPTS};
use crate::pending_log::{PendingActions, PendingLog};
use crate::types::{
    BridgeAction, BridgeActionDigest, BridgeActionExecutionWrapper, BridgeActionStatus,
    BridgeActionView, CertifiedBridgeActionExecutionWrapper, CertifiedBridgeActionView,
    VerifiedCertifiedBridgeAction,
};
use vstd::prelude::*;

verus! {

/// The voting power of the whole committee.
pub const TOTAL_VOTING_POWER: u64 = 10_000;

/// The voting power that certifies an action: more than a third of the
/// whole, so that at least one honest member has signed.
pub const VALIDITY_THRESHOLD: u64 = 3_334;

/// How a signing task ended.
#[derive(Clone, Copy, Debug, PartialEq, Eq)]
pub enum SigningOutcome {
    /// The action was approved or claimed on chain already.
    AlreadyProcessed,
    /// The committee certified the action.
    Certified,
    /// The committee did not certify the action; it is tried again later.
    RetryScheduled,
    /// The committee did not certify the action and no attempt is left.
    GaveUp,
}

/// Where a signing task stands.
#[derive(Clone, Debug, PartialEq, Eq)]
pub enum SigningTask {
    /// The status of the action on chain was asked for.
    AwaitingStatus(BridgeActionExecutionWrapper),
    /// The committee was asked to sign the action.
    AwaitingSignatures(BridgeActionExecutionWrapper),
    /// Nothing more is to be done.
    Finished(SigningOutcome),
}

/// The mathematical value of a [`SigningTask`].
pub enum SigningTaskView {
    AwaitingStatus { action: BridgeActionView, attempt: u64 },
    AwaitingSignatures { action: BridgeActionView, attempt: u64 },
    Finished(SigningOutcome),
}

impl View for SigningTask {
    type V = SigningTaskView;

    open spec fn view(&self) -> SigningTaskView {
        match self {
            SigningTask::AwaitingStatus(item) => SigningTaskView::AwaitingStatus {
                action: item.0@,
                attempt: item.1,
            },
            SigningTask::AwaitingSignatures(item) => SigningTaskView::AwaitingSignatures {
                action: item.0@,
                attempt: item.1,
            },
            SigningTask::Finished(outcome) => SigningTaskView::Finished(*outcome),
        }
    }
}

/// What came back from outside.
#[derive(Clone, Debug, PartialEq, Eq)]
pub enum SigningEvent {
    /// The chain's definite answer on the action's status.
    Status(BridgeActionStatus),
    /// The committee's certificate.
    Certified(VerifiedCertifiedBridgeAction),
    /// The committee's signatures did not reach the threshold, or could not
    /// be collected.
    SigningFailed,
}

/// The mathematical value of a [`SigningEvent`].
pub enum SigningEventView {
    Status(BridgeActionStatus),
    Certified(CertifiedBridgeActionView),
    SigningFailed,
}

impl View for SigningEvent {
    type V = SigningEventView;

    open spec fn view(&self) -> SigningEventView {
        match self {
            SigningEvent::Status(status) => SigningEventView::Status(*status),
            SigningEvent::Certified(certificate) => SigningEventView::Certified(certificate@),
            SigningEvent::SigningFailed => SigningEventView::SigningFailed,
        }
    }
}

/// What is to be done next.
#[derive(Clone, Debug, PartialEq, Eq)]
pub enum SigningCommand {
    /// Ask the chain for the status of the task's action, until it answers.
    QueryStatus,
    /// Take the action with this digest out of the pending log.
    RemovePendingAction(BridgeActionDigest),
    /// Ask the committee for signatures on the task's action that reach
    /// this voting power.
    RequestSignatures { threshold: u64 },
    /// Put the certificate on the execution queue.
    SendToExecution(CertifiedBridgeActionExecutionWrapper),
    /// Wait this many milliseconds, then put the action back on the signing
    /// queue.
    RetryAfter { delay_ms: u64, retry: BridgeActionExecutionWrapper },
    /// Report that an operator has to look at the action; it stays in the
    /// pending log.
    GiveUp,
    /// The event does not belong to this state of the task: do nothing.
    Nothing,
}

/// The mathematical value of a [`SigningCommand`].
pub enum SigningCommandView {
    QueryStatus,
    RemovePendingAction(BridgeActionDigest),
    RequestSignatures { threshold: u64 },
    SendToExecution { certificate: CertifiedBridgeActionView, attempt: u64 },
    RetryAfter { delay_ms: u64, action: BridgeActionView, attempt: u64 },
    GiveUp,
    Nothing,
}

impl View for SigningCommand {
    type V = SigningCommandView;

    open spec fn view(&self) -> SigningCommandView {
        match self {
            SigningCommand::QueryStatus => SigningCommandView::QueryStatus,
            SigningCommand::RemovePendingAction(digest) => SigningCommandView::RemovePendingAction(
                *digest,
            ),
            SigningCommand::RequestSignatures { threshold } => SigningCommandView::RequestSignatures {
                threshold: *threshold,
            },
            SigningCommand::SendToExecution(item) => SigningCommandView::SendToExecution {
                certificate: item.0@,
                attempt: item.1,
            },
            SigningCommand::RetryAfter { delay_ms, retry } => SigningCommandView::RetryAfter {
                delay_ms: *delay_ms,
                action: retry.0@,
                attempt: retry.1,
            },
            SigningCommand::GiveUp => SigningCommandView::GiveUp,
            SigningCommand::Nothing => SigningCommandView::Nothing,
        }
    }
}

/// The pending log after one command of the signing stage was carried out:
/// a removal takes the action out, no other command touches the log.
pub open spec fn log_after_signing_command(
    log: PendingActions,
    command: SigningCommandView,
) -> PendingActions {
    match command {
        SigningCommandView::RemovePendingAction(digest) => log.remove(digest),
        _ => log,
    }
}

impl SigningCommand {
    /// Carries out on `log` what the command asks of the pending log.
    pub fn apply_to(&self, log: &mut PendingLog)
        ensures
            final(log)@ == log_after_signing_command(old(log)@, self@),
    {
        match self {
            SigningCommand::RemovePendingAction(digest) => {
                let _ = log.remove(digest);
            },
            _ => {},
        }
    }
}

/// The state in which a task for this action and attempt begins.
pub open spec fn signing_start(action: BridgeActionView, attempt: u64) -> SigningTaskView {
    SigningTaskView::AwaitingStatus { action, attempt }
}

/// What a failed attempt leads to: another attempt after the backoff delay
/// while the attempt number is below the limit, giving up from the limit on.
pub open spec fn signing_failure_step(action: BridgeActionView, attempt: u64) -> (
    SigningTaskView,
    SigningCommandView,
) {
    if attempt >= MAX_SIGNING_ATTEMPTS {
        (SigningTaskView::Finished(SigningOutcome::GaveUp), SigningCommandView::GiveUp)
    } else {
        (
            SigningTaskView::Finished(SigningOutcome::RetryScheduled),
            SigningCommandView::RetryAfter {
                delay_ms: backoff_ms(attempt) as u64,
                action,
                attempt: (attempt + 1) as u64,
            },
        )
    }
}

/// One step of a signing task: the state after `event`, and the command
/// that the step gives.
pub open spec fn signing_step(task: SigningTaskView, event: SigningEventView) -> (
    SigningTaskView,
    SigningCommandView,
) {
    match (task, event) {
        (SigningTaskView::AwaitingStatus { action, attempt }, SigningEventView::Status(status)) => {
            if status.finalized() {
                (
                    SigningTaskView::Finished(SigningOutcome::AlreadyProcessed),
                    SigningCommandView::RemovePendingAction(action.digest),
                )
            } else {
                (
                    SigningTaskView::AwaitingSignatures { action, attempt },
                    SigningCommandView::RequestSignatures { threshold: VALIDITY_THRESHOLD },
                )
            }
        },
        (
            SigningTaskView::AwaitingSignatures { action, attempt },
            SigningEventView::Certified(certificate),
        ) => (
            SigningTaskView::Finished(SigningOutcome::Certified),
            SigningCommandView::SendToExecution { certificate, attempt: 0 },
        ),
        (
            SigningTaskView::AwaitingSignatures { action, attempt },
            SigningEventView::SigningFailed,
        ) => signing_failure_step(action, attempt),
        _ => (task, SigningCommandView::Nothing),
    }
}

/// The state in which a signing task ends after it took `events` one after
/// the other, and the commands that it gave, one for each event.
pub open spec fn signing_run(task: SigningTaskView, events: Seq<SigningEventView>) -> (
    SigningTaskView,
    Seq<SigningCommandView>,
)
    decreases events.len(),
{
    if events.len() == 0 {
        (task, Seq::empty())
    } else {
        let (before, commands) = signing_run(task, events.drop_last());
        let (after, command) = signing_step(before, events.last());
        (after, commands.push(command))
    }
}

/// The values of a list of events, in the same order.
pub open spec fn signing_event_views(events: Seq<SigningEvent>) -> Seq<SigningEventView> {
    Seq::new(events.len(), |i: int| events[i]@)
}

/// The values of a list of commands, in the same order.
pub open spec fn signing_command_views(commands: Seq<SigningCommand>) -> Seq<SigningCommandView> {
    Seq::new(commands.len(), |i: int| commands[i]@)
}

/// Decides whether an action of which the chain reports `status` is
/// already processed. If it is, the digest to take out of the pending log
/// is handed back; if not, nothing.
pub fn handle_already_processed_action_maybe(
    status: BridgeActionStatus,
    action: &BridgeAction,
) -> (remove: Option<BridgeActionDigest>)
    ensures
        remove == if status.finalized() {
            Some(action@.digest)
        } else {
            None
        },
{
    if status.is_finalized() {
        Some(action.digest())
    } else {
        None
    }
}

impl SigningTask {
    /// Begins the task for an item taken from the signing queue. The first
    /// thing to do is to ask for the action's status on chain.
    pub fn begin(item: BridgeActionExecutionWrapper) -> (started: (SigningTask, SigningCommand))
        ensures
            started.0@ == signing_start(item.0@, item.1),
            started.1@ == SigningCommandView::QueryStatus,
    {
        (SigningTask::AwaitingStatus(item), SigningCommand::QueryStatus)
    }

    /// The action that the task works on, while it is not finished.
    pub fn action(&self) -> (action: Option<&BridgeAction>)
        ensures
            match action {
                Some(action) => match self@ {
                    SigningTaskView::AwaitingStatus { action: held, .. } => action@ == held,
                    SigningTaskView::AwaitingSignatures { action: held, .. } => action@ == held,
                    SigningTaskView::Finished(_) => false,
                },
                None => self@ is Finished,
            },
    {
        match self {
            SigningTask::AwaitingStatus(item) => Some(&item.0),
            SigningTask::AwaitingSignatures(item) => Some(&item.0),
            SigningTask::Finished(_) => None,
        }
    }

    /// How the task ended, once it has.
    pub fn outcome(&self) -> (outcome: Option<SigningOutcome>)
        ensures
            outcome == match self@ {
                SigningTaskView::Finished(outcome) => Some(outcome),
                _ => None,
            },
    {
        match self {
            SigningTask::Finished(outcome) => Some(*outcome),
            _ => None,
        }
    }

    /// Takes the events one after the other and gives the state at the end
    /// and the commands, one for each event.
    pub fn run(self, events: Vec<SigningEvent>) -> (end: (SigningTask, Vec<SigningCommand>))
        ensures
            (end.0@, signing_command_views(end.1@)) == signing_run(
                self@,
                signing_event_views(events@),
            ),
    {
        let ghost start = self@;
        let ghost all = signing_event_views(events@);
        let mut task = self;
        let mut remaining = events;
        let mut commands: Vec<SigningCommand> = Vec::new();
        let ghost mut taken: int = 0;
        assert(all.skip(0) =~= all);
        assert(signing_command_views(commands@) =~= Seq::<SigningCommandView>::empty());
        while remaining.len() > 0
            invariant
                0 <= taken <= all.len(),
                signing_event_views(remaining@) == all.skip(taken),
                (task@, signing_command_views(commands@)) == signing_run(start, all.take(taken)),
            decreases remaining@.len(),
        {
            let ghost given = signing_command_views(commands@);
            let ghost waiting = signing_event_views(remaining@);
            assert(waiting.len() == remaining@.len());
            assert(taken < all.len());
            let event = remaining.remove(0);
            assert(event@ == waiting[0]);
            assert(waiting[0] == all[taken]);
            assert forall|k: int| 0 <= k < remaining@.len() implies signing_event_views(
                remaining@,
            )[k] == all.skip(taken + 1)[k] by {
                assert(remaining@[k]@ == waiting[k + 1]);
            }
            assert(signing_event_views(remaining@) =~= all.skip(taken + 1));
            assert(all.take(taken + 1).drop_last() =~= all.take(taken));
            let (next, command) = task.step(event);
            task = next;
            commands.push(command);
            assert(signing_command_views(commands@) =~= given.push(command@));
            proof {
                taken = taken + 1;
            }
        }
        assert(all.take(taken) =~= all);
        (task, commands)
    }

    /// Takes one event and gives the next state and the command to carry
    /// out.
    pub fn step(self, event: SigningEvent) -> (next: (SigningTask, SigningCommand))
        ensures
            (next.0@, next.1@) == signing_step(self@, event@),
    {
        match self {
            SigningTask::AwaitingStatus(item) => match event {
                SigningEvent::Status(status) => {
                    match handle_already_processed_action_maybe(status, &item.0) {
                        Some(digest) => (
                            SigningTask::Finished(SigningOutcome::AlreadyProcessed),
                            SigningCommand::RemovePendingAction(digest),
                        ),
                        None => (
                            SigningTask::AwaitingSignatures(item),
                            SigningCommand::RequestSignatures { threshold: VALIDITY_THRESHOLD },
                        ),
                    }
                },
                _ => (SigningTask::AwaitingStatus(item), SigningCommand::Nothing),
            },
            SigningTask::AwaitingSignatures(item) => match event {
                SigningEvent::Certified(certificate) => (
                    SigningTask::Finished(SigningOutcome::Certified),
                    SigningCommand::SendToExecution(
                        CertifiedBridgeActionExecutionWrapper(certificate, 0),
                    ),
                ),
                SigningEvent::SigningFailed => {
                    let BridgeActionExecutionWrapper(action, attempt_times) = item;
                    if attempt_times >= MAX_SIGNING_ATTEMPTS {
                        (SigningTask::Finished(SigningOutcome::GaveUp), SigningCommand::GiveUp)
                    } else {
                        (
                            SigningTask::Finished(SigningOutcome::RetryScheduled),
                            SigningCommand::RetryAfter {
                                delay_ms: delay_ms(attempt_times),
                                retry: BridgeActionExecutionWrapper(action, attempt_times + 1),
                            },
                        )
                    }
                },
                _ => (SigningTask::AwaitingSignatures(item), SigningCommand::Nothing),
            },
            SigningTask::Finished(outcome) => (
                SigningTask::Finished(outcome),
                SigningCommand::Nothing,
            ),
        }
    }
}

} // verus!
