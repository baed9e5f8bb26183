//! The execution stage: what is done with one certified action taken from
//! the execution queue.
//!
//! A task goes through these steps, in this order and no other: ask for
//! the action's status on chain; fetch the gas object and see that this
//! node owns it; have the settlement transaction built; have it signed and
//! submitted; read the effects. It stops early when the action is already
//! approved on chain, when the gas object belongs to somebody else, or when
//! the transaction cannot be built.
//!
//! The task performs nothing itself. Each step takes what came back from
//! outside as an event and says, as a command, what is to be done next.

use crate::backoff::{backoff_ms, delay_ms, MAX_EXECUTION_ATTEMPTS};
use crate::pending_log::{PendingActions, PendingLog};
use crate::signing::handle_already_processed_action_maybe;
use crate::types::{
    BridgeAction, BridgeActionDigest, BridgeActionStatus, BridgeActionView,
    CertifiedBridgeActionExecutionWrapper, CertifiedBridgeActionView, ExecutionStatusView, GasCoin,
    GasData, MgoAddress, MgoExecutionStatus, ObjectID, ObjectRef, Owner, TransactionData,
    VerifiedCertifiedBridgeAction,
};
use vstd::prelude::*;

verus! {

/// How an execution task ended.
#[derive(Clone, Copy, Debug, PartialEq, Eq)]
pub enum ExecutionOutcome {
    /// The action was approved or claimed on chain already.
    AlreadyProcessed,
    /// The gas object is not owned by this node: the executor must stop.
    Aborted,
    /// The settlement transaction could not be built.
    BuildFailed,
    /// The transaction was executed and took effect.
    Settled,
    /// The transaction was executed and failed.
    Escalated,
    /// The transaction did not go through; it is tried again later.
    RetryScheduled,
    /// The transaction did not go through and no attempt is left.
    GaveUp,
}

/// The step at which an execution task stands.
#[derive(Clone, Debug, PartialEq, Eq)]
pub enum ExecutionState {
    /// The status of the action on chain was asked for.
    AwaitingStatus(CertifiedBridgeActionExecutionWrapper),
    /// The gas object was asked for.
    AwaitingGasData(CertifiedBridgeActionExecutionWrapper),
    /// The settlement transaction is being built.
    AwaitingTransaction(CertifiedBridgeActionExecutionWrapper),
    /// The signed transaction was submitted.
    AwaitingEffects(CertifiedBridgeActionExecutionWrapper),
    /// Nothing more is to be done.
    Finished(ExecutionOutcome),
}

/// The mathematical value of an [`ExecutionState`].
pub enum ExecutionStateView {
    AwaitingStatus { certificate: CertifiedBridgeActionView, attempt: u64 },
    AwaitingGasData { certificate: CertifiedBridgeActionView, attempt: u64 },
    AwaitingTransaction { certificate: CertifiedBridgeActionView, attempt: u64 },
    AwaitingEffects { certificate: CertifiedBridgeActionView, attempt: u64 },
    Finished(ExecutionOutcome),
}

impl View for ExecutionState {
    type V = ExecutionStateView;

    open spec fn view(&self) -> ExecutionStateView {
        match self {
            ExecutionState::AwaitingStatus(item) => ExecutionStateView::AwaitingStatus {
                certificate: item.0@,
                attempt: item.1,
            },
            ExecutionState::AwaitingGasData(item) => ExecutionStateView::AwaitingGasData {
                certificate: item.0@,
                attempt: item.1,
            },
            ExecutionState::AwaitingTransaction(item) => ExecutionStateView::AwaitingTransaction {
                certificate: item.0@,
                attempt: item.1,
            },
            ExecutionState::AwaitingEffects(item) => ExecutionStateView::AwaitingEffects {
                certificate: item.0@,
                attempt: item.1,
            },
            ExecutionState::Finished(outcome) => ExecutionStateView::Finished(*outcome),
        }
    }
}

/// An execution task: the node's address, the gas object that pays, and
/// the step at which the task stands.
#[derive(Clone, Debug, PartialEq, Eq)]
pub struct ExecutionTask {
    mgo_address: MgoAddress,
    gas_object_id: ObjectID,
    state: ExecutionState,
}

/// The mathematical value of an [`ExecutionTask`].
pub struct ExecutionTaskView {
    pub mgo_address: MgoAddress,
    pub gas_object_id: ObjectID,
    pub state: ExecutionStateView,
}

impl View for ExecutionTask {
    type V = ExecutionTaskView;

    closed spec fn view(&self) -> ExecutionTaskView {
        ExecutionTaskView {
            mgo_address: self.mgo_address,
            gas_object_id: self.gas_object_id,
            state: self.state@,
        }
    }
}

/// What came back from outside.
#[derive(Clone, Debug, PartialEq, Eq)]
pub enum ExecutionEvent {
    /// The chain's definite answer on the action's status.
    Status(BridgeActionStatus),
    /// The gas object as the chain holds it now.
    GasData(GasData),
    /// The settlement transaction, built.
    TransactionBuilt(TransactionData),
    /// The settlement transaction could not be built.
    BuildFailed,
    /// The chain executed the transaction, with this result.
    Effects(MgoExecutionStatus),
    /// The transaction did not reach execution: the submission failed on
    /// the way, or the chain turned it down before executing it.
    SubmissionFailed,
}

/// The mathematical value of an [`ExecutionEvent`].
pub enum ExecutionEventView {
    Status(BridgeActionStatus),
    GasData(GasData),
    TransactionBuilt(Seq<u8>),
    BuildFailed,
    Effects(ExecutionStatusView),
    SubmissionFailed,
}

impl View for ExecutionEvent {
    type V = ExecutionEventView;

    open spec fn view(&self) -> ExecutionEventView {
        match self {
            ExecutionEvent::Status(status) => ExecutionEventView::Status(*status),
            ExecutionEvent::GasData(gas) => ExecutionEventView::GasData(*gas),
            ExecutionEvent::TransactionBuilt(tx_data) => ExecutionEventView::TransactionBuilt(
                tx_data@,
            ),
            ExecutionEvent::BuildFailed => ExecutionEventView::BuildFailed,
            ExecutionEvent::Effects(status) => ExecutionEventView::Effects(status@),
            ExecutionEvent::SubmissionFailed => ExecutionEventView::SubmissionFailed,
        }
    }
}

/// What is to be done next.
#[derive(Clone, Debug, PartialEq, Eq)]
pub enum ExecutionCommand {
    /// Ask the chain for the status of the task's action, until it answers.
    QueryStatus,
    /// Take the action with this digest out of the pending log.
    RemovePendingAction(BridgeActionDigest),
    /// Fetch the gas object with this identifier.
    FetchGasData(ObjectID),
    /// Build the settlement transaction for the task's certificate, sent by
    /// `sender` and paid for with `gas_object_ref`.
    BuildTransaction { sender: MgoAddress, gas_object_ref: ObjectRef },
    /// Sign the transaction with the node's key, as a transaction of the
    /// destination chain, and submit it.
    SignAndSubmit(TransactionData),
    /// Wait this many milliseconds, then put the certificate back on the
    /// execution queue.
    RetryAfter { delay_ms: u64, retry: CertifiedBridgeActionExecutionWrapper },
    /// Report that an operator has to look at the action, whose
    /// transaction could not be submitted in any attempt; it stays in the
    /// pending log.
    GiveUp,
    /// Report that an operator has to look at the action, whose
    /// transaction was executed and failed with this error; it stays in the
    /// pending log and is not tried again.
    Escalate { error: String },
    /// Report that the transaction could not be built; the action stays in
    /// the pending log and is not tried again.
    Abandon,
    /// Stop the executor: the gas object is not owned by this node.
    Abort,
    /// The event does not belong to this step of the task: do nothing.
    Nothing,
}

/// The mathematical value of an [`ExecutionCommand`].
pub enum ExecutionCommandView {
    QueryStatus,
    RemovePendingAction(BridgeActionDigest),
    FetchGasData(ObjectID),
    BuildTransaction { sender: MgoAddress, gas_object_ref: ObjectRef },
    SignAndSubmit(Seq<u8>),
    RetryAfter { delay_ms: u64, certificate: CertifiedBridgeActionView, attempt: u64 },
    GiveUp,
    Escalate { error: Seq<char> },
    Abandon,
    Abort,
    Nothing,
}

impl View for ExecutionCommand {
    type V = ExecutionCommandView;

    open spec fn view(&self) -> ExecutionCommandView {
        match self {
            ExecutionCommand::QueryStatus => ExecutionCommandView::QueryStatus,
            ExecutionCommand::RemovePendingAction(digest) => {
                ExecutionCommandView::RemovePendingAction(*digest)
            },
            ExecutionCommand::FetchGasData(id) => ExecutionCommandView::FetchGasData(*id),
            ExecutionCommand::BuildTransaction { sender, gas_object_ref } => {
                ExecutionCommandView::BuildTransaction {
                    sender: *sender,
                    gas_object_ref: *gas_object_ref,
                }
            },
            ExecutionCommand::SignAndSubmit(tx_data) => ExecutionCommandView::SignAndSubmit(
                tx_data@,
            ),
            ExecutionCommand::RetryAfter { delay_ms, retry } => ExecutionCommandView::RetryAfter {
                delay_ms: *delay_ms,
                certificate: retry.0@,
                attempt: retry.1,
            },
            ExecutionCommand::GiveUp => ExecutionCommandView::GiveUp,
            ExecutionCommand::Escalate { error } => ExecutionCommandView::Escalate {
                error: error@,
            },
            ExecutionCommand::Abandon => ExecutionCommandView::Abandon,
            ExecutionCommand::Abort => ExecutionCommandView::Abort,
            ExecutionCommand::Nothing => ExecutionCommandView::Nothing,
        }
    }
}

/// The pending log after one command of the execution stage was carried
/// out: a removal takes the action out, no other command touches the log.
pub open spec fn log_after_execution_command(
    log: PendingActions,
    command: ExecutionCommandView,
) -> PendingActions {
    match command {
        ExecutionCommandView::RemovePendingAction(digest) => log.remove(digest),
        _ => log,
    }
}

impl ExecutionCommand {
    /// Carries out on `log` what the command asks of the pending log.
    pub fn apply_to(&self, log: &mut PendingLog)
        ensures
            final(log)@ == log_after_execution_command(old(log)@, self@),
    {
        match self {
            ExecutionCommand::RemovePendingAction(digest) => {
                let _ = log.remove(digest);
            },
            _ => {},
        }
    }
}

/// The state in which a task for this certificate and attempt begins.
pub open spec fn execution_start(
    mgo_address: MgoAddress,
    gas_object_id: ObjectID,
    certificate: CertifiedBridgeActionView,
    attempt: u64,
) -> ExecutionTaskView {
    ExecutionTaskView {
        mgo_address,
        gas_object_id,
        state: ExecutionStateView::AwaitingStatus { certificate, attempt },
    }
}

/// What the effects of an executed transaction lead to: on success the
/// action leaves the pending log; on failure an operator is called and the
/// action stays.
pub open spec fn effects_step(action: BridgeActionView, status: ExecutionStatusView) -> (
    ExecutionStateView,
    ExecutionCommandView,
) {
    match status {
        ExecutionStatusView::Success => (
            ExecutionStateView::Finished(ExecutionOutcome::Settled),
            ExecutionCommandView::RemovePendingAction(action.digest),
        ),
        ExecutionStatusView::Failure { error } => (
            ExecutionStateView::Finished(ExecutionOutcome::Escalated),
            ExecutionCommandView::Escalate { error },
        ),
    }
}

/// What a failed submission leads to: another attempt after the backoff
/// delay while the attempt number is below the limit, giving up from the
/// limit on.
pub open spec fn submission_failure_step(certificate: CertifiedBridgeActionView, attempt: u64) -> (
    ExecutionStateView,
    ExecutionCommandView,
) {
    if attempt >= MAX_EXECUTION_ATTEMPTS {
        (ExecutionStateView::Finished(ExecutionOutcome::GaveUp), ExecutionCommandView::GiveUp)
    } else {
        (
            ExecutionStateView::Finished(ExecutionOutcome::RetryScheduled),
            ExecutionCommandView::RetryAfter {
                delay_ms: backoff_ms(attempt) as u64,
                certificate,
                attempt: (attempt + 1) as u64,
            },
        )
    }
}

/// One step of an execution task: the step at which it stands after
/// `event`, and the command that the step gives.
pub open spec fn execution_state_step(
    mgo_address: MgoAddress,
    gas_object_id: ObjectID,
    state: ExecutionStateView,
    event: ExecutionEventView,
) -> (ExecutionStateView, ExecutionCommandView) {
    match (state, event) {
        (
            ExecutionStateView::AwaitingStatus { certificate, attempt },
            ExecutionEventView::Status(status),
        ) => {
            if status.finalized() {
                (
                    ExecutionStateView::Finished(ExecutionOutcome::AlreadyProcessed),
                    ExecutionCommandView::RemovePendingAction(certificate.action.digest),
                )
            } else {
                (
                    ExecutionStateView::AwaitingGasData { certificate, attempt },
                    ExecutionCommandView::FetchGasData(gas_object_id),
                )
            }
        },
        (
            ExecutionStateView::AwaitingGasData { certificate, attempt },
            ExecutionEventView::GasData(gas),
        ) => {
            if gas.owner == Owner::AddressOwner(mgo_address) {
                (
                    ExecutionStateView::AwaitingTransaction { certificate, attempt },
                    ExecutionCommandView::BuildTransaction {
                        sender: mgo_address,
                        gas_object_ref: gas.object_ref,
                    },
                )
            } else {
                (
                    ExecutionStateView::Finished(ExecutionOutcome::Aborted),
                    ExecutionCommandView::Abort,
                )
            }
        },
        (
            ExecutionStateView::AwaitingTransaction { certificate, attempt },
            ExecutionEventView::TransactionBuilt(tx_data),
        ) => (
            ExecutionStateView::AwaitingEffects { certificate, attempt },
            ExecutionCommandView::SignAndSubmit(tx_data),
        ),
        (
            ExecutionStateView::AwaitingTransaction { certificate, attempt },
            ExecutionEventView::BuildFailed,
        ) => (
            ExecutionStateView::Finished(ExecutionOutcome::BuildFailed),
            ExecutionCommandView::Abandon,
        ),
        (
            ExecutionStateView::AwaitingEffects { certificate, attempt },
            ExecutionEventView::Effects(status),
        ) => effects_step(certificate.action, status),
        (
            ExecutionStateView::AwaitingEffects { certificate, attempt },
            ExecutionEventView::SubmissionFailed,
        ) => submission_failure_step(certificate, attempt),
        _ => (state, ExecutionCommandView::Nothing),
    }
}

/// One step of an execution task: the task after `event`, and the command
/// that the step gives. The node's address and the gas object stay as they
/// are.
pub open spec fn execution_step(task: ExecutionTaskView, event: ExecutionEventView) -> (
    ExecutionTaskView,
    ExecutionCommandView,
) {
    let (state, command) = execution_state_step(
        task.mgo_address,
        task.gas_object_id,
        task.state,
        event,
    );
    (ExecutionTaskView { state, ..task }, command)
}

/// The state in which an execution task ends after it took `events` one
/// after the other, and the commands that it gave, one for each event.
pub open spec fn execution_run(task: ExecutionTaskView, events: Seq<ExecutionEventView>) -> (
    ExecutionTaskView,
    Seq<ExecutionCommandView>,
)
    decreases events.len(),
{
    if events.len() == 0 {
        (task, Seq::empty())
    } else {
        let (before, commands) = execution_run(task, events.drop_last());
        let (after, command) = execution_step(before, events.last());
        (after, commands.push(command))
    }
}

/// The values of a list of events, in the same order.
pub open spec fn execution_event_views(events: Seq<ExecutionEvent>) -> Seq<ExecutionEventView> {
    Seq::new(events.len(), |i: int| events[i]@)
}

/// The values of a list of commands, in the same order.
pub open spec fn execution_command_views(commands: Seq<ExecutionCommand>) -> Seq<
    ExecutionCommandView,
> {
    Seq::new(commands.len(), |i: int| commands[i]@)
}

/// Hands on the coin and the reference of a gas object that this node
/// owns. A gas object of another owner must not get here: the executor has
/// to stop before.
pub fn get_gas_data_assert_ownership(mgo_address: MgoAddress, gas: GasData) -> (owned: (
    GasCoin,
    ObjectRef,
))
    requires
        gas.owner == Owner::AddressOwner(mgo_address),
    ensures
        owned == (gas.coin, gas.object_ref),
{
    (gas.coin, gas.object_ref)
}

/// Reads the effects of an executed transaction: on success the digest to
/// take out of the pending log, on failure the call for an operator.
pub fn handle_execution_effects(status: MgoExecutionStatus, action: &BridgeAction) -> (next: (
    ExecutionState,
    ExecutionCommand,
))
    ensures
        (next.0@, next.1@) == effects_step(action@, status@),
{
    match status {
        MgoExecutionStatus::Success => (
            ExecutionState::Finished(ExecutionOutcome::Settled),
            ExecutionCommand::RemovePendingAction(action.digest()),
        ),
        MgoExecutionStatus::Failure { error } => (
            ExecutionState::Finished(ExecutionOutcome::Escalated),
            ExecutionCommand::Escalate { error },
        ),
    }
}

impl ExecutionOutcome {
    /// Whether the execution stage goes on with the next certificate after
    /// a task that ended this way. It does after every end but one: when
    /// the gas object is not owned by this node, the executor stops.
    pub fn continues(&self) -> (goes_on: bool)
        ensures
            goes_on == !(*self is Aborted),
    {
        match self {
            ExecutionOutcome::Aborted => false,
            _ => true,
        }
    }
}

impl ExecutionTask {
    /// Begins the task for an item taken from the execution queue. The
    /// first thing to do is to ask for the action's status on chain.
    pub fn begin(
        mgo_address: MgoAddress,
        gas_object_id: ObjectID,
        item: CertifiedBridgeActionExecutionWrapper,
    ) -> (started: (ExecutionTask, ExecutionCommand))
        ensures
            started.0@ == execution_start(mgo_address, gas_object_id, item.0@, item.1),
            started.1@ == ExecutionCommandView::QueryStatus,
    {
        (
            ExecutionTask { mgo_address, gas_object_id, state: ExecutionState::AwaitingStatus(item) },
            ExecutionCommand::QueryStatus,
        )
    }

    /// The certificate that the task works on, while it is not finished.
    pub fn certificate(&self) -> (certificate: Option<&VerifiedCertifiedBridgeAction>)
        ensures
            match certificate {
                Some(certificate) => match self@.state {
                    ExecutionStateView::AwaitingStatus { certificate: held, .. } => certificate@
                        == held,
                    ExecutionStateView::AwaitingGasData { certificate: held, .. } => certificate@
                        == held,
                    ExecutionStateView::AwaitingTransaction { certificate: held, .. } => certificate@
                        == held,
                    ExecutionStateView::AwaitingEffects { certificate: held, .. } => certificate@
                        == held,
                    ExecutionStateView::Finished(_) => false,
                },
                None => self@.state is Finished,
            },
    {
        match &self.state {
            ExecutionState::AwaitingStatus(item) => Some(&item.0),
            ExecutionState::AwaitingGasData(item) => Some(&item.0),
            ExecutionState::AwaitingTransaction(item) => Some(&item.0),
            ExecutionState::AwaitingEffects(item) => Some(&item.0),
            ExecutionState::Finished(_) => None,
        }
    }

    /// The address of the node that the task works for.
    pub fn mgo_address(&self) -> (mgo_address: MgoAddress)
        ensures
            mgo_address == self@.mgo_address,
    {
        self.mgo_address
    }

    /// The gas object that pays for the task's transaction.
    pub fn gas_object_id(&self) -> (gas_object_id: ObjectID)
        ensures
            gas_object_id == self@.gas_object_id,
    {
        self.gas_object_id
    }

    /// How the task ended, once it has.
    pub fn outcome(&self) -> (outcome: Option<ExecutionOutcome>)
        ensures
            outcome == match self@.state {
                ExecutionStateView::Finished(outcome) => Some(outcome),
                _ => None,
            },
    {
        match &self.state {
            ExecutionState::Finished(outcome) => Some(*outcome),
            _ => None,
        }
    }

    /// Takes the events one after the other and gives the state at the end
    /// and the commands, one for each event.
    pub fn run(self, events: Vec<ExecutionEvent>) -> (end: (ExecutionTask, Vec<ExecutionCommand>))
        ensures
            (end.0@, execution_command_views(end.1@)) == execution_run(
                self@,
                execution_event_views(events@),
            ),
    {
        let ghost start = self@;
        let ghost all = execution_event_views(events@);
        let mut task = self;
        let mut remaining = events;
        let mut commands: Vec<ExecutionCommand> = Vec::new();
        let ghost mut taken: int = 0;
        assert(all.skip(0) =~= all);
        assert(execution_command_views(commands@) =~= Seq::<ExecutionCommandView>::empty());
        while remaining.len() > 0
            invariant
                0 <= taken <= all.len(),
                execution_event_views(remaining@) == all.skip(taken),
                (task@, execution_command_views(commands@)) == execution_run(
                    start,
                    all.take(taken),
                ),
            decreases remaining@.len(),
        {
            let ghost given = execution_command_views(commands@);
            let ghost waiting = execution_event_views(remaining@);
            assert(waiting.len() == remaining@.len());
            assert(taken < all.len());
            let event = remaining.remove(0);
            assert(event@ == waiting[0]);
            assert(waiting[0] == all[taken]);
            assert forall|k: int| 0 <= k < remaining@.len() implies execution_event_views(
                remaining@,
            )[k] == all.skip(taken + 1)[k] by {
                assert(remaining@[k]@ == waiting[k + 1]);
            }
            assert(execution_event_views(remaining@) =~= all.skip(taken + 1));
            assert(all.take(taken + 1).drop_last() =~= all.take(taken));
            let (next, command) = task.step(event);
            task = next;
            commands.push(command);
            assert(execution_command_views(commands@) =~= given.push(command@));
            proof {
                taken = taken + 1;
            }
        }
        assert(all.take(taken) =~= all);
        (task, commands)
    }

    /// Takes one event and gives the next state and the command to carry
    /// out.
    pub fn step(self, event: ExecutionEvent) -> (next: (ExecutionTask, ExecutionCommand))
        ensures
            (next.0@, next.1@) == execution_step(self@, event@),
    {
        let ExecutionTask { mgo_address, gas_object_id, state } = self;
        let (state, command) = match state {
            ExecutionState::AwaitingStatus(item) => match event {
                ExecutionEvent::Status(status) => {
                    match handle_already_processed_action_maybe(status, item.0.data()) {
                        Some(digest) => (
                            ExecutionState::Finished(ExecutionOutcome::AlreadyProcessed),
                            ExecutionCommand::RemovePendingAction(digest),
                        ),
                        None => (
                            ExecutionState::AwaitingGasData(item),
                            ExecutionCommand::FetchGasData(gas_object_id),
                        ),
                    }
                },
                _ => (ExecutionState::AwaitingStatus(item), ExecutionCommand::Nothing),
            },
            ExecutionState::AwaitingGasData(item) => match event {
                ExecutionEvent::GasData(gas) => {
                    if gas.owner.is_address_owner(&mgo_address) {
                        let (_gas_coin, gas_object_ref) = get_gas_data_assert_ownership(
                            mgo_address,
                            gas,
                        );
                        (
                            ExecutionState::AwaitingTransaction(item),
                            ExecutionCommand::BuildTransaction { sender: mgo_address, gas_object_ref },
                        )
                    } else {
                        (
                            ExecutionState::Finished(ExecutionOutcome::Aborted),
                            ExecutionCommand::Abort,
                        )
                    }
                },
                _ => (ExecutionState::AwaitingGasData(item), ExecutionCommand::Nothing),
            },
            ExecutionState::AwaitingTransaction(item) => match event {
                ExecutionEvent::TransactionBuilt(tx_data) => (
                    ExecutionState::AwaitingEffects(item),
                    ExecutionCommand::SignAndSubmit(tx_data),
                ),
                ExecutionEvent::BuildFailed => (
                    ExecutionState::Finished(ExecutionOutcome::BuildFailed),
                    ExecutionCommand::Abandon,
                ),
                _ => (ExecutionState::AwaitingTransaction(item), ExecutionCommand::Nothing),
            },
            ExecutionState::AwaitingEffects(item) => match event {
                ExecutionEvent::Effects(status) => handle_execution_effects(status, item.0.data()),
                ExecutionEvent::SubmissionFailed => {
                    let CertifiedBridgeActionExecutionWrapper(certificate, attempt_times) = item;
                    if attempt_times >= MAX_EXECUTION_ATTEMPTS {
                        (
                            ExecutionState::Finished(ExecutionOutcome::GaveUp),
                            ExecutionCommand::GiveUp,
                        )
                    } else {
                        (
                            ExecutionState::Finished(ExecutionOutcome::RetryScheduled),
                            ExecutionCommand::RetryAfter {
                                delay_ms: delay_ms(attempt_times),
                                retry: CertifiedBridgeActionExecutionWrapper(
                                    certificate,
                                    attempt_times + 1,
                                ),
                            },
                        )
                    }
                },
                _ => (ExecutionState::AwaitingEffects(item), ExecutionCommand::Nothing),
            },
            ExecutionState::Finished(outcome) => (
                ExecutionState::Finished(outcome),
                ExecutionCommand::Nothing,
            ),
        };
        (ExecutionTask { mgo_address, gas_object_id, state }, command)
    }
}

} // verus!
