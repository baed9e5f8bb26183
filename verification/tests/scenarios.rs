use std::collections::VecDeque;

use mgo_bridge::committee::{BridgeAuthority, BridgeCommittee};
use mgo_bridge::execution::{ExecutionCommand, ExecutionEvent, ExecutionOutcome};
use mgo_bridge::executor::{BridgeActionExecutor, CHANNEL_SIZE};
use mgo_bridge::pending_log::PendingLog;
use mgo_bridge::signing::{SigningCommand, SigningEvent, SigningOutcome};
use mgo_bridge::types::{
    AuthoritySignature, BridgeAction, BridgeActionDigest, BridgeActionExecutionWrapper,
    BridgeActionStatus, CertifiedBridgeActionExecutionWrapper, GasCoin, GasData, MgoAddress,
    MgoExecutionStatus, ObjectDigest, ObjectID, ObjectRef, Owner, TransactionData,
    VerifiedCertifiedBridgeAction,
};

/// A committee member that answers a signing request with its signature or
/// with an error, and counts the requests.
struct MockAuthority {
    key: Vec<u8>,
    stake: u64,
    signs: bool,
    requested: u64,
}

impl MockAuthority {
    fn sign(&self, action: &BridgeAction) -> AuthoritySignature {
        let mut signature = self.key.clone();
        signature.extend_from_slice(&action.digest().bytes);
        AuthoritySignature { authority: self.key.clone(), signature }
    }
}

/// What the chain answers to a submitted transaction.
#[derive(Clone)]
enum MockResponse {
    Effects(MgoExecutionStatus),
    Error(String),
}

/// The chain as the executor sees it.
struct MockChain {
    statuses: Vec<(BridgeActionDigest, BridgeActionStatus)>,
    gas: Option<GasData>,
    response: MockResponse,
    requested_transactions: Vec<TransactionData>,
}

impl MockChain {
    fn status_of(&self, action: &BridgeAction) -> BridgeActionStatus {
        for (digest, status) in &self.statuses {
            if *digest == action.digest() {
                return *status;
            }
        }
        BridgeActionStatus::Pending
    }

    fn set_action_onchain_status(&mut self, action: &BridgeAction, status: BridgeActionStatus) {
        self.statuses.retain(|(digest, _)| *digest != action.digest());
        self.statuses.push((action.digest(), status));
    }
}

/// A node that runs both stages on one thread: queues, timers and a clock
/// in place of tasks and sleeps.
struct Node {
    executor: BridgeActionExecutor,
    store: PendingLog,
    signing_queue: VecDeque<BridgeActionExecutionWrapper>,
    execution_queue: VecDeque<CertifiedBridgeActionExecutionWrapper>,
    signing_timers: Vec<(u64, BridgeActionExecutionWrapper)>,
    execution_timers: Vec<(u64, CertifiedBridgeActionExecutionWrapper)>,
    now_ms: u64,
    authorities: Vec<MockAuthority>,
    committee: BridgeCommittee,
    chain: MockChain,
    signing_outcomes: Vec<SigningOutcome>,
    execution_outcomes: Vec<ExecutionOutcome>,
    escalations: Vec<String>,
    stopped: bool,
}

fn mgo_address() -> MgoAddress {
    MgoAddress::new([0x11; 32])
}

fn gas_object_ref() -> ObjectRef {
    ObjectRef::new(ObjectID::new([0x22; 32]), 1, ObjectDigest::new([0x33; 32]))
}

/// Where the bridge object is found on chain: the settings that the
/// builder of settlement transactions reads.
const ROOT_BRIDGE_OBJECT_ID: (&str, &str) = ("ROOT_BRIDGE_OBJECT_ID", "0x09");
const ROOT_BRIDGE_OBJECT_INITIAL_SHARED_VERSION: (&str, &str) =
    ("ROOT_BRIDGE_OBJECT_INITIAL_SHARED_VERSION", "1");

/// The settlement transaction for these inputs, byte for byte.
fn build_transaction(
    sender: MgoAddress,
    gas_object_ref: &ObjectRef,
    certificate: &VerifiedCertifiedBridgeAction,
) -> TransactionData {
    let mut bytes = Vec::new();
    bytes.extend_from_slice(ROOT_BRIDGE_OBJECT_ID.1.as_bytes());
    bytes.extend_from_slice(ROOT_BRIDGE_OBJECT_INITIAL_SHARED_VERSION.1.as_bytes());
    bytes.extend_from_slice(&sender.bytes);
    bytes.extend_from_slice(&gas_object_ref.object_id.bytes);
    bytes.extend_from_slice(&gas_object_ref.version.to_le_bytes());
    bytes.extend_from_slice(&gas_object_ref.digest.bytes);
    bytes.extend_from_slice(&certificate.data().digest().bytes);
    bytes.extend_from_slice(certificate.data().payload());
    for signature in certificate.signatures() {
        bytes.extend_from_slice(&signature.authority);
        bytes.extend_from_slice(&signature.signature);
    }
    TransactionData::new(bytes)
}

fn setup() -> Node {
    let authorities: Vec<MockAuthority> = (0u8..4)
        .map(|index| MockAuthority { key: vec![index; 33], stake: 2500, signs: true, requested: 0 })
        .collect();
    let committee = BridgeCommittee::new(
        authorities
            .iter()
            .map(|authority| BridgeAuthority {
                pubkey: authority.key.clone(),
                voting_power: authority.stake,
            })
            .collect(),
    )
    .unwrap();
    Node {
        executor: BridgeActionExecutor::new(mgo_address(), gas_object_ref().object_id),
        store: PendingLog::new(),
        signing_queue: VecDeque::new(),
        execution_queue: VecDeque::new(),
        signing_timers: Vec::new(),
        execution_timers: Vec::new(),
        now_ms: 0,
        authorities,
        committee,
        chain: MockChain {
            statuses: Vec::new(),
            gas: None,
            response: MockResponse::Effects(MgoExecutionStatus::Success),
            requested_transactions: Vec::new(),
        },
        signing_outcomes: Vec::new(),
        execution_outcomes: Vec::new(),
        escalations: Vec::new(),
        stopped: false,
    }
}

impl Node {
    fn add_gas_object_info(&mut self, coin: GasCoin, object_ref: ObjectRef, owner: Owner) {
        self.chain.gas = Some(GasData::new(coin, object_ref, owner));
    }

    fn mock_transaction_response(&mut self, status: MgoExecutionStatus) {
        self.chain.response = MockResponse::Effects(status);
    }

    fn mock_transaction_error(&mut self, error: &str) {
        self.chain.response = MockResponse::Error(error.to_string());
    }

    fn mock_bridge_authority_signing_errors(&mut self, authorities: &[usize]) {
        for index in authorities {
            self.authorities[*index].signs = false;
        }
    }

    fn mock_bridge_authority_sigs(&mut self, authorities: &[usize]) {
        for index in authorities {
            self.authorities[*index].signs = true;
        }
    }

    /// The certificate that the committee gives when these members sign.
    fn certificate_of(
        &self,
        action: &BridgeAction,
        authorities: &[usize],
    ) -> VerifiedCertifiedBridgeAction {
        let mut members = authorities.to_vec();
        members.sort();
        let signatures = members.iter().map(|index| self.authorities[*index].sign(action)).collect();
        VerifiedCertifiedBridgeAction::new_from_verified(action.clone(), signatures)
    }

    fn request_committee_signatures(&mut self, action: &BridgeAction, threshold: u64) -> SigningEvent {
        let mut signatures = Vec::new();
        for authority in self.authorities.iter_mut() {
            authority.requested += 1;
            if authority.signs {
                signatures.push(authority.sign(action));
            }
        }
        match self.committee.certify(action.clone(), signatures, threshold) {
            Some(certificate) => SigningEvent::Certified(certificate),
            None => SigningEvent::SigningFailed,
        }
    }

    fn submit_to_executor(&mut self, action: BridgeAction) {
        assert!(self.signing_queue.len() < CHANNEL_SIZE);
        self.signing_queue.push_back(BridgeActionExecutor::submission(action));
    }

    fn send_to_execution(&mut self, item: CertifiedBridgeActionExecutionWrapper) {
        assert!(self.execution_queue.len() < CHANNEL_SIZE);
        self.execution_queue.push_back(item);
    }

    fn request_signature(&mut self, item: BridgeActionExecutionWrapper) {
        let (mut task, mut command) = self.executor.begin_signing(item);
        loop {
            let event = match command {
                SigningCommand::QueryStatus => {
                    SigningEvent::Status(self.chain.status_of(task.action().unwrap()))
                }
                SigningCommand::RequestSignatures { threshold } => {
                    let action = task.action().unwrap().clone();
                    self.request_committee_signatures(&action, threshold)
                }
                SigningCommand::RemovePendingAction(_) => {
                    command.apply_to(&mut self.store);
                    break;
                }
                SigningCommand::SendToExecution(certified) => {
                    self.send_to_execution(certified);
                    break;
                }
                SigningCommand::RetryAfter { delay_ms, retry } => {
                    self.signing_timers.push((self.now_ms + delay_ms, retry));
                    break;
                }
                SigningCommand::GiveUp => break,
                SigningCommand::Nothing => unreachable!(),
            };
            let (next, next_command) = task.step(event);
            task = next;
            command = next_command;
        }
        self.signing_outcomes.push(task.outcome().unwrap());
    }

    fn execute(&mut self, item: CertifiedBridgeActionExecutionWrapper) {
        let (mut task, mut command) = self.executor.begin_execution(item);
        loop {
            let event = match command {
                ExecutionCommand::QueryStatus => {
                    let status = self.chain.status_of(task.certificate().unwrap().data());
                    ExecutionEvent::Status(status)
                }
                ExecutionCommand::FetchGasData(gas_object_id) => {
                    let gas = self.chain.gas.unwrap();
                    assert_eq!(gas.object_ref.object_id, gas_object_id);
                    ExecutionEvent::GasData(gas)
                }
                ExecutionCommand::BuildTransaction { sender, gas_object_ref } => {
                    ExecutionEvent::TransactionBuilt(build_transaction(
                        sender,
                        &gas_object_ref,
                        task.certificate().unwrap(),
                    ))
                }
                ExecutionCommand::SignAndSubmit(tx_data) => {
                    self.chain.requested_transactions.push(tx_data);
                    match self.chain.response.clone() {
                        MockResponse::Effects(status) => ExecutionEvent::Effects(status),
                        MockResponse::Error(_) => ExecutionEvent::SubmissionFailed,
                    }
                }
                ExecutionCommand::RemovePendingAction(_) => {
                    command.apply_to(&mut self.store);
                    break;
                }
                ExecutionCommand::RetryAfter { delay_ms, retry } => {
                    self.execution_timers.push((self.now_ms + delay_ms, retry));
                    break;
                }
                ExecutionCommand::Escalate { error } => {
                    self.escalations.push(error);
                    break;
                }
                ExecutionCommand::GiveUp | ExecutionCommand::Abandon => break,
                ExecutionCommand::Abort => break,
                ExecutionCommand::Nothing => unreachable!(),
            };
            let (next, next_command) = task.step(event);
            task = next;
            command = next_command;
        }
        let outcome = task.outcome().unwrap();
        if !outcome.continues() {
            self.stopped = true;
        }
        self.execution_outcomes.push(outcome);
    }

    /// Works until both queues are empty. Timers are left alone.
    fn run_until_idle(&mut self) {
        loop {
            if self.stopped {
                break;
            }
            if let Some(item) = self.signing_queue.pop_front() {
                self.request_signature(item);
            } else if let Some(item) = self.execution_queue.pop_front() {
                self.execute(item);
            } else {
                break;
            }
        }
    }

    /// Lets this much time pass, puts back on the queues what falls due,
    /// and works until both queues are empty.
    fn sleep(&mut self, millis: u64) {
        let until = self.now_ms + millis;
        loop {
            self.run_until_idle();
            let next_signing = self.signing_timers.iter().map(|timer| timer.0).min();
            let next_execution = self.execution_timers.iter().map(|timer| timer.0).min();
            let due = match (next_signing, next_execution) {
                (Some(a), Some(b)) => a.min(b),
                (Some(a), None) => a,
                (None, Some(b)) => b,
                (None, None) => break,
            };
            if due > until {
                break;
            }
            self.now_ms = due;
            let mut waiting = Vec::new();
            for (at, item) in self.signing_timers.drain(..) {
                if at <= due {
                    self.signing_queue.push_back(item);
                } else {
                    waiting.push((at, item));
                }
            }
            self.signing_timers = waiting;
            let mut waiting = Vec::new();
            for (at, item) in self.execution_timers.drain(..) {
                if at <= due {
                    self.execution_queue.push_back(item);
                } else {
                    waiting.push((at, item));
                }
            }
            self.execution_timers = waiting;
        }
        self.now_ms = until;
    }
}

fn get_test_bridge_action(tag: u8) -> BridgeAction {
    BridgeAction::new(BridgeActionDigest::new([tag; 32]), vec![tag; 8])
}

#[test]
fn test_onchain_execution_loop() {
    let mut node = setup();
    let action = get_test_bridge_action(1);
    let certificate = node.certificate_of(&action, &[0, 1, 2, 3]);
    let tx_data = build_transaction(mgo_address(), &gas_object_ref(), &certificate);

    let gas_coin = GasCoin::new(1_000_000_000_000);
    node.add_gas_object_info(gas_coin, gas_object_ref(), Owner::AddressOwner(mgo_address()));

    // The transaction is executed successfully.
    node.mock_transaction_response(MgoExecutionStatus::Success);

    node.store.insert_pending_actions(&[action.clone()]);
    assert_eq!(node.store.get(&action.digest()), Some(&action));

    node.submit_to_executor(action.clone());
    node.run_until_idle();

    // The transaction was requested once and executed, hence removed from the log.
    assert_eq!(node.chain.requested_transactions, vec![tx_data]);
    assert!(node.store.get_all_pending_actions().is_empty());

    // Execution failure.
    let action = get_test_bridge_action(2);
    let certificate = node.certificate_of(&action, &[0, 1, 2, 3]);
    let tx_data = build_transaction(mgo_address(), &gas_object_ref(), &certificate);
    node.mock_transaction_response(MgoExecutionStatus::Failure {
        error: "failure is mother of success".to_string(),
    });

    node.store.insert_pending_actions(&[action.clone()]);
    assert_eq!(node.store.get(&action.digest()), Some(&action));

    node.submit_to_executor(action.clone());
    node.run_until_idle();

    // The transaction was requested but failed.
    assert_eq!(node.chain.requested_transactions.len(), 2);
    assert_eq!(node.chain.requested_transactions[1], tx_data);
    // The action is not removed from the log because the transaction failed.
    assert_eq!(node.store.get(&action.digest()), Some(&action));
    assert_eq!(node.escalations, vec!["failure is mother of success".to_string()]);
    // It is not tried again either.
    node.sleep(3_600_000);
    assert_eq!(node.chain.requested_transactions.len(), 2);

    // The submission fails on the way.
    let action = get_test_bridge_action(3);
    let certificate = node.certificate_of(&action, &[0, 1, 2, 3]);
    let tx_data = build_transaction(mgo_address(), &gas_object_ref(), &certificate);
    node.mock_transaction_error("some random error");

    node.store.insert_pending_actions(&[action.clone()]);
    assert_eq!(node.store.get(&action.digest()), Some(&action));

    node.submit_to_executor(action.clone());
    node.run_until_idle();

    // The failure triggers a retry: wait for two requests before looking at the log.
    node.sleep(100);
    assert_eq!(node.chain.requested_transactions.len(), 4);
    assert_eq!(node.chain.requested_transactions[2], tx_data);
    assert_eq!(node.chain.requested_transactions[3], tx_data);

    // The retry is still going on, the action is still in the log.
    assert!(node.store.contains_key(&action.digest()));

    // Now let it succeed.
    node.mock_transaction_response(MgoExecutionStatus::Success);

    // Give it one second to retry and succeed.
    node.sleep(1000);
    assert!(!node.store.contains_key(&action.digest()));
    assert_eq!(node.chain.requested_transactions.last(), Some(&tx_data));
}

#[test]
fn test_signature_aggregation_loop() {
    let mut node = setup();
    let action = get_test_bridge_action(4);
    node.mock_bridge_authority_signing_errors(&[0, 1, 2]);
    node.mock_bridge_authority_sigs(&[3]);

    let gas_coin = GasCoin::new(1_000_000_000_000);
    node.add_gas_object_info(gas_coin, gas_object_ref(), Owner::AddressOwner(mgo_address()));

    node.store.insert_pending_actions(&[action.clone()]);
    assert_eq!(node.store.get(&action.digest()), Some(&action));

    node.submit_to_executor(action.clone());

    // Wait until the signing is retried at least once instead of being dropped.
    loop {
        let requested_times = node.authorities[0].requested;
        if requested_times >= 2 {
            break;
        }
        node.sleep(50);
    }
    // Nothing is sent to execute yet.
    assert!(node.chain.requested_transactions.is_empty());
    // Still in the log.
    assert_eq!(node.store.get(&action.digest()), Some(&action));

    // Let another authority sign the action too. Now the threshold is met.
    node.mock_bridge_authority_sigs(&[2]);
    let certificate = node.certificate_of(&action, &[3, 2]);
    let tx_data = build_transaction(mgo_address(), &gas_object_ref(), &certificate);
    node.mock_transaction_response(MgoExecutionStatus::Success);

    node.sleep(1000);

    // The transaction is requested and succeeds.
    assert_eq!(node.chain.requested_transactions, vec![tx_data]);
    // The action is removed from the log.
    assert!(!node.store.contains_key(&action.digest()));
}

#[test]
fn test_skip_request_signature_if_already_processed_on_chain() {
    let mut node = setup();
    let action = get_test_bridge_action(5);
    node.mock_bridge_authority_signing_errors(&[0, 1, 2, 3]);
    node.store.insert_pending_actions(&[action.clone()]);
    assert_eq!(node.store.get(&action.digest()), Some(&action));

    node.submit_to_executor(action.clone());
    let action_digest = action.digest();

    // After one second the signing is still being retried, because every authority errs.
    node.sleep(1000);
    assert!(node.chain.requested_transactions.is_empty());
    // And the action is still in the log.
    assert!(node.store.contains_key(&action_digest));

    node.chain.set_action_onchain_status(&action, BridgeActionStatus::Approved);

    // The next retry sees that the action is processed on chain and removes it from the log.
    let started = node.now_ms;
    while node.store.contains_key(&action_digest) {
        if (node.now_ms - started) / 1000 > 10 {
            panic!("Timeout waiting for action to be removed from WAL");
        }
        node.sleep(100);
    }
    assert!(node.chain.requested_transactions.is_empty());
    assert_eq!(node.signing_outcomes.last(), Some(&SigningOutcome::AlreadyProcessed));
}

#[test]
fn test_skip_tx_submission_if_already_processed_on_chain() {
    let mut node = setup();
    let action = get_test_bridge_action(6);
    let certificate = node.certificate_of(&action, &[0, 1, 2, 3]);
    node.mock_transaction_error("some random error");

    let gas_coin = GasCoin::new(1_000_000_000_000);
    node.add_gas_object_info(gas_coin, gas_object_ref(), Owner::AddressOwner(mgo_address()));

    node.chain.set_action_onchain_status(&action, BridgeActionStatus::Pending);

    node.store.insert_pending_actions(&[action.clone()]);
    assert_eq!(node.store.get(&action.digest()), Some(&action));

    // Send to the execution queue, skipping the signing queue.
    node.send_to_execution(CertifiedBridgeActionExecutionWrapper(certificate, 0));
    node.run_until_idle();

    // A request came in and failed.
    assert_eq!(node.chain.requested_transactions.len(), 1);

    // The action is approved on chain meanwhile.
    node.chain.set_action_onchain_status(&action, BridgeActionStatus::Approved);

    // The next retry sees that the action is processed on chain and removes it from the log.
    let started = node.now_ms;
    let action_digest = action.digest();
    while node.store.contains_key(&action_digest) {
        if (node.now_ms - started) / 1000 > 10 {
            panic!("Timeout waiting for action to be removed from WAL");
        }
        node.sleep(100);
    }
    assert_eq!(node.chain.requested_transactions.len(), 1);
    assert_eq!(node.execution_outcomes.last(), Some(&ExecutionOutcome::AlreadyProcessed));
}

#[test]
fn happy_path_empties_the_log_with_one_submission() {
    let mut node = setup();
    let action = get_test_bridge_action(7);
    node.add_gas_object_info(GasCoin::new(1), gas_object_ref(), Owner::AddressOwner(mgo_address()));
    node.store.insert_pending_actions(&[action.clone()]);
    node.submit_to_executor(action.clone());
    node.sleep(3_600_000);
    assert!(node.store.is_empty());
    assert_eq!(node.chain.requested_transactions.len(), 1);
    assert_eq!(node.signing_outcomes, vec![SigningOutcome::Certified]);
    assert_eq!(node.execution_outcomes, vec![ExecutionOutcome::Settled]);
}

#[test]
fn failure_effects_keep_the_action_and_end_the_retries() {
    let mut node = setup();
    let action = get_test_bridge_action(8);
    node.add_gas_object_info(GasCoin::new(1), gas_object_ref(), Owner::AddressOwner(mgo_address()));
    node.mock_transaction_response(MgoExecutionStatus::Failure { error: "x".to_string() });
    node.store.insert_pending_actions(&[action.clone()]);
    node.submit_to_executor(action.clone());
    node.sleep(3_600_000);
    assert_eq!(node.store.get_all_pending_actions(), vec![action]);
    assert_eq!(node.chain.requested_transactions.len(), 1);
    assert_eq!(node.execution_outcomes, vec![ExecutionOutcome::Escalated]);
    assert!(node.execution_timers.is_empty());
}

#[test]
fn transient_submission_errors_are_retried_until_success() {
    let mut node = setup();
    let action = get_test_bridge_action(9);
    node.add_gas_object_info(GasCoin::new(1), gas_object_ref(), Owner::AddressOwner(mgo_address()));
    node.mock_transaction_error("some random error");
    node.store.insert_pending_actions(&[action.clone()]);
    node.submit_to_executor(action.clone());
    // Attempts at 0, 100 and 300 milliseconds fail.
    node.sleep(300);
    assert_eq!(node.chain.requested_transactions.len(), 3);
    assert!(node.store.contains_key(&action.digest()));
    node.mock_transaction_response(MgoExecutionStatus::Success);
    // The fourth attempt falls due 400 milliseconds after the third.
    node.sleep(399);
    assert_eq!(node.chain.requested_transactions.len(), 3);
    node.sleep(1);
    assert_eq!(node.chain.requested_transactions.len(), 4);
    assert!(node.store.is_empty());
    let first = node.chain.requested_transactions[0].clone();
    assert!(node.chain.requested_transactions.iter().all(|tx_data| *tx_data == first));
    assert_eq!(
        node.execution_outcomes,
        vec![
            ExecutionOutcome::RetryScheduled,
            ExecutionOutcome::RetryScheduled,
            ExecutionOutcome::RetryScheduled,
            ExecutionOutcome::Settled,
        ]
    );
}

#[test]
fn threshold_reached_in_a_later_attempt_settles_the_action_once() {
    let mut node = setup();
    let action = get_test_bridge_action(10);
    node.add_gas_object_info(GasCoin::new(1), gas_object_ref(), Owner::AddressOwner(mgo_address()));
    node.mock_bridge_authority_signing_errors(&[0, 1, 2]);
    node.store.insert_pending_actions(&[action.clone()]);
    node.submit_to_executor(action.clone());
    node.run_until_idle();
    // One signature carries 2500 of the 3334 that are needed.
    assert_eq!(node.signing_outcomes, vec![SigningOutcome::RetryScheduled]);
    assert_eq!(node.signing_timers.len(), 1);
    assert_eq!(node.signing_timers[0].0, 100);
    node.mock_bridge_authority_sigs(&[1]);
    node.sleep(100);
    assert_eq!(
        node.signing_outcomes,
        vec![SigningOutcome::RetryScheduled, SigningOutcome::Certified]
    );
    assert_eq!(node.execution_outcomes, vec![ExecutionOutcome::Settled]);
    assert_eq!(node.chain.requested_transactions.len(), 1);
    assert!(node.store.is_empty());
}

#[test]
fn an_action_that_is_never_signed_stays_in_the_log_when_the_attempts_are_used_up() {
    let mut node = setup();
    let action = get_test_bridge_action(11);
    node.mock_bridge_authority_signing_errors(&[0, 1, 2, 3]);
    node.store.insert_pending_actions(&[action.clone()]);
    node.submit_to_executor(action.clone());
    // All delays together: 100 * (2^16 - 1) milliseconds.
    node.sleep(6_553_500);
    assert_eq!(node.signing_outcomes.len(), 17);
    assert_eq!(node.signing_outcomes.last(), Some(&SigningOutcome::GaveUp));
    assert_eq!(node.authorities[0].requested, 17);
    assert!(node.signing_timers.is_empty());
    assert!(node.chain.requested_transactions.is_empty());
    assert_eq!(node.store.get(&action.digest()), Some(&action));

    // A restart finds the action in the log and starts over with attempt zero.
    let items = BridgeActionExecutor::pending_submissions(&node.store);
    assert_eq!(items, vec![BridgeActionExecutionWrapper(action, 0)]);
}

#[test]
fn two_builds_from_the_same_inputs_give_the_same_bytes() {
    let node = setup();
    let action = get_test_bridge_action(12);
    let certificate = node.certificate_of(&action, &[0, 1, 2]);
    let first = build_transaction(mgo_address(), &gas_object_ref(), &certificate);
    let second = build_transaction(mgo_address(), &gas_object_ref(), &certificate.clone());
    assert_eq!(first, second);
    let other = node.certificate_of(&action, &[0, 1, 3]);
    assert_ne!(first, build_transaction(mgo_address(), &gas_object_ref(), &other));
}

#[test]
fn a_gas_object_in_other_hands_stops_the_node() {
    let mut node = setup();
    let first = get_test_bridge_action(13);
    let second = get_test_bridge_action(14);
    node.add_gas_object_info(
        GasCoin::new(1_000_000_000_000),
        gas_object_ref(),
        Owner::AddressOwner(MgoAddress::new([0x99; 32])),
    );
    node.store.insert_pending_actions(&[first.clone(), second.clone()]);
    node.submit_to_executor(first.clone());
    node.submit_to_executor(second.clone());
    node.sleep(3_600_000);
    assert!(node.stopped);
    assert_eq!(node.execution_outcomes, vec![ExecutionOutcome::Aborted]);
    // Nothing was signed or submitted, and nothing left the log.
    assert!(node.chain.requested_transactions.is_empty());
    assert_eq!(node.store.len(), 2);
    assert!(node.store.contains_key(&first.digest()));
    assert!(node.store.contains_key(&second.digest()));
}
