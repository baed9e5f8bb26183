use mgo_bridge::backoff::MAX_SIGNING_ATTEMPTS;
use mgo_bridge::pending_log::PendingLog;
use mgo_bridge::signing::{
    handle_already_processed_action_maybe, SigningCommand, SigningEvent, SigningOutcome,
    SigningTask, TOTAL_VOTING_POWER, VALIDITY_THRESHOLD,
};
use mgo_bridge::types::{
    AuthoritySignature, BridgeAction, BridgeActionDigest, BridgeActionExecutionWrapper,
    BridgeActionStatus, CertifiedBridgeActionExecutionWrapper, VerifiedCertifiedBridgeAction,
};

fn signing_action(tag: u8) -> BridgeAction {
    BridgeAction::new(BridgeActionDigest::new([tag; 32]), vec![tag, tag, tag])
}

fn signing_certificate(action: &BridgeAction) -> VerifiedCertifiedBridgeAction {
    VerifiedCertifiedBridgeAction::new_from_verified(
        action.clone(),
        vec![
            AuthoritySignature { authority: vec![1], signature: vec![11; 65] },
            AuthoritySignature { authority: vec![2], signature: vec![22; 65] },
        ],
    )
}

fn waiting_for_signatures(action: &BridgeAction, attempt: u64) -> SigningTask {
    let (task, _) = SigningTask::begin(BridgeActionExecutionWrapper(action.clone(), attempt));
    let (task, command) = task.step(SigningEvent::Status(BridgeActionStatus::Pending));
    assert_eq!(command, SigningCommand::RequestSignatures { threshold: VALIDITY_THRESHOLD });
    task
}

#[test]
fn validity_threshold_is_a_third_of_the_voting_power_rounded_up() {
    assert_eq!(VALIDITY_THRESHOLD, 3334);
    assert_eq!(VALIDITY_THRESHOLD, (TOTAL_VOTING_POWER + 2) / 3);
}

#[test]
fn a_signing_task_begins_by_asking_for_the_status() {
    let action = signing_action(1);
    let (task, command) = SigningTask::begin(BridgeActionExecutionWrapper(action.clone(), 3));
    assert_eq!(command, SigningCommand::QueryStatus);
    assert_eq!(task, SigningTask::AwaitingStatus(BridgeActionExecutionWrapper(action.clone(), 3)));
    assert_eq!(task.action(), Some(&action));
    assert_eq!(task.outcome(), None);
}

#[test]
fn only_approved_and_claimed_count_as_processed() {
    let action = signing_action(1);
    assert_eq!(
        handle_already_processed_action_maybe(BridgeActionStatus::Approved, &action),
        Some(action.digest())
    );
    assert_eq!(
        handle_already_processed_action_maybe(BridgeActionStatus::Claimed, &action),
        Some(action.digest())
    );
    assert_eq!(handle_already_processed_action_maybe(BridgeActionStatus::Pending, &action), None);
    assert_eq!(
        handle_already_processed_action_maybe(BridgeActionStatus::RecordNotFound, &action),
        None
    );
}

#[test]
fn an_approved_action_leaves_the_log_and_is_not_signed_for() {
    for status in [BridgeActionStatus::Approved, BridgeActionStatus::Claimed] {
        let action = signing_action(1);
        let (task, _) = SigningTask::begin(BridgeActionExecutionWrapper(action.clone(), 0));
        let (task, command) = task.step(SigningEvent::Status(status));
        assert_eq!(command, SigningCommand::RemovePendingAction(action.digest()));
        assert_eq!(task.outcome(), Some(SigningOutcome::AlreadyProcessed));
        assert_eq!(task.action(), None);
    }
}

#[test]
fn a_pending_or_unknown_action_is_signed_for() {
    for status in [BridgeActionStatus::Pending, BridgeActionStatus::RecordNotFound] {
        let action = signing_action(1);
        let item = BridgeActionExecutionWrapper(action.clone(), 2);
        let (task, _) = SigningTask::begin(item.clone());
        let (task, command) = task.step(SigningEvent::Status(status));
        assert_eq!(command, SigningCommand::RequestSignatures { threshold: 3334 });
        assert_eq!(task, SigningTask::AwaitingSignatures(item));
    }
}

#[test]
fn a_certificate_goes_to_the_execution_queue_as_attempt_zero() {
    let action = signing_action(1);
    let certificate = signing_certificate(&action);
    let task = waiting_for_signatures(&action, 9);
    let (task, command) = task.step(SigningEvent::Certified(certificate.clone()));
    assert_eq!(
        command,
        SigningCommand::SendToExecution(CertifiedBridgeActionExecutionWrapper(certificate, 0))
    );
    assert_eq!(task.outcome(), Some(SigningOutcome::Certified));
}

#[test]
fn a_failed_first_attempt_is_retried_after_one_hundred_milliseconds() {
    let action = signing_action(1);
    let task = waiting_for_signatures(&action, 0);
    let (task, command) = task.step(SigningEvent::SigningFailed);
    assert_eq!(
        command,
        SigningCommand::RetryAfter {
            delay_ms: 100,
            retry: BridgeActionExecutionWrapper(action, 1),
        }
    );
    assert_eq!(task.outcome(), Some(SigningOutcome::RetryScheduled));
}

#[test]
fn a_failed_attempt_fifteen_is_the_last_to_be_retried() {
    let action = signing_action(1);
    let task = waiting_for_signatures(&action, 15);
    let (_, command) = task.step(SigningEvent::SigningFailed);
    assert_eq!(
        command,
        SigningCommand::RetryAfter {
            delay_ms: 3_276_800,
            retry: BridgeActionExecutionWrapper(action, 16),
        }
    );
}

#[test]
fn a_failed_attempt_sixteen_is_given_up_and_stays_in_the_log() {
    let action = signing_action(1);
    let mut log = PendingLog::new();
    log.insert(action.clone());
    let task = waiting_for_signatures(&action, MAX_SIGNING_ATTEMPTS);
    let (task, command) = task.step(SigningEvent::SigningFailed);
    assert_eq!(command, SigningCommand::GiveUp);
    assert_eq!(task.outcome(), Some(SigningOutcome::GaveUp));
    command.apply_to(&mut log);
    assert_eq!(log.get(&action.digest()), Some(&action));
}

#[test]
fn an_attempt_far_above_the_limit_is_given_up_too() {
    let action = signing_action(1);
    let task = waiting_for_signatures(&action, u64::MAX);
    let (_, command) = task.step(SigningEvent::SigningFailed);
    assert_eq!(command, SigningCommand::GiveUp);
}

#[test]
fn an_event_out_of_turn_changes_nothing() {
    let action = signing_action(1);
    let item = BridgeActionExecutionWrapper(action.clone(), 0);
    let (task, _) = SigningTask::begin(item.clone());
    let (task, command) = task.step(SigningEvent::SigningFailed);
    assert_eq!(command, SigningCommand::Nothing);
    assert_eq!(task, SigningTask::AwaitingStatus(item.clone()));
    let (task, command) = task.step(SigningEvent::Certified(signing_certificate(&action)));
    assert_eq!(command, SigningCommand::Nothing);
    assert_eq!(task, SigningTask::AwaitingStatus(item.clone()));

    let task = waiting_for_signatures(&action, 0);
    let (task, command) = task.step(SigningEvent::Status(BridgeActionStatus::Approved));
    assert_eq!(command, SigningCommand::Nothing);
    assert_eq!(task, SigningTask::AwaitingSignatures(item));
}

#[test]
fn a_finished_signing_task_gives_no_more_commands() {
    let action = signing_action(1);
    let (task, _) = SigningTask::begin(BridgeActionExecutionWrapper(action.clone(), 0));
    let (task, commands) = task.run(vec![
        SigningEvent::Status(BridgeActionStatus::Claimed),
        SigningEvent::Status(BridgeActionStatus::Pending),
        SigningEvent::Certified(signing_certificate(&action)),
        SigningEvent::SigningFailed,
    ]);
    assert_eq!(
        commands,
        vec![
            SigningCommand::RemovePendingAction(action.digest()),
            SigningCommand::Nothing,
            SigningCommand::Nothing,
            SigningCommand::Nothing,
        ]
    );
    assert_eq!(task, SigningTask::Finished(SigningOutcome::AlreadyProcessed));
}

#[test]
fn a_run_is_the_steps_one_after_the_other() {
    let action = signing_action(4);
    let certificate = signing_certificate(&action);
    let events = vec![
        SigningEvent::Status(BridgeActionStatus::RecordNotFound),
        SigningEvent::Certified(certificate.clone()),
    ];
    let (task, _) = SigningTask::begin(BridgeActionExecutionWrapper(action.clone(), 5));
    let (end, commands) = task.clone().run(events.clone());

    let mut stepped = task;
    let mut expected = Vec::new();
    for event in events {
        let (next, command) = stepped.step(event);
        stepped = next;
        expected.push(command);
    }
    assert_eq!(end, stepped);
    assert_eq!(commands, expected);
    assert_eq!(
        commands,
        vec![
            SigningCommand::RequestSignatures { threshold: 3334 },
            SigningCommand::SendToExecution(CertifiedBridgeActionExecutionWrapper(certificate, 0)),
        ]
    );
}

#[test]
fn only_a_removal_touches_the_pending_log() {
    let kept = signing_action(1);
    let removed = signing_action(2);
    let mut log = PendingLog::new();
    log.insert_pending_actions(&[kept.clone(), removed.clone()]);
    for command in [
        SigningCommand::QueryStatus,
        SigningCommand::RequestSignatures { threshold: VALIDITY_THRESHOLD },
        SigningCommand::SendToExecution(CertifiedBridgeActionExecutionWrapper(
            signing_certificate(&kept),
            0,
        )),
        SigningCommand::RetryAfter {
            delay_ms: 100,
            retry: BridgeActionExecutionWrapper(kept.clone(), 1),
        },
        SigningCommand::GiveUp,
        SigningCommand::Nothing,
    ] {
        command.apply_to(&mut log);
        assert_eq!(log.len(), 2);
    }
    SigningCommand::RemovePendingAction(removed.digest()).apply_to(&mut log);
    assert_eq!(log.get_all_pending_actions(), vec![kept]);
}

#[test]
fn an_action_that_never_gets_signed_is_tried_seventeen_times() {
    let action = signing_action(1);
    let mut item = BridgeActionExecutionWrapper(action.clone(), 0);
    let mut launched = 0u64;
    let mut delays = Vec::new();
    loop {
        launched += 1;
        assert_eq!(item.1, launched - 1);
        let (task, _) = SigningTask::begin(item);
        let (_, mut commands) = task.run(vec![
            SigningEvent::Status(BridgeActionStatus::Pending),
            SigningEvent::SigningFailed,
        ]);
        match commands.pop().unwrap() {
            SigningCommand::RetryAfter { delay_ms, retry } => {
                assert_eq!(retry.0, action);
                delays.push(delay_ms);
                item = retry;
            }
            SigningCommand::GiveUp => break,
            other => panic!("unexpected command {:?}", other),
        }
    }
    assert_eq!(launched, MAX_SIGNING_ATTEMPTS + 1);
    assert_eq!(delays.len(), 16);
    assert_eq!(delays[0], 100);
    assert_eq!(delays[15], 3_276_800);
    for pair in delays.windows(2) {
        assert!(pair[0] <= pair[1]);
        assert_eq!(pair[1], 2 * pair[0]);
    }
}
