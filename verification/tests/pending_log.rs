use mgo_bridge::pending_log::PendingLog;
use mgo_bridge::types::{BridgeAction, BridgeActionDigest};

fn log_digest(tag: u8) -> BridgeActionDigest {
    BridgeActionDigest::new([tag; 32])
}

fn log_action(tag: u8, payload: &[u8]) -> BridgeAction {
    BridgeAction::new(log_digest(tag), payload.to_vec())
}

#[test]
fn new_log_is_empty() {
    let log = PendingLog::new();
    assert!(log.is_empty());
    assert_eq!(log.len(), 0);
    assert!(log.get_all_pending_actions().is_empty());
    assert!(!log.contains_key(&log_digest(1)));
    assert_eq!(log.get(&log_digest(1)), None);
}

#[test]
fn inserted_action_is_found_under_its_digest() {
    let mut log = PendingLog::new();
    let action = log_action(1, b"transfer 1");
    log.insert_pending_actions(&[action.clone()]);
    assert!(!log.is_empty());
    assert_eq!(log.len(), 1);
    assert!(log.contains_key(&action.digest()));
    assert_eq!(log.get(&action.digest()), Some(&action));
    assert_eq!(log.get_all_pending_actions(), vec![action]);
}

#[test]
fn insert_replaces_the_action_logged_under_the_same_digest() {
    let mut log = PendingLog::new();
    let first = log_action(1, b"first");
    let second = log_action(1, b"second");
    log.insert(first);
    log.insert(second.clone());
    assert_eq!(log.len(), 1);
    assert_eq!(log.get(&log_digest(1)), Some(&second));
}

#[test]
fn of_two_actions_with_one_digest_in_a_batch_the_later_stays() {
    let mut log = PendingLog::new();
    let first = log_action(7, b"early");
    let other = log_action(8, b"other");
    let second = log_action(7, b"late");
    log.insert_pending_actions(&[first, other.clone(), second.clone()]);
    assert_eq!(log.len(), 2);
    assert_eq!(log.get(&log_digest(7)), Some(&second));
    assert_eq!(log.get(&log_digest(8)), Some(&other));
}

#[test]
fn remove_takes_out_only_the_named_digests() {
    let mut log = PendingLog::new();
    let a = log_action(1, b"a");
    let b = log_action(2, b"b");
    let c = log_action(3, b"c");
    log.insert_pending_actions(&[a.clone(), b.clone(), c.clone()]);
    log.remove_pending_actions(&[log_digest(2), log_digest(9)]);
    assert_eq!(log.len(), 2);
    assert!(log.contains_key(&a.digest()));
    assert!(!log.contains_key(&b.digest()));
    assert!(log.contains_key(&c.digest()));
    assert_eq!(log.get(&c.digest()), Some(&c));
}

#[test]
fn remove_of_an_absent_digest_changes_nothing() {
    let mut log = PendingLog::new();
    let a = log_action(1, b"a");
    log.insert(a.clone());
    assert_eq!(log.remove(&log_digest(2)), None);
    assert_eq!(log.len(), 1);
    assert_eq!(log.get(&a.digest()), Some(&a));
}

#[test]
fn remove_hands_back_the_logged_action() {
    let mut log = PendingLog::new();
    let a = log_action(1, b"a");
    log.insert(a.clone());
    assert_eq!(log.remove(&a.digest()), Some(a));
    assert!(log.is_empty());
}

#[test]
fn removing_the_same_digest_twice_is_the_same_as_once() {
    let mut log = PendingLog::new();
    let a = log_action(1, b"a");
    let b = log_action(2, b"b");
    log.insert_pending_actions(&[a.clone(), b.clone()]);
    log.remove_pending_actions(&[a.digest(), a.digest()]);
    assert_eq!(log.get_all_pending_actions(), vec![b]);
}

#[test]
fn get_all_lists_every_action_once() {
    let mut log = PendingLog::new();
    let actions = vec![log_action(5, b"five"), log_action(3, b"three"), log_action(4, b"four")];
    log.insert_pending_actions(&actions);
    let all = log.get_all_pending_actions();
    assert_eq!(all.len(), 3);
    for action in &actions {
        assert_eq!(all.iter().filter(|found| *found == action).count(), 1);
    }
}

#[test]
fn digests_that_differ_in_one_byte_are_different_keys() {
    let mut bytes = [0u8; 32];
    let first = BridgeAction::new(BridgeActionDigest::new(bytes), b"x".to_vec());
    bytes[31] = 1;
    let second = BridgeAction::new(BridgeActionDigest::new(bytes), b"y".to_vec());
    assert!(!first.digest().equals(&second.digest()));
    assert!(first.digest().equals(&first.digest()));
    let mut log = PendingLog::new();
    log.insert_pending_actions(&[first.clone(), second.clone()]);
    assert_eq!(log.len(), 2);
    assert_eq!(log.get(&first.digest()), Some(&first));
    assert_eq!(log.get(&second.digest()), Some(&second));
}
