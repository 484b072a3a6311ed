use kira_r2kad::utils::inflight_req_map::errors::{InsertionError, ModificationError};
use kira_r2kad::utils::InflightReqMap;

#[test]
fn insert_then_lookup_by_nonce_and_timer() {
    let mut map = InflightReqMap::default();
    assert_eq!(map.insert((7, 100, 1000)), Ok(()));
    assert!(map.nonce_exists(&1000));
    assert!(map.timer_exists(&100));
    assert_eq!(map.get_value_for_nonce(1000), Some(&(7, 100)));
    assert_eq!(map.get_value_for_timer(&100), Some(&(7, 1000)));
    assert!(map.exists_node(&7));
    assert!(!map.exists_node(&8));
}

#[test]
fn insert_rejects_duplicate_timer_and_nonce() {
    let mut map = InflightReqMap::default();
    assert_eq!(map.insert((1, 10, 20)), Ok(()));
    assert_eq!(map.insert((2, 10, 21)), Err(InsertionError::DuplicateTimer));
    assert_eq!(map.insert((2, 11, 20)), Err(InsertionError::DuplicateNonce));
    assert_eq!(map.get_value_for_nonce(21), None);
    assert_eq!(map.get_value_for_timer(&11), None);
}

#[test]
fn remove_by_nonce_removes_both_entries() {
    let mut map = InflightReqMap::default();
    map.insert((1, 10, 20)).unwrap();
    map.insert((2, 11, 21)).unwrap();
    assert_eq!(map.remove_by_nonce(20), Some((1, 10)));
    assert!(!map.nonce_exists(&20));
    assert!(!map.timer_exists(&10));
    assert!(map.nonce_exists(&21));
    assert_eq!(map.remove_by_nonce(20), None);
}

#[test]
fn remove_by_timer_removes_both_entries() {
    let mut map = InflightReqMap::default();
    map.insert((1, 10, 20)).unwrap();
    assert_eq!(map.remove_by_timer(&10), Some((1, 20)));
    assert!(!map.nonce_exists(&20));
    assert!(!map.timer_exists(&10));
    assert_eq!(map.remove_by_timer(&10), None);
}

#[test]
fn remove_by_id_removes_all_requests_of_the_node() {
    let mut map = InflightReqMap::default();
    map.insert((1, 10, 20)).unwrap();
    map.insert((1, 11, 21)).unwrap();
    map.insert((2, 12, 22)).unwrap();
    map.remove_by_id(&1);
    assert!(!map.exists_node(&1));
    assert!(!map.timer_exists(&10) && !map.timer_exists(&11));
    assert!(map.exists_node(&2));
    assert_eq!(map.get_value_for_timer(&12), Some(&(2, 22)));
}

#[test]
fn replace_timer_for_nonce_moves_the_request_to_the_new_timer() {
    let mut map = InflightReqMap::default();
    map.insert((1, 10, 20)).unwrap();
    map.insert((2, 11, 21)).unwrap();
    assert_eq!(map.replace_timer_for_nonce(20, 11), Err(ModificationError::DuplicateTimerError));
    assert_eq!(map.replace_timer_for_nonce(99, 12), Err(ModificationError::NonceDoesNotExistError));
    assert_eq!(map.replace_timer_for_nonce(20, 12), Ok(Some(10)));
    assert_eq!(map.get_value_for_nonce(20), Some(&(1, 12)));
    assert_eq!(map.get_value_for_timer(&12), Some(&(1, 20)));
    assert!(!map.timer_exists(&10));
    // the request is removed by its new timer
    assert_eq!(map.remove_by_timer(&12), Some((1, 20)));
    assert!(!map.nonce_exists(&20));
}

#[test]
fn insert_then_remove_by_timer_restores_empty_map() {
    let mut map = InflightReqMap::default();
    map.insert((5, 50, 500)).unwrap();
    assert_eq!(map.remove_by_timer(&50), Some((5, 500)));
    assert!(!map.exists_node(&5));
    assert!(!map.timer_exists(&50));
    assert!(!map.nonce_exists(&500));
}

#[test]
fn insert_then_remove_restores_empty_map() {
    let mut map = InflightReqMap::default();
    map.insert((5, 50, 500)).unwrap();
    map.remove_by_nonce(500);
    assert!(!map.exists_node(&5));
    assert_eq!(map.insert((5, 50, 500)), Ok(()));
}

#[test]
fn remove_by_timer_after_other_inserts() {
    let mut map = InflightReqMap::default();
    map.insert((5, 50, 500)).unwrap();
    map.insert((6, 60, 600)).unwrap();
    map.insert((5, 51, 501)).unwrap();
    assert_eq!(map.remove_by_timer(&50), Some((5, 500)));
    assert!(!map.timer_exists(&50));
    assert!(!map.nonce_exists(&500));
    assert_eq!(map.get_value_for_nonce(501), Some(&(5, 51)));
    assert_eq!(map.remove_by_nonce(600), Some((6, 60)));
}
