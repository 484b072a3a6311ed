use kira_r2kad::utils::backoff_map::errors::{AddNonceError, DuplicateTimerError, InsertionError};
use kira_r2kad::utils::{BackoffMap, ExponentialBackoff};

fn backoff(start: u128) -> ExponentialBackoff {
    ExponentialBackoff::with_default_base(3, start)
}

#[test]
fn insert_then_lookup() {
    let mut map = BackoffMap::default();
    assert_eq!(map.insert((7, 100, 1000), backoff(1)), Ok(None));
    assert_eq!(map.get_node_for_nonce(&1000), Some(&7));
    assert_eq!(map.get_node_for_timer(&100), Some(&7));
    assert_eq!(map.get(&7), Some(&backoff(1)));
    assert_eq!(map.get(&8), None);
}

#[test]
fn insert_returns_previous_backoff_and_rejects_duplicates() {
    let mut map = BackoffMap::default();
    map.insert((7, 100, 1000), backoff(1)).unwrap();
    assert_eq!(map.insert((8, 100, 1001), backoff(2)), Err(InsertionError::DuplicateTimer));
    assert_eq!(map.insert((8, 101, 1000), backoff(2)), Err(InsertionError::DuplicateNonce));
    assert_eq!(map.insert((7, 101, 1001), backoff(2)), Ok(Some(backoff(1))));
    assert_eq!(map.get(&7), Some(&backoff(2)));
    // the new timer replaces the old one: a node has a single timer
    assert_eq!(map.get_node_for_timer(&101), Some(&7));
    assert_eq!(map.get_node_for_timer(&100), None);
}

#[test]
fn get_mut_changes_the_stored_backoff() {
    let mut map = BackoffMap::default();
    map.insert((7, 100, 1000), backoff(4)).unwrap();
    {
        let b = map.get_mut(&7).unwrap();
        assert_eq!(b.next(), Some(4));
    }
    assert!(map.get(&7).unwrap().is_started());
    assert!(map.get_mut(&8).is_none());
}

#[test]
fn add_and_remove_nonces() {
    let mut map = BackoffMap::default();
    map.insert((7, 100, 1000), backoff(1)).unwrap();
    assert_eq!(map.add_nonce_for_node(8, 1001), Err(AddNonceError::UnknownNode));
    assert_eq!(map.add_nonce_for_node(7, 1000), Err(AddNonceError::DuplicateNonce));
    assert_eq!(map.add_nonce_for_node(7, 1001), Ok(()));
    assert_eq!(map.get_node_for_nonce(&1001), Some(&7));
    assert!(map.remove_nonce(&1001));
    assert!(!map.remove_nonce(&1001));
    assert_eq!(map.get_node_for_nonce(&1001), None);
}

#[test]
fn remove_takes_backoff_timer_and_nonces() {
    let mut map = BackoffMap::default();
    map.insert((7, 100, 1000), backoff(1)).unwrap();
    map.add_nonce_for_node(7, 1001).unwrap();
    map.insert((8, 101, 1002), backoff(2)).unwrap();
    let (state, timer, mut nonces) = map.remove(&7).unwrap();
    nonces.sort();
    assert_eq!(state, backoff(1));
    assert_eq!(timer, 100);
    assert_eq!(nonces, vec![1000, 1001]);
    assert_eq!(map.get(&7), None);
    assert_eq!(map.get_node_for_nonce(&1000), None);
    assert_eq!(map.get_node_for_timer(&100), None);
    assert_eq!(map.get_node_for_nonce(&1002), Some(&8));
    assert!(map.remove(&7).is_none());
}

#[test]
fn remove_by_nonce_and_by_timer() {
    let mut map = BackoffMap::default();
    map.insert((7, 100, 1000), backoff(1)).unwrap();
    map.insert((8, 101, 1001), backoff(2)).unwrap();
    map.add_nonce_for_node(7, 1002).unwrap();
    let (state, timer, nonces) = map.remove_by_nonce(&1000).unwrap();
    assert_eq!((state, timer, nonces), (backoff(1), 100, vec![1002, 1000]));
    assert_eq!(map.get_node_for_nonce(&1002), None);
    assert_eq!(map.get_node_for_timer(&100), None);
    let (state, timer, nonces) = map.remove_by_timer(&101).unwrap();
    assert_eq!((state, timer, nonces), (backoff(2), 101, vec![1001]));
    assert!(map.remove_by_nonce(&1000).is_none());
    assert!(map.remove_by_timer(&101).is_none());
}

#[test]
fn replace_timer_for_node() {
    let mut map = BackoffMap::default();
    map.insert((7, 100, 1000), backoff(1)).unwrap();
    map.insert((8, 101, 1001), backoff(1)).unwrap();
    assert_eq!(map.replace_timer_for(7, 101), Err(DuplicateTimerError));
    assert_eq!(map.replace_timer_for(7, 102), Ok(Some(100)));
    assert_eq!(map.get_node_for_timer(&102), Some(&7));
    assert_eq!(map.get_node_for_timer(&100), None);
    assert_eq!(map.replace_timer_for(9, 103), Ok(None));
}

#[test]
fn backoff_map_error_messages() {
    assert_eq!(
        InsertionError::DuplicateTimer.message(),
        "Duplicate Timer: Only a single backoff timer is allowed for a node"
    );
    assert_eq!(AddNonceError::UnknownNode.message(), "Unknown node: tried to add nonce to unknown node");
}

#[test]
fn remove_after_single_insert_restores_the_map() {
    let mut map = BackoffMap::default();
    assert_eq!(map.insert((7, 100, 1000), backoff(1)), Ok(None));
    assert_eq!(map.remove(&7), Some((backoff(1), 100, vec![1000])));
    assert_eq!(map.get(&7), None);
    assert_eq!(map.get_node_for_timer(&100), None);
    assert_eq!(map.get_node_for_nonce(&1000), None);
    // the timer and the nonce are free again
    assert_eq!(map.insert((8, 100, 1000), backoff(2)), Ok(None));
}
