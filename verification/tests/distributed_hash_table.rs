use std::collections::HashMap;

use kira_r2kad::domain::GroupingError;
use kira_r2kad::use_cases::distributed_hash_table::{
    DHTAction, DHTState, DistributedHashTable, DistributedHashTableConfig, KeyMeta, TimerHook,
    DEFAULT_COLLECT_INTERVAL, DEFAULT_KEY_VALUE_TIMEOUT, DEFAULT_REPUBLISH_SUPPRESSION_WINDOW,
};

fn config() -> DistributedHashTableConfig {
    DistributedHashTableConfig {
        find_node_timeout: 5_000_000,
        collect_interval: 1_000_000,
        key_value_timeout: 2_000_000,
        redundancy: 3,
        republish_suppression_window: DEFAULT_REPUBLISH_SUPPRESSION_WINDOW,
        shared_prefix_bits_grouping: 1,
    }
}

fn pending_len(dht: &DistributedHashTable) -> usize {
    match dht.state() {
        DHTState::Running { pending_reqs, .. } => pending_reqs.len(),
        _ => 0,
    }
}

#[test]
fn default_durations() {
    assert_eq!(DEFAULT_COLLECT_INTERVAL, 60_000_000);
    assert_eq!(DEFAULT_KEY_VALUE_TIMEOUT, 4 * 3600 * 1_000_000);
    assert_eq!(DEFAULT_REPUBLISH_SUPPRESSION_WINDOW, 5 * 60 * 1_000_000);
}

#[test]
fn grouping_must_fit_a_node_id() {
    let mut c = config();
    c.shared_prefix_bits_grouping = 129;
    assert_eq!(DistributedHashTable::new(c).err(), Some(GroupingError::Invalid { group_size: 129 }));
    c.shared_prefix_bits_grouping = 128;
    assert!(DistributedHashTable::new(c).is_ok());
}

#[test]
fn expiry_and_republish_decisions() {
    let dht = DistributedHashTable::new(config()).unwrap();
    let now = 10_000_000;
    assert!(dht.is_expired(&KeyMeta { last_access: None, last_republish: None }, now));
    assert!(dht.is_expired(&KeyMeta { last_access: Some(7_000_000), last_republish: None }, now));
    assert!(!dht.is_expired(&KeyMeta { last_access: Some(8_000_000), last_republish: None }, now));
    assert!(!dht.key_republish_needed(None, now));
    assert!(dht.key_republish_needed(Some(&KeyMeta { last_access: None, last_republish: None }), now));
    assert!(!dht.key_republish_needed(Some(&KeyMeta { last_access: None, last_republish: Some(now) }), now));
    let long_ago = now + DEFAULT_REPUBLISH_SUPPRESSION_WINDOW + 1;
    assert!(dht.key_republish_needed(Some(&KeyMeta { last_access: None, last_republish: Some(now) }), long_ago));
}

#[test]
fn garbage_collection_evicts_and_republishes() {
    let mut dht = DistributedHashTable::new(config()).unwrap();
    dht.start(1);
    let now = 10_000_000;
    let keys = vec![
        (100, KeyMeta { last_access: Some(1_000_000), last_republish: None }),
        (200, KeyMeta { last_access: Some(9_000_000), last_republish: None }),
        (300, KeyMeta { last_access: Some(9_000_000), last_republish: Some(9_500_000) }),
    ];
    let actions = dht.handle_timer(1, &keys, now);
    assert!(matches!(actions[0], DHTAction::RegisterTimer(1_000_000, TimerHook::GarbageCollection)));
    assert!(matches!(actions[1], DHTAction::Evict(100)));
    assert!(matches!(actions[2], DHTAction::StartRepublish { key: 200, neighborhood: 3, .. }));
    assert_eq!(actions.len(), 3);
    assert_eq!(pending_len(&dht), 1);
    // the garbage-collection hook is gone until the runtime hooks the next timer
    assert!(dht.handle_timer(1, &keys, now).is_empty());
}

#[test]
fn find_node_rsp_republishes_along_the_routes() {
    let mut dht = DistributedHashTable::new(config()).unwrap();
    dht.start(1);
    let now = 10_000_000;
    let keys = vec![(200, KeyMeta { last_access: Some(9_000_000), last_republish: None })];
    let actions = dht.garbage_collection(&keys, now);
    let nonce = match actions[0] {
        DHTAction::StartRepublish { nonce, .. } => nonce,
        _ => panic!(),
    };
    let mut metas = HashMap::new();
    metas.insert(200, keys[0].1);
    // an unknown nonce changes nothing
    assert!(dht.handle_find_node_rsp(nonce.wrapping_add(1), &vec![9, 5, 1], &vec![], &metas, now).is_empty());
    let actions = dht.handle_find_node_rsp(nonce, &vec![9, 5, 1], &vec![vec![11], vec![12, 13]], &metas, now);
    match &actions[0] {
        DHTAction::Republish { key: 200, routes } => {
            assert_eq!(routes, &vec![vec![1, 5, 9], vec![1, 5, 9, 11], vec![1, 5, 9, 12, 13]]);
        }
        other => panic!("{other:?}"),
    }
    assert_eq!(pending_len(&dht), 0);
}

#[test]
fn find_node_timeout_drops_the_lookup() {
    let mut dht = DistributedHashTable::new(config()).unwrap();
    dht.start(1);
    let keys = vec![(200, KeyMeta { last_access: Some(9_000_000), last_republish: None })];
    let actions = dht.garbage_collection(&keys, 10_000_000);
    let nonce = match actions[0] {
        DHTAction::StartRepublish { nonce, .. } => nonce,
        _ => panic!(),
    };
    dht.hook_timer(7, TimerHook::TimeoutFindNodeReq(nonce));
    assert!(dht.handle_timer(7, &keys, 10_000_000).is_empty());
    assert_eq!(pending_len(&dht), 0);
}

// ---- key-based routing of StoreReqs and FetchReqs ----

use kira_r2kad::domain::{node_id_with_msb, Contact, ContactState, SourceRoute};
use kira_r2kad::use_cases::distributed_hash_table::{FetchStep, KbrStep};

#[test]
fn test_store_req_at_destination() {
    let root_id = node_id_with_msb(1);
    let mut dht = DistributedHashTable::new(config()).unwrap();
    dht.start(1);
    // The runtime's local hash table.
    let mut hash_table: HashMap<u128, Vec<Vec<u8>>> = HashMap::new();

    let key = 2;
    let value = vec![1u8, 2, 3];
    let source_route = SourceRoute::from_node(root_id);
    let now = 1_000_000;

    // The StoreReq is for this node: the value is stored here.
    let step = dht.route_store_req(root_id, root_id, &source_route, None);
    assert!(matches!(step, KbrStep::Local));
    let created = !hash_table.contains_key(&key);
    hash_table.insert(key, vec![value.clone()]);
    let follow_up = dht.after_local_store(true, None, now, &source_route);
    assert_eq!(follow_up.accessed_at, Some(now));

    // Check if value is stored
    let stored_value = &hash_table[&key];
    assert_eq!(stored_value.len(), 1);
    assert_eq!(stored_value[0], value);

    // Check if response is sent: back to this node itself, so delivered locally.
    let reply = follow_up.reply.expect("Expected StoreRsp");
    assert_eq!(reply.destination(), root_id);
    assert!(created);
}

#[test]
fn test_garbage_collection() {
    let now = 10_000_000;
    let mut dht = DistributedHashTable::new(config()).unwrap();
    dht.start(1);

    let key = 2;
    let keys = vec![(key, KeyMeta { last_access: Some(now), last_republish: Some(now) })];

    // wait for one second and fire garbage collection timer
    let now = now + 1_000_000;
    let actions = dht.handle_timer(1, &keys, now);
    assert!(matches!(actions[0], DHTAction::RegisterTimer(1_000_000, TimerHook::GarbageCollection)));
    // value should shouldn't expire after one second (but after two)
    assert!(!actions.iter().any(|a| matches!(a, DHTAction::Evict(k) if *k == key)));
    dht.hook_timer(2, TimerHook::GarbageCollection);

    // key-value pair expires
    println!("EXPIRE HERE >>>");
    let now = now + 3_000_000;
    let actions = dht.handle_timer(2, &keys, now);
    // value should be gone
    assert!(actions.iter().any(|a| matches!(a, DHTAction::Evict(k) if *k == key)));
}

#[test]
fn test_routing_next_hop() {
    let root_id = 0x01;
    let neighbor_id = 0x30;
    let destination_id = 0x20;
    let neighbor = Contact { id: neighbor_id, state: ContactState::Valid, path: Some(vec![neighbor_id]) };

    let mut dht = DistributedHashTable::new(config()).unwrap();
    dht.start(1);

    let step = dht.route_store_req(root_id, destination_id, &SourceRoute::from_node(root_id), Some(&neighbor));
    // Check if message is forwarded
    match step {
        KbrStep::Forward(route) => {
            assert_eq!(route.destination(), neighbor_id);
            assert_eq!(route.hops, vec![root_id, neighbor_id]);
            assert_eq!(route.current, 1);
        },
        other => panic!("Expected forwarded StoreReq, got {:?}", other),
    }
}

#[test]
fn store_without_next_hop_is_a_dead_end() {
    let dht = DistributedHashTable::new(config()).unwrap();
    let route = SourceRoute { hops: vec![5, 6, 7], current: 2 };
    match dht.route_store_req(7, 99, &route, None) {
        KbrStep::DeadEnd(back) => {
            assert_eq!(back.hops, vec![7, 6, 5]);
            assert_eq!(back.current, 0);
            assert_eq!(back.destination(), 5);
        },
        other => panic!("Expected DeadEnd, got {:?}", other),
    }
}

#[test]
fn republished_store_is_not_answered() {
    let dht = DistributedHashTable::new(config()).unwrap();
    let route = SourceRoute { hops: vec![5, 7], current: 1 };
    let f = dht.after_local_store(true, Some(3_000), 10_000_000, &route);
    assert_eq!(f.accessed_at, Some(7_000_000));
    assert!(f.reply.is_none());
    let f = dht.after_local_store(false, Some(3_000), 10_000_000, &route);
    assert_eq!(f.accessed_at, None);
    assert_eq!(f.reply.unwrap().hops, vec![7, 5]);
}

#[test]
fn fetch_routing() {
    let dht = DistributedHashTable::new(config()).unwrap();
    let route = SourceRoute { hops: vec![5, 7], current: 1 };
    let next = Contact { id: 9, state: ContactState::Valid, path: Some(vec![8, 9]) };
    match dht.route_fetch_req(7, 9, &route, true, Some(&next)) {
        FetchStep::Found(back) => assert_eq!(back.hops, vec![7, 5]),
        other => panic!("Expected FetchRsp, got {:?}", other),
    }
    match dht.route_fetch_req(7, 7, &route, false, Some(&next)) {
        FetchStep::NotFound(back) => assert_eq!(back.hops, vec![7, 5]),
        other => panic!("Expected FetchRsp, got {:?}", other),
    }
    match dht.route_fetch_req(7, 9, &route, false, Some(&next)) {
        FetchStep::Forward(r) => {
            assert_eq!(r.hops, vec![5, 7, 8, 9]);
            assert_eq!(r.current, 2);
        },
        other => panic!("Expected forwarded FetchReq, got {:?}", other),
    }
    match dht.route_fetch_req(7, 9, &route, false, None) {
        FetchStep::NotFound(_) => {},
        other => panic!("Expected FetchRsp, got {:?}", other),
    }
}

#[test]
fn new_contact_gets_the_keys_it_is_not_farther_from() {
    let dht = DistributedHashTable::new(config()).unwrap();
    let accessed = KeyMeta { last_access: Some(1_000_000), last_republish: None };
    let never = KeyMeta { last_access: None, last_republish: None };
    let keys = vec![
        // the contact is closer
        (10u128, accessed, 3usize, 5usize),
        // as close as this node
        (11u128, never, 5, 5),
        // farther
        (12u128, accessed, 6, 5),
    ];
    let stores = dht.republish_to_contact_if_closer(&keys, 3_500_999);
    assert_eq!(stores, vec![(10, Some(2_500)), (11, None)]);
    assert!(dht.republish_to_contact_if_closer(&Vec::new(), 0).is_empty());
}
