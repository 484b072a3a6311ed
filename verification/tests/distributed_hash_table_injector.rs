use kira_r2kad::domain::ProtocolMessageKind;
use kira_r2kad::use_cases::distributed_hash_table_injector::{
    DHTInjectorAction, DHTInjectorState, DistributedHashTableInjector,
    DistributedHashTableInjectorConfig, TimerHook, DEFAULT_PERIODIC_RESTORE,
};
use kira_r2kad::use_cases::inject_messages::InjectionResult;

fn config() -> DistributedHashTableInjectorConfig {
    DistributedHashTableInjectorConfig {
        periodic_restore: DEFAULT_PERIODIC_RESTORE,
        find_node_timeout: 5_000_000,
        store_timeout: 6_000_000,
        fetch_timeout: 7_000_000,
        redundancy: 2,
    }
}

fn pending_len(inj: &DistributedHashTableInjector) -> usize {
    match inj.state() {
        DHTInjectorState::Running { pending_reqs, .. } => pending_reqs.len(),
        _ => 0,
    }
}

#[test]
fn default_restore_interval_is_an_hour() {
    assert_eq!(DEFAULT_PERIODIC_RESTORE, 3_600_000_000);
}

#[test]
fn store_injection_lifecycle() {
    let mut inj = DistributedHashTableInjector::new(config());
    assert!(inj.inject_store(Some(1), 2, vec![1, 2, 3], true).is_empty());
    inj.start();
    let actions = inj.inject_store(Some(1), 2, vec![1, 2, 3], true);
    assert!(matches!(actions[0], DHTInjectorAction::SendFindNodeReq { target: 2, neighborhood: 2, nonce: 1 }));
    assert!(matches!(actions[1], DHTInjectorAction::RegisterTimer(5_000_000, TimerHook::TimeoutFindNodeReq(1))));

    // the FindNodeRsp from the closest node 2 over the route [2, 1]
    let actions = inj.handle_response(1, ProtocolMessageKind::FindNodeRsp, 2, &vec![2, 1], &vec![], &vec![vec![3]]);
    assert_eq!(actions.len(), 3);
    match &actions[0] {
        DHTInjectorAction::SendStoreReq { nonce: 1, payload, route } => {
            assert_eq!(route, &vec![1, 2]);
            assert_eq!(payload.handle, 2);
            assert_eq!(payload.data, vec![1, 2, 3]);
        }
        other => panic!("{other:?}"),
    }
    match &actions[1] {
        DHTInjectorAction::SendStoreReq { route, .. } => assert_eq!(route, &vec![1, 2, 3]),
        other => panic!("{other:?}"),
    }
    assert!(matches!(actions[2], DHTInjectorAction::RegisterTimer(6_000_000, TimerHook::TimeoutRedundantStoreReq(1))));

    // a StoreRsp from a redundant node does not complete the request
    assert!(inj.handle_response(1, ProtocolMessageKind::StoreRsp, 3, &vec![3, 2, 1], &vec![], &vec![]).is_empty());
    // the one of the closest node does, and starts the periodic restore
    let actions = inj.handle_response(1, ProtocolMessageKind::StoreRsp, 2, &vec![2, 1], &vec![], &vec![]);
    assert!(matches!(actions[0], DHTInjectorAction::SendResult(1, InjectionResult::Answered(_))));
    assert!(matches!(actions[1], DHTInjectorAction::RegisterTimer(DEFAULT_PERIODIC_RESTORE, TimerHook::PeriodicRestore(_))));
    assert_eq!(pending_len(&inj), 0);
    // a second answer is not delivered again
    assert!(inj.handle_response(1, ProtocolMessageKind::StoreRsp, 2, &vec![2, 1], &vec![], &vec![]).is_empty());
}

#[test]
fn fetch_times_out_once() {
    let mut inj = DistributedHashTableInjector::new(config());
    inj.start();
    let actions = inj.inject_fetch(None, 9);
    let nonce = match actions[0] {
        DHTInjectorAction::SendFetchReq { nonce, handle: 9 } => nonce,
        _ => panic!(),
    };
    assert!(matches!(actions[1], DHTInjectorAction::RegisterTimer(7_000_000, TimerHook::TimeoutFetchReq(n)) if n == nonce));
    inj.hook_timer(50, TimerHook::TimeoutFetchReq(nonce));
    let actions = inj.handle_timer(50);
    assert!(matches!(actions[..], [DHTInjectorAction::SendResult(n, InjectionResult::Timeout)] if n == nonce));
    assert_eq!(pending_len(&inj), 0);
    inj.hook_timer(51, TimerHook::TimeoutFetchReq(nonce));
    assert!(inj.handle_timer(51).is_empty());
}

#[test]
fn fetch_response_is_delivered() {
    let mut inj = DistributedHashTableInjector::new(config());
    inj.start();
    inj.inject_fetch(Some(4), 9);
    // a response of the wrong kind is ignored
    assert!(inj.handle_response(4, ProtocolMessageKind::StoreRsp, 9, &vec![9, 1], &vec![], &vec![]).is_empty());
    let actions = inj.handle_response(4, ProtocolMessageKind::FetchRsp, 9, &vec![9, 1], &vec![], &vec![]);
    assert!(matches!(actions[..], [DHTInjectorAction::SendResult(4, InjectionResult::Answered(_))]));
}

#[test]
fn periodic_restore_looks_up_again() {
    let mut inj = DistributedHashTableInjector::new(config());
    inj.start();
    inj.inject_store(Some(1), 2, vec![7], true);
    inj.handle_response(1, ProtocolMessageKind::FindNodeRsp, 2, &vec![2, 1], &vec![], &vec![]);
    let actions = inj.handle_response(1, ProtocolMessageKind::StoreRsp, 2, &vec![2, 1], &vec![], &vec![]);
    let payload = match &actions[1] {
        DHTInjectorAction::RegisterTimer(_, TimerHook::PeriodicRestore(p)) => p.data.clone(),
        _ => panic!(),
    };
    assert_eq!(payload, vec![7]);
    let hook = match actions.into_iter().nth(1).unwrap() {
        DHTInjectorAction::RegisterTimer(_, hook) => hook,
        _ => panic!(),
    };
    inj.hook_timer(70, hook);
    let actions = inj.handle_timer(70);
    assert_eq!(actions.len(), 3);
    assert!(matches!(actions[0], DHTInjectorAction::SendFindNodeReq { target: 2, neighborhood: 2, .. }));
    assert!(matches!(actions[2], DHTInjectorAction::RegisterTimer(DEFAULT_PERIODIC_RESTORE, TimerHook::PeriodicRestore(_))));
    assert_eq!(pending_len(&inj), 1);
}

/// The messages to send among the actions.
fn sent(actions: &[DHTInjectorAction]) -> Vec<&DHTInjectorAction> {
    actions
        .iter()
        .filter(|a| {
            matches!(
                a,
                DHTInjectorAction::SendFindNodeReq { .. }
                    | DHTInjectorAction::SendStoreReq { .. }
                    | DHTInjectorAction::SendFetchReq { .. }
            )
        })
        .collect()
}

#[test]
fn test_store_injection_lifecycle() {
    let root_id = 1;
    let neighbor_id = 2;

    let mut injector = DistributedHashTableInjector::new(config());
    injector.start();

    let handle = neighbor_id;
    let data = vec![1u8, 2, 3];

    let actions = injector.inject_store(Some(1), handle, data.clone(), true);

    // 1. Should have sent FindNodeReq
    let output = sent(&actions);
    assert_eq!(output.len(), 1);
    let nonce = if let DHTInjectorAction::SendFindNodeReq { target, nonce, .. } = output[0] {
        assert_eq!(*target, handle);
        *nonce
    } else {
        panic!("Expected FindNodeReq, got {:?}", output[0]);
    };

    // 2. Respond with FindNodeRsp (no contacts) along the route neighbor -> root
    let actions =
        injector.handle_response(nonce, ProtocolMessageKind::FindNodeRsp, neighbor_id, &vec![neighbor_id, root_id], &vec![], &vec![]);

    // 3. Should have sent StoreReq
    let output = sent(&actions);
    assert_eq!(output.len(), 1);
    if let DHTInjectorAction::SendStoreReq { payload, route, .. } = output[0] {
        assert_eq!(payload.handle, handle);
        assert_eq!(payload.data, data);
        assert_eq!(*route.last().unwrap(), handle);
    } else {
        panic!("Expected StoreReq, got {:?}", output[0]);
    }

    // 4. Respond with StoreRsp
    let actions = injector.handle_response(nonce, ProtocolMessageKind::StoreRsp, handle, &vec![handle, root_id], &vec![], &vec![]);

    // 5. Callback should have received success
    let result = actions
        .iter()
        .find_map(|a| if let DHTInjectorAction::SendResult(n, r) = a { Some((*n, r.clone())) } else { None })
        .expect("Should have received result");
    assert_eq!(result.0, 1);
    assert!(matches!(result.1, InjectionResult::Answered(_)), "Expected Answered, got {:?}", result.1);
}

#[test]
fn test_fetch_injection_lifecycle() {
    let root_id = 1;
    let mut injector = DistributedHashTableInjector::new(config());
    injector.start();

    let handle = 100;
    let actions = injector.inject_fetch(Some(2), handle);

    // 1. Should have sent FetchReq
    let output = sent(&actions);
    assert_eq!(output.len(), 1);
    let nonce = if let DHTInjectorAction::SendFetchReq { handle: h, nonce } = output[0] {
        assert_eq!(*h, handle);
        *nonce
    } else {
        panic!("Expected FetchReq, got {:?}", output[0]);
    };

    // 2. Respond with FetchRsp carrying the value
    let value = b"test_value".to_vec();
    let actions =
        injector.handle_response(nonce, ProtocolMessageKind::FetchRsp, handle, &vec![handle, root_id], &vec![value.clone()], &vec![]);

    // 3. Callback should have received success
    let result = actions
        .iter()
        .find_map(|a| if let DHTInjectorAction::SendResult(n, r) = a { Some((*n, r.clone())) } else { None })
        .expect("Should have received result");
    assert_eq!(result.0, 2);
    if let InjectionResult::Answered(answer) = result.1 {
        assert_eq!(answer.kind, ProtocolMessageKind::FetchRsp);
        assert_eq!(answer.values.len(), 1);
        assert_eq!(answer.values[0], value);
    } else {
        panic!("Expected Answered, got {:?}", result.1);
    }
}

#[test]
fn test_timeout_handling() {
    let mut injector = DistributedHashTableInjector::new(config());
    injector.start();

    let handle = 100;
    let actions = injector.inject_fetch(Some(3), handle);

    // Fire timeout timer
    let hook = actions
        .into_iter()
        .find_map(|a| if let DHTInjectorAction::RegisterTimer(_, hook) = a { Some(hook) } else { None })
        .unwrap();
    injector.hook_timer(7, hook);
    let actions = injector.handle_timer(7);

    // Callback should have received timeout
    let result = actions
        .iter()
        .find_map(|a| if let DHTInjectorAction::SendResult(n, r) = a { Some((*n, r.clone())) } else { None })
        .expect("Should have received result");
    assert_eq!(result.0, 3);
    assert!(matches!(result.1, InjectionResult::Timeout));
}
