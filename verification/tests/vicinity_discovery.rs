use std::collections::{HashMap, HashSet};

use kira_r2kad::domain::{ProtocolMessageKind, StateSeqNr};
use kira_r2kad::use_cases::vicinity_discovery::{
    collect_underlay_neighbors, deterministic_heuristic, process_uln_disc, InterfaceState,
    ReportedContact, TimerHook, VDAction, VDError, VDState, VicinityDiscovery,
    VicinityDiscoveryConfig, VicinityEntry, VicinitySnapshot,
};

const ROOT: u128 = 1;

fn running(config: VicinityDiscoveryConfig) -> VicinityDiscovery {
    let mut vd = VicinityDiscovery::new(config);
    vd.start(500);
    vd
}

fn uln_table(entries: &[(u128, usize)]) -> HashMap<u128, usize> {
    entries.iter().copied().collect()
}

fn ids(v: &[u128]) -> HashSet<u128> {
    v.iter().copied().collect()
}

fn pending_uln(vd: &VicinityDiscovery) -> HashMap<u128, kira_r2kad::use_cases::vicinity_discovery::RequestState> {
    match vd.state() {
        VDState::Running { pending_uln_disc, .. } => pending_uln_disc.clone(),
        _ => panic!("not running"),
    }
}

fn pending_qr(vd: &VicinityDiscovery) -> HashMap<u128, kira_r2kad::use_cases::vicinity_discovery::RequestState> {
    match vd.state() {
        VDState::Running { pending_query_route, .. } => pending_query_route.clone(),
        _ => panic!("not running"),
    }
}

#[test]
fn default_config_values() {
    let c = VicinityDiscoveryConfig::default();
    assert_eq!(c.uln_min_interval, 200_000);
    assert_eq!(c.uln_max_interval, 30_000_000);
    assert_eq!(c.uln_discovery_rsp_initial_max_wait_time, 250_000);
    assert_eq!(c.uln_discovery_max_retries, 2);
    assert_eq!(c.query_route_discovery_rsp_initial_max_wait_time, 3_000_000);
    assert_eq!(c.query_route_discovery_max_retries, 2);
    assert_eq!(c.heuristic_calculation_bits, 32);
    assert_eq!(c.heuristic_max_wait_time, 1_000_000);
    assert_eq!(c.resync_timeout, 100_000);
    assert_eq!(c.max_parallel_resync_count, 10);
}

#[test]
fn heuristic_lets_exactly_one_node_answer() {
    let pairs = [(1u128, 2u128), (5, 0x8000_0005), (0x1_0000_0003, 3), (42, 7), (u128::MAX, 0)];
    for (a, b) in pairs {
        assert_ne!(deterministic_heuristic(a, b, 32), deterministic_heuristic(b, a, 32), "{a} {b}");
        assert_ne!(deterministic_heuristic(a, b, 8), deterministic_heuristic(b, a, 8), "{a} {b}");
    }
}

#[test]
fn heuristic_values() {
    // the other's low bits follow ours within half the ring: answer
    assert!(deterministic_heuristic(1, 2, 32));
    assert!(!deterministic_heuristic(2, 1, 32));
    // same low bits: the smaller full id answers
    assert!(deterministic_heuristic(3, 0x1_0000_0003, 32));
    assert!(!deterministic_heuristic(0x1_0000_0003, 3, 32));
    // exactly half the ring apart: the smaller full id answers
    assert!(deterministic_heuristic(5, 0x8000_0005, 32));
    // only the low 4 bits count
    assert!(deterministic_heuristic(0x11, 0x02, 4));
}

#[test]
fn collect_underlay_neighbors_needs_all_contacts() {
    let table = uln_table(&[(2, 20), (3, 30)]);
    let mut got = collect_underlay_neighbors(&table, &ids(&[2, 3, 4])).unwrap();
    got.sort();
    assert_eq!(got, vec![2, 3]);
    assert_eq!(collect_underlay_neighbors(&table, &ids(&[2])), Err(VDError::NeighborInconsistency));
}

#[test]
fn start_and_interfaces() {
    let config = VicinityDiscoveryConfig::default();
    let mut vd = VicinityDiscovery::new(config);
    assert!(matches!(vd.state(), VDState::Initialized));
    assert!(vd.handle_interface_up(4).is_empty());
    vd.start(500);
    let actions = vd.handle_interface_up(4);
    assert!(matches!(actions[0], VDAction::MulticastHello(4)));
    assert!(matches!(actions[1], VDAction::RegisterTimer(200_000, TimerHook::SendInterfaceHello(4))));
    match vd.state() {
        VDState::Running { interfaces, resync_timer_id, .. } => {
            assert_eq!(*resync_timer_id, 500);
            assert_eq!(interfaces.get(&4), Some(&InterfaceState { hello_interval: 200_000 }));
        }
        _ => panic!(),
    }
    vd.handle_interface_down(4);
    match vd.state() {
        VDState::Running { interfaces, .. } => assert!(interfaces.is_empty()),
        _ => panic!(),
    }
    assert!(matches!(vd.handle_ssn_changed()[..], [VDAction::BroadcastHello]));
}

#[test]
fn hello_from_new_neighbor_starts_discovery() {
    let mut vd = running(VicinityDiscoveryConfig::default());
    let table = uln_table(&[(3, 30)]);
    let (actions, res) = vd.handle_uln_hello(ROOT, 2, StateSeqNr::Value(1), 20, 4, None, &table, &ids(&[3]));
    assert_eq!(res, Ok(()));
    assert_eq!(actions.len(), 2);
    let nonce = match &actions[0] {
        VDAction::SendUlnDiscReq { destination: 2, via: 20, nonce, neighbors } => {
            assert_eq!(neighbors, &vec![3]);
            *nonce
        }
        other => panic!("{other:?}"),
    };
    assert!(matches!(actions[1], VDAction::RegisterTimer(250_000, TimerHook::TimeoutULNDiscReq(2))));
    let req = pending_uln(&vd)[&2];
    assert_eq!(req.expected_nonce, nonce);
    assert_eq!(req.kind, ProtocolMessageKind::ULNDiscRsp);
    assert_eq!(req.timeouts, 0);
}

#[test]
fn hello_from_myself_is_ignored_and_before_start_fails() {
    let mut vd = running(VicinityDiscoveryConfig::default());
    let table = uln_table(&[]);
    let (actions, res) = vd.handle_uln_hello(ROOT, ROOT, StateSeqNr::Value(1), 20, 4, None, &table, &ids(&[]));
    assert!(actions.is_empty() && res.is_ok());

    let mut fresh = VicinityDiscovery::new(VicinityDiscoveryConfig::default());
    let entry = VicinityEntry { synched_ssn: Some(1), observed_ssn: 1, is_direct_uln: true };
    let (actions, res) = fresh.handle_uln_hello(ROOT, 2, StateSeqNr::Value(3), 20, 4, Some(entry), &table, &ids(&[]));
    assert_eq!(res, Err(VDError::InternalError));
    assert!(matches!(actions[..], [VDAction::UpdateObservedSsn(2, 3)]));
}

#[test]
fn hello_without_news_is_not_answered() {
    let mut vd = running(VicinityDiscoveryConfig::default());
    let table = uln_table(&[]);
    let entry = VicinityEntry { synched_ssn: Some(5), observed_ssn: 5, is_direct_uln: true };
    let (actions, res) = vd.handle_uln_hello(ROOT, 2, StateSeqNr::Value(5), 20, 4, Some(entry), &table, &ids(&[]));
    assert!(res.is_ok());
    assert!(matches!(actions[..], [VDAction::UpdateObservedSsn(2, 5)]));
    assert!(pending_uln(&vd).is_empty());
    // a newer sequence number is news
    let (actions, res) = vd.handle_uln_hello(ROOT, 2, StateSeqNr::Value(6), 20, 4, Some(entry), &table, &ids(&[]));
    assert!(res.is_ok());
    assert_eq!(actions.len(), 3);
    assert!(pending_uln(&vd).contains_key(&2));
}

#[test]
fn hello_defers_to_the_heuristic() {
    let mut vd = running(VicinityDiscoveryConfig::default());
    vd.handle_interface_up(4);
    let table = uln_table(&[]);
    // the root 2 does not answer 1 (the heuristic says 1 answers 2), and its own next
    // hello on interface 4 comes soon
    let (actions, res) = vd.handle_uln_hello(2, 1, StateSeqNr::Reset, 10, 4, None, &table, &ids(&[]));
    assert!(res.is_ok() && actions.is_empty());
    // on an interface without periodic hellos it answers anyway
    let (actions, res) = vd.handle_uln_hello(2, 1, StateSeqNr::Reset, 10, 9, None, &table, &ids(&[]));
    assert!(res.is_ok());
    assert_eq!(actions.len(), 2);
}

#[test]
fn hello_with_missing_contact_fails() {
    let mut vd = running(VicinityDiscoveryConfig::default());
    let table = uln_table(&[(3, 30)]);
    let (actions, res) = vd.handle_uln_hello(ROOT, 2, StateSeqNr::Reset, 20, 4, None, &table, &ids(&[]));
    assert_eq!(res, Err(VDError::NeighborInconsistency));
    assert!(actions.is_empty());
    assert!(pending_uln(&vd).is_empty());
}

#[test]
fn response_with_expected_nonce_completes_request() {
    let mut vd = running(VicinityDiscoveryConfig::default());
    let table = uln_table(&[]);
    let (actions, _) = vd.handle_uln_hello(ROOT, 2, StateSeqNr::Reset, 20, 4, None, &table, &ids(&[]));
    let nonce = match &actions[0] {
        VDAction::SendUlnDiscReq { nonce, .. } => *nonce,
        _ => panic!(),
    };
    vd.finalize_request(2, ProtocolMessageKind::ULNDiscRsp, Some(nonce.wrapping_add(1)));
    assert!(pending_uln(&vd).contains_key(&2));
    vd.finalize_request(2, ProtocolMessageKind::QueryRouteRsp, Some(nonce));
    assert!(pending_uln(&vd).contains_key(&2));
    vd.finalize_request(2, ProtocolMessageKind::ULNDiscRsp, None);
    assert!(pending_uln(&vd).contains_key(&2));
    vd.finalize_request(2, ProtocolMessageKind::ULNDiscRsp, Some(nonce));
    assert!(pending_uln(&vd).is_empty());
}

#[test]
fn uln_disc_processing_updates_edges() {
    let reported = vec![
        ReportedContact { id: 5, path_len: 1, ssn: 9 },
        ReportedContact { id: ROOT, path_len: 1, ssn: 1 },
        ReportedContact { id: 6, path_len: 2, ssn: 4 },
    ];
    let old = ids(&[ROOT, 5, 7]);
    let actions = process_uln_disc(ROOT, 2, 2, StateSeqNr::Value(3), &reported, &old);
    assert_eq!(actions.len(), 4);
    assert!(matches!(actions[0], VDAction::RefreshUnderlayNeighbor(2, 3)));
    assert!(matches!(actions[1], VDAction::InsertEdge { node: 5, from: 2, ssn: 9 }));
    assert!(matches!(actions[2], VDAction::RemoveEdge(2, 7)));
    assert!(matches!(actions[3], VDAction::RetainVicinity));
    // not directly from the neighbor, or with an invalid number: nothing
    assert!(process_uln_disc(ROOT, 2, 3, StateSeqNr::Value(3), &reported, &old).is_empty());
    assert!(process_uln_disc(ROOT, 2, 2, StateSeqNr::Reset, &reported, &old).is_empty());
    // nothing lost: no cleanup
    let actions = process_uln_disc(ROOT, 2, 2, StateSeqNr::Value(3), &reported, &ids(&[ROOT, 5]));
    assert_eq!(actions.len(), 2);
}

#[test]
fn uln_disc_req_is_answered() {
    let vd = running(VicinityDiscoveryConfig::default());
    let table = uln_table(&[(2, 20)]);
    let (actions, res) = vd.handle_uln_disc_req(ROOT, 2, 77, 2, StateSeqNr::Value(1), &vec![], &ids(&[]), 20, &table, &ids(&[2]));
    assert!(res.is_ok());
    assert!(matches!(actions.last(), Some(VDAction::SendUlnDiscRsp { destination: 2, via: 20, nonce: 77, .. })));
    let (_, res) = vd.handle_uln_disc_req(ROOT, 2, 77, 2, StateSeqNr::Value(1), &vec![], &ids(&[]), 20, &table, &ids(&[]));
    assert_eq!(res, Err(VDError::NeighborInconsistency));
}

#[test]
fn query_route_req_is_answered_along_the_reversed_route() {
    let vd = running(VicinityDiscoveryConfig::default());
    let table = uln_table(&[]);
    let (actions, res) = vd.handle_query_route_req(4, 9, &vec![4, 3, ROOT], StateSeqNr::Value(8), 30, &table, &ids(&[]));
    assert!(res.is_ok());
    assert!(matches!(actions[0], VDAction::UpdateObservedSsn(4, 8)));
    match &actions[1] {
        VDAction::SendQueryRouteRsp { route, via: 30, nonce: 9, neighbors } => {
            assert_eq!(route, &vec![ROOT, 3, 4]);
            assert!(neighbors.is_empty());
        }
        other => panic!("{other:?}"),
    }
}

#[test]
fn uln_disc_timeout_retries_then_gives_up() {
    let mut vd = running(VicinityDiscoveryConfig::default());
    let table = uln_table(&[(2, 20)]);
    let contacts = ids(&[2]);
    let (actions, _) = vd.handle_uln_hello(ROOT, 2, StateSeqNr::Reset, 20, 4, None, &table, &contacts);
    let nonce = match &actions[0] {
        VDAction::SendUlnDiscReq { nonce, .. } => *nonce,
        _ => panic!(),
    };
    let snapshot = VicinitySnapshot { nodes: vec![], entries: HashMap::new(), paths: HashMap::new() };
    let ulns = vec![2];
    let mut wait = 250_000;
    for timer in [1u64, 2] {
        vd.hook_timer(timer, TimerHook::TimeoutULNDiscReq(2));
        let (actions, res) = vd.handle_timer(timer, ROOT, &ulns, &table, &snapshot, &contacts);
        assert!(res.is_ok());
        wait *= 2;
        assert!(matches!(&actions[0], VDAction::SendUlnDiscReq { destination: 2, via: 20, nonce: n, .. } if *n == nonce));
        assert!(matches!(actions[1], VDAction::RegisterTimer(w, TimerHook::TimeoutULNDiscReq(2)) if w == wait));
    }
    assert_eq!(pending_uln(&vd)[&2].timeouts, 2);
    vd.hook_timer(3, TimerHook::TimeoutULNDiscReq(2));
    let (actions, res) = vd.handle_timer(3, ROOT, &ulns, &table, &snapshot, &contacts);
    assert!(res.is_ok());
    assert!(matches!(actions[..], [VDAction::RemoveNode(2)]));
    assert!(pending_uln(&vd).is_empty());
}

#[test]
fn hello_timer_doubles_up_to_the_maximum() {
    let mut config = VicinityDiscoveryConfig::default();
    config.uln_max_interval = 500_000;
    let mut vd = running(config);
    vd.handle_interface_up(4);
    let snapshot = VicinitySnapshot { nodes: vec![], entries: HashMap::new(), paths: HashMap::new() };
    let table = uln_table(&[]);
    let mut expected = [400_000u64, 500_000, 500_000].into_iter();
    for timer in [10u64, 11, 12] {
        vd.hook_timer(timer, TimerHook::SendInterfaceHello(4));
        let (actions, res) = vd.handle_timer(timer, ROOT, &vec![], &table, &snapshot, &ids(&[]));
        assert!(res.is_ok());
        let e = expected.next().unwrap();
        assert!(matches!(actions[0], VDAction::MulticastHello(4)));
        assert!(matches!(actions[1], VDAction::RegisterTimer(w, TimerHook::SendInterfaceHello(4)) if w == e));
    }
    // an unknown timer changes nothing
    let (actions, res) = vd.handle_timer(99, ROOT, &vec![], &table, &snapshot, &ids(&[]));
    assert!(actions.is_empty() && res.is_ok());
}

#[test]
fn resync_respects_capacity_and_order() {
    let mut config = VicinityDiscoveryConfig::default();
    config.max_parallel_resync_count = 2;
    let mut vd = running(config);
    let table = uln_table(&[(2, 20), (3, 30)]);
    let contacts = ids(&[2, 3]);
    let outdated = VicinityEntry { synched_ssn: Some(1), observed_ssn: 2, is_direct_uln: true };
    let synced = VicinityEntry { synched_ssn: Some(2), observed_ssn: 2, is_direct_uln: false };
    let mut entries = HashMap::new();
    entries.insert(2, outdated);
    entries.insert(3, synced);
    entries.insert(4, VicinityEntry { synched_ssn: None, observed_ssn: 1, is_direct_uln: false });
    entries.insert(5, VicinityEntry { synched_ssn: None, observed_ssn: 1, is_direct_uln: false });
    let mut paths = HashMap::new();
    paths.insert(4, vec![ROOT, 2, 4]);
    let snapshot = VicinitySnapshot { nodes: vec![4, 5], entries, paths };
    let (actions, res) = vd.schedule_syncs(ROOT, &vec![2, 3], &table, &snapshot, &contacts);
    assert!(res.is_ok());
    // 2 needs a ULNDiscReq, 3 is in sync, 4 gets a QueryRouteReq, then the capacity is used up
    assert_eq!(actions.len(), 4);
    assert!(matches!(actions[0], VDAction::SendUlnDiscReq { destination: 2, via: 20, .. }));
    match &actions[2] {
        VDAction::SendQueryRouteReq { path, via: 20, .. } => assert_eq!(path, &vec![ROOT, 2, 4]),
        other => panic!("{other:?}"),
    }
    assert!(pending_uln(&vd).contains_key(&2));
    assert!(pending_qr(&vd).contains_key(&4));
    // no capacity left: nothing more
    let (actions, res) = vd.schedule_syncs(ROOT, &vec![2, 3], &table, &snapshot, &contacts);
    assert!(actions.is_empty() && res.is_ok());
}

#[test]
fn resync_cleans_up_unreachable_nodes() {
    let mut vd = running(VicinityDiscoveryConfig::default());
    let table = uln_table(&[]);
    let mut entries = HashMap::new();
    entries.insert(5, VicinityEntry { synched_ssn: None, observed_ssn: 1, is_direct_uln: false });
    let snapshot = VicinitySnapshot { nodes: vec![5], entries, paths: HashMap::new() };
    vd.set_next_resync_timeout(600);
    let (actions, res) = vd.handle_timer(600, ROOT, &vec![], &table, &snapshot, &ids(&[]));
    assert!(res.is_ok());
    assert!(matches!(actions[..], [VDAction::RetainVicinity, VDAction::RegisterResyncTimer(100_000)]));
}

#[test]
fn vicinity_discovery_error_messages() {
    assert_eq!(VDError::NeighborInconsistency.message(), "Contact contains invalid neighbor");
    assert_eq!(VDError::InternalError.message(), "Internal error");
}

#[test]
fn contact_in_the_vicinity_gets_a_query_route_req() {
    let mut vd = running(VicinityDiscoveryConfig::default());
    let ulns = uln_table(&[(2, 7)]);
    // a path of this node alone, and a contact beyond the vicinity, are not asked
    let (actions, res) = vd.handle_contact_event(&vec![ROOT], &ulns);
    assert!(actions.is_empty() && res.is_ok());
    let (actions, res) = vd.handle_contact_event(&vec![ROOT, 2, 3, 4, 5], &ulns);
    assert!(actions.is_empty() && res.is_ok());
    // an underlay neighbor is asked directly
    let (actions, res) = vd.handle_contact_event(&vec![ROOT, 2], &ulns);
    assert!(res.is_ok());
    assert!(matches!(&actions[..], [VDAction::SendQueryRouteReq { via: 7, .. }, VDAction::RegisterTimer(3_000_000, TimerHook::TimeoutQueryRouteReq(2))]));
    // a contact on the border of the vicinity is asked too
    let (actions, _) = vd.handle_contact_event(&vec![ROOT, 2, 3, 4], &ulns);
    assert_eq!(actions.len(), 2);
    // two hops away: asked through the underlay neighbor 2
    let (actions, res) = vd.handle_contact_event(&vec![ROOT, 2, 3], &ulns);
    assert!(res.is_ok());
    assert_eq!(actions.len(), 2);
    let nonce = match &actions[0] {
        VDAction::SendQueryRouteReq { path, via, nonce } => {
            assert_eq!(path, &vec![ROOT, 2, 3]);
            assert_eq!(*via, 7);
            *nonce
        },
        other => panic!("unexpected {:?}", other),
    };
    assert!(matches!(actions[1], VDAction::RegisterTimer(3_000_000, TimerHook::TimeoutQueryRouteReq(3))));
    assert_eq!(pending_qr(&vd)[&3].expected_nonce, nonce);
    // pending: not asked again
    let (actions, _) = vd.handle_contact_event(&vec![ROOT, 2, 3], &ulns);
    assert!(actions.is_empty());
    // unknown underlay neighbor
    let (actions, res) = vd.handle_contact_event(&vec![ROOT, 5, 6], &ulns);
    assert!(actions.is_empty());
    assert_eq!(res, Err(VDError::NeighborInconsistency));
}
