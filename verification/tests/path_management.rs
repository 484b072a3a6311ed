use std::collections::HashMap;

use kira_r2kad::domain::{
    Contact, ContactState, Hasher, PathIdEntry, PathIdForwardingEntry, PathIdTableUpdate,
};
use kira_r2kad::use_cases::explicit_path_management::{
    EPMAction, EPMConfig, EPMError, EPMMessage, EPMState, Entry, ExplicitPathManagement,
};
use kira_r2kad::use_cases::precompute_paths_and_path_ids::{
    PrecomputePathIds, PrecomputePathIdsConfig, PrecomputeState,
};
use kira_r2kad::use_cases::{ContactEvent, HandlingResult};

fn contact(id: u128, state: ContactState, path: Option<Vec<u128>>) -> Contact {
    Contact { id, state, path }
}

fn entry(path: &Vec<u128>, next_hop: usize) -> PathIdEntry {
    let h = Hasher;
    PathIdEntry::Forward(PathIdForwardingEntry {
        in_path_id: h.hash(path),
        out_path_id: h.hash(&path[1..].to_vec()),
        next_hop,
    })
}

// ---- precomputed path ids ----

#[test]
fn precompute_entries_for_vicinity_paths() {
    let mut p = PrecomputePathIds::new(PrecomputePathIdsConfig::default());
    assert_eq!(*p.state(), PrecomputeState::Idle);
    let mut ulns: HashMap<u128, usize> = HashMap::new();
    ulns.insert(2, 5);
    let p1 = vec![1, 2];
    let p2 = vec![1, 2, 3];
    let lonely = vec![1];
    let unknown = vec![1, 9, 3];
    let paths = vec![p1.clone(), p2.clone(), lonely, unknown, p1.clone()];
    let entries = p.gen_entries_from_graph(&paths, &ulns);
    assert_eq!(entries, vec![entry(&p1, 5), entry(&p2, 5)]);
    let updates = p.handle_vicinity_changed(&paths, &ulns);
    assert_eq!(
        updates,
        vec![PathIdTableUpdate::CreateOrUpdate(entry(&p1, 5)), PathIdTableUpdate::CreateOrUpdate(entry(&p2, 5))]
    );
    // p2 leaves the vicinity, p3 comes: p2 is removed first, then p3 created.
    let p3 = vec![1, 2, 4];
    let updates = p.handle_vicinity_changed(&vec![p1.clone(), p3.clone()], &ulns);
    assert_eq!(
        updates,
        vec![
            PathIdTableUpdate::Remove(Hasher.hash(&p2)),
            PathIdTableUpdate::CreateOrUpdate(entry(&p3, 5)),
        ]
    );
    // Nothing changes: nothing to do.
    assert!(p.handle_vicinity_changed(&vec![p1, p3], &ulns).is_empty());
}

#[test]
fn precompute_periodically_waits_for_its_timer() {
    let mut p = PrecomputePathIds::new(PrecomputePathIdsConfig { update_interval: Some(1_000_000), hasher: Hasher });
    p.start(7);
    assert_eq!(*p.state(), PrecomputeState::Waiting { resync_timer: 7 });
    let mut ulns: HashMap<u128, usize> = HashMap::new();
    ulns.insert(2, 5);
    let paths = vec![vec![1, 2]];
    assert!(p.handle_vicinity_changed(&paths, &ulns).is_empty());
    assert!(p.handle_timer(8, &paths, &ulns).is_empty());
    assert_eq!(p.handle_timer(7, &paths, &ulns), vec![PathIdTableUpdate::CreateOrUpdate(entry(&vec![1, 2], 5))]);
}

#[test]
fn precompute_start_without_interval_stays_idle() {
    let mut p = PrecomputePathIds::new(PrecomputePathIdsConfig::default());
    p.start(3);
    assert_eq!(*p.state(), PrecomputeState::Idle);
}

// ---- explicit path management ----

fn running_epm() -> ExplicitPathManagement {
    let mut epm = ExplicitPathManagement::new(EPMConfig::default());
    assert_eq!(epm.start(1, Some(2)), Ok(()));
    epm
}

fn paths_of(epm: &ExplicitPathManagement) -> HashMap<u64, Entry> {
    match epm.state() {
        EPMState::Running { externally_added_paths, .. } => externally_added_paths.clone(),
        other => panic!("unexpected state {:?}", other),
    }
}

#[test]
fn epm_defaults_and_start() {
    let c = EPMConfig::default();
    assert_eq!(c.max_age, 60_000_000);
    assert_eq!(c.cleanup_interval, 60_000_000);
    assert_eq!(c.refresh_interval, Some(20_000_000));
    let mut epm = running_epm();
    assert_eq!(epm.start(1, None), Err(EPMError::AlreadyStarted));
    assert!(paths_of(&epm).is_empty());
}

#[test]
fn epm_sets_up_paths_outside_the_vicinity() {
    let epm = running_epm();
    let far = contact(9, ContactState::Valid, Some(vec![2, 3, 4, 9]));
    let actions = epm.handle_contact_event(ContactEvent::New(far));
    assert_eq!(actions.len(), 1);
    match &actions[0] {
        EPMAction::Send(m, p) => {
            assert_eq!(*m, EPMMessage::PathSetupReq);
            assert_eq!(*p, vec![2, 3, 4, 9]);
        },
        other => panic!("unexpected action {:?}", other),
    }
    let near = contact(4, ContactState::Valid, Some(vec![2, 3, 4]));
    assert!(epm.handle_contact_event(ContactEvent::New(near)).is_empty());
    let invalid = contact(9, ContactState::Invalid, Some(vec![2, 3, 4, 9]));
    assert!(epm.handle_contact_event(ContactEvent::New(invalid)).is_empty());
    let removed = contact(9, ContactState::Valid, Some(vec![2, 3, 4, 9]));
    let actions = epm.handle_contact_event(ContactEvent::Removed(removed));
    match &actions[0] {
        EPMAction::Send(m, _) => assert_eq!(*m, EPMMessage::PathTeardownReq),
        other => panic!("unexpected action {:?}", other),
    }
}

#[test]
fn epm_changed_path_is_set_up_then_the_old_one_torn_down() {
    let epm = running_epm();
    let event = ContactEvent::Updated {
        new: contact(9, ContactState::Valid, Some(vec![5, 6, 7, 9])),
        old: contact(9, ContactState::Valid, Some(vec![2, 3, 4, 9])),
    };
    let actions = epm.handle_contact_event(event);
    assert_eq!(actions.len(), 2);
    match (&actions[0], &actions[1]) {
        (EPMAction::Send(m1, p1), EPMAction::Send(m2, p2)) => {
            assert_eq!(*m1, EPMMessage::PathSetupReq);
            assert_eq!(*p1, vec![5, 6, 7, 9]);
            assert_eq!(*m2, EPMMessage::PathTeardownReq);
            assert_eq!(*p2, vec![2, 3, 4, 9]);
        },
        other => panic!("unexpected actions {:?}", other),
    }
}

#[test]
fn epm_registers_and_refreshes_external_paths() {
    let mut epm = running_epm();
    let mut ulns: HashMap<u128, usize> = HashMap::new();
    ulns.insert(3, 8);
    let in_path = vec![2, 3, 4, 5, 6];
    let (res, actions) = epm.handle_path_setup_req(&in_path, &ulns, 100);
    assert_eq!(res, HandlingResult::NotHandled);
    assert_eq!(actions.len(), 1);
    match &actions[0] {
        EPMAction::UpdateFwdTable(u) => assert_eq!(*u, PathIdTableUpdate::Create(entry(&in_path, 8))),
        other => panic!("unexpected action {:?}", other),
    }
    let id = Hasher.hash(&in_path);
    assert_eq!(paths_of(&epm)[&id], Entry { path_id_entry: entry(&in_path, 8), via: 8, last_seen: 100 });
    // A probe along the same path marks it as seen again.
    let (res, actions) = epm.handle_probe_req(&in_path, &ulns, 200);
    assert_eq!(res, HandlingResult::NotHandled);
    match &actions[0] {
        EPMAction::UpdateFwdTable(u) => assert_eq!(*u, PathIdTableUpdate::Update(entry(&in_path, 8))),
        other => panic!("unexpected action {:?}", other),
    }
    assert_eq!(paths_of(&epm)[&id].last_seen, 200);
    // Unknown next hop: nothing happens.
    let other = vec![2, 7, 4, 5];
    let (_, actions) = epm.handle_path_setup_req(&other, &ulns, 300);
    assert!(actions.is_empty());
    assert_eq!(paths_of(&epm).len(), 1);
}

#[test]
fn epm_setup_is_consumed_when_it_enters_the_vicinity() {
    let mut epm = running_epm();
    let ulns: HashMap<u128, usize> = HashMap::new();
    let (res, _) = epm.handle_path_setup_req(&vec![2, 3, 4, 5], &ulns, 0);
    assert_eq!(res, HandlingResult::Handled);
    assert_eq!(epm.handle_path_teardown_req(&vec![2, 3, 4, 5]), HandlingResult::Handled);
    assert_eq!(epm.handle_path_teardown_req(&vec![2, 3, 4, 5, 6]), HandlingResult::NotHandled);
}

#[test]
fn epm_cleanup_removes_old_paths_and_asks_for_the_next_timer() {
    let mut epm = running_epm();
    let mut ulns: HashMap<u128, usize> = HashMap::new();
    ulns.insert(3, 8);
    ulns.insert(7, 9);
    let old_path = vec![2, 3, 4, 5, 6];
    let new_path = vec![2, 7, 4, 5, 6];
    epm.register_path(&old_path, &ulns, 0);
    epm.register_path(&new_path, &ulns, 50_000_000);
    let actions = epm.handle_timer(1, 60_000_000, &vec![]);
    assert_eq!(actions.len(), 2);
    match &actions[0] {
        EPMAction::UpdateFwdTable(u) => assert_eq!(*u, PathIdTableUpdate::Remove(Hasher.hash(&old_path))),
        other => panic!("unexpected action {:?}", other),
    }
    match &actions[1] {
        EPMAction::RegisterCleanupTimer(i) => assert_eq!(*i, 60_000_000),
        other => panic!("unexpected action {:?}", other),
    }
    let left = paths_of(&epm);
    assert_eq!(left.len(), 1);
    assert!(left.contains_key(&Hasher.hash(&new_path)));
    // The underlay neighbor 9 goes down: its path goes too.
    let actions = epm.invalidate_all_over_interfaces(&9);
    assert_eq!(actions.len(), 1);
    assert!(paths_of(&epm).is_empty());
}

#[test]
fn epm_refresh_probes_valid_contacts_outside_the_vicinity() {
    let mut epm = running_epm();
    let contacts = vec![
        contact(9, ContactState::Valid, Some(vec![2, 3, 4, 9])),
        contact(4, ContactState::Valid, Some(vec![2, 4])),
        contact(8, ContactState::Invalid, Some(vec![2, 3, 4, 8])),
    ];
    let actions = epm.handle_timer(2, 0, &contacts);
    assert_eq!(actions.len(), 2);
    match &actions[0] {
        EPMAction::Send(m, p) => {
            assert_eq!(*m, EPMMessage::ProbeReq);
            assert_eq!(*p, vec![2, 3, 4, 9]);
        },
        other => panic!("unexpected action {:?}", other),
    }
    match &actions[1] {
        EPMAction::RegisterRefreshTimer(i) => assert_eq!(*i, 20_000_000),
        other => panic!("unexpected action {:?}", other),
    }
    assert!(epm.handle_timer(99, 0, &contacts).is_empty());
}

#[test]
fn epm_teardown_removes_the_entry() {
    let mut epm = running_epm();
    let mut ulns: HashMap<u128, usize> = HashMap::new();
    ulns.insert(3, 8);
    let in_path = vec![2, 3, 4, 5, 6];
    epm.register_path(&in_path, &ulns, 0);
    let actions = epm.teardown_path(&in_path);
    match &actions[0] {
        EPMAction::UpdateFwdTable(u) => assert_eq!(*u, PathIdTableUpdate::Remove(Hasher.hash(&in_path))),
        other => panic!("unexpected action {:?}", other),
    }
    assert!(paths_of(&epm).is_empty());
    epm.create_new_cleanup_timer(11);
    epm.create_new_refresh_timer(None);
    match epm.state() {
        EPMState::Running { refresh_timer, cleanup_timer, .. } => {
            assert_eq!(*refresh_timer, None);
            assert_eq!(*cleanup_timer, 11);
        },
        other => panic!("unexpected state {:?}", other),
    }
}
