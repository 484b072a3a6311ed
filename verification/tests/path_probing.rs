use std::collections::HashMap;

use kira_r2kad::domain::{Contact, ContactState, SourceRoute};
use kira_r2kad::use_cases::path_probing::{select_probe_targets, PPAction, PathProbing, PathProbingConfig, PathProbingState};

const ROOT: u128 = 1;
const SEC: u64 = 1_000_000;

fn contact(id: u128, state: ContactState, path: Vec<u128>) -> Contact {
    Contact { id, state, path: Some(path) }
}

fn probe_of(a: &PPAction) -> (u64, Vec<u128>, bool) {
    match a {
        PPAction::SendProbeReq { nonce, route, with_timeout } => (*nonce, route.clone(), *with_timeout),
        other => panic!("not a probe: {:?}", other),
    }
}

fn running() -> PathProbing {
    let mut pp = PathProbing::new(PathProbingConfig::default());
    pp.start(100);
    pp
}

#[test]
fn path_probing_defaults() {
    let c = PathProbingConfig::default();
    assert_eq!(c.check_interval, SEC);
    assert_eq!(c.probe_age, 40 * SEC);
    assert_eq!(c.request_timeout, 10 * SEC);
    assert_eq!(c.scheduled_probe_delay, 250_000);
    let pp = PathProbing::new(c);
    assert!(matches!(pp.state(), PathProbingState::Initialized));
    assert!(!pp.state().is_error());
    assert!(!pp.is_periodic_timer(100));
}

#[test]
fn start_registers_the_periodic_timer() {
    let pp = running();
    assert!(matches!(pp.state(), PathProbingState::Running { .. }));
    assert!(pp.is_periodic_timer(100));
    assert!(!pp.is_periodic_timer(101));
    assert!(!pp.is_tracked_timer(100));
    assert!(!pp.is_scheduled_probe_timer(100));
}

fn mixed_bucket() -> Vec<(Contact, u64)> {
    vec![
        (contact(2, ContactState::Valid, vec![9, 2]), 50 * SEC),
        (contact(3, ContactState::Valid, vec![9, 3]), 10 * SEC),
        // seen too recently
        (contact(4, ContactState::Valid, vec![9, 4]), 90 * SEC),
        // an underlay neighbor is never probed
        (contact(5, ContactState::Valid, vec![5]), 0),
        // not valid
        (contact(6, ContactState::Invalid, vec![9, 6]), 0),
        (contact(7, ContactState::Valid, vec![9, 7]), 20 * SEC),
    ]
}

#[test]
fn two_oldest_due_contacts_are_selected() {
    let now = 100 * SEC;
    assert_eq!(select_probe_targets(&mixed_bucket(), now, 40 * SEC), vec![1, 5]);
    let mut first: Vec<(Contact, u64)> = mixed_bucket();
    first.truncate(1);
    assert_eq!(select_probe_targets(&first, now, 40 * SEC), vec![0]);
    let none_due: Vec<(Contact, u64)> = mixed_bucket().into_iter().skip(2).take(3).collect();
    assert_eq!(select_probe_targets(&none_due, now, 40 * SEC), Vec::<usize>::new());
    // exactly the probe age is due
    assert_eq!(select_probe_targets(&vec![(contact(8, ContactState::Valid, vec![9, 8]), 60 * SEC)], now, 40 * SEC), vec![0]);
}

#[test]
fn periodic_check_probes_due_contacts_along_their_paths() {
    let mut pp = running();
    let now = 100 * SEC;
    let buckets = vec![
        vec![(contact(2, ContactState::Valid, vec![9, 2]), 0), (contact(3, ContactState::Valid, vec![9, 3]), 99 * SEC)],
        vec![],
        vec![(contact(4, ContactState::Valid, vec![9, 8, 4]), 10 * SEC)],
    ];
    let actions = pp.send_probe_reqs(ROOT, &buckets, now);
    assert_eq!(actions.len(), 2);
    let (n1, r1, t1) = probe_of(&actions[0]);
    let (n2, r2, t2) = probe_of(&actions[1]);
    assert_eq!(r1, vec![ROOT, 9, 2]);
    assert_eq!(r2, vec![ROOT, 9, 8, 4]);
    assert!(t1 && t2);
    assert_ne!(n1, n2);
    assert!(pp.is_tracked_message(n1));
    assert!(pp.is_tracked_message(n2));
}

#[test]
fn probe_timeout_invalidates_the_contact() {
    let mut pp = running();
    let now = 100 * SEC;
    let buckets = vec![vec![(contact(2, ContactState::Valid, vec![9, 2]), 0)]];
    let actions = pp.send_probe_reqs(ROOT, &buckets, now);
    let (nonce, _, _) = probe_of(&actions[0]);
    pp.hook_probe_timer(7, nonce);
    assert!(pp.is_tracked_timer(7));

    let mut contacts = vec![contact(2, ContactState::Valid, vec![9, 2]), contact(9, ContactState::Valid, vec![9])];
    pp.invalidate_contact_for_timer(7, &mut contacts);
    assert_eq!(contacts[0].state, ContactState::Invalid);
    assert_eq!(contacts[1].state, ContactState::Valid);
    assert!(!pp.is_tracked_timer(7));
    assert!(!pp.is_tracked_message(nonce));
}

#[test]
fn answered_probe_is_no_longer_tracked() {
    let mut pp = running();
    let buckets = vec![vec![(contact(2, ContactState::Valid, vec![9, 2]), 0)]];
    let actions = pp.send_probe_reqs(ROOT, &buckets, 100 * SEC);
    let (nonce, _, _) = probe_of(&actions[0]);
    pp.hook_probe_timer(7, nonce);
    pp.remove_from_tracked_messages(nonce);
    assert!(!pp.is_tracked_message(nonce));
    assert!(!pp.is_tracked_timer(7));
}

#[test]
fn error_answer_invalidates_the_contact() {
    let mut pp = running();
    let buckets = vec![vec![(contact(2, ContactState::Valid, vec![9, 2]), 0)]];
    let actions = pp.send_probe_reqs(ROOT, &buckets, 100 * SEC);
    let (nonce, _, _) = probe_of(&actions[0]);
    pp.hook_probe_timer(7, nonce);
    let mut contacts = vec![contact(2, ContactState::Valid, vec![9, 2])];
    pp.invalidate_contact_for_message(nonce, &mut contacts);
    assert_eq!(contacts[0].state, ContactState::Invalid);
    assert!(!pp.is_tracked_message(nonce));
    assert!(!pp.is_tracked_timer(7));
}

#[test]
fn stale_probes_are_forgotten() {
    let mut pp = running();
    let buckets = vec![vec![(contact(2, ContactState::Valid, vec![9, 2]), 0)]];
    let actions = pp.send_probe_reqs(ROOT, &buckets, 100 * SEC);
    let (nonce, _, _) = probe_of(&actions[0]);
    pp.garbage_collect_requests(110 * SEC);
    assert!(pp.is_tracked_message(nonce));
    pp.garbage_collect_requests(110 * SEC + 1);
    assert!(!pp.is_tracked_message(nonce));
}

#[test]
fn probe_answer_goes_back_along_the_route() {
    let pp = running();
    let route = SourceRoute { hops: vec![1, 2, 3, 4], current: 2 };
    let back = pp.send_probe_rsp(&route);
    assert_eq!(back.hops, vec![3, 2, 1]);
    assert_eq!(back.current, 0);
}

#[test]
fn new_proposed_path_is_probed_once_after_the_delay() {
    let mut pp = running();
    let proposed_path = vec![9, 2];
    let now = 100 * SEC;
    // a path of one hop is not probed
    assert!(!pp.contact_updated(3, None, Some(&vec![3]), now));
    // a path that was there before is not probed
    assert!(!pp.contact_updated(2, Some(&vec![8, 2]), Some(&proposed_path), now));
    assert!(pp.contact_updated(2, None, Some(&proposed_path), now));
    pp.set_scheduled_timer(55);
    assert!(pp.is_scheduled_probe_timer(55));
    // a second schedule needs no timer
    assert!(!pp.schedule_path_probe_req(4, now + 100_000));

    let mut proposed = HashMap::new();
    proposed.insert(2u128, proposed_path.clone());
    proposed.insert(4u128, vec![9, 8, 4]);
    // after 200 ms only the first one is older than half the delay
    let (actions, remaining) = pp.send_scheduled_probe_requests(ROOT, now + 200_000, &proposed);
    assert!(remaining);
    assert_eq!(actions.len(), 1);
    let (nonce, route, with_timeout) = probe_of(&actions[0]);
    assert_eq!(route, vec![ROOT, 9, 2]);
    assert!(!with_timeout);
    assert!(pp.is_tracked_message(nonce));

    let (actions, remaining) = pp.send_scheduled_probe_requests(ROOT, now + 300_000, &proposed);
    assert!(!remaining);
    assert_eq!(actions.len(), 1);
    assert_eq!(probe_of(&actions[0]).1, vec![ROOT, 9, 8, 4]);
}

#[test]
fn scheduled_probe_without_proposed_path_is_dropped() {
    let mut pp = running();
    assert!(pp.schedule_path_probe_req(2, 0));
    let (actions, remaining) = pp.send_scheduled_probe_requests(ROOT, SEC, &HashMap::new());
    assert!(actions.is_empty());
    assert!(!remaining);
}

#[test]
fn nothing_is_scheduled_before_the_start() {
    let mut pp = PathProbing::new(PathProbingConfig::default());
    assert!(!pp.contact_updated(2, None, Some(&vec![9, 2]), 0));
    assert!(!pp.schedule_path_probe_req(2, 0));
    assert!(matches!(pp.state(), PathProbingState::Initialized));
}
