use std::collections::HashMap;

use kira_r2kad::domain::{Contact, ContactState};
use kira_r2kad::use_cases::failure_handling::{
    invalidate_affected_contacts, invalidate_contacts_containing_link, rediscovery_wait_time, FHAction, FailureHandling,
    FailureHandlingConfig, FailureHandlingError, REDISCOVERY_WAITTIME_CLOSEST_NEIGHBORS, REDISCOVERY_WAITTIME_CONTACT_WITH_ULN,
    REDISCOVERY_WAITTIME_OTHER, REDISCOVERY_WAITTIME_ULN,
};
use kira_r2kad::use_cases::ReactiveUseCaseState;

fn contact(id: u128, state: ContactState, path: Option<Vec<u128>>) -> Contact {
    Contact { id, state, path }
}

const ROOT: u128 = 1;

/// A routing table: the underlay neighbor 2, contacts 3 and 4 behind it, 5 behind 6.
fn table() -> Vec<Contact> {
    vec![
        contact(2, ContactState::Valid, Some(vec![2])),
        contact(3, ContactState::Valid, Some(vec![2, 3])),
        contact(4, ContactState::Valid, Some(vec![2, 3, 4])),
        contact(6, ContactState::Valid, Some(vec![6])),
        contact(5, ContactState::Valid, Some(vec![6, 5])),
    ]
}

fn state_of(cs: &[Contact], id: u128) -> ContactState {
    cs.iter().find(|c| c.id == id).unwrap().state
}

#[test]
fn failure_handling_defaults() {
    let c = FailureHandlingConfig::default();
    assert_eq!(c.failure_notification_radius, 3);
    assert_eq!(c.grouping_bits, 1);
    assert_eq!(c.number_via_contacts, 20);
    assert_eq!(c.max_retry_rounds, 5);
    assert_eq!(c.rediscovery_parallelism, 2);
    let fh = FailureHandling::new(c);
    assert_eq!(*fh.state(), ReactiveUseCaseState::Idle);
    assert!(!fh.state().is_error());
}

#[test]
fn wait_times_by_kind_of_contact() {
    let uln = contact(2, ContactState::Invalid, Some(vec![2]));
    let far = contact(4, ContactState::Invalid, Some(vec![2, 3, 4]));
    assert_eq!(rediscovery_wait_time(&uln, true, true), REDISCOVERY_WAITTIME_ULN);
    assert_eq!(rediscovery_wait_time(&far, true, true), REDISCOVERY_WAITTIME_CLOSEST_NEIGHBORS);
    assert_eq!(rediscovery_wait_time(&far, false, true), REDISCOVERY_WAITTIME_CONTACT_WITH_ULN);
    assert_eq!(rediscovery_wait_time(&far, false, false), REDISCOVERY_WAITTIME_OTHER);
    assert_eq!(REDISCOVERY_WAITTIME_ULN, 100_000);
    assert_eq!(REDISCOVERY_WAITTIME_OTHER, 2_000_000);
}

#[test]
fn failed_link_invalidates_paths_over_it() {
    let mut cs = table();
    invalidate_contacts_containing_link(&mut cs, (3, 2));
    assert_eq!(state_of(&cs, 2), ContactState::Valid);
    assert_eq!(state_of(&cs, 3), ContactState::Invalid);
    assert_eq!(state_of(&cs, 4), ContactState::Invalid);
    assert_eq!(state_of(&cs, 5), ContactState::Valid);
}

#[test]
fn failed_underlay_neighbor_invalidates_contacts_behind_it() {
    let mut cs = table();
    let mut ulns: HashMap<u128, usize> = HashMap::new();
    ulns.insert(2, 7);
    ulns.insert(6, 8);
    let affected = invalidate_affected_contacts(&mut cs, &mut ulns, 7);
    assert_eq!(affected, vec![2]);
    assert_eq!(state_of(&cs, 2), ContactState::Invalid);
    assert_eq!(state_of(&cs, 3), ContactState::Invalid);
    assert_eq!(state_of(&cs, 4), ContactState::Invalid);
    assert_eq!(state_of(&cs, 6), ContactState::Valid);
    assert_eq!(state_of(&cs, 5), ContactState::Valid);
    assert!(!ulns.contains_key(&2));
    assert_eq!(ulns.get(&6), Some(&8));
}

#[test]
fn start_rediscovery_of_an_underlay_neighbor() {
    let mut fh = FailureHandling::new(FailureHandlingConfig::default());
    let mut cs = table();
    cs[0].state = ContactState::Invalid;
    let lost = contact(2, ContactState::Invalid, Some(vec![2]));
    let closest_own = vec![
        contact(6, ContactState::Valid, Some(vec![6])),
        contact(5, ContactState::Valid, Some(vec![6, 5])),
    ];
    let actions = fh
        .start_rediscovery(ROOT, &lost, &vec![(1, 2)], &closest_own, &vec![6, 5], &mut cs, false, false)
        .unwrap();
    assert_eq!(actions.len(), 3);
    match &actions[0] {
        FHAction::SendUnreachable { about, route, not_via } => {
            assert_eq!(*about, 2);
            assert_eq!(*route, vec![ROOT, 6]);
            assert_eq!(*not_via, vec![(1, 2)]);
        },
        other => panic!("unexpected action {:?}", other),
    }
    match &actions[1] {
        FHAction::SendUnreachable { route, .. } => assert_eq!(*route, vec![ROOT, 6, 5]),
        other => panic!("unexpected action {:?}", other),
    }
    match &actions[2] {
        FHAction::ScheduleRediscovery { contact, wait } => {
            assert_eq!(*contact, 2);
            assert_eq!(*wait, REDISCOVERY_WAITTIME_ULN);
        },
        other => panic!("unexpected action {:?}", other),
    }
    assert_eq!(state_of(&cs, 2), ContactState::Rediscovering);
}

#[test]
fn only_invalid_contacts_are_rediscovered() {
    let mut fh = FailureHandling::new(FailureHandlingConfig::default());
    let mut cs = table();
    let valid = contact(3, ContactState::Valid, Some(vec![2, 3]));
    let res = fh.start_rediscovery(ROOT, &valid, &vec![], &vec![], &vec![], &mut cs, false, false);
    assert!(matches!(res, Err(FailureHandlingError::WrongContactState)));
    assert_eq!(state_of(&cs, 3), ContactState::Valid);
}

/// Starts the rediscovery of contact 4 (behind the failed link 3-4) with the via contacts.
fn rediscovering_4(via: Vec<u128>) -> (FailureHandling, Vec<Contact>) {
    let mut fh = FailureHandling::new(FailureHandlingConfig::default());
    let mut cs = table();
    cs[2].state = ContactState::Invalid;
    let lost = contact(4, ContactState::Invalid, Some(vec![2, 3, 4]));
    let actions = fh.start_rediscovery(ROOT, &lost, &vec![(3, 4)], &vec![], &via, &mut cs, false, true).unwrap();
    assert_eq!(actions.len(), 1);
    match &actions[0] {
        FHAction::ScheduleRediscovery { contact, wait } => {
            assert_eq!(*contact, 4);
            assert_eq!(*wait, REDISCOVERY_WAITTIME_CONTACT_WITH_ULN);
        },
        other => panic!("unexpected action {:?}", other),
    }
    fh.schedule_rediscovery(10, 4);
    (fh, cs)
}

#[test]
fn scheduled_rediscovery_asks_the_first_valid_via_contacts() {
    let (mut fh, cs) = rediscovering_4(vec![9, 6, 3, 5]);
    assert_eq!(fh.take_scheduled(11), None);
    assert_eq!(fh.take_scheduled(10), Some(4));
    assert_eq!(fh.take_scheduled(10), None);
    // 9 is unknown; 6 and 3 are asked (two at once).
    let reqs = fh.rediscovery_requests(ROOT, &cs, 4);
    assert_eq!(reqs.len(), 2);
    assert_eq!(reqs[0].target, 4);
    assert_eq!(reqs[0].via, 6);
    assert_eq!(reqs[0].route, vec![ROOT, 6]);
    assert_eq!(reqs[0].not_via, vec![(3, 4)]);
    assert_eq!(reqs[1].via, 3);
    assert_eq!(reqs[1].route, vec![ROOT, 2, 3]);
    let n1 = fh.track_rediscovery(4, 20).unwrap();
    let n2 = fh.track_rediscovery(4, 21).unwrap();
    assert_ne!(n1, n2);
    // The timer 20 is taken: another one is needed.
    assert_eq!(fh.track_rediscovery(4, 20), None);
    // An answer ends the request.
    assert!(fh.rediscovery_answered(n1));
    assert!(!fh.rediscovery_answered(n1));
    // The other times out: the next valid via contact (5) is asked.
    assert_eq!(fh.fail_rediscovery(None, Some(21)), Some(4));
    let mut cs = cs;
    let q = fh.retry_rediscovery(ROOT, &mut cs, 4, &vec![]).unwrap();
    assert_eq!(q.via, 5);
    assert_eq!(q.route, vec![ROOT, 6, 5]);
    assert!(fh.track_retry(4, 22).is_ok());
}

#[test]
fn rediscovery_rounds_end_with_a_dead_contact() {
    let config = FailureHandlingConfig { max_retry_rounds: 1, ..FailureHandlingConfig::default() };
    let mut fh = FailureHandling::new(config);
    let mut cs = table();
    cs[2].state = ContactState::Invalid;
    let lost = contact(4, ContactState::Invalid, Some(vec![2, 3, 4]));
    fh.start_rediscovery(ROOT, &lost, &vec![], &vec![], &vec![6], &mut cs, false, false).unwrap();
    let reqs = fh.rediscovery_requests(ROOT, &cs, 4);
    assert_eq!(reqs.len(), 1);
    let nonce = fh.track_rediscovery(4, 30).unwrap();
    // An error answers the request: no via contact is left, so a second round starts
    // with the contacts now closest to 4.
    assert_eq!(fh.fail_rediscovery(Some(nonce), None), Some(4));
    let q = fh.retry_rediscovery(ROOT, &mut cs, 4, &vec![5, 3]).unwrap();
    assert_eq!(q.via, 5);
    let nonce = fh.track_retry(4, 31).unwrap();
    assert_eq!(fh.fail_rediscovery(Some(nonce), None), Some(4));
    let q = fh.retry_rediscovery(ROOT, &mut cs, 4, &vec![]).unwrap();
    assert_eq!(q.via, 3);
    let nonce = fh.track_retry(4, 32).unwrap();
    assert_eq!(fh.fail_rediscovery(Some(nonce), None), Some(4));
    // The last round is done and nothing is in flight: the contact is dead.
    assert!(fh.retry_rediscovery(ROOT, &mut cs, 4, &vec![6]).is_none());
    assert_eq!(state_of(&cs, 4), ContactState::Dead);
}

#[test]
fn duplicate_timer_on_a_retry_is_an_error() {
    let (mut fh, cs) = rediscovering_4(vec![6, 3]);
    fh.take_scheduled(10);
    let _ = fh.rediscovery_requests(ROOT, &cs, 4);
    fh.track_rediscovery(4, 40).unwrap();
    assert_eq!(fh.track_retry(4, 40), Err(FailureHandlingError::DuplicateTimerId));
    assert_eq!(*fh.state(), ReactiveUseCaseState::Error);
}

#[test]
fn removed_contact_and_unknown_failures() {
    let (mut fh, mut cs) = rediscovering_4(vec![6, 3]);
    fh.take_scheduled(10);
    let _ = fh.rediscovery_requests(ROOT, &cs, 4);
    let n = fh.track_rediscovery(4, 50).unwrap();
    fh.contact_removed(4);
    assert_eq!(fh.fail_rediscovery(Some(n), None), None);
    assert_eq!(fh.fail_rediscovery(None, Some(50)), None);
    // A contact that is not being rediscovered gets no request.
    assert!(fh.retry_rediscovery(ROOT, &mut cs, 3, &vec![6]).is_none());
    assert!(fh.rediscovery_requests(ROOT, &cs, 3).is_empty());
    assert_eq!(FailureHandlingError::WrongContactState.message(), "Wrong contact state");
}
