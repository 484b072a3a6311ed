use std::collections::HashMap;

use kira_r2kad::domain::{Contact, ContactState, GroupingError};
use kira_r2kad::use_cases::handle_contact_update::{
    HCUAction, HandleContactUpdate, HandleContactUpdateConfig, RouteUpdateActionType,
};
use kira_r2kad::use_cases::handle_overlay_discovery::{
    FindNodeOutcome, HandleOverlayDiscovery, OverlayDiscoveryConfig,
};
use kira_r2kad::use_cases::overlay_neighborhood_discovery::{
    ONDAction, ONDConfig, ONDError, ONDState, OverlayNeighborhoodDiscovery, TimerContext, TimerType,
};
use kira_r2kad::use_cases::ContactEvent;

fn contact(id: u128, state: ContactState, path: Option<Vec<u128>>) -> Contact {
    Contact { id, state, path }
}

// ---- handling of FindNodeReqs ----

fn hod() -> HandleOverlayDiscovery {
    HandleOverlayDiscovery::new(OverlayDiscoveryConfig::default()).unwrap()
}

#[test]
fn overlay_discovery_grouping_is_checked() {
    assert!(HandleOverlayDiscovery::new(OverlayDiscoveryConfig { shared_prefix_bits_grouping: 128 }).is_ok());
    match HandleOverlayDiscovery::new(OverlayDiscoveryConfig { shared_prefix_bits_grouping: 129 }) {
        Err(e) => assert_eq!(e, GroupingError::Invalid { group_size: 129 }),
        Ok(_) => panic!("a grouping of 129 bits must be refused"),
    }
}

#[test]
fn find_node_req_for_another_node_is_ignored() {
    let closest = vec![(1usize, contact(5, ContactState::Valid, Some(vec![5])))];
    let out = hod().handle_find_node_req(1, 2, 9, false, 7, 10, &closest, &vec![], &vec![]);
    assert_eq!(out, FindNodeOutcome::Ignore);
}

#[test]
fn find_node_req_for_own_id() {
    let closest = vec![(1usize, contact(5, ContactState::Valid, Some(vec![5])))];
    assert_eq!(
        hod().handle_find_node_req(1, 1, 9, true, 1, 0, &closest, &vec![], &vec![]),
        FindNodeOutcome::RespondClosest
    );
    assert_eq!(
        hod().handle_find_node_req(1, 1, 9, false, 1, 0, &closest, &vec![], &vec![]),
        FindNodeOutcome::Ignore
    );
}

#[test]
fn find_node_req_is_forwarded_to_a_closer_contact() {
    let closest = vec![(3usize, contact(5, ContactState::Valid, Some(vec![4, 5])))];
    assert_eq!(
        hod().handle_find_node_req(1, 1, 9, false, 7, 10, &closest, &vec![], &vec![]),
        FindNodeOutcome::Forward(0)
    );
    // Not back to the source of the request.
    assert_eq!(
        hod().handle_find_node_req(1, 1, 5, false, 7, 10, &closest, &vec![], &vec![]),
        FindNodeOutcome::RespondClosest
    );
    assert_eq!(
        hod().handle_find_node_req(1, 1, 5, true, 7, 10, &closest, &vec![], &vec![]),
        FindNodeOutcome::DeadEnd
    );
    // Not when this node is closer.
    assert_eq!(
        hod().handle_find_node_req(1, 1, 9, false, 7, 2, &closest, &vec![], &vec![]),
        FindNodeOutcome::RespondClosest
    );
}

#[test]
fn find_node_req_avoids_links() {
    let closest = vec![
        (3usize, contact(5, ContactState::Valid, Some(vec![4, 5]))),
        (4usize, contact(6, ContactState::Valid, Some(vec![6]))),
    ];
    // The first contact's path runs over 5-4 (in reverse), so the second one is taken.
    assert_eq!(
        hod().handle_find_node_req(1, 1, 9, false, 7, 10, &closest, &vec![], &vec![(5, 4)]),
        FindNodeOutcome::Forward(1)
    );
    assert_eq!(
        hod().handle_find_node_req(1, 1, 9, false, 7, 10, &closest, &vec![(4, 5), (1, 6)], &vec![]),
        FindNodeOutcome::Forward(1)
    );
    // A path of one hop runs over no link, however the links are.
    let both = vec![(4, 5), (6, 1)];
    assert_eq!(
        hod().handle_find_node_req(1, 1, 9, false, 7, 10, &closest, &both, &vec![]),
        FindNodeOutcome::Forward(1)
    );
}

#[test]
fn find_node_req_without_usable_contact() {
    let closest = vec![(3usize, contact(5, ContactState::Valid, Some(vec![4, 5])))];
    let avoid = vec![(4, 5)];
    assert_eq!(
        hod().handle_find_node_req(1, 1, 9, false, 7, 10, &closest, &avoid, &vec![]),
        FindNodeOutcome::RespondEmpty
    );
    assert_eq!(
        hod().handle_find_node_req(1, 1, 9, true, 7, 10, &closest, &avoid, &vec![]),
        FindNodeOutcome::DeadEnd
    );
    assert_eq!(
        hod().handle_find_node_req(1, 1, 9, false, 7, 10, &vec![], &vec![], &vec![]),
        FindNodeOutcome::RespondEmpty
    );
}

// ---- handling of contact updates ----

#[test]
fn contact_update_defaults() {
    let c = HandleContactUpdateConfig::default();
    assert_eq!(c.radius, 3);
    assert_eq!(c.grouping_bits, 1);
}

#[test]
fn new_contact_is_announced() {
    let h = HandleContactUpdate::new(HandleContactUpdateConfig::default());
    let mut contacts = vec![contact(2, ContactState::Valid, Some(vec![2]))];
    let actions = h.handle_contact_event(ContactEvent::New(contact(3, ContactState::Valid, Some(vec![2, 3]))), &mut contacts);
    assert_eq!(actions.len(), 1);
    match &actions[0] {
        HCUAction::SendUpdate(c, k) => {
            assert_eq!(c.id, 3);
            assert_eq!(c.path, Some(vec![2, 3]));
            assert_eq!(*k, RouteUpdateActionType::Announce);
        },
        other => panic!("unexpected action {:?}", other),
    }
    assert_eq!(contacts[0].state, ContactState::Valid);
}

#[test]
fn removed_underlay_neighbor_is_withdrawn_and_paths_over_it_invalidated() {
    let h = HandleContactUpdate::new(HandleContactUpdateConfig::default());
    let mut contacts = vec![
        contact(3, ContactState::Valid, Some(vec![2, 3])),
        contact(5, ContactState::Valid, Some(vec![4, 5])),
        contact(6, ContactState::Rediscovering, None),
    ];
    let actions = h.handle_contact_event(ContactEvent::Removed(contact(2, ContactState::Valid, Some(vec![2]))), &mut contacts);
    assert_eq!(actions.len(), 2);
    match &actions[0] {
        HCUAction::SendUpdate(c, k) => {
            assert_eq!(c.id, 2);
            assert_eq!(*k, RouteUpdateActionType::WithDraw);
        },
        other => panic!("unexpected action {:?}", other),
    }
    match &actions[1] {
        HCUAction::RemoveUnderlayNeighbor(id) => assert_eq!(*id, 2),
        other => panic!("unexpected action {:?}", other),
    }
    assert_eq!(contacts[0].state, ContactState::Invalid);
    assert_eq!(contacts[1].state, ContactState::Valid);
    assert_eq!(contacts[2].state, ContactState::Rediscovering);
}

#[test]
fn removed_distant_contact_only_leaves_the_neighbor_table() {
    let h = HandleContactUpdate::new(HandleContactUpdateConfig::default());
    let mut contacts = vec![contact(3, ContactState::Valid, Some(vec![2, 3]))];
    let actions = h.handle_contact_event(ContactEvent::Removed(contact(9, ContactState::Valid, Some(vec![2, 9]))), &mut contacts);
    assert_eq!(actions.len(), 1);
    match &actions[0] {
        HCUAction::RemoveUnderlayNeighbor(id) => assert_eq!(*id, 9),
        other => panic!("unexpected action {:?}", other),
    }
    assert_eq!(contacts[0].state, ContactState::Valid);
}

#[test]
fn updated_contact_that_broke_is_unreachable_and_invalidates() {
    let h = HandleContactUpdate::new(HandleContactUpdateConfig::default());
    let mut contacts = vec![
        contact(3, ContactState::Valid, Some(vec![2, 3])),
        contact(4, ContactState::Valid, Some(vec![5, 4])),
    ];
    let event = ContactEvent::Updated {
        new: contact(2, ContactState::Invalid, Some(vec![2])),
        old: contact(2, ContactState::Valid, Some(vec![2])),
    };
    let actions = h.handle_contact_event(event, &mut contacts);
    assert_eq!(actions.len(), 1);
    match &actions[0] {
        HCUAction::SendUpdate(c, k) => {
            assert_eq!(c.id, 2);
            assert_eq!(*k, RouteUpdateActionType::Unreachable);
        },
        other => panic!("unexpected action {:?}", other),
    }
    assert_eq!(contacts[0].state, ContactState::Invalid);
    assert_eq!(contacts[1].state, ContactState::Valid);
}

#[test]
fn updated_valid_contact_is_a_change() {
    let h = HandleContactUpdate::new(HandleContactUpdateConfig::default());
    let mut contacts = vec![contact(3, ContactState::Valid, Some(vec![2, 3]))];
    let event = ContactEvent::Updated {
        new: contact(2, ContactState::Valid, Some(vec![2])),
        old: contact(2, ContactState::Invalid, Some(vec![2])),
    };
    let actions = h.handle_contact_event(event, &mut contacts);
    match &actions[0] {
        HCUAction::SendUpdate(_, k) => assert_eq!(*k, RouteUpdateActionType::Change),
        other => panic!("unexpected action {:?}", other),
    }
    assert_eq!(contacts[0].state, ContactState::Valid);
    assert!(h.handle_contact_event(ContactEvent::BucketUpdated(3), &mut contacts).is_empty());
    assert!(h.handle_contact_event(ContactEvent::NewBucket(3), &mut contacts).is_empty());
}

// ---- overlay neighborhood discovery ----

fn ond() -> OverlayNeighborhoodDiscovery {
    let mut o = OverlayNeighborhoodDiscovery::new(ONDConfig::with_bucket_size(20)).unwrap();
    o.start(1, 2);
    o
}

#[test]
fn ond_config_for_a_bucket_size() {
    let c = ONDConfig::with_bucket_size(20);
    assert_eq!(c.send_timeout, 250_000);
    assert_eq!(c.random_exploration_interval, 400_000);
    assert_eq!(c.overlay_neighborhood_size, 20);
    assert_eq!(c.backoff_base, 2);
    assert_eq!(c.backoff_max_retries, 6);
    assert_eq!(c.backoff_starting_duration, 250_000);
    assert_eq!(c.shared_prefix_bits_grouping, 1);
    assert_eq!(ONDError::NeighborInconsistency.message(), "Missing contact in routing or ulntable; Is the node isolated?");
}

#[test]
fn ond_starts_with_its_timers() {
    let o = ond();
    assert_eq!(
        *o.state(),
        ONDState::Running {
            join: TimerContext { timer_id: Some(1), backoff: None, last_msg_state: None },
            exploration: TimerContext { timer_id: Some(2), backoff: None, last_msg_state: None },
        }
    );
    assert_eq!(o.timer_type(1), Some(TimerType::PeriodicJoin));
    assert_eq!(o.timer_type(2), Some(TimerType::RandomExploration));
    assert_eq!(o.timer_type(3), None);
}

#[test]
fn ond_join_goes_to_the_closest_contact_and_avoids_an_unanswered_target() {
    let mut o = ond();
    let mut ulns: HashMap<u128, usize> = HashMap::new();
    ulns.insert(2, 0);
    ulns.insert(4, 1);
    let closest = vec![
        contact(3, ContactState::Valid, Some(vec![2, 3])),
        contact(5, ContactState::Valid, Some(vec![4, 5])),
    ];
    let actions = o.send_next_join_request(100, &ulns, &closest);
    assert_eq!(actions.len(), 2);
    let first_nonce = match &actions[0] {
        ONDAction::SendFindNodeReq { route, nonce, neighborhood } => {
            assert_eq!(*route, vec![100, 2, 3]);
            assert_eq!(*neighborhood, 20);
            *nonce
        },
        other => panic!("unexpected action {:?}", other),
    };
    match &actions[1] {
        // The first wait is 250 ms randomized into [125 ms, 375 ms).
        ONDAction::RegisterJoinTimer(w) => assert!(125_000 <= *w && *w < 375_000, "wait {}", w),
        other => panic!("unexpected action {:?}", other),
    }
    // The join to 3 is unanswered: the next one goes to 5.
    let actions = o.send_next_join_request(100, &ulns, &closest);
    match &actions[0] {
        ONDAction::SendFindNodeReq { route, .. } => assert_eq!(*route, vec![100, 4, 5]),
        other => panic!("unexpected action {:?}", other),
    }
    match &actions[1] {
        // The second wait is 500 ms randomized.
        ONDAction::RegisterJoinTimer(w) => assert!(250_000 <= *w && *w < 750_000, "wait {}", w),
        other => panic!("unexpected action {:?}", other),
    }
    let _ = first_nonce;
}

#[test]
fn ond_reply_clears_the_unanswered_join() {
    let mut o = ond();
    let mut ulns: HashMap<u128, usize> = HashMap::new();
    ulns.insert(2, 0);
    let closest = vec![contact(3, ContactState::Valid, Some(vec![2, 3]))];
    let actions = o.send_next_join_request(100, &ulns, &closest);
    let nonce = match &actions[0] {
        ONDAction::SendFindNodeReq { nonce, .. } => *nonce,
        other => panic!("unexpected action {:?}", other),
    };
    // While unanswered, the only contact is avoided and nothing is sent.
    assert!(o.send_next_join_request(100, &ulns, &closest).is_empty());
    o.handle_reply(nonce);
    match o.state() {
        ONDState::Running { join, .. } => assert_eq!(join.last_msg_state, None),
        other => panic!("unexpected state {:?}", other),
    }
    assert_eq!(o.send_next_join_request(100, &ulns, &closest).len(), 2);
}

#[test]
fn ond_pauses_without_underlay_neighbors() {
    let mut o = ond();
    let empty: HashMap<u128, usize> = HashMap::new();
    let actions = o.send_next_join_request(100, &empty, &vec![]);
    assert!(actions.is_empty());
    assert_eq!(*o.state(), ONDState::Isolated);
    assert!(!o.restart_after_vicinity_change(&empty));
    let mut ulns: HashMap<u128, usize> = HashMap::new();
    ulns.insert(2, 0);
    assert!(o.restart_after_vicinity_change(&ulns));
}

#[test]
fn ond_exploration_goes_along_the_closest_contact() {
    let mut o = ond();
    let mut ulns: HashMap<u128, usize> = HashMap::new();
    ulns.insert(2, 0);
    let c = contact(3, ContactState::Valid, Some(vec![2, 3]));
    let actions = o.send_request_to_random_id(100, 77, &ulns, Some(&c));
    assert_eq!(actions.len(), 1);
    let nonce = match &actions[0] {
        ONDAction::SendFindNodeReq { route, nonce, neighborhood } => {
            assert_eq!(*route, vec![100, 2, 3]);
            assert_eq!(*neighborhood, 20);
            *nonce
        },
        other => panic!("unexpected action {:?}", other),
    };
    match o.state() {
        ONDState::Running { exploration, .. } => assert_eq!(exploration.last_msg_state, Some((nonce, 77))),
        other => panic!("unexpected state {:?}", other),
    }
    // Unknown underlay neighbor: nothing is sent.
    let far = contact(9, ContactState::Valid, Some(vec![8, 9]));
    assert!(o.send_request_to_random_id(100, 78, &ulns, Some(&far)).is_empty());
    assert!(o.send_request_to_random_id(100, 78, &ulns, None).is_empty());
    o.set_join_timer(11);
    assert_eq!(o.timer_type(11), Some(TimerType::PeriodicJoin));
}
