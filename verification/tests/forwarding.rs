use std::collections::HashMap;

use kira_r2kad::domain::{Contact, ContactState, SourceRoute};
use kira_r2kad::use_cases::forward_protocol_message::{ForwardProtocolMessage, ForwardingStep};
use kira_r2kad::use_cases::HandlingResult;

fn ulns() -> HashMap<u128, usize> {
    let mut u = HashMap::new();
    u.insert(3, 0);
    u
}

#[test]
fn source_route_queries() {
    let r = SourceRoute { hops: vec![1, 2, 3, 4], current: 1 };
    assert_eq!(r.source(), 1);
    assert_eq!(r.destination(), 4);
    assert_eq!(r.current_hop(), 2);
    assert_eq!(r.next_hop(), Some(3));
    assert_eq!(r.reversed().hops, vec![2, 1]);
    assert_eq!(r.advanced().current, 2);
    let end = SourceRoute { hops: vec![1, 2], current: 1 };
    assert_eq!(end.next_hop(), None);
    let e = end.extended_and_advanced(&vec![5, 6]);
    assert_eq!(e.hops, vec![1, 2, 5, 6]);
    assert_eq!(e.current, 2);
    let s = SourceRoute::from_node(9);
    assert_eq!((s.hops.clone(), s.current), (vec![9], 0));
}

#[test]
fn message_is_forwarded_to_the_next_underlay_neighbor() {
    let fpm = ForwardProtocolMessage;
    let r = SourceRoute { hops: vec![1, 2, 3, 4], current: 1 };
    let step = fpm.handle_forwarding(2, Some(&r), true, &ulns());
    assert_eq!(step.handling_result(), HandlingResult::Handled);
    match step {
        ForwardingStep::Forward(f) => {
            assert_eq!(f.hops, vec![1, 2, 3, 4]);
            assert_eq!(f.current, 2);
        },
        other => panic!("unexpected step {:?}", other),
    }
}

#[test]
fn message_at_its_end_or_elsewhere() {
    let fpm = ForwardProtocolMessage;
    let end = SourceRoute { hops: vec![1, 2], current: 1 };
    let step = fpm.handle_forwarding(2, Some(&end), true, &ulns());
    assert!(matches!(step, ForwardingStep::NotHandled));
    assert_eq!(step.handling_result(), HandlingResult::NotHandled);
    let step = fpm.handle_forwarding(7, Some(&end), true, &ulns());
    assert!(matches!(step, ForwardingStep::Dropped));
    assert_eq!(step.handling_result(), HandlingResult::Handled);
    assert!(matches!(fpm.handle_forwarding(7, None, true, &ulns()), ForwardingStep::NotHandled));
}

#[test]
fn failed_next_hop_is_reported_back() {
    let fpm = ForwardProtocolMessage;
    let r = SourceRoute { hops: vec![1, 2, 5, 4], current: 1 };
    match fpm.handle_forwarding(2, Some(&r), true, &ulns()) {
        ForwardingStep::NextHopFailed { error: Some((link, back)) } => {
            assert_eq!(link, (2, 5));
            assert_eq!(back.hops, vec![2, 1]);
            assert_eq!(back.current, 0);
        },
        other => panic!("unexpected step {:?}", other),
    }
    // Without a nonce no error is sent.
    assert!(matches!(
        fpm.handle_forwarding(2, Some(&r), false, &ulns()),
        ForwardingStep::NextHopFailed { error: None }
    ));
}

#[test]
fn path_back_to_the_source() {
    let fpm = ForwardProtocolMessage;
    let r = SourceRoute { hops: vec![1, 2, 3, 4], current: 2 };
    assert_eq!(fpm.extract_path_to_source(Some(&r), 1), vec![3, 2, 1]);
    assert_eq!(fpm.extract_path_to_source(None, 8), vec![8]);
}

#[test]
fn not_via_reports_invalidate_older_paths_over_the_link() {
    let c = |id: u128, path: Vec<u128>| Contact { id, state: ContactState::Valid, path: Some(path) };
    let mut contacts = vec![
        // over the link 2-3, validated before the report
        c(3, vec![2, 3]),
        // over the link, but validated after the report
        c(4, vec![2, 3, 4]),
        // over the link, never validated
        c(5, vec![3, 2, 5]),
        // not over the link
        c(6, vec![2, 6]),
        // over the link 2-1 of this node itself, whose report is ignored
        c(7, vec![2, 1, 7]),
    ];
    let validated = vec![Some(10), Some(30), None, Some(10), Some(10)];
    let not_via = vec![((2, 3), 20), ((1, 2), 20)];
    ForwardProtocolMessage.extract_not_via_data(1, &not_via, &mut contacts, &validated);
    let states: Vec<ContactState> = contacts.iter().map(|c| c.state).collect();
    assert_eq!(
        states,
        vec![ContactState::Invalid, ContactState::Valid, ContactState::Valid, ContactState::Valid, ContactState::Valid]
    );
    // reversed direction of the link counts too
    let mut back = vec![c(8, vec![3, 2, 8])];
    ForwardProtocolMessage.extract_not_via_data(1, &not_via, &mut back, &vec![Some(0)]);
    assert_eq!(back[0].state, ContactState::Invalid);
}
