use std::collections::HashMap;

use kira_r2kad::domain::{
    copy_contact, copy_path, node_id_with_msb, prefix_of, reversed_path, same_nodes, same_path,
    Contact, ContactState, Hasher, NodeIdEntry, NodeIdSubnet, FNV_OFFSET,
};
use kira_r2kad::format::{ProtocolMessageFormat, R2KadMessageFormat};
use kira_r2kad::underlay::UnderlayNeighborInterfaceDownError;
use kira_r2kad::use_cases::failure_handling::FailureHandlingError;
use kira_r2kad::use_cases::forward_protocol_message::ForwardProtocolMessage;
use kira_r2kad::use_cases::path_probing::PathProbingState;
use kira_r2kad::utils::nonce::distinct_nonce;
use kira_r2kad::utils::rediscovery_timeout_interval::{Distance, DistanceMap};

fn contact(id: u128, state: ContactState, path: Option<Vec<u128>>) -> Contact {
    Contact { id, state, path }
}

#[test]
fn node_id_with_msb_sets_the_top_byte() {
    assert_eq!(node_id_with_msb(0), 0);
    assert_eq!(node_id_with_msb(1), 1u128 << 120);
    assert_eq!(node_id_with_msb(0xff), 0xffu128 << 120);
}

#[test]
fn prefix_of_keeps_the_leading_bits() {
    let id: u128 = 0xabcd_u128 << 112 | 0x1234;
    assert_eq!(prefix_of(id, 0), 0);
    assert_eq!(prefix_of(id, 4), 0xa_u128 << 124);
    assert_eq!(prefix_of(id, 16), 0xabcd_u128 << 112);
    assert_eq!(prefix_of(id, 128), id);
    assert_eq!(prefix_of(id, 200), id);
}

#[test]
fn path_hash_is_fnv1a_over_the_halves_of_each_id() {
    let h = Hasher;
    assert_eq!(h.hash(&vec![]), FNV_OFFSET);
    assert_eq!(h.hash(&vec![]), 14695981039346656037);
    assert_eq!(h.hash(&vec![1]), 589727492704079044);
    assert_eq!(h.hash(&vec![1, 2]), 12479921481467174326);
    assert_eq!(h.hash(&vec![2, 1]), 10166709652741859822);
    assert_eq!(h.hash(&vec![5u128 << 120]), 9886113698713137133);
}

#[test]
fn paths_are_copied_compared_and_reversed() {
    let p: Vec<u128> = vec![1, 2, 3];
    assert_eq!(copy_path(&p), p);
    assert_eq!(reversed_path(&p), vec![3, 2, 1]);
    assert_eq!(reversed_path(&vec![]), Vec::<u128>::new());
    assert!(same_nodes(&p, &vec![1, 2, 3]));
    assert!(!same_nodes(&p, &vec![1, 2]));
    assert!(!same_nodes(&p, &vec![1, 3, 2]));
    assert!(same_path(&None, &None));
    assert!(!same_path(&Some(vec![1]), &None));
    assert!(same_path(&Some(vec![1, 2]), &Some(vec![1, 2])));
}

#[test]
fn contact_queries() {
    let uln = contact(7, ContactState::Valid, Some(vec![7]));
    assert!(uln.is_uln());
    assert!(uln.is_valid());
    assert_eq!(uln.path_len(), 1);
    let far = contact(9, ContactState::Invalid, Some(vec![7, 8, 9]));
    assert!(!far.is_uln());
    assert!(!far.is_valid());
    assert_eq!(far.path_len(), 3);
    let none = contact(3, ContactState::Rediscovering, None);
    assert!(!none.is_uln());
    assert_eq!(none.path_len(), 0);
    let copy = copy_contact(&far);
    assert_eq!(copy.id, 9);
    assert_eq!(copy.state, ContactState::Invalid);
    assert_eq!(copy.path, Some(vec![7, 8, 9]));
}

#[test]
fn subnets_and_node_id_entries() {
    let s = NodeIdSubnet::new(42);
    assert_eq!(s, NodeIdSubnet { prefix: 42, len: 128 });
    assert_eq!(s.node_id(), 42);
    let e = NodeIdEntry::Encapsulate { destination: s, next_hop: 3, out_path_id: 9 };
    assert_eq!(e.destination(), s);
    let f = NodeIdEntry::Forward { destination: NodeIdSubnet { prefix: 0, len: 1 }, next_hop: 1 };
    assert_eq!(f.destination(), NodeIdSubnet { prefix: 0, len: 1 });
}

#[test]
fn message_formats() {
    assert_eq!(ProtocolMessageFormat::default(), ProtocolMessageFormat::Unselected);
    assert_eq!(R2KadMessageFormat::default(), R2KadMessageFormat::Binrw);
    assert_eq!(ProtocolMessageFormat::from(R2KadMessageFormat::Binrw), ProtocolMessageFormat::Binrw);
    assert_eq!(ProtocolMessageFormat::from(R2KadMessageFormat::Json), ProtocolMessageFormat::Json);
    assert_eq!(ProtocolMessageFormat::from(R2KadMessageFormat::CBOR), ProtocolMessageFormat::CBOR);
    assert_eq!(ProtocolMessageFormat::from(R2KadMessageFormat::MP), ProtocolMessageFormat::MessagePack);
}

#[test]
fn distance_map_defaults_and_lookup() {
    let d = DistanceMap::default();
    assert_eq!(d.get(Distance::OverlayNeighbor), 500_000);
    assert_eq!(d.get(Distance::UnderlayNeighbor), 1_000_000);
    assert_eq!(d.get(Distance::Others), 2_000_000);
    let m = DistanceMap::new(1, 2, 3);
    assert_eq!(m.get(Distance::OverlayNeighbor), 1);
    assert_eq!(m.get(Distance::UnderlayNeighbor), 2);
    assert_eq!(m.get(Distance::Others), 3);
}

#[test]
fn error_descriptions() {
    assert_eq!(FailureHandlingError::DuplicateTimerId.message(), "Runtime returned duplicate timer-id");
    assert_eq!(FailureHandlingError::WrongContactState.message(), "Wrong contact state");
    assert_eq!(
        UnderlayNeighborInterfaceDownError(4).message(),
        "Interface 4 that is used by the underlay neighbor is down"
    );
    assert_eq!(
        UnderlayNeighborInterfaceDownError(4_294_967_295).message(),
        "Interface 4294967295 that is used by the underlay neighbor is down"
    );
    assert_eq!(
        UnderlayNeighborInterfaceDownError(0).message(),
        "Interface 0 that is used by the underlay neighbor is down"
    );
    assert_eq!(
        UnderlayNeighborInterfaceDownError(100).message(),
        "Interface 100 that is used by the underlay neighbor is down"
    );
}

#[test]
fn path_probing_error_state() {
    assert!(PathProbingState::Error.is_error());
    assert!(!PathProbingState::Initialized.is_error());
}

#[test]
fn failed_link_invalidates_contacts_over_it() {
    let fpm = ForwardProtocolMessage;
    let mut contacts = vec![
        contact(3, ContactState::Valid, Some(vec![1, 2, 3])),
        contact(5, ContactState::Valid, Some(vec![1, 4, 5])),
        contact(2, ContactState::Valid, Some(vec![1, 2])),
        contact(6, ContactState::Valid, None),
    ];
    // The link 3-2 in the other direction than the path 1-2-3 runs.
    fpm.extract_failed_contact(100, (3, 2), &mut contacts);
    assert_eq!(contacts[0].state, ContactState::Invalid);
    assert_eq!(contacts[1].state, ContactState::Valid);
    assert_eq!(contacts[2].state, ContactState::Valid);
    assert_eq!(contacts[3].state, ContactState::Valid);
    assert_eq!(contacts[0].path, Some(vec![1, 2, 3]));
}

#[test]
fn failed_link_of_this_node_is_ignored() {
    let fpm = ForwardProtocolMessage;
    let mut contacts = vec![contact(3, ContactState::Valid, Some(vec![100, 3]))];
    fpm.extract_failed_contact(100, (100, 3), &mut contacts);
    assert_eq!(contacts[0].state, ContactState::Valid);
}

#[test]
fn distinct_nonce_avoids_taken_nonces() {
    let mut taken: HashMap<u64, ()> = HashMap::new();
    for n in 0..100u64 {
        taken.insert(n, ());
    }
    for _ in 0..50 {
        let n = distinct_nonce(&taken);
        assert!(!taken.contains_key(&n));
    }
    let empty: HashMap<u64, u8> = HashMap::new();
    let _ = distinct_nonce(&empty);
}
