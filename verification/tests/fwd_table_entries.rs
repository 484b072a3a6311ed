use std::collections::HashMap;

use kira_r2kad::domain::{
    Contact, ContactState, DecapsulationDestination, Hasher, NodeIdEntry, NodeIdSubnet,
    NodeIdTableUpdate, PathIdEntry, PathIdTableUpdate,
};
use kira_r2kad::use_cases::derive_fwd_table_entries::{
    DeriveFwdEntriesError, DeriveFwdTableEntries, DeriveFwdTableEntriesConfig,
    DeriveFwdTableEntriesState, FwdTableOp,
};
use kira_r2kad::use_cases::ContactEvent;

fn contact(id: u128, state: ContactState, path: Option<Vec<u128>>) -> Contact {
    Contact { id, state, path }
}

fn running() -> DeriveFwdTableEntries {
    let mut d = DeriveFwdTableEntries::new(DeriveFwdTableEntriesConfig::default());
    d.start(1);
    d
}

fn ulns() -> HashMap<u128, usize> {
    let mut u: HashMap<u128, usize> = HashMap::new();
    u.insert(2, 20);
    u.insert(4, 40);
    u
}

fn top(b: u128) -> u128 {
    b << 120
}

#[test]
fn start_installs_local_decapsulation() {
    let mut d = DeriveFwdTableEntries::new(DeriveFwdTableEntriesConfig::default());
    assert!(!d.state().is_error());
    let u = d.start(1);
    assert_eq!(
        u,
        PathIdTableUpdate::Create(PathIdEntry::Decapsulate {
            in_path_id: Hasher.hash(&vec![1]),
            next_hop: DecapsulationDestination::Local,
        })
    );
    match d.state() {
        DeriveFwdTableEntriesState::Running { bucket_prefix_entries } => assert!(bucket_prefix_entries.is_empty()),
        other => panic!("unexpected state {:?}", other),
    }
    assert!(!d.state().is_error());
}

#[test]
fn node_id_entries_forward_or_encapsulate() {
    let d = running();
    let uln = contact(2, ContactState::Valid, Some(vec![2]));
    assert_eq!(
        d.derive_node_id_entry(&ulns(), &uln),
        Ok(NodeIdEntry::Forward { destination: NodeIdSubnet::new(2), next_hop: 20 })
    );
    let far = contact(3, ContactState::Valid, Some(vec![2, 3]));
    assert_eq!(
        d.derive_node_id_entry(&ulns(), &far),
        Ok(NodeIdEntry::Encapsulate { destination: NodeIdSubnet::new(3), next_hop: 20, out_path_id: Hasher.hash(&vec![2, 3]) })
    );
    let unknown = contact(6, ContactState::Valid, Some(vec![5, 6]));
    assert_eq!(d.derive_node_id_entry(&ulns(), &unknown), Err(DeriveFwdEntriesError::NeighborNotInULNTable(5)));
    // 4 is an underlay neighbor but the contact's path is longer than one hop.
    let odd = contact(4, ContactState::Valid, Some(vec![2, 4]));
    assert_eq!(d.derive_node_id_entry(&ulns(), &odd), Err(DeriveFwdEntriesError::NonUNInULNTable(4)));
}

#[test]
fn bucket_prefix_entry_by_shortest_valid_path() {
    let d = running();
    let bucket = vec![
        contact(top(0x81), ContactState::Valid, Some(vec![2, 3, top(0x81)])),
        contact(top(0x82), ContactState::Invalid, Some(vec![2])),
        contact(top(0x83), ContactState::Valid, Some(vec![4, top(0x83)])),
        contact(top(0x84), ContactState::Valid, Some(vec![2, top(0x84)])),
    ];
    let subnet = NodeIdSubnet { prefix: top(0x80), len: 1 };
    assert_eq!(
        d.derive_bucket_prefix_entry(&bucket, 1, &ulns(), 1),
        Ok(Some(NodeIdEntry::Encapsulate {
            destination: subnet,
            next_hop: 40,
            out_path_id: Hasher.hash(&vec![4, top(0x83)]),
        }))
    );
    let empty: Vec<Contact> = vec![contact(top(0x82), ContactState::Invalid, None)];
    assert_eq!(d.derive_bucket_prefix_entry(&empty, 1, &ulns(), 1), Ok(None));
}

#[test]
fn bucket_update_replaces_and_removes_prefix_entries() {
    let mut d = running();
    let bucket = vec![contact(top(0xc1), ContactState::Valid, Some(vec![2, top(0xc1)]))];
    let updates = d.update_bucket(0, &bucket, 2, &ulns(), 1).unwrap();
    let e1 = NodeIdEntry::Encapsulate {
        destination: NodeIdSubnet { prefix: top(0xc0), len: 2 },
        next_hop: 20,
        out_path_id: Hasher.hash(&vec![2, top(0xc1)]),
    };
    assert_eq!(updates, vec![NodeIdTableUpdate::CreateOrUpdate(e1)]);
    // Same prefix through another contact: only an update.
    let bucket2 = vec![contact(top(0xc2), ContactState::Valid, Some(vec![top(0xc2)]))];
    let mut u = ulns();
    u.insert(top(0xc2), 7);
    let updates = d.update_bucket(0, &bucket2, 2, &u, 1).unwrap();
    assert_eq!(
        updates,
        vec![NodeIdTableUpdate::CreateOrUpdate(NodeIdEntry::Forward {
            destination: NodeIdSubnet { prefix: top(0xc0), len: 2 },
            next_hop: 7,
        })]
    );
    // A longer prefix replaces the old one.
    let updates = d.update_bucket(0, &bucket2, 3, &u, 1).unwrap();
    assert_eq!(updates.len(), 2);
    assert_eq!(updates[0], NodeIdTableUpdate::Remove(NodeIdSubnet { prefix: top(0xc0), len: 2 }));
    // The bucket empties: its prefix entry goes.
    let updates = d.update_bucket(0, &vec![], 3, &u, 1).unwrap();
    assert_eq!(updates, vec![NodeIdTableUpdate::Remove(NodeIdSubnet { prefix: top(0xc0), len: 3 })]);
    assert_eq!(d.update_bucket(0, &vec![], 3, &u, 1).unwrap(), vec![]);
}

#[test]
fn node_entries_with_their_bucket() {
    let mut d = running();
    let c = contact(top(0x41), ContactState::Valid, Some(vec![2, top(0x41)]));
    let bucket = vec![contact(top(0x41), ContactState::Valid, Some(vec![2, top(0x41)]))];
    let (updates, res) = d.create_node_id_entry(&c, 1, &bucket, 1, &ulns(), 1);
    assert_eq!(res, Ok(()));
    assert_eq!(updates.len(), 2);
    assert_eq!(
        updates[0],
        NodeIdTableUpdate::CreateOrUpdate(NodeIdEntry::Encapsulate {
            destination: NodeIdSubnet::new(top(0x41)),
            next_hop: 20,
            out_path_id: Hasher.hash(&vec![2, top(0x41)]),
        })
    );
    // Removing another node keeps the prefix entry.
    let (updates, res) = d.remove_node_id_entry(top(0x42), 1, &bucket, 1, &ulns(), 1);
    assert_eq!(res, Ok(()));
    assert_eq!(updates, vec![NodeIdTableUpdate::Remove(NodeIdSubnet::new(top(0x42)))]);
    // A contact whose neighbor is unknown yields an error and no updates.
    let bad = contact(top(0x43), ContactState::Valid, Some(vec![9, top(0x43)]));
    let (updates, res) = d.update_node_id_entry(&bad, 1, &bucket, 1, &ulns(), 1);
    assert!(updates.is_empty());
    assert_eq!(res, Err(DeriveFwdEntriesError::NeighborNotInULNTable(9)));
}

#[test]
fn planned_steps_for_contact_events() {
    let ops = DeriveFwdTableEntries::plan_contact_event(ContactEvent::Removed(contact(3, ContactState::Valid, None)));
    assert!(matches!(ops[..], [FwdTableOp::RemoveNodeIdEntry(3)]));
    let ops = DeriveFwdTableEntries::plan_contact_event(ContactEvent::Updated {
        new: contact(3, ContactState::Invalid, None),
        old: contact(4, ContactState::Valid, None),
    });
    assert!(matches!(ops[..], [FwdTableOp::RemoveNodeIdEntry(3), FwdTableOp::RemoveNodeIdEntry(4)]));
    let ops = DeriveFwdTableEntries::plan_contact_event(ContactEvent::Updated {
        new: contact(3, ContactState::Valid, Some(vec![2, 3])),
        old: contact(3, ContactState::Valid, Some(vec![4, 3])),
    });
    assert!(matches!(ops[..], [FwdTableOp::UpdateNodeIdEntry(_)]));
    let ops = DeriveFwdTableEntries::plan_contact_event(ContactEvent::Updated {
        new: contact(3, ContactState::Valid, Some(vec![2, 3])),
        old: contact(3, ContactState::Valid, Some(vec![2, 3])),
    });
    assert!(ops.is_empty());
    let ops = DeriveFwdTableEntries::plan_contact_event(ContactEvent::NewBucket(5));
    assert!(matches!(ops[..], [FwdTableOp::UpdateBucket(5)]));
    let ops = DeriveFwdTableEntries::plan_contact_event(ContactEvent::Updated {
        new: contact(3, ContactState::Rediscovering, None),
        old: contact(4, ContactState::Valid, None),
    });
    assert!(ops.is_empty());
}

// ---- contact events inside the vicinity: a single bucket holding the underlay neighbor ----

struct Vicinity {
    root_id: u128,
    neighbor_id: u128,
    ulnid: usize,
    uln_table: HashMap<u128, usize>,
    bucket: Vec<Contact>,
}

fn vicinity() -> Vicinity {
    let root_id = 1;
    let neighbor_id = 2;
    let ulnid = 1;
    let mut uln_table = HashMap::new();
    uln_table.insert(neighbor_id, ulnid);
    Vicinity {
        root_id,
        neighbor_id,
        ulnid,
        uln_table,
        bucket: vec![contact(neighbor_id, ContactState::Valid, Some(vec![neighbor_id]))],
    }
}

/// Runs the steps that the event calls for against the single bucket (index 0, prefix of
/// length 0), as the runtime does, and collects the forwarding-table updates.
fn apply(d: &mut DeriveFwdTableEntries, v: &Vicinity, event: ContactEvent) -> Vec<NodeIdTableUpdate> {
    let mut out = Vec::new();
    for op in DeriveFwdTableEntries::plan_contact_event(event) {
        let (updates, res) = match op {
            FwdTableOp::CreateNodeIdEntry(c) => d.create_node_id_entry(&c, 0, &v.bucket, 0, &v.uln_table, v.root_id),
            FwdTableOp::UpdateNodeIdEntry(c) => d.update_node_id_entry(&c, 0, &v.bucket, 0, &v.uln_table, v.root_id),
            FwdTableOp::RemoveNodeIdEntry(id) => d.remove_node_id_entry(id, 0, &v.bucket, 0, &v.uln_table, v.root_id),
            FwdTableOp::UpdateBucket(b) => match d.update_bucket(b, &v.bucket, 0, &v.uln_table, v.root_id) {
                Ok(us) => (us, Ok(())),
                Err(e) => (vec![], Err(e)),
            },
        };
        assert!(res.is_ok(), "Error handling event: {res:?}");
        out.extend(updates);
    }
    out
}

#[test]
fn vicinity_contact_added() {
    let v = vicinity();
    let vicinity_contact_id = 3;
    let vicinity_contact = contact(vicinity_contact_id, ContactState::Valid, Some(vec![v.neighbor_id, vicinity_contact_id]));
    let mut use_case = DeriveFwdTableEntries::new(DeriveFwdTableEntriesConfig::default());
    let _ = use_case.start(v.root_id);

    let fwd_updates = apply(&mut use_case, &v, ContactEvent::New(vicinity_contact));
    let node_id_update = fwd_updates.first().expect("No node id table update generated for added contact");
    let NodeIdTableUpdate::CreateOrUpdate(NodeIdEntry::Encapsulate { destination, next_hop, out_path_id }) = node_id_update else {
        panic!("unexpected kind of node id table update: {node_id_update:?}");
    };
    assert_eq!(destination.node_id(), vicinity_contact_id);
    assert!(destination.len == 0 || destination.len == 128);
    assert_eq!(*next_hop, v.ulnid);
    assert_eq!(*out_path_id, Hasher.hash(&vec![v.neighbor_id, vicinity_contact_id]));
    assert_eq!(
        fwd_updates.len(),
        2, // +1 for prefix update
        "Addtional forwarding updates present: {fwd_updates:#?}"
    );
}

#[test]
fn uln_contact_added() {
    let v = vicinity();
    let neighbor = contact(v.neighbor_id, ContactState::Valid, Some(vec![v.neighbor_id]));
    let mut use_case = DeriveFwdTableEntries::new(DeriveFwdTableEntriesConfig::default());
    let _ = use_case.start(v.root_id);

    let fwd_updates = apply(&mut use_case, &v, ContactEvent::New(neighbor));
    let node_id_update = fwd_updates.first().expect("No node id table update generated for added contact");
    let NodeIdTableUpdate::CreateOrUpdate(NodeIdEntry::Forward { destination, next_hop }) = node_id_update else {
        panic!("unexpected kind of node id table update: {node_id_update:?}");
    };
    assert_eq!(destination.node_id(), v.neighbor_id);
    assert!(destination.len == 0 || destination.len == 128);
    assert_eq!(*next_hop, v.ulnid);
    assert_eq!(
        fwd_updates.len(),
        2, // +1 for prefix update
        "Addtional forwarding updates present: {fwd_updates:#?}"
    );
}

#[test]
fn vicinity_contact_removed() {
    let v = vicinity();
    let vicinity_contact_id = 3;
    let vicinity_contact = contact(vicinity_contact_id, ContactState::Valid, Some(vec![v.neighbor_id, vicinity_contact_id]));
    let mut use_case = DeriveFwdTableEntries::new(DeriveFwdTableEntriesConfig::default());
    let _ = use_case.start(v.root_id);

    let fwd_updates = apply(&mut use_case, &v, ContactEvent::Removed(vicinity_contact));
    let node_id_update = fwd_updates.first().expect("No node id table update generated for removed  contact");
    let NodeIdTableUpdate::Remove(removed_subnet) = node_id_update else {
        panic!("unexpected kind of node id table update: {node_id_update:?}");
    };
    assert_eq!(removed_subnet.node_id(), vicinity_contact_id);
    assert_eq!(
        fwd_updates.len(),
        2, // +1 for prefix update
        "Addtional forwarding updates present: {fwd_updates:#?}"
    );
}

#[test]
fn vicinity_contact_updated() {
    let v = vicinity();
    let vicinity_contact_id = 3;
    let vicinity_contact = contact(vicinity_contact_id, ContactState::Valid, Some(vec![v.neighbor_id, vicinity_contact_id]));
    let mut use_case = DeriveFwdTableEntries::new(DeriveFwdTableEntriesConfig::default());
    let _ = use_case.start(v.root_id);

    let new_path = vec![v.neighbor_id, 4, 5, vicinity_contact_id];
    let new_out_path_id = Hasher.hash(&new_path);
    let new_contact = contact(vicinity_contact_id, ContactState::Valid, Some(new_path));

    let fwd_updates = apply(&mut use_case, &v, ContactEvent::Updated { new: new_contact, old: vicinity_contact });
    let node_id_update = fwd_updates.first().expect("No node id table update generated for updated contact");
    let NodeIdTableUpdate::CreateOrUpdate(NodeIdEntry::Encapsulate { destination, next_hop, out_path_id }) = node_id_update else {
        panic!("unexpected kind of node id table update: {node_id_update:?}");
    };
    assert_eq!(destination.node_id(), vicinity_contact_id);
    assert!(destination.len == 0 || destination.len == 128);
    assert_eq!(*next_hop, v.ulnid);
    assert_eq!(*out_path_id, new_out_path_id);
    assert_eq!(
        fwd_updates.len(),
        2, // +1 for prefix update
        "Addtional forwarding updates present: {fwd_updates:#?}"
    );
}
