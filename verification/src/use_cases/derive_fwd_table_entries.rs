//! Derivation of node-id forwarding-table entries from the routing table: one entry per
//! contact, and per bucket one prefix entry chosen by proximity neighbor selection.

use std::collections::HashMap;

use vstd::prelude::*;

use crate::domain::{
    Contact, ContactState, DecapsulationDestination, Hasher, NodeId, NodeIdEntry, NodeIdSubnet,
    NodeIdTableUpdate, PathIdEntry, PathIdTableUpdate, UnderlayNeighborId, id_prefix, path_hash,
    prefix_of,
};
use crate::use_cases::ContactEvent;

verus! {

broadcast use {vstd::std_specs::hash::group_hash_axioms, vstd::seq_lib::group_seq_properties};

/// Configuration of [DeriveFwdTableEntries].
#[derive(Debug, Default)]
pub struct DeriveFwdTableEntriesConfig {
    /// Hasher that derives path ids from paths.
    pub hasher: Hasher,
}

/// State of [DeriveFwdTableEntries].
#[derive(Debug)]
pub enum DeriveFwdTableEntriesState {
    /// Initialized, not started.
    Initialized,
    /// Running: the prefix entry derived for each bucket.
    Running { bucket_prefix_entries: HashMap<usize, NodeIdSubnet> },
    /// Unrecoverable error.
    Error,
}

impl DeriveFwdTableEntriesState {
    /// Whether the use case is in the unrecoverable error state.
    pub fn is_error(&self) -> (b: bool)
        ensures
            b == (*self is Error),
    {
        match self {
            DeriveFwdTableEntriesState::Error => true,
            _ => false,
        }
    }
}

/// Errors of [DeriveFwdTableEntries].
#[derive(Debug, Clone, Copy, PartialEq, Eq, Structural)]
pub enum DeriveFwdEntriesError {
    /// The first hop of a contact's path is not in the underlay neighbor table.
    NeighborNotInULNTable(NodeId),
    /// The contact (by its id) is not an underlay neighbor but listed in the underlay
    /// neighbor table.
    NonUNInULNTable(NodeId),
}

/// One step of keeping the node-id forwarding table in line with the routing table.
#[derive(Debug)]
pub enum FwdTableOp {
    /// Remove the entry of the node (and re-derive its bucket's prefix entry if needed).
    RemoveNodeIdEntry(NodeId),
    /// Create the entry of the contact (and re-derive its bucket's prefix entry).
    CreateNodeIdEntry(Contact),
    /// Update the entry of the contact (and re-derive its bucket's prefix entry).
    UpdateNodeIdEntry(Contact),
    /// Re-derive the prefix entry of the bucket.
    UpdateBucket(usize),
}

/// The steps that a change of the routing table calls for.
pub open spec fn planned_ops(e: ContactEvent) -> Seq<FwdTableOp> {
    match e {
        ContactEvent::New(c) => seq![FwdTableOp::CreateNodeIdEntry(c)],
        ContactEvent::Removed(c) => seq![FwdTableOp::RemoveNodeIdEntry(c.id)],
        ContactEvent::Updated { new, old } => match (new.state, old.state) {
            (ContactState::Invalid, ContactState::Valid) => if new.id == old.id {
                seq![FwdTableOp::RemoveNodeIdEntry(new.id)]
            } else {
                seq![FwdTableOp::RemoveNodeIdEntry(new.id), FwdTableOp::RemoveNodeIdEntry(old.id)]
            },
            (ContactState::Rediscovering, ContactState::Valid) => if new.id == old.id {
                seq![FwdTableOp::RemoveNodeIdEntry(new.id)]
            } else {
                seq![]
            },
            (ContactState::Valid, ContactState::Invalid) | (ContactState::Valid, ContactState::Rediscovering) => seq![
                FwdTableOp::CreateNodeIdEntry(new),
            ],
            (ContactState::Valid, ContactState::Valid) if new.path_view() != old.path_view() => if new.id == old.id {
                seq![FwdTableOp::UpdateNodeIdEntry(new)]
            } else {
                seq![FwdTableOp::RemoveNodeIdEntry(old.id), FwdTableOp::CreateNodeIdEntry(new)]
            },
            _ => seq![],
        },
        ContactEvent::BucketUpdated(b) => seq![FwdTableOp::UpdateBucket(b)],
        ContactEvent::NewBucket(b) => seq![FwdTableOp::UpdateBucket(b)],
    }
}

/// The entry of a contact: the next hop is the underlay neighbor that the first node of
/// its path is; underlay neighbors are forwarded to, other contacts encapsulated.
pub open spec fn node_id_entry(
    c: Contact,
    dest: NodeIdSubnet,
    uln_table: Map<NodeId, UnderlayNeighborId>,
) -> Result<NodeIdEntry, DeriveFwdEntriesError> {
    let p = c.path_view().unwrap();
    if !uln_table.contains_key(p[0]) {
        Err(DeriveFwdEntriesError::NeighborNotInULNTable(p[0]))
    } else if c.spec_is_uln() {
        Ok(NodeIdEntry::Forward { destination: dest, next_hop: uln_table[p[0]] })
    } else {
        Ok(NodeIdEntry::Encapsulate { destination: dest, next_hop: uln_table[p[0]], out_path_id: path_hash(p) })
    }
}

/// The entry of a contact for its own node id, or why there is none.
pub open spec fn derived_node_id_entry(
    c: Contact,
    uln_table: Map<NodeId, UnderlayNeighborId>,
) -> Result<NodeIdEntry, DeriveFwdEntriesError> {
    let p = c.path_view().unwrap();
    if !uln_table.contains_key(p[0]) {
        Err(DeriveFwdEntriesError::NeighborNotInULNTable(p[0]))
    } else if uln_table.contains_key(c.id) && !c.spec_is_uln() {
        Err(DeriveFwdEntriesError::NonUNInULNTable(c.id))
    } else {
        node_id_entry(c, NodeIdSubnet { prefix: c.id, len: 128 }, uln_table)
    }
}

/// Contact `i` is the first valid contact of the bucket with the shortest path.
pub open spec fn is_closest(bucket: Seq<Contact>, i: int) -> bool {
    &&& 0 <= i < bucket.len()
    &&& bucket[i].state == ContactState::Valid
    &&& forall|j: int| 0 <= j < bucket.len() && bucket[j].state == ContactState::Valid ==> #[trigger] bucket[j].path_size()
        >= bucket[i].path_size()
    &&& forall|j: int| 0 <= j < i && bucket[j].state == ContactState::Valid ==> #[trigger] bucket[j].path_size()
        > bucket[i].path_size()
}

/// Valid contacts of the bucket have a non-empty path.
pub open spec fn valid_have_paths(bucket: Seq<Contact>) -> bool {
    forall|j: int| 0 <= j < bucket.len() && (#[trigger] bucket[j]).state == ContactState::Valid ==> bucket[j].path.is_some()
        && bucket[j].path_size() >= 1
}

/// The first valid contact of the bucket with the shortest path.
pub open spec fn closest_in(b: Seq<Contact>) -> Option<int>
    decreases b.len(),
{
    if b.len() == 0 {
        None
    } else {
        let prev = closest_in(b.drop_last());
        let c = b.last();
        if c.state == ContactState::Valid && (prev is None || c.path_size() < b[prev.unwrap()].path_size()) {
            Some(b.len() - 1)
        } else {
            prev
        }
    }
}

/// The prefix entry of a bucket: the entry of its closest contact for the bucket's
/// prefix, `None` for a bucket without valid contacts.
pub open spec fn bucket_prefix_entry(
    bucket: Seq<Contact>,
    prefix_len: u8,
    uln_table: Map<NodeId, UnderlayNeighborId>,
) -> Result<Option<NodeIdEntry>, DeriveFwdEntriesError> {
    match closest_in(bucket) {
        None => Ok(None),
        Some(i) => match node_id_entry(
            bucket[i],
            NodeIdSubnet { prefix: id_prefix(bucket[i].id, prefix_len), len: prefix_len },
            uln_table,
        ) {
            Ok(e) => Ok(Some(e)),
            Err(x) => Err(x),
        },
    }
}

/// The prefix entries after re-deriving bucket `idx`, and the table updates.
pub open spec fn rederived(
    entries: Map<usize, NodeIdSubnet>,
    idx: usize,
    derived: Option<NodeIdEntry>,
) -> (Map<usize, NodeIdSubnet>, Seq<NodeIdTableUpdate>) {
    match derived {
        None => (entries.remove(idx), if entries.contains_key(idx) {
            seq![NodeIdTableUpdate::Remove(entries[idx])]
        } else {
            seq![]
        }),
        Some(e) => (entries.insert(idx, e.spec_destination()), (if entries.contains_key(idx) && entries[idx]
            != e.spec_destination() {
            seq![NodeIdTableUpdate::Remove(entries[idx])]
        } else {
            seq![]
        }) + seq![NodeIdTableUpdate::CreateOrUpdate(e)]),
    }
}

/// Re-deriving the prefix entry of a bucket: the new prefix entries, the table updates
/// and whether it succeeded.
pub open spec fn bucket_step(
    entries: Map<usize, NodeIdSubnet>,
    idx: usize,
    bucket: Seq<Contact>,
    prefix_len: u8,
    uln_table: Map<NodeId, UnderlayNeighborId>,
) -> (Map<usize, NodeIdSubnet>, Seq<NodeIdTableUpdate>, Result<(), DeriveFwdEntriesError>) {
    match bucket_prefix_entry(bucket, prefix_len, uln_table) {
        Err(e) => (entries, seq![], Err(e)),
        Ok(derived) => {
            let (es, us) = rederived(entries, idx, derived);
            (es, us, Ok(()))
        },
    }
}

/// The data of a bucket that its prefix entry is derived from is well-formed: valid
/// contacts have a path, the prefix length is at most the number of bits of a node id,
/// and the closest contact is not this node.
pub open spec fn bucket_ok(bucket: Seq<Contact>, prefix_len: u8, root_id: NodeId) -> bool {
    &&& valid_have_paths(bucket)
    &&& prefix_len <= 128
    &&& closest_in(bucket) matches Some(i) ==> bucket[i].id != root_id
}

/// The use case that derives node-id forwarding-table entries.
#[derive(Debug)]
pub struct DeriveFwdTableEntries {
    state: DeriveFwdTableEntriesState,
    config: DeriveFwdTableEntriesConfig,
}

impl DeriveFwdTableEntries {
    /// The state of the use case.
    pub closed spec fn state_view(&self) -> DeriveFwdTableEntriesState {
        self.state
    }

    /// The configuration.
    pub closed spec fn config_view(&self) -> DeriveFwdTableEntriesConfig {
        self.config
    }

    /// The prefix entry of each bucket, while running.
    pub open spec fn prefix_entries(&self) -> Option<Map<usize, NodeIdSubnet>> {
        match self.state_view() {
            DeriveFwdTableEntriesState::Running { bucket_prefix_entries } => Some(bucket_prefix_entries@),
            _ => None,
        }
    }

    /// Creates the use case in the initialized state.
    pub fn new(config: DeriveFwdTableEntriesConfig) -> (d: Self)
        ensures
            d.state_view() is Initialized,
            d.config_view() == config,
    {
        DeriveFwdTableEntries { state: DeriveFwdTableEntriesState::Initialized, config }
    }

    /// The current state.
    pub fn state(&self) -> (s: &DeriveFwdTableEntriesState)
        ensures
            *s == self.state_view(),
    {
        &self.state
    }

    /// Starts the use case: no prefix entries yet, and packets on the path that consists
    /// of this node alone are decapsulated locally.
    pub fn start(&mut self, root_id: NodeId) -> (update: PathIdTableUpdate)
        ensures
            final(self).prefix_entries() == Some(Map::<usize, NodeIdSubnet>::empty()),
            update == PathIdTableUpdate::Create(
                PathIdEntry::Decapsulate { in_path_id: path_hash(seq![root_id]), next_hop: DecapsulationDestination::Local },
            ),
    {
        let mut in_path: Vec<NodeId> = Vec::new();
        in_path.push(root_id);
        assert(in_path@ =~= seq![root_id]);
        let in_path_id = self.config.hasher.hash(&in_path);
        self.state = DeriveFwdTableEntriesState::Running { bucket_prefix_entries: HashMap::new() };
        PathIdTableUpdate::Create(PathIdEntry::Decapsulate { in_path_id, next_hop: DecapsulationDestination::Local })
    }

    /// Derives the entry of a contact for its own node id.
    pub fn derive_node_id_entry(&self, uln_table: &HashMap<NodeId, UnderlayNeighborId>, contact: &Contact) -> (res: Result<NodeIdEntry, DeriveFwdEntriesError>)
        requires
            contact.path.is_some() && contact.path_size() >= 1,
        ensures
            res == derived_node_id_entry(*contact, uln_table@),
    {
        let path = match &contact.path {
            Some(p) => p,
            None => return Err(DeriveFwdEntriesError::NeighborNotInULNTable(contact.id)),
        };
        let first = path[0];
        let next_hop = match uln_table.get(&first) {
            Some(h) => *h,
            None => return Err(DeriveFwdEntriesError::NeighborNotInULNTable(first)),
        };
        if uln_table.contains_key(&contact.id) && !contact.is_uln() {
            return Err(DeriveFwdEntriesError::NonUNInULNTable(contact.id));
        }
        if contact.is_uln() {
            Ok(NodeIdEntry::Forward { destination: NodeIdSubnet::new(contact.id), next_hop })
        } else {
            Ok(NodeIdEntry::Encapsulate {
                destination: NodeIdSubnet::new(contact.id),
                next_hop,
                out_path_id: self.config.hasher.hash(path),
            })
        }
    }

    /// Derives the prefix entry of a bucket by proximity neighbor selection: the first
    /// valid contact with the shortest path stands for the bucket's prefix.
    pub fn derive_bucket_prefix_entry(
        &self,
        bucket: &Vec<Contact>,
        prefix_len: u8,
        uln_table: &HashMap<NodeId, UnderlayNeighborId>,
        root_id: NodeId,
    ) -> (res: Result<Option<NodeIdEntry>, DeriveFwdEntriesError>)
        requires
            bucket_ok(bucket@, prefix_len, root_id),
        ensures
            res == bucket_prefix_entry(bucket@, prefix_len, uln_table@),
    {
        let mut best: Option<usize> = None;
        let mut i: usize = 0;
        while i < bucket.len()
            invariant
                i <= bucket.len(),
                valid_have_paths(bucket@),
                match best {
                    Some(b) => b < i && closest_in(bucket@.take(i as int)) == Some(b as int),
                    None => closest_in(bucket@.take(i as int)) is None,
                },
            decreases bucket.len() - i,
        {
            assert(bucket@.take(i + 1).drop_last() == bucket@.take(i as int));
            let c = &bucket[i];
            if c.is_valid() {
                let better = match best {
                    None => true,
                    Some(b) => c.path_len() < bucket[b].path_len(),
                };
                if better {
                    best = Some(i);
                }
            }
            proof {
                lemma_closest_bound(bucket@.take(i as int));
                if let Some(b) = best {
                    assert(bucket@.take(i + 1)[b as int] == bucket@[b as int]);
                }
                let prev = closest_in(bucket@.take(i as int));
                if let Some(pb) = prev {
                    assert(bucket@.take(i + 1)[pb] == bucket@[pb]);
                }
            }
            i = i + 1;
        }
        assert(bucket@.take(bucket.len() as int) == bucket@);
        proof {
            lemma_closest_bound(bucket@);
        }
        let closest = match best {
            Some(b) => &bucket[b],
            None => return Ok(None),
        };
        let subnet = NodeIdSubnet { prefix: prefix_of(closest.id, prefix_len), len: prefix_len };
        let path = match &closest.path {
            Some(p) => p,
            None => return Ok(None),
        };
        let first = path[0];
        let next_hop = match uln_table.get(&first) {
            Some(h) => *h,
            None => return Err(DeriveFwdEntriesError::NeighborNotInULNTable(first)),
        };
        if closest.is_uln() {
            Ok(Some(NodeIdEntry::Forward { destination: subnet, next_hop }))
        } else {
            Ok(Some(NodeIdEntry::Encapsulate { destination: subnet, next_hop, out_path_id: self.config.hasher.hash(path) }))
        }
    }

    /// Re-derives the prefix entry of bucket `bucket_index`: a changed prefix replaces the
    /// old one, an empty bucket removes it.
    pub fn update_bucket(
        &mut self,
        bucket_index: usize,
        bucket: &Vec<Contact>,
        prefix_len: u8,
        uln_table: &HashMap<NodeId, UnderlayNeighborId>,
        root_id: NodeId,
    ) -> (res: Result<Vec<NodeIdTableUpdate>, DeriveFwdEntriesError>)
        requires
            old(self).prefix_entries() is Some,
            bucket_ok(bucket@, prefix_len, root_id),
        ensures
            final(self).prefix_entries() is Some,
            match bucket_prefix_entry(bucket@, prefix_len, uln_table@) {
                Err(e) => res == Err::<Vec<NodeIdTableUpdate>, _>(e) && final(self).prefix_entries() == old(self).prefix_entries(),
                Ok(derived) => {
                    let (entries, updates) = rederived(old(self).prefix_entries().unwrap(), bucket_index, derived);
                    &&& final(self).prefix_entries() == Some(entries)
                    &&& res matches Ok(us) && us@ == updates
                },
            },
    {
        let derived = match self.derive_bucket_prefix_entry(bucket, prefix_len, uln_table, root_id) {
            Ok(d) => d,
            Err(e) => return Err(e),
        };
        let entries = match &mut self.state {
            DeriveFwdTableEntriesState::Running { bucket_prefix_entries } => bucket_prefix_entries,
            _ => return Ok(Vec::new()),
        };
        let mut updates: Vec<NodeIdTableUpdate> = Vec::new();
        match derived {
            None => {
                if let Some(old_prefix) = entries.remove(&bucket_index) {
                    updates.push(NodeIdTableUpdate::Remove(old_prefix));
                }
            },
            Some(prefix_entry) => {
                let new_prefix = prefix_entry.destination();
                if let Some(old_prefix) = entries.insert(bucket_index, new_prefix) {
                    if old_prefix != new_prefix {
                        updates.push(NodeIdTableUpdate::Remove(old_prefix));
                    }
                }
                updates.push(NodeIdTableUpdate::CreateOrUpdate(prefix_entry));
            },
        }
        Ok(updates)
    }

    /// Removes the entry of the node; the prefix entry of its bucket is re-derived unless
    /// it stands for another node.
    pub fn remove_node_id_entry(
        &mut self,
        node_id: NodeId,
        bucket_index: usize,
        bucket: &Vec<Contact>,
        prefix_len: u8,
        uln_table: &HashMap<NodeId, UnderlayNeighborId>,
        root_id: NodeId,
    ) -> (res: (Vec<NodeIdTableUpdate>, Result<(), DeriveFwdEntriesError>))
        requires
            old(self).prefix_entries() is Some,
            bucket_ok(bucket@, prefix_len, root_id),
        ensures
            final(self).prefix_entries() is Some,
            ({
                let entries = old(self).prefix_entries().unwrap();
                let removal = NodeIdTableUpdate::Remove(NodeIdSubnet { prefix: node_id, len: 128 });
                if entries.contains_key(bucket_index) && entries[bucket_index].prefix != node_id {
                    res.0@ == seq![removal] && res.1 == Ok::<(), DeriveFwdEntriesError>(()) && final(self).prefix_entries()
                        == old(self).prefix_entries()
                } else {
                    let (es, us, r) = bucket_step(entries, bucket_index, bucket@, prefix_len, uln_table@);
                    res.0@ == seq![removal] + us && res.1 == r && final(self).prefix_entries() == Some(es)
                }
            }),
    {
        let entry = NodeIdSubnet::new(node_id);
        let mut updates: Vec<NodeIdTableUpdate> = Vec::new();
        updates.push(NodeIdTableUpdate::Remove(entry));
        let keep = match &self.state {
            DeriveFwdTableEntriesState::Running { bucket_prefix_entries } => match bucket_prefix_entries.get(&bucket_index) {
                Some(prefix_entry) => prefix_entry.node_id() != node_id,
                None => false,
            },
            _ => false,
        };
        if keep {
            return (updates, Ok(()));
        }
        self.append_bucket_update(bucket_index, bucket, prefix_len, uln_table, root_id, updates)
    }

    /// Creates the entry of the contact and re-derives the prefix entry of its bucket.
    pub fn create_node_id_entry(
        &mut self,
        contact: &Contact,
        bucket_index: usize,
        bucket: &Vec<Contact>,
        prefix_len: u8,
        uln_table: &HashMap<NodeId, UnderlayNeighborId>,
        root_id: NodeId,
    ) -> (res: (Vec<NodeIdTableUpdate>, Result<(), DeriveFwdEntriesError>))
        requires
            old(self).prefix_entries() is Some,
            bucket_ok(bucket@, prefix_len, root_id),
            contact.path.is_some() && contact.path_size() >= 1,
        ensures
            final(self).prefix_entries() is Some,
            match derived_node_id_entry(*contact, uln_table@) {
                Err(e) => res.0@.len() == 0 && res.1 == Err::<(), _>(e) && final(self).prefix_entries() == old(self).prefix_entries(),
                Ok(entry) => {
                    let (es, us, r) = bucket_step(old(self).prefix_entries().unwrap(), bucket_index, bucket@, prefix_len, uln_table@);
                    res.0@ == seq![NodeIdTableUpdate::CreateOrUpdate(entry)] + us && res.1 == r && final(self).prefix_entries()
                        == Some(es)
                },
            },
    {
        let entry = match self.derive_node_id_entry(uln_table, contact) {
            Ok(e) => e,
            Err(e) => return (Vec::new(), Err(e)),
        };
        let mut updates: Vec<NodeIdTableUpdate> = Vec::new();
        updates.push(NodeIdTableUpdate::CreateOrUpdate(entry));
        self.append_bucket_update(bucket_index, bucket, prefix_len, uln_table, root_id, updates)
    }

    /// Updates the entry of the contact and re-derives the prefix entry of its bucket.
    pub fn update_node_id_entry(
        &mut self,
        contact: &Contact,
        bucket_index: usize,
        bucket: &Vec<Contact>,
        prefix_len: u8,
        uln_table: &HashMap<NodeId, UnderlayNeighborId>,
        root_id: NodeId,
    ) -> (res: (Vec<NodeIdTableUpdate>, Result<(), DeriveFwdEntriesError>))
        requires
            old(self).prefix_entries() is Some,
            bucket_ok(bucket@, prefix_len, root_id),
            contact.path.is_some() && contact.path_size() >= 1,
        ensures
            final(self).prefix_entries() is Some,
            match derived_node_id_entry(*contact, uln_table@) {
                Err(e) => res.0@.len() == 0 && res.1 == Err::<(), _>(e) && final(self).prefix_entries() == old(self).prefix_entries(),
                Ok(entry) => {
                    let (es, us, r) = bucket_step(old(self).prefix_entries().unwrap(), bucket_index, bucket@, prefix_len, uln_table@);
                    res.0@ == seq![NodeIdTableUpdate::CreateOrUpdate(entry)] + us && res.1 == r && final(self).prefix_entries()
                        == Some(es)
                },
            },
    {
        self.create_node_id_entry(contact, bucket_index, bucket, prefix_len, uln_table, root_id)
    }

    /// Re-derives the prefix entry of the bucket after the updates already made.
    fn append_bucket_update(
        &mut self,
        bucket_index: usize,
        bucket: &Vec<Contact>,
        prefix_len: u8,
        uln_table: &HashMap<NodeId, UnderlayNeighborId>,
        root_id: NodeId,
        updates: Vec<NodeIdTableUpdate>,
    ) -> (res: (Vec<NodeIdTableUpdate>, Result<(), DeriveFwdEntriesError>))
        requires
            old(self).prefix_entries() is Some,
            bucket_ok(bucket@, prefix_len, root_id),
        ensures
            final(self).prefix_entries() is Some,
            ({
                let (es, us, r) = bucket_step(old(self).prefix_entries().unwrap(), bucket_index, bucket@, prefix_len, uln_table@);
                res.0@ == updates@ + us && res.1 == r && final(self).prefix_entries() == Some(es)
            }),
    {
        let mut updates = updates;
        match self.update_bucket(bucket_index, bucket, prefix_len, uln_table, root_id) {
            Ok(more) => {
                let ghost before = updates@;
                let mut i: usize = 0;
                while i < more.len()
                    invariant
                        i <= more.len(),
                        updates@ == before + more@.take(i as int),
                    decreases more.len() - i,
                {
                    updates.push(more[i]);
                    assert(more@.take(i + 1) == more@.take(i as int).push(more@[i as int]));
                    i = i + 1;
                }
                assert(more@.take(more.len() as int) == more@);
                (updates, Ok(()))
            },
            Err(e) => {
                assert(updates@ + seq![] =~= updates@);
                (updates, Err(e))
            },
        }
    }

    /// Decides the steps that a change of the routing table calls for.
    pub fn plan_contact_event(event: ContactEvent) -> (ops: Vec<FwdTableOp>)
        ensures
            ops@ == planned_ops(event),
    {
        let ghost e = event;
        let mut ops: Vec<FwdTableOp> = Vec::new();
        match event {
            ContactEvent::New(contact) => {
                ops.push(FwdTableOp::CreateNodeIdEntry(contact));
            },
            ContactEvent::Removed(contact) => {
                ops.push(FwdTableOp::RemoveNodeIdEntry(contact.id));
            },
            ContactEvent::Updated { new, old } => {
                let same_id = new.id == old.id;
                match (new.state, old.state) {
                    (ContactState::Invalid, ContactState::Valid) => {
                        if same_id {
                            ops.push(FwdTableOp::RemoveNodeIdEntry(new.id));
                        } else {
                            // the valid contact is displaced by an invalid one
                            ops.push(FwdTableOp::RemoveNodeIdEntry(new.id));
                            ops.push(FwdTableOp::RemoveNodeIdEntry(old.id));
                        }
                    },
                    (ContactState::Rediscovering, ContactState::Valid) => {
                        if same_id {
                            ops.push(FwdTableOp::RemoveNodeIdEntry(new.id));
                        }
                    },
                    (ContactState::Valid, ContactState::Invalid) | (ContactState::Valid, ContactState::Rediscovering) => {
                        ops.push(FwdTableOp::CreateNodeIdEntry(new));
                    },
                    (ContactState::Valid, ContactState::Valid) if !crate::domain::same_path(&new.path, &old.path) => {
                        if same_id {
                            ops.push(FwdTableOp::UpdateNodeIdEntry(new));
                        } else {
                            ops.push(FwdTableOp::RemoveNodeIdEntry(old.id));
                            ops.push(FwdTableOp::CreateNodeIdEntry(new));
                        }
                    },
                    _ => {},
                }
            },
            ContactEvent::BucketUpdated(bucket) => {
                ops.push(FwdTableOp::UpdateBucket(bucket));
            },
            ContactEvent::NewBucket(bucket) => {
                ops.push(FwdTableOp::UpdateBucket(bucket));
            },
        }
        assert(ops@ =~= planned_ops(e));
        ops
    }
}

/// A contact keeps a node-id entry exactly while it is valid: when it stops being valid its
/// entry is removed, when it becomes valid (or is added) an entry is created, when it is
/// removed its entry goes, and a valid contact whose path changes has its entry updated.
/// `ops` are the steps of [DeriveFwdTableEntries::plan_contact_event].
pub proof fn law_entry_follows_validity(new: Contact, old: Contact, ops: Seq<FwdTableOp>)
    requires
        ops == planned_ops(ContactEvent::Updated { new, old }),
        new.id == old.id,
    ensures
        old.state == ContactState::Valid && (new.state == ContactState::Invalid || new.state == ContactState::Rediscovering)
            ==> ops == seq![FwdTableOp::RemoveNodeIdEntry(new.id)],
        new.state == ContactState::Valid && (old.state == ContactState::Invalid || old.state == ContactState::Rediscovering)
            ==> ops == seq![FwdTableOp::CreateNodeIdEntry(new)],
        new.state == ContactState::Valid && old.state == ContactState::Valid && new.path_view() != old.path_view() ==> ops
            == seq![FwdTableOp::UpdateNodeIdEntry(new)],
        new.state == ContactState::Valid && old.state == ContactState::Valid && new.path_view() == old.path_view() ==> ops.len()
            == 0,
        new.state != ContactState::Valid && old.state != ContactState::Valid ==> ops.len() == 0,
{
}

/// An added contact gets an entry and a removed one loses it.
pub proof fn law_added_and_removed_contacts(c: Contact, added: Seq<FwdTableOp>, removed: Seq<FwdTableOp>)
    requires
        added == planned_ops(ContactEvent::New(c)),
        removed == planned_ops(ContactEvent::Removed(c)),
    ensures
        added == seq![FwdTableOp::CreateNodeIdEntry(c)],
        removed == seq![FwdTableOp::RemoveNodeIdEntry(c.id)],
{
}

/// The closest contact of a bucket is its first valid contact with the shortest path; a
/// bucket without a closest contact has no valid contact.
pub proof fn law_closest_is_first_shortest(b: Seq<Contact>)
    ensures
        closest_in(b) matches Some(i) ==> is_closest(b, i),
        closest_in(b) is None ==> forall|j: int| 0 <= j < b.len() ==> (#[trigger] b[j]).state != ContactState::Valid,
    decreases b.len(),
{
    if b.len() > 0 {
        let r = b.drop_last();
        law_closest_is_first_shortest(r);
        assert forall|j: int| 0 <= j < r.len() implies #[trigger] r[j] == b[j] by {}
        let last = b.len() - 1;
        match closest_in(r) {
            Some(p) => {
                assert(is_closest(r, p));
                if b[last].state == ContactState::Valid && b[last].path_size() < b[p].path_size() {
                    assert(closest_in(b) == Some(last));
                    assert forall|j: int| 0 <= j < b.len() && b[j].state == ContactState::Valid implies #[trigger] b[j].path_size()
                        >= b[last].path_size() by {
                        if j < last {
                            assert(r[j] == b[j]);
                        }
                    }
                    assert forall|j: int| 0 <= j < last && b[j].state == ContactState::Valid implies #[trigger] b[j].path_size()
                        > b[last].path_size() by {
                        assert(r[j] == b[j]);
                    }
                } else {
                    assert(closest_in(b) == Some(p));
                    assert forall|j: int| 0 <= j < b.len() && b[j].state == ContactState::Valid implies #[trigger] b[j].path_size()
                        >= b[p].path_size() by {
                        if j < last {
                            assert(r[j] == b[j]);
                        }
                    }
                    assert forall|j: int| 0 <= j < p && b[j].state == ContactState::Valid implies #[trigger] b[j].path_size()
                        > b[p].path_size() by {
                        assert(r[j] == b[j]);
                    }
                }
            },
            None => {
                if b[last].state == ContactState::Valid {
                    assert(closest_in(b) == Some(last));
                    assert forall|j: int| 0 <= j < b.len() && b[j].state == ContactState::Valid implies #[trigger] b[j].path_size()
                        >= b[last].path_size() by {
                        if j < last {
                            assert(r[j] == b[j]);
                        }
                    }
                    assert forall|j: int| 0 <= j < last && b[j].state == ContactState::Valid implies #[trigger] b[j].path_size()
                        > b[last].path_size() by {
                        assert(r[j] == b[j]);
                    }
                } else {
                    assert(closest_in(b) is None);
                    assert forall|j: int| 0 <= j < b.len() implies (#[trigger] b[j]).state != ContactState::Valid by {
                        if j < last {
                            assert(r[j] == b[j]);
                        }
                    }
                }
            },
        }
    }
}

/// The closest contact of a bucket is one of its valid contacts.
proof fn lemma_closest_bound(b: Seq<Contact>)
    ensures
        closest_in(b) matches Some(i) ==> 0 <= i < b.len() && b[i].state == ContactState::Valid,
    decreases b.len(),
{
    if b.len() > 0 {
        lemma_closest_bound(b.drop_last());
    }
}

} // verus!
