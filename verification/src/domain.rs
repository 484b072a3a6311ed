//! Identifiers, contacts, paths and forwarding-table entries shared by all parts of the
//! protocol.

use vstd::prelude::*;

verus! {

/// Identifier of a node in the overlay (128 bits).
pub type NodeId = u128;

/// Nonce identifying a request and its response.
pub type Nonce = u64;

/// Identifier of a timer registered at the runtime.
pub type TimerId = u64;

/// Identifier of an underlay neighbor (a directly connected node).
pub type UnderlayNeighborId = usize;

/// Identifier of a network interface.
pub type InterfaceId = u32;

/// A path through the underlay: the sequence of nodes it visits.
pub type Path = Vec<NodeId>;

/// Compact identifier of a [Path] (its hash).
pub type PathId = u64;

/// Points in time and durations, in microseconds.
pub type Micros = u64;

/// Number of bits of a [NodeId].
pub const NODE_ID_BITS: u8 = 128;

/// Radius of the vicinity in underlay hops.
pub const VICINITY_RADIUS: usize = 3;

/// Builds the [NodeId] whose most significant byte is `msb` and whose other bits are zero.
pub fn node_id_with_msb(msb: u8) -> (id: NodeId)
    ensures
        id == msb as u128 * 0x100_0000_0000_0000_0000_0000_0000_0000,
{
    (msb as u128) * 0x100_0000_0000_0000_0000_0000_0000_0000
}

/// The first `len` bits of `id`, the other bits zero.
pub open spec fn id_prefix(id: NodeId, len: u8) -> NodeId {
    if len == 0 {
        0
    } else if len >= 128 {
        id
    } else {
        (id >> ((128 - len) as u128)) << ((128 - len) as u128)
    }
}

/// The first `len` bits of `id`, the other bits zero.
pub fn prefix_of(id: NodeId, len: u8) -> (p: NodeId)
    ensures
        p == id_prefix(id, len),
{
    if len == 0 {
        0
    } else if len >= 128 {
        id
    } else {
        (id >> ((128 - len) as u128)) << ((128 - len) as u128)
    }
}

/// State of a contact in the routing table.
#[derive(Debug, Clone, Copy, PartialEq, Eq, Structural)]
pub enum ContactState {
    /// The contact has an active path.
    Valid,
    /// The contact's path broke.
    Invalid,
    /// A new path to the contact is being searched.
    Rediscovering,
    /// The contact could not be rediscovered and is to be removed.
    Dead,
}

/// A contact of the routing table: a node and the active path to it.
///
/// The path starts with the underlay neighbor that is the next hop and ends with the node.
#[derive(Debug)]
pub struct Contact {
    pub id: NodeId,
    pub state: ContactState,
    pub path: Option<Path>,
}

impl Contact {
    /// The contact's active path, if any.
    pub open spec fn path_view(&self) -> Option<Seq<NodeId>> {
        match self.path {
            Some(p) => Some(p@),
            None => None,
        }
    }

    /// Number of hops of the active path (0 without a path).
    pub open spec fn path_size(&self) -> nat {
        match self.path {
            Some(p) => p@.len(),
            None => 0,
        }
    }

    /// The contact is an underlay neighbor: its path is a single hop.
    pub open spec fn spec_is_uln(&self) -> bool {
        self.path_size() == 1
    }

    /// Whether the contact is an underlay neighbor (its path is a single hop).
    pub fn is_uln(&self) -> (b: bool)
        ensures
            b == self.spec_is_uln(),
    {
        match &self.path {
            Some(p) => p.len() == 1,
            None => false,
        }
    }

    /// Whether the contact is valid.
    pub fn is_valid(&self) -> (b: bool)
        ensures
            b == (self.state == ContactState::Valid),
    {
        self.state == ContactState::Valid
    }

    /// Number of hops of the active path (0 without a path).
    pub fn path_len(&self) -> (n: usize)
        ensures
            n == self.path_size(),
    {
        match &self.path {
            Some(p) => p.len(),
            None => 0,
        }
    }
}

/// A copy of the contact.
pub fn copy_contact(c: &Contact) -> (d: Contact)
    ensures
        d.id == c.id,
        d.state == c.state,
        d.path_view() == c.path_view(),
{
    let path = match &c.path {
        Some(p) => Some(copy_path(p)),
        None => None,
    };
    Contact { id: c.id, state: c.state, path }
}

/// Whether two optional paths are equal.
pub fn same_path(a: &Option<Path>, b: &Option<Path>) -> (eq: bool)
    ensures
        eq == (match (a, b) {
            (Some(x), Some(y)) => x@ == y@,
            (None, None) => true,
            _ => false,
        }),
{
    match (a, b) {
        (Some(x), Some(y)) => same_nodes(x, y),
        (None, None) => true,
        _ => false,
    }
}

/// Whether two paths visit the same nodes in the same order.
pub fn same_nodes(x: &Vec<NodeId>, y: &Vec<NodeId>) -> (eq: bool)
    ensures
        eq == (x@ == y@),
{
    if x.len() != y.len() {
        return false;
    }
    let mut i: usize = 0;
    while i < x.len()
        invariant
            i <= x.len(),
            x.len() == y.len(),
            forall|j: int| 0 <= j < i ==> x@[j] == y@[j],
        decreases x.len() - i,
    {
        if x[i] != y[i] {
            assert(x@[i as int] != y@[i as int]);
            return false;
        }
        i = i + 1;
    }
    assert(x@ =~= y@);
    true
}

/// Kind of a protocol message.
#[derive(Debug, Clone, Copy, PartialEq, Eq, Structural)]
pub enum ProtocolMessageKind {
    ULNHello,
    ULNDiscReq,
    ULNDiscRsp,
    QueryRouteReq,
    QueryRouteRsp,
    FindNodeReq,
    FindNodeRsp,
    StoreReq,
    StoreRsp,
    FetchReq,
    FetchRsp,
    Error,
}

/// State sequence number that a node announces for its set of underlay neighbors.
#[derive(Debug, Clone, Copy, PartialEq, Eq, Structural)]
pub enum StateSeqNr {
    /// Not a valid sequence number.
    Invalid,
    /// The node restarted its numbering.
    Reset,
    /// A valid sequence number.
    Value(u64),
}

/// A grouping of node-id bits that does not fit a node id.
#[derive(Debug, Clone, Copy, PartialEq, Eq, Structural)]
pub enum GroupingError {
    /// Groups of `group_size` bits are larger than a node id.
    Invalid { group_size: usize },
}

/// The data of a StoreReq: a value to store under a key.
#[derive(Debug)]
pub struct StoreReqData {
    /// The key.
    pub handle: NodeId,
    /// The value.
    pub data: Vec<u8>,
    /// How many milliseconds ago the value was last accessed (set when it is republished).
    pub last_accessed_ms: Option<u64>,
}

/// The key, the bytes and the age of a StoreReq's data.
pub open spec fn payload_view(p: StoreReqData) -> (NodeId, Seq<u8>, Option<u64>) {
    (p.handle, p.data@, p.last_accessed_ms)
}

/// A copy of the bytes.
pub fn copy_bytes(v: &Vec<u8>) -> (c: Vec<u8>)
    ensures
        c@ == v@,
{
    let mut c: Vec<u8> = Vec::new();
    let mut i: usize = 0;
    while i < v.len()
        invariant
            i <= v.len(),
            c@ == v@.take(i as int),
        decreases v.len() - i,
    {
        c.push(v[i]);
        i = i + 1;
    }
    assert(v@.take(v.len() as int) == v@);
    c
}

/// A copy of the StoreReq's data.
pub fn copy_payload(p: &StoreReqData) -> (c: StoreReqData)
    ensures
        payload_view(c) == payload_view(*p),
{
    StoreReqData { handle: p.handle, data: copy_bytes(&p.data), last_accessed_ms: p.last_accessed_ms }
}

/// A copy of the path.
pub fn copy_path(path: &Vec<NodeId>) -> (copy: Vec<NodeId>)
    ensures
        copy@ == path@,
{
    let mut copy: Vec<NodeId> = Vec::new();
    let mut i: usize = 0;
    while i < path.len()
        invariant
            i <= path.len(),
            copy@ == path@.take(i as int),
        decreases path.len() - i,
    {
        copy.push(path[i]);
        i = i + 1;
    }
    assert(path@.take(path.len() as int) == path@);
    copy
}

/// The path reversed.
pub fn reversed_path(route: &Vec<NodeId>) -> (r: Vec<NodeId>)
    ensures
        r@ == route@.reverse(),
{
    let mut r: Vec<NodeId> = Vec::new();
    let mut i: usize = route.len();
    while i > 0
        invariant
            i <= route.len(),
            r@ == route@.subrange(i as int, route@.len() as int).reverse(),
        decreases i,
    {
        i = i - 1;
        r.push(route[i]);
        proof {
            assert(route@.subrange(i as int, route@.len() as int).reverse() =~= route@.subrange(i + 1, route@.len() as int).reverse().push(route@[i as int]));
        }
    }
    assert(route@.subrange(0, route@.len() as int) == route@);
    r
}

/// The route of a message through the underlay: the nodes it visits, the source first, and
/// the index of the node it is at.
#[derive(Debug)]
pub struct SourceRoute {
    pub hops: Vec<NodeId>,
    pub current: usize,
}

impl SourceRoute {
    /// The message is at one of the hops.
    pub open spec fn wf(&self) -> bool {
        self.current < self.hops@.len()
    }

    /// The hops from the source up to the current one.
    pub open spec fn traveled(&self) -> Seq<NodeId> {
        self.hops@.take(self.current + 1)
    }

    /// The route of a message that starts at the node.
    pub fn from_node(id: NodeId) -> (r: Self)
        ensures
            r.hops@ == seq![id],
            r.current == 0,
    {
        let mut hops: Vec<NodeId> = Vec::new();
        hops.push(id);
        SourceRoute { hops, current: 0 }
    }

    /// The first hop.
    pub fn source(&self) -> (id: NodeId)
        requires
            self.wf(),
        ensures
            id == self.hops@[0],
    {
        self.hops[0]
    }

    /// The last hop.
    pub fn destination(&self) -> (id: NodeId)
        requires
            self.wf(),
        ensures
            id == self.hops@.last(),
    {
        self.hops[self.hops.len() - 1]
    }

    /// The hop the message is at.
    pub fn current_hop(&self) -> (id: NodeId)
        requires
            self.wf(),
        ensures
            id == self.hops@[self.current as int],
    {
        self.hops[self.current]
    }

    /// The hop after the current one, if any.
    pub fn next_hop(&self) -> (id: Option<NodeId>)
        requires
            self.wf(),
        ensures
            self.current + 1 < self.hops@.len() ==> id == Some(self.hops@[self.current + 1]),
            self.current + 1 >= self.hops@.len() ==> id is None,
    {
        let n = self.hops.len();
        if self.current < n - 1 {
            Some(self.hops[self.current + 1])
        } else {
            None
        }
    }

    /// The route back to the source along the hops traveled so far, starting here.
    pub fn reversed(&self) -> (r: Self)
        requires
            self.wf(),
        ensures
            r.hops@ == self.traveled().reverse(),
            r.current == 0,
            r.wf(),
    {
        let mut hops: Vec<NodeId> = Vec::new();
        let n = self.hops.len();
        assert(self.current < n);
        let mut i: usize = self.current + 1;
        while i > 0
            invariant
                i <= self.current + 1,
                self.wf(),
                hops@ == self.traveled().subrange(i as int, self.current + 1).reverse(),
            decreases i,
        {
            i = i - 1;
            hops.push(self.hops[i]);
            proof {
                assert(self.traveled().subrange(i as int, self.current + 1).reverse() =~= self.traveled().subrange(
                    i + 1,
                    self.current + 1,
                ).reverse().push(self.traveled()[i as int]));
            }
        }
        assert(self.traveled().subrange(0, self.current + 1) == self.traveled());
        SourceRoute { hops, current: 0 }
    }

    /// The route extended by the path and moved on to its first hop.
    pub fn extended_and_advanced(&self, path: &Vec<NodeId>) -> (r: Self)
        requires
            self.wf(),
            path@.len() >= 1,
        ensures
            r.hops@ == self.hops@ + path@,
            r.current == self.current + 1,
            r.wf(),
    {
        let n = self.hops.len();
        assert(self.current < n);
        let mut hops = copy_path(&self.hops);
        let mut rest = copy_path(path);
        hops.append(&mut rest);
        SourceRoute { hops, current: self.current + 1 }
    }

    /// The route moved on to the next hop.
    pub fn advanced(&self) -> (r: Self)
        requires
            self.current + 1 < self.hops@.len(),
        ensures
            r.hops@ == self.hops@,
            r.current == self.current + 1,
            r.wf(),
    {
        let n = self.hops.len();
        assert(self.current + 1 < n);
        SourceRoute { hops: copy_path(&self.hops), current: self.current + 1 }
    }
}

/// A range of node ids: all ids that start with `prefix` in their first `len` bits.
#[derive(Debug, Clone, Copy, PartialEq, Eq, Structural)]
pub struct NodeIdSubnet {
    pub prefix: NodeId,
    pub len: u8,
}

impl NodeIdSubnet {
    /// The subnet of exactly one node id.
    pub fn new(id: NodeId) -> (s: Self)
        ensures
            s == (NodeIdSubnet { prefix: id, len: 128 }),
    {
        NodeIdSubnet { prefix: id, len: 128 }
    }

    /// The node id that this subnet was made from.
    pub fn node_id(&self) -> (id: NodeId)
        ensures
            id == self.prefix,
    {
        self.prefix
    }
}

/// An entry of the node-id forwarding table.
#[derive(Debug, Clone, Copy, PartialEq, Eq, Structural)]
pub enum NodeIdEntry {
    /// Forward packets for the destination directly to the underlay neighbor.
    Forward { destination: NodeIdSubnet, next_hop: UnderlayNeighborId },
    /// Encapsulate packets for the destination with the path id and send them to the
    /// underlay neighbor.
    Encapsulate { destination: NodeIdSubnet, next_hop: UnderlayNeighborId, out_path_id: PathId },
}

impl NodeIdEntry {
    /// The destination of the entry.
    pub open spec fn spec_destination(self) -> NodeIdSubnet {
        match self {
            NodeIdEntry::Forward { destination, .. } => destination,
            NodeIdEntry::Encapsulate { destination, .. } => destination,
        }
    }

    /// The destination of the entry.
    pub fn destination(&self) -> (d: NodeIdSubnet)
        ensures
            d == self.spec_destination(),
    {
        match self {
            NodeIdEntry::Forward { destination, .. } => *destination,
            NodeIdEntry::Encapsulate { destination, .. } => *destination,
        }
    }
}

/// A change of the node-id forwarding table.
#[derive(Debug, Clone, Copy, PartialEq, Eq, Structural)]
pub enum NodeIdTableUpdate {
    CreateOrUpdate(NodeIdEntry),
    Remove(NodeIdSubnet),
}

/// Where a decapsulated packet goes.
#[derive(Debug, Clone, Copy, PartialEq, Eq, Structural)]
pub enum DecapsulationDestination {
    /// The packet is for this node.
    Local,
}

/// An entry of the path-id forwarding table that forwards along a path.
#[derive(Debug, Clone, Copy, PartialEq, Eq, Structural)]
pub struct PathIdForwardingEntry {
    pub in_path_id: PathId,
    pub out_path_id: PathId,
    pub next_hop: UnderlayNeighborId,
}

/// An entry of the path-id forwarding table.
#[derive(Debug, Clone, Copy, PartialEq, Eq, Structural)]
pub enum PathIdEntry {
    Forward(PathIdForwardingEntry),
    Decapsulate { in_path_id: PathId, next_hop: DecapsulationDestination },
}

/// A change of the path-id forwarding table.
#[derive(Debug, Clone, Copy, PartialEq, Eq, Structural)]
pub enum PathIdTableUpdate {
    Create(PathIdEntry),
    CreateOrUpdate(PathIdEntry),
    Update(PathIdEntry),
    Remove(PathId),
}

/// Offset basis of the 64-bit FNV-1a hash.
pub const FNV_OFFSET: u64 = 0xcbf29ce484222325;

/// Prime of the 64-bit FNV-1a hash.
pub const FNV_PRIME: u64 = 0x100000001b3;

/// One FNV-1a step on a 64-bit word.
pub open spec fn fnv_step(h: u64, w: u64) -> u64 {
    (((h ^ w) as nat * FNV_PRIME as nat) % 0x1_0000_0000_0000_0000) as u64
}

/// The path id of a path: FNV-1a over the low and the high 64 bits of each node id.
pub open spec fn path_hash(p: Seq<NodeId>) -> u64
    decreases p.len(),
{
    if p.len() == 0 {
        FNV_OFFSET
    } else {
        let h = path_hash(p.drop_last());
        let id = p.last();
        fnv_step(fnv_step(h, id as u64), (id >> 64u128) as u64)
    }
}

/// Derives [PathId]s from [Path]s.
///
/// The ids are a 64-bit FNV-1a hash of the node ids ([path_hash]), not the SHA-1 path ids
/// of the protocol's configured hasher. Path ids computed here differ from those of nodes
/// that derive them with SHA-1: on path ids (forwarding-table entries, explicit and
/// precomputed paths) this library cannot interoperate with such nodes; path ids agree
/// only between nodes that use this hasher.
#[derive(Debug, Clone, Copy, PartialEq, Eq, Default)]
pub struct Hasher;

impl Hasher {
    /// The path id of the path.
    pub fn hash(&self, path: &Vec<NodeId>) -> (id: PathId)
        ensures
            id == path_hash(path@),
    {
        let mut h: u64 = FNV_OFFSET;
        let mut i: usize = 0;
        while i < path.len()
            invariant
                i <= path.len(),
                h == path_hash(path@.take(i as int)),
            decreases path.len() - i,
        {
            let id = path[i];
            h = (h ^ (id as u64)).wrapping_mul(FNV_PRIME);
            h = (h ^ ((id >> 64u128) as u64)).wrapping_mul(FNV_PRIME);
            assert(path@.take(i + 1).drop_last() == path@.take(i as int));
            i = i + 1;
        }
        assert(path@.take(path.len() as int) == path@);
        h
    }
}

} // verus!
