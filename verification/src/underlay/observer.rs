//! What the underlay observer does with the link messages of the kernel and the requests
//! of its handles: it keeps the [UnderlayInformationBase] up to date and reports the
//! changes as [UnderlayNeighborUpdate]s, which the caller sends on in order.

use vstd::prelude::*;

use crate::domain::{InterfaceId, UnderlayNeighborId};
use crate::underlay::information_base::{InterfaceView, UnderlayInformationBase};
use crate::underlay::{
    lists_exactly, spec_is_unicast_link_local, EthAddr, Interface, UnderlayNeighborInformation,
    UnderlayNeighborInterfaceDownError, UnderlayNeighborUpdate,
};

verus! {

broadcast use {vstd::std_specs::hash::group_hash_axioms, vstd::seq_lib::group_seq_properties};

/// An attribute of a link message, as far as the observer reads it.
#[derive(Debug)]
pub enum LinkAttribute {
    /// The MAC address of the interface.
    Address(Vec<u8>),
    /// The broadcast MAC address of the interface.
    Broadcast(Vec<u8>),
    /// The carrier state (1: carrier present).
    Carrier(u8),
    /// Whether the protocol holds the link down (0: no).
    ProtoDown(u8),
    /// The operational state: whether it is "down".
    OperState { down: bool },
    /// Any other attribute.
    Other,
}

/// What the attributes of a link message say, the last of each kind counting: the MAC
/// address, the broadcast address, whether the protocol holds the link down, and whether
/// the operational state is down (if it is given).
pub open spec fn link_summary(attrs: Seq<LinkAttribute>) -> (Option<Seq<u8>>, Option<Seq<u8>>, bool, Option<bool>)
    decreases attrs.len(),
{
    if attrs.len() == 0 {
        (None, None, false, None)
    } else {
        let s = link_summary(attrs.drop_last());
        match attrs.last() {
            LinkAttribute::Address(a) => (Some(a@), s.1, s.2, s.3),
            LinkAttribute::Broadcast(b) => (s.0, Some(b@), s.2, s.3),
            LinkAttribute::ProtoDown(p) => (s.0, s.1, p != 0, s.3),
            LinkAttribute::OperState { down } => (s.0, s.1, s.2, Some(down)),
            _ => s,
        }
    }
}

/// The link is up: the protocol does not hold it down and its operational state is given
/// and not down.
pub open spec fn link_is_up(attrs: Seq<LinkAttribute>) -> bool {
    let s = link_summary(attrs);
    !s.2 && s.3 == Some(false)
}

/// Every address attribute holds a MAC address (six bytes), and a link that is up has
/// both addresses.
pub open spec fn link_attributes_ok(attrs: Seq<LinkAttribute>) -> bool {
    &&& forall|i: int| 0 <= i < attrs.len() ==> match #[trigger] attrs[i] {
        LinkAttribute::Address(a) => a@.len() == 6,
        LinkAttribute::Broadcast(b) => b@.len() == 6,
        _ => true,
    }
    &&& link_is_up(attrs) ==> link_summary(attrs).0 is Some && link_summary(attrs).1 is Some
}

/// The updates that report an interface going down with the neighbors listed on it.
pub open spec fn down_updates(interface_id: InterfaceId, ids: Seq<UnderlayNeighborId>) -> Seq<UnderlayNeighborUpdate> {
    seq![UnderlayNeighborUpdate::InterfaceDown(interface_id)] + ids.map_values(
        |id: UnderlayNeighborId| UnderlayNeighborUpdate::UnderlayNeighborDown(id),
    )
}

/// The MAC address in the six bytes.
fn to_mac(bytes: &Vec<u8>) -> (mac: EthAddr)
    requires
        bytes@.len() == 6,
    ensures
        mac@ == bytes@,
{
    let mac: EthAddr = [bytes[0], bytes[1], bytes[2], bytes[3], bytes[4], bytes[5]];
    assert(mac@ =~= bytes@);
    mac
}

/// Reads the attributes of a link message (see [link_summary]).
fn summarize(attrs: &Vec<LinkAttribute>) -> (s: (Option<EthAddr>, Option<EthAddr>, bool, Option<bool>))
    requires
        link_attributes_ok(attrs@),
    ensures
        ({
            let t = link_summary(attrs@);
            &&& (s.0 is Some <==> t.0 is Some) && (s.0 matches Some(m) ==> m@ == t.0->0)
            &&& (s.1 is Some <==> t.1 is Some) && (s.1 matches Some(m) ==> m@ == t.1->0)
            &&& s.2 == t.2
            &&& s.3 == t.3
        }),
{
    let mut mac: Option<EthAddr> = None;
    let mut broadcast: Option<EthAddr> = None;
    let mut proto_down = false;
    let mut link_state: Option<bool> = None;
    let mut i: usize = 0;
    while i < attrs.len()
        invariant
            i <= attrs@.len(),
            link_attributes_ok(attrs@),
            ({
                let t = link_summary(attrs@.take(i as int));
                &&& (mac is Some <==> t.0 is Some) && (mac matches Some(m) ==> m@ == t.0->0)
                &&& (broadcast is Some <==> t.1 is Some) && (broadcast matches Some(m) ==> m@ == t.1->0)
                &&& proto_down == t.2
                &&& link_state == t.3
            }),
        decreases attrs@.len() - i,
    {
        assert(attrs@.take(i + 1).drop_last() == attrs@.take(i as int));
        assert(attrs@.take(i + 1).last() == attrs@[i as int]);
        match &attrs[i] {
            LinkAttribute::Address(a) => {
                mac = Some(to_mac(a));
            },
            LinkAttribute::Broadcast(b) => {
                broadcast = Some(to_mac(b));
            },
            LinkAttribute::ProtoDown(p) => {
                proto_down = *p != 0;
            },
            LinkAttribute::OperState { down } => {
                link_state = Some(*down);
            },
            _ => {},
        }
        i = i + 1;
    }
    assert(attrs@.take(attrs@.len() as int) == attrs@);
    (mac, broadcast, proto_down, link_state)
}

/// Handles a link message about the interface: an interface that is up is added (or
/// updated) and reported up; one that is down is removed, and it and the neighbors listed
/// on it are reported down. An interface that goes down without having been up changes
/// nothing.
pub fn handle_link_message(
    base: &mut UnderlayInformationBase,
    interface_id: InterfaceId,
    attrs: &Vec<LinkAttribute>,
) -> (updates: Vec<UnderlayNeighborUpdate>)
    requires
        old(base).wf(),
        interface_id != 0,
        link_attributes_ok(attrs@),
    ensures
        final(base).wf(),
        final(base).next_ulnid == old(base).next_ulnid,
        link_is_up(attrs@) ==> ({
            let t = link_summary(attrs@);
            let k = interface_id;
            let v: InterfaceView = old(base).interfaces_view()[k];
            let fresh = !old(base).interfaces@.contains_key(k);
            &&& updates@ == seq![UnderlayNeighborUpdate::InterfaceUp(k)]
            &&& final(base).neighbors@ == old(base).neighbors@
            &&& final(base).interfaces_view() == if fresh {
                old(base).interfaces_view().insert(k, (k, t.0->0, t.1->0, Set::<UnderlayNeighborId>::empty()))
            } else if t.0->0 == v.1 && t.1->0 == v.2 {
                old(base).interfaces_view()
            } else {
                old(base).interfaces_view().insert(k, (k, t.0->0, t.1->0, v.3))
            }
        }),
        !link_is_up(attrs@) && !old(base).interfaces@.contains_key(interface_id) ==> updates@.len() == 0
            && final(base).same_state(old(base)),
        !link_is_up(attrs@) && old(base).interfaces@.contains_key(interface_id) ==> {
            let gone = old(base).interfaces@[interface_id].neighbor_set();
            &&& exists|ids: Seq<UnderlayNeighborId>| lists_exactly(ids, gone) && updates@ == down_updates(interface_id, ids)
            &&& final(base).neighbors@ == old(base).neighbors@.remove_keys(gone)
            &&& final(base).interfaces_view() == old(base).interfaces_view().remove(interface_id)
        },
{
    let (mac, broadcast, proto_down, link_state) = summarize(attrs);
    let up = !proto_down && match link_state {
        Some(down) => !down,
        None => false,
    };
    let mut updates: Vec<UnderlayNeighborUpdate> = Vec::new();
    if up {
        let (src_mac, broadcast_mac) = match (mac, broadcast) {
            (Some(m), Some(b)) => (m, b),
            _ => return updates,
        };
        let interface = Interface::new(interface_id, src_mac, broadcast_mac);
        base.interface_up(interface);
        updates.push(UnderlayNeighborUpdate::InterfaceUp(interface_id));
        proof {
            assert(Set::<UnderlayNeighborId>::empty() + old(base).interfaces_view()[interface_id].3 =~= old(
                base,
            ).interfaces_view()[interface_id].3);
        }
        updates
    } else {
        let affected = match base.interface_down(&interface_id) {
            Some(ids) => ids,
            None => return updates,
        };
        updates.push(UnderlayNeighborUpdate::InterfaceDown(interface_id));
        let mut i: usize = 0;
        while i < affected.len()
            invariant
                i <= affected@.len(),
                updates@ == down_updates(interface_id, affected@.take(i as int)),
            decreases affected@.len() - i,
        {
            updates.push(UnderlayNeighborUpdate::UnderlayNeighborDown(affected[i]));
            assert(down_updates(interface_id, affected@.take(i + 1)) =~= down_updates(interface_id, affected@.take(i as int)).push(
                UnderlayNeighborUpdate::UnderlayNeighborDown(affected@[i as int]),
            ));
            i = i + 1;
        }
        assert(affected@.take(affected@.len() as int) == affected@);
        updates
    }
}

/// A request of a handle of the underlay observer.
#[derive(Debug, Clone, Copy, PartialEq, Eq, Structural)]
pub enum HandleRequest {
    /// The information for sending to the neighbor.
    GetInformation(UnderlayNeighborId),
    /// Register the neighbor with the link-local address on the interface.
    RegisterUnderlayNeighbor { interface_id: InterfaceId, ll_ipv6: u128 },
    /// Unregister the neighbor.
    UnregisterUnderlayNeighbor(UnderlayNeighborId),
    /// The interfaces that are up.
    GetAvailable,
}

/// The answer to a [HandleRequest].
#[derive(Debug)]
pub enum HandleResponse {
    Information(Option<UnderlayNeighborInformation>),
    Registered(Result<UnderlayNeighborId, UnderlayNeighborInterfaceDownError>),
    Available(Vec<InterfaceId>),
    /// Unregistering is not answered.
    Unanswered,
}

/// The request can be served without failing: a neighbor to register has a link-local
/// address and there is an id left for it.
pub open spec fn request_ok(base: UnderlayInformationBase, req: HandleRequest) -> bool {
    req matches HandleRequest::RegisterUnderlayNeighbor { ll_ipv6, .. } ==> spec_is_unicast_link_local(ll_ipv6)
        && base.next_ulnid < usize::MAX
}

/// Serves a request of a handle: the answer, and the updates to report (a neighbor that
/// was registered anew is up, one that was unregistered is down).
pub fn handle_request(base: &mut UnderlayInformationBase, req: HandleRequest) -> (res: (HandleResponse, Vec<UnderlayNeighborUpdate>))
    requires
        old(base).wf(),
        request_ok(*old(base), req),
    ensures
        final(base).wf(),
        match req {
            HandleRequest::GetInformation(id) => {
                &&& final(base).same_state(old(base))
                &&& res.1@.len() == 0
                &&& res.0 matches HandleResponse::Information(info) && info == old(base).information(id)
            },
            HandleRequest::RegisterUnderlayNeighbor { interface_id, ll_ipv6 } => {
                &&& res.0 matches HandleResponse::Registered(r)
                &&& if old(base).registered(crate::underlay::UnderlayNeighbor { ll_ipv6, interface_id }) {
                    final(base).same_state(old(base)) && r is Ok && res.1@ == seq![UnderlayNeighborUpdate::UnderlayNeighborUp(r->Ok_0)]
                        && old(base).neighbors@.contains_key(r->Ok_0)
                } else if !old(base).interfaces@.contains_key(interface_id) {
                    final(base).same_state(old(base)) && r == Err::<UnderlayNeighborId, _>(UnderlayNeighborInterfaceDownError(interface_id))
                        && res.1@.len() == 0
                } else {
                    r == Ok::<_, UnderlayNeighborInterfaceDownError>(old(base).next_ulnid)
                        && res.1@ == seq![UnderlayNeighborUpdate::UnderlayNeighborUp(old(base).next_ulnid)]
                        && final(base).next_ulnid == old(base).next_ulnid + 1
                        && final(base).neighbors@ == old(base).neighbors@.insert(
                        old(base).next_ulnid,
                        crate::underlay::UnderlayNeighbor { ll_ipv6, interface_id },
                    )
                }
            },
            HandleRequest::UnregisterUnderlayNeighbor(id) => {
                &&& res.0 matches HandleResponse::Unanswered
                &&& final(base).neighbors@ == old(base).neighbors@.remove(id)
                &&& final(base).next_ulnid == old(base).next_ulnid
                &&& final(base).interfaces_view() == old(base).interfaces_view()
                &&& res.1@ == if old(base).neighbors@.contains_key(id) {
                    seq![UnderlayNeighborUpdate::UnderlayNeighborDown(id)]
                } else {
                    seq![]
                }
            },
            HandleRequest::GetAvailable => {
                &&& final(base).same_state(old(base))
                &&& res.1@.len() == 0
                &&& res.0 matches HandleResponse::Available(ids) && ids@.no_duplicates() && ids@.to_set() == old(base).interfaces@.dom()
            },
        },
{
    let mut updates: Vec<UnderlayNeighborUpdate> = Vec::new();
    match req {
        HandleRequest::GetInformation(id) => (HandleResponse::Information(base.get_information(&id)), updates),
        HandleRequest::RegisterUnderlayNeighbor { interface_id, ll_ipv6 } => {
            let r = base.register_neighbor(interface_id, ll_ipv6);
            if let Ok(id) = r {
                updates.push(UnderlayNeighborUpdate::UnderlayNeighborUp(id));
            }
            (HandleResponse::Registered(r), updates)
        },
        HandleRequest::UnregisterUnderlayNeighbor(id) => {
            if base.unregister_neighbor(&id).is_some() {
                updates.push(UnderlayNeighborUpdate::UnderlayNeighborDown(id));
            }
            (HandleResponse::Unanswered, updates)
        },
        HandleRequest::GetAvailable => (HandleResponse::Available(base.get_available()), updates),
    }
}

} // verus!
