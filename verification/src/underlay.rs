//! The underlay: interfaces and the underlay neighbors reached over them.

use std::collections::HashSet;

use vstd::prelude::*;
use vstd::std_specs::iter::IteratorSpec;

use crate::domain::{InterfaceId, UnderlayNeighborId};

pub mod information_base;
pub mod observer;


verus! {

broadcast use vstd::std_specs::hash::group_hash_axioms;

/// An Ethernet (MAC) address.
pub type EthAddr = [u8; 6];

/// The address lies in fe80::/10, the link-local unicast range (IPv6 addresses are held
/// as the 128-bit number of their bytes in network order).
pub open spec fn spec_is_unicast_link_local(ip: u128) -> bool {
    (ip >> 118u128) == 0x3fau128
}

/// Whether the IPv6 address is a link-local unicast address.
pub fn is_unicast_link_local(ip: u128) -> (b: bool)
    ensures
        b == spec_is_unicast_link_local(ip),
{
    (ip >> 118u128) == 0x3fau128
}

/// Whether the two MAC addresses are equal.
pub fn same_mac(a: &EthAddr, b: &EthAddr) -> (eq: bool)
    ensures
        eq == (a@ == b@),
{
    let eq = a[0] == b[0] && a[1] == b[1] && a[2] == b[2] && a[3] == b[3] && a[4] == b[4] && a[5] == b[5];
    if eq {
        assert(a@ =~= b@);
    } else {
        assert(a@ != b@) by {
            if a@ == b@ {
                assert(a@[0] == b@[0] && a@[1] == b@[1] && a@[2] == b@[2]);
                assert(a@[3] == b@[3] && a@[4] == b@[4] && a@[5] == b@[5]);
            }
        }
    }
    eq
}

/// A neighbor in the underlay: its link-local address and the interface it is reached over.
#[derive(Debug, Clone, Copy, PartialEq, Eq, Hash, Structural)]
pub struct UnderlayNeighbor {
    /// Link-local unicast IPv6 address.
    pub ll_ipv6: u128,
    pub interface_id: InterfaceId,
}

impl UnderlayNeighbor {
    /// The neighbor with the link-local address on the interface.
    pub fn new(ll_ipv6: u128, interface_id: InterfaceId) -> (n: Self)
        requires
            spec_is_unicast_link_local(ll_ipv6),
        ensures
            n == (UnderlayNeighbor { ll_ipv6, interface_id }),
    {
        UnderlayNeighbor { ll_ipv6, interface_id }
    }

    /// What it takes to send to the neighbor over the interface.
    pub fn information(&self, interface: &Interface) -> (info: UnderlayNeighborInformation)
        requires
            self.interface_id == interface.interface_id,
        ensures
            info == information_of(*self, *interface),
    {
        UnderlayNeighborInformation::new(self, interface)
    }
}

/// A network interface that is up: its addresses and the underlay neighbors registered
/// on it.
#[derive(Debug)]
pub struct Interface {
    pub interface_id: InterfaceId,
    pub src_mac: EthAddr,
    pub broadcast_mac: EthAddr,
    /// The underlay neighbors registered on the interface.
    pub neighbors: HashSet<UnderlayNeighborId>,
}

/// An interface seen from outside: its id, addresses and neighbors.
pub open spec fn interface_view(i: Interface) -> (InterfaceId, Seq<u8>, Seq<u8>, Set<UnderlayNeighborId>) {
    (i.interface_id, i.src_mac@, i.broadcast_mac@, i.neighbor_set())
}

/// The ids are exactly the set, each once.
pub open spec fn lists_exactly(ids: Seq<UnderlayNeighborId>, s: Set<UnderlayNeighborId>) -> bool {
    ids.no_duplicates() && ids.to_set() == s
}

impl Interface {
    /// The underlay neighbors registered on the interface.
    pub open spec fn neighbor_set(&self) -> Set<UnderlayNeighborId> {
        self.neighbors@
    }

    /// An interface without neighbors.
    pub fn new(interface_id: InterfaceId, src_mac: EthAddr, broadcast_mac: EthAddr) -> (i: Self)
        ensures
            i.interface_id == interface_id,
            i.src_mac == src_mac,
            i.broadcast_mac == broadcast_mac,
            i.neighbor_set() == Set::<UnderlayNeighborId>::empty(),
    {
        Interface { interface_id, src_mac, broadcast_mac, neighbors: HashSet::new() }
    }

    /// Registers the underlay neighbor on the interface (each neighbor once).
    pub fn add_neighbor(&mut self, ulnid: UnderlayNeighborId)
        requires
            !old(self).neighbor_set().contains(ulnid),
        ensures
            final(self).interface_id == old(self).interface_id,
            final(self).src_mac == old(self).src_mac,
            final(self).broadcast_mac == old(self).broadcast_mac,
            final(self).neighbor_set() == old(self).neighbor_set().insert(ulnid),
    {
        self.neighbors.insert(ulnid);
    }

    /// The underlay neighbors registered on the interface, each once, in no particular
    /// order.
    pub fn neighbors(&self) -> (ids: Vec<UnderlayNeighborId>)
        ensures
            lists_exactly(ids@, self.neighbor_set()),
    {
        set_elements(&self.neighbors)
    }

    /// The underlay neighbors registered on the interface, consuming it.
    pub fn into_neighbors(self) -> (ids: Vec<UnderlayNeighborId>)
        ensures
            lists_exactly(ids@, self.neighbor_set()),
    {
        set_elements(&self.neighbors)
    }
}

/// The elements of the set, each once.
fn set_elements(s: &HashSet<UnderlayNeighborId>) -> (ids: Vec<UnderlayNeighborId>)
    ensures
        lists_exactly(ids@, s@),
{
    let mut ids: Vec<UnderlayNeighborId> = Vec::new();
    for k in it: s.iter()
        invariant
            it.seq() == s.iter().remaining(),
            ids@.len() == it.index(),
            forall|i: int| 0 <= i < it.index() ==> ids@[i] == *(#[trigger] it.seq()[i]),
    {
        ids.push(*k);
    }
    proof {
        let sq = s.iter().remaining();
        assert(sq.unref().to_set() == s@);
        assert(ids@ =~= sq.unref());
        assert forall|i: int, j: int| 0 <= i < ids@.len() && 0 <= j < ids@.len() && i != j implies ids@[i] != ids@[j] by {
            assert(sq[i] != sq[j]);
        }
    }
    ids
}

/// What it takes to send to an underlay neighbor.
#[derive(Debug, Clone, Copy, PartialEq, Eq)]
pub struct UnderlayNeighborInformation {
    pub interface_id: InterfaceId,
    pub src_mac: EthAddr,
    pub broadcast_mac: EthAddr,
    pub ll_ipv6: u128,
}

/// The information of the neighbor reached over the interface.
pub open spec fn information_of(n: UnderlayNeighbor, i: Interface) -> UnderlayNeighborInformation {
    UnderlayNeighborInformation {
        interface_id: n.interface_id,
        src_mac: i.src_mac,
        broadcast_mac: i.broadcast_mac,
        ll_ipv6: n.ll_ipv6,
    }
}

impl UnderlayNeighborInformation {
    /// The information of the neighbor reached over its interface.
    pub fn new(neighbor: &UnderlayNeighbor, interface: &Interface) -> (info: Self)
        requires
            neighbor.interface_id == interface.interface_id,
        ensures
            info == information_of(*neighbor, *interface),
    {
        UnderlayNeighborInformation {
            interface_id: neighbor.interface_id,
            src_mac: interface.src_mac,
            broadcast_mac: interface.broadcast_mac,
            ll_ipv6: neighbor.ll_ipv6,
        }
    }
}

/// A change in the underlay that the rest of the node learns of.
#[derive(Debug, Clone, Copy, PartialEq, Eq, Structural)]
pub enum UnderlayNeighborUpdate {
    InterfaceUp(InterfaceId),
    InterfaceDown(InterfaceId),
    UnderlayNeighborUp(UnderlayNeighborId),
    UnderlayNeighborDown(UnderlayNeighborId),
}

/// The interface that an underlay neighbor would be reached over is down.
#[derive(Debug, Clone, Copy, PartialEq, Eq, Structural)]
pub struct UnderlayNeighborInterfaceDownError(pub InterfaceId);

impl UnderlayNeighborInterfaceDownError {
    /// A description of the error.
    pub fn message(&self) -> (m: String)
        ensures
            m@ == "Interface "@ + decimal(self.0 as nat) + " that is used by the underlay neighbor is down"@,
    {
        let mut m = String::from_str("Interface ");
        append_decimal(&mut m, self.0);
        m.append(" that is used by the underlay neighbor is down");
        m
    }
}

/// The character of a decimal digit.
pub open spec fn digit_char(d: nat) -> char {
    if d == 0 {
        '0'
    } else if d == 1 {
        '1'
    } else if d == 2 {
        '2'
    } else if d == 3 {
        '3'
    } else if d == 4 {
        '4'
    } else if d == 5 {
        '5'
    } else if d == 6 {
        '6'
    } else if d == 7 {
        '7'
    } else if d == 8 {
        '8'
    } else {
        '9'
    }
}

/// The decimal notation of the number, without leading zeros.
pub open spec fn decimal(n: nat) -> Seq<char>
    decreases n,
{
    if n < 10 {
        seq![digit_char(n)]
    } else {
        decimal(n / 10).push(digit_char(n % 10))
    }
}

/// The text of a decimal digit.
fn digit_str(d: u32) -> (s: &'static str)
    requires
        d < 10,
    ensures
        s@ == seq![digit_char(d as nat)],
{
    proof {
        reveal_strlit("0");
        reveal_strlit("1");
        reveal_strlit("2");
        reveal_strlit("3");
        reveal_strlit("4");
        reveal_strlit("5");
        reveal_strlit("6");
        reveal_strlit("7");
        reveal_strlit("8");
        reveal_strlit("9");
    }
    if d == 0 {
        "0"
    } else if d == 1 {
        "1"
    } else if d == 2 {
        "2"
    } else if d == 3 {
        "3"
    } else if d == 4 {
        "4"
    } else if d == 5 {
        "5"
    } else if d == 6 {
        "6"
    } else if d == 7 {
        "7"
    } else if d == 8 {
        "8"
    } else {
        "9"
    }
}

/// Appends the decimal notation of the number.
fn append_decimal(s: &mut String, n: u32)
    ensures
        final(s)@ == old(s)@ + decimal(n as nat),
    decreases n,
{
    if n >= 10 {
        append_decimal(s, n / 10);
    }
    s.append(digit_str(n % 10));
    proof {
        if n >= 10 {
            assert(decimal(n as nat) == decimal((n / 10) as nat).push(digit_char((n % 10) as nat)));
        }
    }
}

} // verus!
