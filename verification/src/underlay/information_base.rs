//! Bookkeeping of the interfaces that are up and of the underlay neighbors registered on
//! them.

use std::collections::HashMap;

use vstd::prelude::*;
use vstd::std_specs::iter::IteratorSpec;

use crate::domain::{InterfaceId, UnderlayNeighborId};
use crate::underlay::{
    information_of, interface_view, lists_exactly, same_mac, spec_is_unicast_link_local, Interface,
    UnderlayNeighbor, UnderlayNeighborInformation, UnderlayNeighborInterfaceDownError,
};

verus! {

broadcast use {vstd::std_specs::hash::group_hash_axioms, vstd::seq_lib::group_seq_properties};

/// An interface seen from outside: its id, its two MAC addresses and its neighbors.
pub type InterfaceView = (InterfaceId, Seq<u8>, Seq<u8>, Set<UnderlayNeighborId>);

/// Manages the interfaces that are up and the underlay neighbors registered on them, each
/// under an id of its own.
#[derive(Debug)]
pub struct UnderlayInformationBase {
    /// The id that the next registered neighbor gets.
    pub next_ulnid: UnderlayNeighborId,
    /// The registered neighbors by id.
    pub neighbors: HashMap<UnderlayNeighborId, UnderlayNeighbor>,
    /// The id of each registered neighbor.
    pub neighbor_ids: Vec<(UnderlayNeighbor, UnderlayNeighborId)>,
    /// The interfaces that are up, by id.
    pub interfaces: HashMap<InterfaceId, Interface>,
}

impl UnderlayInformationBase {
    /// The interfaces that are up, seen from outside.
    pub open spec fn interfaces_view(&self) -> Map<InterfaceId, InterfaceView> {
        self.interfaces@.map_values(|i: Interface| interface_view(i))
    }

    /// The neighbor is registered (under some id).
    pub open spec fn registered(&self, n: UnderlayNeighbor) -> bool {
        exists|id: UnderlayNeighborId| #[trigger] self.neighbors@.contains_key(id) && self.neighbors@[id] == n
    }

    /// `neighbor_ids` lists each registered neighbor once, with its id.
    pub open spec fn ids_mirror(&self) -> bool {
        let v = self.neighbor_ids@;
        let m = self.neighbors@;
        &&& forall|i: int| 0 <= i < v.len() ==> m.contains_key(#[trigger] v[i].1) && m[v[i].1] == v[i].0
        &&& forall|id: UnderlayNeighborId| #[trigger] m.contains_key(id) ==> exists|i: int| 0 <= i < v.len() && v[i].1 == id
        &&& forall|i: int, j: int| 0 <= i < j < v.len() ==> v[i].0 != v[j].0
    }

    /// The ids handed out are below the next one; every registered neighbor is registered on
    /// its interface, which is up; interfaces are kept under their own id.
    pub open spec fn wf(&self) -> bool {
        let m = self.neighbors@;
        let ifs = self.interfaces@;
        &&& 1 <= self.next_ulnid
        &&& self.ids_mirror()
        &&& forall|id: UnderlayNeighborId| #[trigger] m.contains_key(id) ==> 1 <= id < self.next_ulnid
        &&& forall|k: InterfaceId| #[trigger] ifs.contains_key(k) ==> ifs[k].interface_id == k
        &&& forall|k: InterfaceId, id: UnderlayNeighborId|
            ifs.contains_key(k) && #[trigger] ifs[k].neighbor_set().contains(id) ==> id < self.next_ulnid
        &&& forall|id: UnderlayNeighborId| #[trigger] m.contains_key(id) ==> ifs.contains_key(m[id].interface_id)
            && ifs[m[id].interface_id].neighbor_set().contains(id)
    }

    /// The mirror depends on the neighbors and their listing alone.
    proof fn lemma_mirror_kept(a: &Self, b: &Self)
        requires
            a.ids_mirror(),
            b.neighbors@ == a.neighbors@,
            b.neighbor_ids@ == a.neighbor_ids@,
        ensures
            b.ids_mirror(),
    {
        assert forall|id: UnderlayNeighborId| #[trigger] b.neighbors@.contains_key(id) implies exists|i: int|
            0 <= i < b.neighbor_ids@.len() && b.neighbor_ids@[i].1 == id by {
            assert(a.neighbors@.contains_key(id));
        }
    }

    /// The information for sending to the neighbor with the id, if it is registered.
    pub open spec fn information(&self, ulnid: UnderlayNeighborId) -> Option<UnderlayNeighborInformation> {
        if self.neighbors@.contains_key(ulnid) {
            Some(information_of(self.neighbors@[ulnid], self.interfaces@[self.neighbors@[ulnid].interface_id]))
        } else {
            None
        }
    }

    /// Registering the neighbor with the link-local address on the interface took `before`
    /// to `after` with the result: a registered neighbor keeps its id; on an interface that
    /// is down it fails; otherwise the neighbor gets the next id and is listed on its
    /// interface.
    pub open spec fn register_outcome(
        before: Self,
        after: Self,
        interface_id: InterfaceId,
        ll_ipv6: u128,
        res: Result<UnderlayNeighborId, UnderlayNeighborInterfaceDownError>,
    ) -> bool {
        let n = UnderlayNeighbor { ll_ipv6, interface_id };
        let v = before.interfaces_view()[interface_id];
        if before.registered(n) {
            &&& res matches Ok(id) && before.neighbors@.contains_key(id) && before.neighbors@[id] == n
            &&& after.same_state(&before)
        } else if !before.interfaces@.contains_key(interface_id) {
            &&& res == Err::<UnderlayNeighborId, _>(UnderlayNeighborInterfaceDownError(interface_id))
            &&& after.same_state(&before)
        } else {
            &&& res == Ok::<_, UnderlayNeighborInterfaceDownError>(before.next_ulnid)
            &&& after.next_ulnid == before.next_ulnid + 1
            &&& after.neighbors@ == before.neighbors@.insert(before.next_ulnid, n)
            &&& after.interfaces_view() == before.interfaces_view().insert(
                interface_id,
                (v.0, v.1, v.2, v.3.insert(before.next_ulnid)),
            )
        }
    }

    /// Taking the interface down took `before` to `after` with the result: nothing happens
    /// to an interface that is not up; otherwise it is removed, the neighbors listed on it
    /// are unregistered and returned.
    pub open spec fn down_outcome(
        before: Self,
        after: Self,
        interface_id: InterfaceId,
        res: Option<Vec<UnderlayNeighborId>>,
    ) -> bool {
        if !before.interfaces@.contains_key(interface_id) {
            res is None && after.same_state(&before)
        } else {
            let gone = before.interfaces@[interface_id].neighbor_set();
            &&& res matches Some(ids) && lists_exactly(ids@, gone)
            &&& after.neighbors@ == before.neighbors@.remove_keys(gone)
            &&& after.interfaces_view() == before.interfaces_view().remove(interface_id)
        }
    }

    /// The two bases hold the same ids, neighbors and interfaces.
    pub open spec fn same_state(&self, other: &Self) -> bool {
        &&& self.next_ulnid == other.next_ulnid
        &&& self.neighbors@ == other.neighbors@
        &&& self.interfaces_view() == other.interfaces_view()
    }

    /// The information for sending to the neighbor with the id, if it is registered.
    pub fn get_information(&self, ulnid: &UnderlayNeighborId) -> (info: Option<UnderlayNeighborInformation>)
        requires
            self.wf(),
        ensures
            info == self.information(*ulnid),
    {
        let neighbor = match self.neighbors.get(ulnid) {
            Some(n) => n,
            None => return None,
        };
        let interface = match self.interfaces.get(&neighbor.interface_id) {
            Some(i) => i,
            None => return None,
        };
        Some(neighbor.information(interface))
    }

    /// The id under which the neighbor is registered, if it is.
    fn find_id(&self, n: &UnderlayNeighbor) -> (res: Option<UnderlayNeighborId>)
        requires
            self.ids_mirror(),
        ensures
            res is Some <==> self.registered(*n),
            res matches Some(id) ==> self.neighbors@.contains_key(id) && self.neighbors@[id] == *n,
    {
        let mut i: usize = 0;
        while i < self.neighbor_ids.len()
            invariant
                i <= self.neighbor_ids@.len(),
                self.ids_mirror(),
                forall|j: int| 0 <= j < i ==> (#[trigger] self.neighbor_ids@[j]).0 != *n,
            decreases self.neighbor_ids@.len() - i,
        {
            if self.neighbor_ids[i].0 == *n {
                let id = self.neighbor_ids[i].1;
                assert(self.neighbors@.contains_key(id));
                return Some(id);
            }
            i = i + 1;
        }
        assert(!self.registered(*n)) by {
            if self.registered(*n) {
                let id = choose|id: UnderlayNeighborId| #[trigger] self.neighbors@.contains_key(id) && self.neighbors@[id] == *n;
                let j = choose|j: int| 0 <= j < self.neighbor_ids@.len() && self.neighbor_ids@[j].1 == id;
                assert(self.neighbor_ids@[j].0 == *n);
            }
        }
        None
    }

    /// Registers the neighbor with the link-local address on the interface and returns its
    /// id: the id it already has, or the next one. Fails if the interface is down.
    pub fn register_neighbor(&mut self, interface_id: InterfaceId, ll_ipv6: u128) -> (res: Result<
        UnderlayNeighborId,
        UnderlayNeighborInterfaceDownError,
    >)
        requires
            old(self).wf(),
            spec_is_unicast_link_local(ll_ipv6),
            old(self).next_ulnid < usize::MAX,
        ensures
            final(self).wf(),
            Self::register_outcome(*old(self), *final(self), interface_id, ll_ipv6, res),
    {
        let neighbor = UnderlayNeighbor::new(ll_ipv6, interface_id);
        if let Some(ulnid) = self.find_id(&neighbor) {
            return Ok(ulnid);
        }
        let ulnid = self.next_ulnid;
        let mut interface = match self.interfaces.remove(&interface_id) {
            Some(i) => i,
            None => {
                assert(self.interfaces@ =~= old(self).interfaces@);
                return Err(UnderlayNeighborInterfaceDownError(interface_id));
            },
        };
        let ghost old_ifs = old(self).interfaces@;
        let ghost m0 = self.neighbors@;
        let ghost v0 = self.neighbor_ids@;
        assert(!interface.neighbor_set().contains(ulnid));
        self.neighbors.insert(ulnid, neighbor);
        self.neighbor_ids.push((neighbor, ulnid));
        interface.add_neighbor(ulnid);
        self.interfaces.insert(interface_id, interface);
        self.next_ulnid = ulnid + 1;
        proof {
            assert(!m0.contains_key(ulnid));
            assert(self.interfaces@ == old_ifs.insert(interface_id, interface));
            assert(self.interfaces_view() =~= old(self).interfaces_view().insert(
                interface_id,
                (
                    old(self).interfaces_view()[interface_id].0,
                    old(self).interfaces_view()[interface_id].1,
                    old(self).interfaces_view()[interface_id].2,
                    old(self).interfaces_view()[interface_id].3.insert(ulnid),
                ),
            ));
            let v = self.neighbor_ids@;
            assert forall|i: int, j: int| 0 <= i < j < v.len() implies v[i].0 != v[j].0 by {
                if j == v.len() - 1 {
                    assert(v[i] == v0[i]);
                    assert(m0.contains_key(v0[i].1) && m0[v0[i].1] == v0[i].0);
                    if v0[i].0 == neighbor {
                        assert(old(self).registered(neighbor));
                    }
                }
            }
            assert forall|id: UnderlayNeighborId| #[trigger] self.neighbors@.contains_key(id) implies exists|i: int|
                0 <= i < v.len() && v[i].1 == id by {
                if id == ulnid {
                    assert(v[v.len() - 1].1 == id);
                } else {
                    assert(m0.contains_key(id));
                    let i = choose|i: int| 0 <= i < v0.len() && v0[i].1 == id;
                    assert(v[i] == v0[i]);
                }
            }
            assert forall|i: int| 0 <= i < v.len() implies self.neighbors@.contains_key(#[trigger] v[i].1) && self.neighbors@[v[i].1]
                == v[i].0 by {
                if i < v.len() - 1 {
                    assert(v[i] == v0[i]);
                    assert(m0.contains_key(v0[i].1));
                }
            }
            let ifs = self.interfaces@;
            assert forall|k: InterfaceId, id: UnderlayNeighborId| ifs.contains_key(k) && #[trigger] ifs[k].neighbor_set().contains(
                id,
            ) implies id < self.next_ulnid by {
                if k != interface_id {
                    assert(old_ifs.contains_key(k) && old_ifs[k].neighbor_set().contains(id));
                }
            }
            assert forall|id: UnderlayNeighborId| #[trigger] self.neighbors@.contains_key(id) implies ifs.contains_key(
                self.neighbors@[id].interface_id,
            ) && ifs[self.neighbors@[id].interface_id].neighbor_set().contains(id) by {
                if id != ulnid {
                    assert(m0.contains_key(id));
                    assert(old_ifs.contains_key(m0[id].interface_id));
                }
            }
        }
        Ok(ulnid)
    }

    /// Removes the neighbor's registration, keeping `neighbor_ids` in line.
    fn remove_entry(&mut self, ulnid: &UnderlayNeighborId) -> (res: Option<UnderlayNeighbor>)
        requires
            old(self).ids_mirror(),
        ensures
            final(self).ids_mirror(),
            res == old(self).neighbors@.get(*ulnid),
            final(self).neighbors@ == old(self).neighbors@.remove(*ulnid),
            final(self).next_ulnid == old(self).next_ulnid,
            final(self).interfaces@ == old(self).interfaces@,
    {
        let neighbor = match self.neighbors.remove(ulnid) {
            Some(n) => n,
            None => {
                assert(self.neighbors@ =~= old(self).neighbors@.remove(*ulnid));
                return None;
            },
        };
        let ghost m0 = old(self).neighbors@;
        let ghost v0 = self.neighbor_ids@;
        assert(m0.contains_key(*ulnid));
        let ghost k = choose|i: int| 0 <= i < v0.len() && v0[i].1 == *ulnid;
        let mut i: usize = 0;
        while i < self.neighbor_ids.len() && self.neighbor_ids[i].1 != *ulnid
            invariant
                i <= k,
                self.neighbor_ids@ == v0,
                0 <= k < v0.len(),
                v0[k].1 == *ulnid,
                forall|j: int| 0 <= j < i ==> (#[trigger] v0[j]).1 != *ulnid,
            decreases self.neighbor_ids@.len() - i,
        {
            i = i + 1;
        }
        assert(i < v0.len() && v0[i as int].1 == *ulnid);
        self.neighbor_ids.remove(i);
        proof {
            let v = self.neighbor_ids@;
            assert(v == v0.remove(i as int));
            assert forall|j: int| 0 <= j < v0.len() && j != i implies (#[trigger] v0[j]).1 != *ulnid by {
                if v0[j].1 == *ulnid {
                    assert(m0[v0[j].1] == v0[j].0);
                    assert(m0[v0[i as int].1] == v0[i as int].0);
                    if j < i {
                        assert(v0[j].0 != v0[i as int].0);
                    } else {
                        assert(v0[i as int].0 != v0[j].0);
                    }
                }
            }
            assert forall|j: int| 0 <= j < v.len() implies self.neighbors@.contains_key(#[trigger] v[j].1) && self.neighbors@[v[j].1]
                == v[j].0 by {
                if j < i {
                    assert(v[j] == v0[j]);
                } else {
                    assert(v[j] == v0[j + 1]);
                }
            }
            assert forall|id: UnderlayNeighborId| #[trigger] self.neighbors@.contains_key(id) implies exists|j: int|
                0 <= j < v.len() && v[j].1 == id by {
                assert(m0.contains_key(id));
                let j = choose|j: int| 0 <= j < v0.len() && v0[j].1 == id;
                if j < i {
                    assert(v[j] == v0[j]);
                } else {
                    assert(j != i);
                    assert(v[j - 1] == v0[j]);
                }
            }
            assert forall|a: int, b: int| 0 <= a < b < v.len() implies v[a].0 != v[b].0 by {
                let a0 = if a < i { a } else { a + 1 };
                let b0 = if b < i { b } else { b + 1 };
                assert(v[a] == v0[a0] && v[b] == v0[b0]);
            }
        }
        Some(neighbor)
    }

    /// Unregisters the neighbor with the id and returns it, if it was registered. (Its id
    /// stays listed on its interface.)
    pub fn unregister_neighbor(&mut self, ulnid: &UnderlayNeighborId) -> (res: Option<UnderlayNeighbor>)
        requires
            old(self).wf(),
        ensures
            final(self).wf(),
            res == old(self).neighbors@.get(*ulnid),
            final(self).next_ulnid == old(self).next_ulnid,
            final(self).neighbors@ == old(self).neighbors@.remove(*ulnid),
            final(self).interfaces_view() == old(self).interfaces_view(),
    {
        self.remove_entry(ulnid)
    }

    /// The interface went down: it is removed and all neighbors registered on it are
    /// unregistered. Returns the ids listed on it, or `None` if it was not up.
    pub fn interface_down(&mut self, interface_id: &InterfaceId) -> (res: Option<Vec<UnderlayNeighborId>>)
        requires
            old(self).wf(),
        ensures
            final(self).wf(),
            final(self).next_ulnid == old(self).next_ulnid,
            Self::down_outcome(*old(self), *final(self), *interface_id, res),
    {
        let interface = match self.interfaces.remove(interface_id) {
            Some(i) => i,
            None => {
                assert(self.interfaces@ =~= old(self).interfaces@);
                assert(self.interfaces_view() =~= old(self).interfaces_view());
                proof {
                    Self::lemma_mirror_kept(old(self), self);
                }
                return None;
            },
        };
        assert(self.neighbors@ == old(self).neighbors@ && self.neighbor_ids@ == old(self).neighbor_ids@);
        assert(self.ids_mirror());
        let ids = interface.into_neighbors();
        let ghost gone = old(self).interfaces@[*interface_id].neighbor_set();
        let ghost m0 = old(self).neighbors@;
        let mut i: usize = 0;
        while i < ids.len()
            invariant
                i <= ids@.len(),
                self.ids_mirror(),
                self.next_ulnid == old(self).next_ulnid,
                self.interfaces@ == old(self).interfaces@.remove(*interface_id),
                self.neighbors@ == m0.remove_keys(ids@.take(i as int).to_set()),
            decreases ids@.len() - i,
        {
            self.remove_entry(&ids[i]);
            assert(ids@.take(i + 1).to_set() =~= ids@.take(i as int).to_set().insert(ids@[i as int]));
            assert(self.neighbors@ =~= m0.remove_keys(ids@.take(i + 1).to_set()));
            i = i + 1;
        }
        proof {
            assert(ids@.take(ids@.len() as int) == ids@);
            assert(self.neighbors@ == m0.remove_keys(gone));
            assert(self.interfaces_view() =~= old(self).interfaces_view().remove(*interface_id));
            let ifs = self.interfaces@;
            let old_ifs = old(self).interfaces@;
            assert forall|id: UnderlayNeighborId| #[trigger] self.neighbors@.contains_key(id) implies ifs.contains_key(
                self.neighbors@[id].interface_id,
            ) && ifs[self.neighbors@[id].interface_id].neighbor_set().contains(id) by {
                assert(m0.contains_key(id) && !gone.contains(id));
                assert(old_ifs.contains_key(m0[id].interface_id));
                assert(m0[id].interface_id != *interface_id);
            }
            assert forall|k: InterfaceId, id: UnderlayNeighborId| ifs.contains_key(k) && #[trigger] ifs[k].neighbor_set().contains(
                id,
            ) implies id < self.next_ulnid by {
                assert(old_ifs.contains_key(k) && old_ifs[k].neighbor_set().contains(id));
            }
        }
        Some(ids)
    }

    /// The interface came up. A new interface is added (and `true` returned); an interface
    /// that is already up stays, unless its MAC addresses changed: then the new one takes
    /// its place with the old one's neighbors.
    pub fn interface_up(&mut self, interface: Interface) -> (fresh: bool)
        requires
            old(self).wf(),
            forall|id: UnderlayNeighborId| #[trigger] interface.neighbor_set().contains(id) ==> id < old(self).next_ulnid,
            old(self).interfaces@.contains_key(interface.interface_id) ==> interface.neighbor_set().disjoint(
                old(self).interfaces@[interface.interface_id].neighbor_set(),
            ),
        ensures
            final(self).wf(),
            final(self).next_ulnid == old(self).next_ulnid,
            final(self).neighbors@ == old(self).neighbors@,
            fresh == !old(self).interfaces@.contains_key(interface.interface_id),
            ({
                let k = interface.interface_id;
                let v = old(self).interfaces_view()[k];
                final(self).interfaces_view() == if fresh {
                    old(self).interfaces_view().insert(k, interface_view(interface))
                } else if interface.src_mac@ == v.1 && interface.broadcast_mac@ == v.2 {
                    old(self).interfaces_view()
                } else {
                    old(self).interfaces_view().insert(
                        k,
                        (k, interface.src_mac@, interface.broadcast_mac@, interface.neighbor_set() + v.3),
                    )
                }
            }),
    {
        let k = interface.interface_id;
        let ghost old_ifs = old(self).interfaces@;
        let ghost new_view = interface_view(interface);
        match self.interfaces.remove(&k) {
            None => {
                self.interfaces.insert(k, interface);
                proof {
                    Self::lemma_mirror_kept(old(self), self);
                    assert(self.interfaces_view() =~= old(self).interfaces_view().insert(k, new_view));
                    let ifs = self.interfaces@;
                    assert forall|id: UnderlayNeighborId| #[trigger] self.neighbors@.contains_key(id) implies ifs.contains_key(
                        self.neighbors@[id].interface_id,
                    ) && ifs[self.neighbors@[id].interface_id].neighbor_set().contains(id) by {
                        assert(old_ifs.contains_key(self.neighbors@[id].interface_id));
                    }
                    assert forall|j: InterfaceId, id: UnderlayNeighborId| ifs.contains_key(j) && #[trigger] ifs[j].neighbor_set().contains(
                        id,
                    ) implies id < self.next_ulnid by {
                        if j != k {
                            assert(old_ifs.contains_key(j) && old_ifs[j].neighbor_set().contains(id));
                        }
                    }
                }
                true
            },
            Some(existing) => {
                let changed = !same_mac(&interface.src_mac, &existing.src_mac) || !same_mac(
                    &interface.broadcast_mac,
                    &existing.broadcast_mac,
                );
                if changed {
                    let mut replacement = interface;
                    let olds = existing.into_neighbors();
                    let ghost s0 = replacement.neighbor_set();
                    let mut j: usize = 0;
                    while j < olds.len()
                        invariant
                            j <= olds@.len(),
                            olds@.no_duplicates(),
                            olds@.to_set() == old_ifs[k].neighbor_set(),
                            s0.disjoint(old_ifs[k].neighbor_set()),
                            replacement.interface_id == k,
                            replacement.src_mac == interface.src_mac,
                            replacement.broadcast_mac == interface.broadcast_mac,
                            replacement.neighbor_set() == s0 + olds@.take(j as int).to_set(),
                        decreases olds@.len() - j,
                    {
                        let id = olds[j];
                        assert(olds@.to_set().contains(id));
                        assert(!olds@.take(j as int).contains(id)) by {
                            if olds@.take(j as int).contains(id) {
                                let a = choose|a: int| 0 <= a < j && olds@.take(j as int)[a] == id;
                                assert(olds@[a] == olds@[j as int]);
                            }
                        }
                        replacement.add_neighbor(id);
                        assert(olds@.take(j + 1).to_set() =~= olds@.take(j as int).to_set().insert(id));
                        assert(replacement.neighbor_set() =~= s0 + olds@.take(j + 1).to_set());
                        j = j + 1;
                    }
                    assert(olds@.take(olds@.len() as int) == olds@);
                    self.interfaces.insert(k, replacement);
                    proof {
                        assert(self.interfaces_view() =~= old(self).interfaces_view().insert(
                            k,
                            (k, interface.src_mac@, interface.broadcast_mac@, interface.neighbor_set() + old(self).interfaces_view()[k].3),
                        ));
                    }
                } else {
                    self.interfaces.insert(k, existing);
                    proof {
                        assert(self.interfaces@ =~= old_ifs);
                        assert(self.interfaces_view() =~= old(self).interfaces_view());
                    }
                }
                proof {
                    Self::lemma_mirror_kept(old(self), self);
                    let ifs = self.interfaces@;
                    assert forall|id: UnderlayNeighborId| #[trigger] self.neighbors@.contains_key(id) implies ifs.contains_key(
                        self.neighbors@[id].interface_id,
                    ) && ifs[self.neighbors@[id].interface_id].neighbor_set().contains(id) by {
                        assert(old_ifs.contains_key(self.neighbors@[id].interface_id));
                    }
                    assert forall|j: InterfaceId, id: UnderlayNeighborId| ifs.contains_key(j) && #[trigger] ifs[j].neighbor_set().contains(
                        id,
                    ) implies id < self.next_ulnid by {
                        if j != k {
                            assert(old_ifs.contains_key(j) && old_ifs[j].neighbor_set().contains(id));
                        } else if !interface.neighbor_set().contains(id) {
                            assert(old_ifs[k].neighbor_set().contains(id));
                        }
                    }
                }
                false
            },
        }
    }

    /// The ids of the interfaces that are up, each once.
    pub fn get_available(&self) -> (ids: Vec<InterfaceId>)
        ensures
            ids@.no_duplicates(),
            ids@.to_set() == self.interfaces@.dom(),
    {
        let mut ids: Vec<InterfaceId> = Vec::new();
        for k in it: self.interfaces.keys()
            invariant
                it.seq() == self.interfaces.keys().remaining(),
                ids@.len() == it.index(),
                forall|i: int| 0 <= i < it.index() ==> ids@[i] == *(#[trigger] it.seq()[i]),
        {
            ids.push(*k);
        }
        proof {
            let sq = self.interfaces.keys().remaining();
            assert(sq.unref().to_set() == self.interfaces@.dom());
            assert(ids@ =~= sq.unref());
            assert forall|i: int, j: int| 0 <= i < ids@.len() && 0 <= j < ids@.len() && i != j implies ids@[i] != ids@[j] by {
                assert(sq[i] != sq[j]);
            }
        }
        ids
    }
}

/// A neighbor is registered under one id only.
proof fn lemma_ids_unique(b: UnderlayInformationBase, id1: UnderlayNeighborId, id2: UnderlayNeighborId)
    requires
        b.ids_mirror(),
        b.neighbors@.contains_key(id1),
        b.neighbors@.contains_key(id2),
        b.neighbors@[id1] == b.neighbors@[id2],
    ensures
        id1 == id2,
{
    let v = b.neighbor_ids@;
    let i = choose|i: int| 0 <= i < v.len() && v[i].1 == id1;
    let j = choose|j: int| 0 <= j < v.len() && v[j].1 == id2;
    assert(b.neighbors@.contains_key(v[i].1) && b.neighbors@.contains_key(v[j].1));
    if i < j {
        assert(v[i].0 != v[j].0);
    } else if j < i {
        assert(v[j].0 != v[i].0);
    }
}

/// What registering writes, the information gives back: the neighbor with the returned
/// id is reached over the interface it was registered on, with its link-local address and
/// the interface's MAC addresses.
pub proof fn law_register_then_information(
    before: UnderlayInformationBase,
    after: UnderlayInformationBase,
    interface_id: InterfaceId,
    ll_ipv6: u128,
    id: UnderlayNeighborId,
)
    requires
        before.wf(),
        UnderlayInformationBase::register_outcome(before, after, interface_id, ll_ipv6, Ok(id)),
    ensures
        after.information(id) == Some(
            UnderlayNeighborInformation {
                interface_id,
                src_mac: after.interfaces@[interface_id].src_mac,
                broadcast_mac: after.interfaces@[interface_id].broadcast_mac,
                ll_ipv6,
            },
        ),
{
    let n = UnderlayNeighbor { ll_ipv6, interface_id };
    if !before.registered(n) {
        assert(after.neighbors@.contains_key(before.next_ulnid));
    }
}

/// Registering the same neighbor again changes nothing and gives the same id.
pub proof fn law_register_is_idempotent(
    first: UnderlayInformationBase,
    second: UnderlayInformationBase,
    third: UnderlayInformationBase,
    interface_id: InterfaceId,
    ll_ipv6: u128,
    id: UnderlayNeighborId,
    again: Result<UnderlayNeighborId, UnderlayNeighborInterfaceDownError>,
)
    requires
        first.wf(),
        UnderlayInformationBase::register_outcome(first, second, interface_id, ll_ipv6, Ok(id)),
        second.wf(),
        UnderlayInformationBase::register_outcome(second, third, interface_id, ll_ipv6, again),
    ensures
        again == Ok::<_, UnderlayNeighborInterfaceDownError>(id),
        third.same_state(&second),
{
    let n = UnderlayNeighbor { ll_ipv6, interface_id };
    if !first.registered(n) {
        assert(second.neighbors@.contains_key(first.next_ulnid));
    }
    assert(second.neighbors@.contains_key(id) && second.neighbors@[id] == n);
    assert(second.registered(n));
    let other = again->Ok_0;
    lemma_ids_unique(second, id, other);
}

/// A neighbor cannot be registered on an interface that is down.
pub proof fn law_no_neighbor_on_a_down_interface(
    before: UnderlayInformationBase,
    after: UnderlayInformationBase,
    interface_id: InterfaceId,
    ll_ipv6: u128,
    res: Result<UnderlayNeighborId, UnderlayNeighborInterfaceDownError>,
)
    requires
        before.wf(),
        !before.interfaces@.contains_key(interface_id),
        UnderlayInformationBase::register_outcome(before, after, interface_id, ll_ipv6, res),
    ensures
        res == Err::<UnderlayNeighborId, _>(UnderlayNeighborInterfaceDownError(interface_id)),
        after.same_state(&before),
{
    let n = UnderlayNeighbor { ll_ipv6, interface_id };
    if before.registered(n) {
        let id = choose|id: UnderlayNeighborId| #[trigger] before.neighbors@.contains_key(id) && before.neighbors@[id] == n;
        assert(before.neighbors@.contains_key(id));
    }
}

/// Once an interface went down, no registered neighbor is reached over it, and none of
/// the neighbors that were listed on it is registered.
pub proof fn law_interface_down_unregisters_its_neighbors(
    before: UnderlayInformationBase,
    after: UnderlayInformationBase,
    interface_id: InterfaceId,
    res: Option<Vec<UnderlayNeighborId>>,
)
    requires
        before.wf(),
        after.wf(),
        UnderlayInformationBase::down_outcome(before, after, interface_id, res),
    ensures
        !after.interfaces@.contains_key(interface_id),
        forall|id: UnderlayNeighborId| #[trigger] after.neighbors@.contains_key(id) ==> after.neighbors@[id].interface_id
            != interface_id,
        res matches Some(ids) ==> forall|i: int| 0 <= i < ids@.len() ==> !after.neighbors@.contains_key(#[trigger] ids@[i]),
{
    assert(!after.interfaces_view().contains_key(interface_id));
    if let Some(ids) = res {
        assert forall|i: int| 0 <= i < ids@.len() implies !after.neighbors@.contains_key(#[trigger] ids@[i]) by {
            assert(ids@.to_set().contains(ids@[i]));
        }
    }
}

/// After unregistering a neighbor there is no information for it.
pub proof fn law_unregister_then_no_information(
    before: UnderlayInformationBase,
    after: UnderlayInformationBase,
    id: UnderlayNeighborId,
)
    requires
        after.neighbors@ == before.neighbors@.remove(id),
    ensures
        after.information(id) is None,
{
}

impl Default for UnderlayInformationBase {
    /// No interfaces and no neighbors; the first neighbor gets the id 1.
    fn default() -> (b: Self)
        ensures
            b.wf(),
            b.next_ulnid == 1,
            b.neighbors@ == Map::<UnderlayNeighborId, UnderlayNeighbor>::empty(),
            b.neighbor_ids@ == Seq::<(UnderlayNeighbor, UnderlayNeighborId)>::empty(),
            b.interfaces@ == Map::<InterfaceId, Interface>::empty(),
    {
        UnderlayInformationBase {
            next_ulnid: 1,
            neighbors: HashMap::new(),
            neighbor_ids: Vec::new(),
            interfaces: HashMap::new(),
        }
    }
}

} // verus!
