//! Base durations of the rediscovery timeouts, by the distance of a contact.

use vstd::prelude::*;

use crate::domain::Micros;

verus! {

/// The distance between this node and a contact.
#[derive(Debug, Clone, Copy, PartialEq, Eq, Structural)]
pub enum Distance {
    OverlayNeighbor,
    UnderlayNeighbor,
    Others,
}

/// A duration (in microseconds) for every [Distance].
#[derive(Debug, Clone, Copy, PartialEq, Eq, Structural)]
pub struct DistanceMap {
    overlay: Micros,
    underlay: Micros,
    others: Micros,
}

impl DistanceMap {
    /// The duration for the distance.
    pub closed spec fn spec_get(&self, distance: Distance) -> Micros {
        match distance {
            Distance::OverlayNeighbor => self.overlay,
            Distance::UnderlayNeighbor => self.underlay,
            Distance::Others => self.others,
        }
    }

    /// The map with a duration for overlay neighbors, underlay neighbors and all others.
    pub fn new(overlay: Micros, underlay: Micros, others: Micros) -> (m: Self)
        ensures
            m.spec_get(Distance::OverlayNeighbor) == overlay,
            m.spec_get(Distance::UnderlayNeighbor) == underlay,
            m.spec_get(Distance::Others) == others,
    {
        DistanceMap { overlay, underlay, others }
    }

    /// The duration for the distance.
    pub fn get(&self, distance: Distance) -> (d: Micros)
        ensures
            d == self.spec_get(distance),
    {
        match distance {
            Distance::OverlayNeighbor => self.overlay,
            Distance::UnderlayNeighbor => self.underlay,
            Distance::Others => self.others,
        }
    }
}

impl Default for DistanceMap {
    /// 500 ms for overlay neighbors, 1 s for underlay neighbors, 2 s for the others.
    fn default() -> (m: Self)
        ensures
            m.spec_get(Distance::OverlayNeighbor) == 500_000,
            m.spec_get(Distance::UnderlayNeighbor) == 1_000_000,
            m.spec_get(Distance::Others) == 2_000_000,
    {
        DistanceMap::new(500_000, 1_000_000, 2_000_000)
    }
}

} // verus!
