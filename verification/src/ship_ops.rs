//! What a single ship is equipped for.
use vstd::prelude::*;
use crate::model::{Mount, Ship};
use crate::text::{contains_text, has_text, text_eq};

verus! {

/// The mount is a mining laser or an extractor.
pub open spec fn mount_can_mine(m: Mount) -> bool {
    contains_text(m.symbol@, "MINING"@) || contains_text(m.symbol@, "EXTRACTOR"@)
}

/// The ship carries at least one mining or extracting mount.
pub open spec fn ship_can_mine(ship: Ship) -> bool {
    exists|i: int| 0 <= i < ship.mounts@.len() && mount_can_mine(ship.mounts@[i])
}

/// The ship holds 20 or more cargo units and cannot mine.
pub open spec fn ship_is_hauler(ship: Ship) -> bool {
    ship.cargo.capacity >= 20 && !ship_can_mine(ship)
}

/// Whether a mount mines or extracts.
pub fn mount_mines(m: &Mount) -> (r: bool)
    ensures
        r == mount_can_mine(*m),
{
    has_text(m.symbol.as_str(), "MINING") || has_text(m.symbol.as_str(), "EXTRACTOR")
}

/// Questions about individual ships.
pub struct ShipOperations {}

impl ShipOperations {
    pub fn new() -> (r: Self) {
        ShipOperations {}
    }

    /// Whether some mount of the ship mines or extracts.
    pub fn has_mining_capability(&self, ship: &Ship) -> (r: bool)
        ensures
            r == ship_can_mine(*ship),
    {
        let mut i: usize = 0;
        while i < ship.mounts.len()
            invariant
                i <= ship.mounts@.len(),
                forall|j: int| 0 <= j < i ==> !mount_can_mine(#[trigger] ship.mounts@[j]),
            decreases ship.mounts@.len() - i,
        {
            if mount_mines(&ship.mounts[i]) {
                return true;
            }
            i = i + 1;
        }
        false
    }

    /// Whether the ship is a hauler: 20 or more cargo units and no mining mount.
    pub fn is_hauler(&self, ship: &Ship) -> (r: bool)
        ensures
            r == ship_is_hauler(*ship),
    {
        ship.cargo.capacity >= 20 && !self.has_mining_capability(ship)
    }
}

/// How a ship gets to a waypoint.
#[derive(Clone, Copy, Debug, PartialEq, Eq)]
pub enum MovePlan {
    /// The ship is already there.
    Stay,
    /// The ship navigates there, leaving dock for orbit first when `orbit_first`.
    Travel { orbit_first: bool },
}

/// How `ship` reaches `destination`: it stays when it is there, else it travels, and a docked
/// ship goes into orbit first.
pub fn plan_move(ship: &Ship, destination: &str) -> (r: MovePlan)
    ensures
        r == (if ship.nav.waypoint_symbol@ == destination@ {
            MovePlan::Stay
        } else {
            MovePlan::Travel { orbit_first: ship.nav.status@ == "DOCKED"@ }
        }),
{
    if text_eq(ship.nav.waypoint_symbol.as_str(), destination) {
        MovePlan::Stay
    } else {
        MovePlan::Travel { orbit_first: text_eq(ship.nav.status.as_str(), "DOCKED") }
    }
}

} // verus!
