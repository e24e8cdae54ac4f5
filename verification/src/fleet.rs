//! Fleet-wide views: which ships mine or haul, how the fleet is spread over asteroid fields and
//! which ships are ready to mine.
use vstd::prelude::*;
use crate::model::{Ship, Waypoint, waypoint_has_trait, has_trait, find_ship, first_ship_with_symbol};
use crate::ship_ops::{ShipOperations, ship_can_mine, ship_is_hauler};
use crate::seqs::lemma_filter_step;
use crate::text::text_eq;

verus! {

/// Counts of a fleet's ships and cargo.
#[derive(Clone, Debug)]
pub struct FleetAnalysis {
    pub total_ships: usize,
    pub mining_ships: usize,
    pub hauler_ships: usize,
    pub total_cargo_capacity: i32,
    pub total_cargo_used: i32,
}

/// Sum of the cargo capacities of the first `n` ships.
pub open spec fn capacity_prefix(ships: Seq<Ship>, n: int) -> int
    decreases n,
{
    if n <= 0 || n > ships.len() {
        0
    } else {
        capacity_prefix(ships, n - 1) + ships[n - 1].cargo.capacity
    }
}

/// Sum of the cargo units in use on the first `n` ships.
pub open spec fn used_prefix(ships: Seq<Ship>, n: int) -> int
    decreases n,
{
    if n <= 0 || n > ships.len() {
        0
    } else {
        used_prefix(ships, n - 1) + ships[n - 1].cargo.units
    }
}

/// Every running sum of capacities and of used units over `ships` fits in an `i32`.
pub open spec fn cargo_sums_fit(ships: Seq<Ship>) -> bool {
    forall|n: int| 0 <= n <= ships.len() ==> {
        &&& i32::MIN <= #[trigger] capacity_prefix(ships, n) <= i32::MAX
        &&& i32::MIN <= used_prefix(ships, n) <= i32::MAX
    }
}

/// The ships that can mine, in fleet order.
pub open spec fn miners(ships: Seq<Ship>) -> Seq<Ship> {
    ships.filter(|s: Ship| ship_can_mine(s))
}

/// The haulers, in fleet order.
pub open spec fn haulers(ships: Seq<Ship>) -> Seq<Ship> {
    ships.filter(|s: Ship| ship_is_hauler(s))
}

/// What one ship must do to reach its asteroid field.
#[derive(Clone, Copy, Debug)]
pub struct DeploymentPlan {
    /// The ship is not at its field and must travel there.
    pub navigate: bool,
    /// The ship is below its fuel safety threshold and must refuel first.
    pub refuel_first: bool,
    /// The ship must dock before refuelling.
    pub dock_for_refuel: bool,
    /// The ship is docked and must go to orbit before travelling.
    pub orbit_before_navigation: bool,
}

/// 90% of a fuel capacity, rounded toward zero.
pub open spec fn safety_threshold(capacity: int) -> int {
    if capacity >= 0 {
        (capacity * 9) / 10
    } else {
        -((-capacity * 9) / 10)
    }
}

/// Where a ship stands when the fleet is checked for mining.
#[derive(Clone, Copy, Debug, PartialEq, Eq)]
pub enum Readiness {
    /// The ship is not in the fleet listing.
    Missing,
    /// The ship is elsewhere than its field.
    NotAtTarget,
    /// The ship is at its field but must go to orbit.
    NeedsOrbit,
    /// The ship is at its field in orbit.
    Ready,
}

/// How the fleet is being used: its miners, the cargo in use out of the cargo it can hold, the
/// ships in orbit (active) and the docked ones (idle). The share of cargo in use is
/// `cargo_used / cargo_capacity` (none of it when the capacity is 0).
#[derive(Clone, Copy, Debug)]
pub struct FleetEfficiencyMetrics {
    pub mining_power: usize,
    pub cargo_used: i32,
    pub cargo_capacity: i32,
    pub active_ships: usize,
    pub idle_ships: usize,
}

/// The ships whose navigation status is `status`, in fleet order.
pub open spec fn with_status(ships: Seq<Ship>, status: Seq<char>) -> Seq<Ship> {
    ships.filter(|s: Ship| s.nav.status@ == status)
}

fn count_with_status(ships: &[Ship], status: &str) -> (r: usize)
    ensures
        r == with_status(ships@, status@).len(),
{
    let mut n: usize = 0;
    let mut i: usize = 0;
    while i < ships.len()
        invariant
            i <= ships@.len(),
            n == ships@.take(i as int).filter(|s: Ship| s.nav.status@ == status@).len(),
            n <= i,
        decreases ships@.len() - i,
    {
        proof {
            lemma_filter_step(ships@, |s: Ship| s.nav.status@ == status@, i as int);
        }
        if text_eq(ships[i].nav.status.as_str(), status) {
            n = n + 1;
        }
        i = i + 1;
    }
    assert(ships@.take(i as int) =~= ships@);
    n
}

/// Which fleet operations are available.
pub struct FleetOperations {
    ship_ops: ShipOperations,
}

impl FleetOperations {
    pub fn new() -> (r: Self) {
        FleetOperations { ship_ops: ShipOperations::new() }
    }

    /// The ships that can mine, in fleet order.
    pub fn get_mining_ships<'b>(&self, ships: &'b [Ship]) -> (r: Vec<&'b Ship>)
        ensures
            r@.map_values(|s: &Ship| *s) == miners(ships@),
    {
        let mut r: Vec<&'b Ship> = Vec::new();
        let mut i: usize = 0;
        while i < ships.len()
            invariant
                i <= ships@.len(),
                r@.map_values(|s: &Ship| *s) == ships@.take(i as int).filter(|s: Ship| ship_can_mine(s)),
            decreases ships@.len() - i,
        {
            proof {
                lemma_filter_step(ships@, |s: Ship| ship_can_mine(s), i as int);
            }
            if self.ship_ops.has_mining_capability(&ships[i]) {
                r.push(&ships[i]);
            }
            assert(r@.map_values(|s: &Ship| *s) =~= ships@.take(i + 1).filter(|s: Ship| ship_can_mine(s)));
            i = i + 1;
        }
        assert(ships@.take(i as int) =~= ships@);
        r
    }

    /// The haulers, in fleet order.
    pub fn get_hauler_ships<'b>(&self, ships: &'b [Ship]) -> (r: Vec<&'b Ship>)
        ensures
            r@.map_values(|s: &Ship| *s) == haulers(ships@),
    {
        let mut r: Vec<&'b Ship> = Vec::new();
        let mut i: usize = 0;
        while i < ships.len()
            invariant
                i <= ships@.len(),
                r@.map_values(|s: &Ship| *s) == ships@.take(i as int).filter(|s: Ship| ship_is_hauler(s)),
            decreases ships@.len() - i,
        {
            proof {
                lemma_filter_step(ships@, |s: Ship| ship_is_hauler(s), i as int);
            }
            if self.ship_ops.is_hauler(&ships[i]) {
                r.push(&ships[i]);
            }
            assert(r@.map_values(|s: &Ship| *s) =~= ships@.take(i + 1).filter(|s: Ship| ship_is_hauler(s)));
            i = i + 1;
        }
        assert(ships@.take(i as int) =~= ships@);
        r
    }

    /// Counts the fleet's ships, miners, haulers, cargo capacity and cargo in use.
    pub fn analyze_fleet(&self, ships: &[Ship]) -> (r: FleetAnalysis)
        requires
            cargo_sums_fit(ships@),
        ensures
            r.total_ships == ships@.len(),
            r.mining_ships == miners(ships@).len(),
            r.hauler_ships == haulers(ships@).len(),
            r.total_cargo_capacity == capacity_prefix(ships@, ships@.len() as int),
            r.total_cargo_used == used_prefix(ships@, ships@.len() as int),
    {
        let miners = self.get_mining_ships(ships);
        let haulers = self.get_hauler_ships(ships);
        let mut capacity: i32 = 0;
        let mut used: i32 = 0;
        let mut i: usize = 0;
        while i < ships.len()
            invariant
                i <= ships@.len(),
                cargo_sums_fit(ships@),
                capacity == capacity_prefix(ships@, i as int),
                used == used_prefix(ships@, i as int),
            decreases ships@.len() - i,
        {
            assert(i32::MIN <= capacity_prefix(ships@, i + 1) <= i32::MAX);
            capacity = capacity + ships[i].cargo.capacity;
            used = used + ships[i].cargo.units;
            i = i + 1;
        }
        proof {
            assert(miners@.map_values(|s: &Ship| *s).len() == miners@.len());
            assert(haulers@.map_values(|s: &Ship| *s).len() == haulers@.len());
        }
        FleetAnalysis {
            total_ships: ships.len(),
            mining_ships: miners.len(),
            hauler_ships: haulers.len(),
            total_cargo_capacity: capacity,
            total_cargo_used: used,
        }
    }

    /// How the fleet is being used (see [`FleetEfficiencyMetrics`]).
    pub fn calculate_fleet_efficiency(&self, ships: &[Ship]) -> (r: FleetEfficiencyMetrics)
        requires
            cargo_sums_fit(ships@),
        ensures
            r.mining_power == miners(ships@).len(),
            r.cargo_used == used_prefix(ships@, ships@.len() as int),
            r.cargo_capacity == capacity_prefix(ships@, ships@.len() as int),
            r.active_ships == with_status(ships@, "IN_ORBIT"@).len(),
            r.idle_ships == with_status(ships@, "DOCKED"@).len(),
    {
        let a = self.analyze_fleet(ships);
        FleetEfficiencyMetrics {
            mining_power: a.mining_ships,
            cargo_used: a.total_cargo_used,
            cargo_capacity: a.total_cargo_capacity,
            active_ships: count_with_status(ships, "IN_ORBIT"),
            idle_ships: count_with_status(ships, "DOCKED"),
        }
    }

    /// Spreads the mining ships over the asteroid fields round-robin: ship `i` goes to field
    /// `i` modulo the number of fields. With no field the deployment is refused.
    pub fn assign_mining_positions<'b, 'c>(
        &self,
        mining_ships: &'b [Ship],
        asteroid_fields: &'c [Waypoint],
    ) -> (r: Result<Vec<(&'b Ship, &'c Waypoint)>, String>)
        ensures
            asteroid_fields@.len() == 0 <==> r is Err,
            r matches Err(e) ==> e@ == "No asteroid fields available for deployment"@,
            r matches Ok(v) ==> {
                &&& v@.len() == mining_ships@.len()
                &&& forall|i: int| 0 <= i < v@.len() ==> {
                    &&& *(#[trigger] v@[i]).0 == mining_ships@[i]
                    &&& *v@[i].1 == asteroid_fields@[i % asteroid_fields@.len() as int]
                }
            },
    {
        if asteroid_fields.len() == 0 {
            proof {
                reveal_strlit("No asteroid fields available for deployment");
            }
            return Err(String::from_str("No asteroid fields available for deployment"));
        }
        let mut v: Vec<(&'b Ship, &'c Waypoint)> = Vec::new();
        let mut i: usize = 0;
        while i < mining_ships.len()
            invariant
                i <= mining_ships@.len(),
                asteroid_fields@.len() > 0,
                v@.len() == i,
                forall|k: int| 0 <= k < i ==> {
                    &&& *(#[trigger] v@[k]).0 == mining_ships@[k]
                    &&& *v@[k].1 == asteroid_fields@[k % asteroid_fields@.len() as int]
                },
            decreases mining_ships@.len() - i,
        {
            v.push((&mining_ships[i], &asteroid_fields[i % asteroid_fields.len()]));
            i = i + 1;
        }
        Ok(v)
    }
}

/// 90% of a fuel capacity, rounded toward zero; the same number as `(capacity as f64 * 0.9) as i32`.
pub fn fuel_safety_threshold(capacity: i32) -> (r: i32)
    ensures
        r as int == safety_threshold(capacity as int),
{
    ((capacity as i64 * 9) / 10) as i32
}

/// What `ship` must do to reach `target`: travel when it is elsewhere; before that refuel when its
/// fuel is under 90% of capacity (docking first unless docked), then leave orbit when docked.
pub fn plan_deployment(ship: &Ship, target: &Waypoint) -> (r: DeploymentPlan)
    ensures
        r.navigate == (ship.nav.waypoint_symbol@ != target.symbol@),
        r.refuel_first == (r.navigate && ship.fuel.current < safety_threshold(ship.fuel.capacity as int)),
        r.dock_for_refuel == (r.refuel_first && ship.nav.status@ != "DOCKED"@),
        r.orbit_before_navigation == (r.navigate && ship.nav.status@ == "DOCKED"@),
{
    let navigate = !text_eq(ship.nav.waypoint_symbol.as_str(), target.symbol.as_str());
    let docked = text_eq(ship.nav.status.as_str(), "DOCKED");
    let refuel_first = navigate && ship.fuel.current < fuel_safety_threshold(ship.fuel.capacity);
    DeploymentPlan {
        navigate,
        refuel_first,
        dock_for_refuel: refuel_first && !docked,
        orbit_before_navigation: navigate && docked,
    }
}

/// The first waypoint with a MARKETPLACE, where a ship that could not refuel in place goes.
pub fn first_marketplace<'a>(waypoints: &'a [Waypoint]) -> (r: Option<&'a Waypoint>)
    ensures
        match r {
            Some(w) => exists|i: int| {
                &&& 0 <= i < waypoints@.len()
                &&& waypoints@[i] == *w
                &&& waypoint_has_trait(*w, "MARKETPLACE"@)
                &&& forall|j: int| 0 <= j < i ==> !waypoint_has_trait(waypoints@[j], "MARKETPLACE"@)
            },
            None => forall|j: int| 0 <= j < waypoints@.len() ==> !waypoint_has_trait(waypoints@[j], "MARKETPLACE"@),
        },
{
    let mut i: usize = 0;
    while i < waypoints.len()
        invariant
            i <= waypoints@.len(),
            forall|j: int| 0 <= j < i ==> !waypoint_has_trait(waypoints@[j], "MARKETPLACE"@),
        decreases waypoints@.len() - i,
    {
        if has_trait(&waypoints[i], "MARKETPLACE") {
            return Some(&waypoints[i]);
        }
        i = i + 1;
    }
    None
}

/// Number of assignments whose ship is not yet at its field, among the first `n`.
pub open spec fn travelling_prefix(a: Seq<(&Ship, &Waypoint)>, n: int) -> int
    decreases n,
{
    if n <= 0 || n > a.len() {
        0
    } else {
        travelling_prefix(a, n - 1) + if a[n - 1].0.nav.waypoint_symbol@ != a[n - 1].1.symbol@ {
            1int
        } else {
            0int
        }
    }
}

/// How many ships were sent travelling, and how long to wait for them: 20 seconds when any
/// travels, none otherwise.
pub fn deployment_wait(assignments: &[(&Ship, &Waypoint)]) -> (r: (usize, u64))
    ensures
        r.0 == travelling_prefix(assignments@, assignments@.len() as int),
        r.1 == if r.0 > 0 { 20u64 } else { 0u64 },
{
    let mut count: usize = 0;
    let mut i: usize = 0;
    while i < assignments.len()
        invariant
            i <= assignments@.len(),
            count == travelling_prefix(assignments@, i as int),
            count <= i,
        decreases assignments@.len() - i,
    {
        if !text_eq(assignments[i].0.nav.waypoint_symbol.as_str(), assignments[i].1.symbol.as_str()) {
            count = count + 1;
        }
        i = i + 1;
    }
    (count, if count > 0 { 20 } else { 0 })
}

/// The readiness of the ship named `symbol`, sent to `target`, in a fresh fleet listing.
pub open spec fn readiness_of(ships: Seq<Ship>, symbol: Seq<char>, target: Waypoint) -> Readiness {
    if exists|i: int| first_ship_with_symbol(ships, symbol, i) {
        let s = ships[choose|i: int| first_ship_with_symbol(ships, symbol, i)];
        if s.nav.waypoint_symbol@ != target.symbol@ {
            Readiness::NotAtTarget
        } else if s.nav.status@ != "IN_ORBIT"@ {
            Readiness::NeedsOrbit
        } else {
            Readiness::Ready
        }
    } else {
        Readiness::Missing
    }
}

proof fn lemma_first_ship_unique(ships: Seq<Ship>, symbol: Seq<char>, i: int, j: int)
    requires
        first_ship_with_symbol(ships, symbol, i),
        first_ship_with_symbol(ships, symbol, j),
    ensures
        i == j,
{
}

/// Where the ship `sent` to `target` stands in the fresh listing `current_ships`.
pub fn mining_readiness(current_ships: &[Ship], sent: &Ship, target: &Waypoint) -> (r: Readiness)
    ensures
        r == readiness_of(current_ships@, sent.symbol@, *target),
{
    match find_ship(current_ships, sent.symbol.as_str()) {
        None => Readiness::Missing,
        Some(s) => {
            proof {
                let i = choose|i: int| first_ship_with_symbol(current_ships@, sent.symbol@, i) && current_ships@[i] == *s;
                let k = choose|k: int| first_ship_with_symbol(current_ships@, sent.symbol@, k);
                lemma_first_ship_unique(current_ships@, sent.symbol@, i, k);
            }
            if !text_eq(s.nav.waypoint_symbol.as_str(), target.symbol.as_str()) {
                Readiness::NotAtTarget
            } else if !text_eq(s.nav.status.as_str(), "IN_ORBIT") {
                Readiness::NeedsOrbit
            } else {
                Readiness::Ready
            }
        },
    }
}

} // verus!
