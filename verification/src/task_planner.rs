//! Execution plans for ship actions: the steps (navigate, dock, orbit, refuel, ...) with their
//! fuel, including a refuelling stop when the fuel on hand does not reach the destination.
use vstd::prelude::*;
use vstd::string::*;
use crate::model::{Ship, Waypoint, waypoint_has_trait, has_trait};
use crate::ship_actor::{ShipAction, same_action, action_text, action_debug};
use crate::navigation::{fuel_for, tenths, one_decimal, ship_to, between, ship_x, ship_y, reachable_math, pair_math,
    marketplaces, square_distance, square_distance_of, estimate_fuel_cost, distance_text};
use crate::storage::survey_cache::{nearest_in, nearest_waypoint};
use crate::seqs::lemma_filter_step;
use crate::text::{text_eq, decimal, decimal_text_u64, int_decimal, int_text, join_text};

verus! {

/// What a step of a plan does.
#[derive(Clone, Copy, Debug, PartialEq, Eq)]
pub enum TaskStepType {
    Navigate,
    Dock,
    Orbit,
    Mine,
    Refuel,
    SellCargo,
    DeliverCargo,
    Survey,
    JettisonCargo,
}

/// One step of a plan.
#[derive(Clone, Debug)]
pub struct TaskStep {
    pub step_type: TaskStepType,
    pub location: String,
    pub fuel_cost: i32,
    pub description: String,
}

/// The plan for an action.
#[derive(Clone, Debug)]
pub struct TaskPlan {
    pub action: ShipAction,
    pub steps: Vec<TaskStep>,
    pub estimated_fuel_required: i32,
    /// A rough duration: two seconds per unit of fuel plus the time of the work at the end.
    pub estimated_time_seconds: i64,
}

/// The planner's settings.
#[derive(Clone, Copy, Debug)]
pub struct PlannerConfig {
    /// Fuel a ship must keep after reaching a refuelling stop.
    pub fuel_safety_margin: i32,
}

/// A step as the contracts see it.
pub type StepView = (TaskStepType, Seq<char>, int, Seq<char>);

/// The steps as the contracts see them.
pub open spec fn steps_view(v: Seq<TaskStep>) -> Seq<StepView> {
    v.map_values(|s: TaskStep| (s.step_type, s.location@, s.fuel_cost as int, s.description@))
}

/// The waypoint referred to, if any.
pub open spec fn deref_opt(o: Option<&Waypoint>) -> Option<Waypoint> {
    match o {
        Some(w) => Some(*w),
        None => None,
    }
}

/// The ship is docked.
pub open spec fn docked(s: Ship) -> bool {
    s.nav.status@ == "DOCKED"@
}

/// Leaving dock: an orbit step at the ship's waypoint when it is docked.
pub open spec fn leave_dock(s: Ship) -> Seq<StepView> {
    if docked(s) {
        seq![(TaskStepType::Orbit, s.nav.waypoint_symbol@, 1int, "Orbit from "@ + s.nav.waypoint_symbol@)]
    } else {
        Seq::empty()
    }
}

/// The fuel of leaving dock.
pub open spec fn leave_dock_fuel(s: Ship) -> int {
    if docked(s) {
        1
    } else {
        0
    }
}

/// The fuel the ship has for the trip: one less when docked.
pub open spec fn trip_fuel_on_hand(s: Ship) -> int {
    s.fuel.current - leave_dock_fuel(s)
}

/// The direct route: leave dock, then navigate to the destination.
pub open spec fn direct_route(s: Ship, destination: Seq<char>, d: Waypoint) -> (Seq<StepView>, int) {
    let need = fuel_for(ship_to(s, d));
    (
        leave_dock(s).push(
            (
                TaskStepType::Navigate,
                destination,
                need,
                "Navigate to "@ + destination + " ("@ + one_decimal(tenths(ship_to(s, d))) + " units)"@,
            ),
        ),
        leave_dock_fuel(s) + need,
    )
}

/// The route through the refuelling stop `st`: leave dock, navigate to `st`, dock, refuel,
/// orbit, navigate to the destination.
pub open spec fn hop_route(s: Ship, destination: Seq<char>, d: Waypoint, st: Waypoint) -> (Seq<StepView>, int) {
    let c1 = fuel_for(ship_to(s, st));
    let c2 = fuel_for(between(st, d));
    (
        leave_dock(s) + seq![
            (
                TaskStepType::Navigate,
                st.symbol@,
                c1,
                "Navigate to fuel station "@ + st.symbol@ + " ("@ + one_decimal(tenths(ship_to(s, st))) + " units)"@,
            ),
            (TaskStepType::Dock, st.symbol@, 0int, "Dock at "@ + st.symbol@ + " for refuel"@),
            (TaskStepType::Refuel, st.symbol@, 0int, "Refuel at "@ + st.symbol@),
            (TaskStepType::Orbit, st.symbol@, 1int, "Orbit from "@ + st.symbol@),
            (
                TaskStepType::Navigate,
                destination,
                c2,
                "Navigate to "@ + destination + " from fuel station ("@ + one_decimal(tenths(between(st, d))) + " units)"@,
            ),
        ],
        leave_dock_fuel(s) + c1 + 1 + c2,
    )
}

/// The marketplaces the ship reaches keeping `margin` fuel.
pub open spec fn reachable_stations(s: Ship, ws: Seq<Waypoint>, margin: int) -> Seq<Waypoint> {
    marketplaces(ws).filter(|st: Waypoint| trip_fuel_on_hand(s) >= fuel_for(ship_to(s, st)) + margin)
}

/// The plan to reach `destination` (`d` is its waypoint, `None` when it could not be looked
/// up): an estimated 25-fuel trip when unknown; the direct route when the fuel on hand covers
/// it; else the route through the reachable marketplace nearest the destination (the first
/// among equally near ones), or an error when the system has no marketplace or none is in reach.
pub open spec fn navigation_plan(
    s: Ship,
    destination: Seq<char>,
    d: Option<Waypoint>,
    ws: Seq<Waypoint>,
    margin: int,
    r: Result<(Seq<StepView>, int), Seq<char>>,
) -> bool {
    match d {
        None => r == Ok::<(Seq<StepView>, int), Seq<char>>(
            (seq![(TaskStepType::Navigate, destination, 25int, "Navigate to "@ + destination + " (estimated)"@)], 25int),
        ),
        Some(d) => if trip_fuel_on_hand(s) >= fuel_for(ship_to(s, d)) {
            r == Ok::<(Seq<StepView>, int), Seq<char>>(direct_route(s, destination, d))
        } else if marketplaces(ws).len() == 0 {
            r == Err::<(Seq<StepView>, int), Seq<char>>("No fuel stations available for multi-hop navigation"@)
        } else if reachable_stations(s, ws, margin).len() == 0 {
            r == Err::<(Seq<StepView>, int), Seq<char>>(
                "No reachable fuel stations found. Available fuel: "@ + int_decimal(trip_fuel_on_hand(s)) + ", stations: "@
                    + decimal(marketplaces(ws).len()),
            )
        } else {
            exists|st: Waypoint|
                nearest_in(reachable_stations(s, ws, margin), d.x as int, d.y as int, Some(st)) && r == Ok::<
                    (Seq<StepView>, int),
                    Seq<char>,
                >(hop_route(s, destination, d, st))
        },
    }
}

/// All the fuel sums of planning a trip of `s` to `d` in the system `ws` fit in an `i32`, as do
/// the differences of the coordinates involved.
pub open spec fn route_fits(s: Ship, d: Option<Waypoint>, ws: Seq<Waypoint>, margin: int) -> bool {
    &&& s.fuel.current > i32::MIN + 1
    &&& d matches Some(d) ==> {
        &&& reachable_math(s, d)
        &&& leave_dock_fuel(s) + fuel_for(ship_to(s, d)) + 1 <= i32::MAX
        &&& forall|k: int| 0 <= k < ws.len() ==> {
            &&& reachable_math(s, #[trigger] ws[k])
            &&& pair_math(ws[k], d)
            &&& i32::MIN <= fuel_for(ship_to(s, ws[k])) + margin <= i32::MAX
            &&& leave_dock_fuel(s) + fuel_for(ship_to(s, ws[k])) + 1 + fuel_for(between(ws[k], d)) + 1 <= i32::MAX
        }
    }
}

fn step(step_type: TaskStepType, location: &str, fuel_cost: i32, description: String) -> (r: TaskStep)
    ensures
        r.step_type == step_type,
        r.location@ == location@,
        r.fuel_cost == fuel_cost,
        r.description == description,
{
    TaskStep { step_type, location: String::from_str(location), fuel_cost, description }
}

fn text3(a: &str, b: &str, c: &str) -> (r: String)
    ensures
        r@ == a@ + b@ + c@,
{
    let x = join_text(a, b);
    join_text(x.as_str(), c)
}

/// Plans the actions of ships.
pub struct TaskPlanner {
    config: PlannerConfig,
}

impl TaskPlanner {
    /// The planner's settings.
    pub closed spec fn settings(&self) -> PlannerConfig {
        self.config
    }

    pub fn new(config: PlannerConfig) -> (r: Self)
        ensures
            r.settings() == config,
    {
        TaskPlanner { config }
    }

    /// Replaces the settings.
    pub fn update_config(&mut self, new_config: PlannerConfig)
        ensures
            final(self).settings() == new_config,
    {
        self.config = new_config;
    }

    fn orbit_first(ship: &Ship, steps: &mut Vec<TaskStep>) -> (r: i32)
        requires
            old(steps)@.len() == 0,
        ensures
            steps_view(final(steps)@) == leave_dock(*ship),
            r == leave_dock_fuel(*ship),
    {
        proof {
            reveal_strlit("DOCKED");
            reveal_strlit("Orbit from ");
        }
        if text_eq(ship.nav.status.as_str(), "DOCKED") {
            let d = join_text("Orbit from ", ship.nav.waypoint_symbol.as_str());
            steps.push(step(TaskStepType::Orbit, ship.nav.waypoint_symbol.as_str(), 1, d));
            assert(steps_view(steps@) =~= leave_dock(*ship));
            1
        } else {
            assert(steps_view(steps@) =~= leave_dock(*ship));
            0
        }
    }

    /// The plan to reach `destination` (see [`navigation_plan`]); `dest` is its waypoint and
    /// `system_waypoints` the waypoints of the ship's system.
    pub fn plan_navigation(&self, ship: &Ship, destination: &str, dest: Option<&Waypoint>, system_waypoints: &[Waypoint]) -> (r:
        Result<(Vec<TaskStep>, i32), String>)
        requires
            route_fits(*ship, deref_opt(dest), system_waypoints@, self.settings().fuel_safety_margin as int),
        ensures
            navigation_plan(
                *ship,
                destination@,
                deref_opt(dest),
                system_waypoints@,
                self.settings().fuel_safety_margin as int,
                match r {
                    Ok(p) => Ok((steps_view(p.0@), p.1 as int)),
                    Err(e) => Err(e@),
                },
            ),
            r matches Ok(p) ==> p.1 + 1 <= i32::MAX,
    {
        match dest {
            None => {
                let mut steps: Vec<TaskStep> = Vec::new();
                let d = text3("Navigate to ", destination, " (estimated)");
                steps.push(step(TaskStepType::Navigate, destination, 25, d));
                assert(steps_view(steps@) =~= seq![
                    (TaskStepType::Navigate, destination@, 25int, "Navigate to "@ + destination@ + " (estimated)"@),
                ]);
                Ok((steps, 25))
            },
            Some(d) => {
                let x = ship.nav.route.destination.x;
                let y = ship.nav.route.destination.y;
                let d2 = square_distance_of(x, y, d.x, d.y);
                proof {
                    assert(d2 <= 0x8000_0000_0000_0000) by (nonlinear_arith)
                        requires
                            d2 == square_distance(x as int, y as int, d.x as int, d.y as int),
                            -0x8000_0000 <= d.x - x < 0x8000_0000,
                            -0x8000_0000 <= d.y - y < 0x8000_0000,
                    ;
                    reveal_strlit("DOCKED");
                }
                let need = estimate_fuel_cost(d2);
                let avail: i32 = if text_eq(ship.nav.status.as_str(), "DOCKED") {
                    ship.fuel.current - 1
                } else {
                    ship.fuel.current
                };
                if avail >= need {
                    let mut steps: Vec<TaskStep> = Vec::new();
                    let t0 = Self::orbit_first(ship, &mut steps);
                    let ghost before = steps_view(steps@);
                    let dist = distance_text(d2);
                    let a = text3("Navigate to ", destination, " (");
                    let desc = text3(a.as_str(), dist.as_str(), " units)");
                    steps.push(step(TaskStepType::Navigate, destination, need, desc));
                    assert(steps_view(steps@) =~= before.push(
                        (
                            TaskStepType::Navigate,
                            destination@,
                            need as int,
                            "Navigate to "@ + destination@ + " ("@ + one_decimal(tenths(ship_to(*ship, *d))) + " units)"@,
                        ),
                    ));
                    Ok((steps, t0 + need))
                } else {
                    self.plan_multihop(ship, destination, d, system_waypoints)
                }
            },
        }
    }

    fn plan_multihop(&self, ship: &Ship, destination: &str, d: &Waypoint, system_waypoints: &[Waypoint]) -> (r: Result<
        (Vec<TaskStep>, i32),
        String,
    >)
        requires
            route_fits(*ship, Some(*d), system_waypoints@, self.settings().fuel_safety_margin as int),
            trip_fuel_on_hand(*ship) < fuel_for(ship_to(*ship, *d)),
        ensures
            navigation_plan(
                *ship,
                destination@,
                Some(*d),
                system_waypoints@,
                self.settings().fuel_safety_margin as int,
                match r {
                    Ok(p) => Ok((steps_view(p.0@), p.1 as int)),
                    Err(e) => Err(e@),
                },
            ),
            r matches Ok(p) ==> p.1 + 1 <= i32::MAX,
    {
        let margin = self.config.fuel_safety_margin;
        let x = ship.nav.route.destination.x;
        let y = ship.nav.route.destination.y;
        let mut steps: Vec<TaskStep> = Vec::new();
        let t0 = Self::orbit_first(ship, &mut steps);
        let avail = ship.fuel.current - t0;
        let mut stations: usize = 0;
        let mut reach: Vec<&Waypoint> = Vec::new();
        let mut i: usize = 0;
        while i < system_waypoints.len()
            invariant
                i <= system_waypoints@.len(),
                avail == trip_fuel_on_hand(*ship),
                margin == self.settings().fuel_safety_margin,
                x == ship.nav.route.destination.x,
                y == ship.nav.route.destination.y,
                route_fits(*ship, Some(*d), system_waypoints@, margin as int),
                stations == marketplaces(system_waypoints@.take(i as int)).len(),
                reach@.map_values(|w: &Waypoint| *w) == marketplaces(system_waypoints@.take(i as int)).filter(
                    |st: Waypoint| trip_fuel_on_hand(*ship) >= fuel_for(ship_to(*ship, st)) + margin,
                ),
            decreases system_waypoints@.len() - i,
        {
            let w = &system_waypoints[i];
            let ghost m = marketplaces(system_waypoints@.take(i as int));
            proof {
                lemma_filter_step(system_waypoints@, |w: Waypoint| waypoint_has_trait(w, "MARKETPLACE"@), i as int);
                assert(reachable_math(*ship, system_waypoints@[i as int]));
            }
            if has_trait(w, "MARKETPLACE") {
                stations = stations + 1;
                let w2 = square_distance_of(x, y, w.x, w.y);
                proof {
                    assert(w2 <= 0x8000_0000_0000_0000) by (nonlinear_arith)
                        requires
                            w2 == square_distance(x as int, y as int, w.x as int, w.y as int),
                            -0x8000_0000 <= w.x - x < 0x8000_0000,
                            -0x8000_0000 <= w.y - y < 0x8000_0000,
                    ;
                }
                let c = estimate_fuel_cost(w2);
                let ghost before = reach@.map_values(|w: &Waypoint| *w);
                proof {
                    assert(m.push(*w).take(m.len() as int) =~= m);
                    lemma_filter_step(
                        m.push(*w),
                        |st: Waypoint| trip_fuel_on_hand(*ship) >= fuel_for(ship_to(*ship, st)) + margin,
                        m.len() as int,
                    );
                    assert(m.push(*w).take(m.len() + 1int) =~= m.push(*w));
                }
                if avail >= c + margin {
                    reach.push(w);
                    assert(reach@.map_values(|w: &Waypoint| *w) =~= before.push(*w));
                }
            }
            i = i + 1;
        }
        assert(system_waypoints@.take(i as int) =~= system_waypoints@);
        if stations == 0 {
            return Err(String::from_str("No fuel stations available for multi-hop navigation"));
        }
        match nearest_waypoint(&reach, d.x, d.y) {
            None => {
                let a_text = int_text(avail as i64);
                let n_text = decimal_text_u64(stations as u64);
                let a = text3("No reachable fuel stations found. Available fuel: ", a_text.as_str(), ", stations: ");
                Err(join_text(a.as_str(), n_text.as_str()))
            },
            Some(st) => {
                let ghost stv = *st;
                proof {
                    let c = reach@.map_values(|w: &Waypoint| *w);
                    assert(exists|k: int| 0 <= k < c.len() && c[k] == stv);
                    let k = choose|k: int| 0 <= k < c.len() && c[k] == stv;
                    assert(c.contains(stv));
                    marketplaces(system_waypoints@).lemma_filter_contains_rev(
                        |st: Waypoint| trip_fuel_on_hand(*ship) >= fuel_for(ship_to(*ship, st)) + margin,
                        stv,
                    );
                    system_waypoints@.lemma_filter_contains_rev(|w: Waypoint| waypoint_has_trait(w, "MARKETPLACE"@), stv);
                }
                let ghost j = choose|j: int| 0 <= j < system_waypoints@.len() && system_waypoints@[j] == stv;
                assert(reachable_math(*ship, system_waypoints@[j]) && pair_math(system_waypoints@[j], *d));
                let s2 = square_distance_of(x, y, st.x, st.y);
                let h2 = square_distance_of(st.x, st.y, d.x, d.y);
                proof {
                    assert(s2 <= 0x8000_0000_0000_0000) by (nonlinear_arith)
                        requires
                            s2 == square_distance(x as int, y as int, st.x as int, st.y as int),
                            -0x8000_0000 <= st.x - x < 0x8000_0000,
                            -0x8000_0000 <= st.y - y < 0x8000_0000,
                    ;
                    assert(h2 <= 0x8000_0000_0000_0000) by (nonlinear_arith)
                        requires
                            h2 == square_distance(st.x as int, st.y as int, d.x as int, d.y as int),
                            -0x8000_0000 <= d.x - st.x < 0x8000_0000,
                            -0x8000_0000 <= d.y - st.y < 0x8000_0000,
                    ;
                }
                let c1 = estimate_fuel_cost(s2);
                let c2 = estimate_fuel_cost(h2);
                assert(c1 == fuel_for(ship_to(*ship, system_waypoints@[j])));
                assert(c2 == fuel_for(between(system_waypoints@[j], *d)));
                assert(leave_dock_fuel(*ship) + c1 + 1 + c2 + 1 <= i32::MAX);
                let ghost base = steps_view(steps@);
                let sym = st.symbol.as_str();
                let dist1 = distance_text(s2);
                let a = text3("Navigate to fuel station ", sym, " (");
                let desc1 = text3(a.as_str(), dist1.as_str(), " units)");
                steps.push(step(TaskStepType::Navigate, sym, c1, desc1));
                steps.push(step(TaskStepType::Dock, sym, 0, text3("Dock at ", sym, " for refuel")));
                steps.push(step(TaskStepType::Refuel, sym, 0, join_text("Refuel at ", sym)));
                steps.push(step(TaskStepType::Orbit, sym, 1, join_text("Orbit from ", sym)));
                let dist2 = distance_text(h2);
                let b = text3("Navigate to ", destination, " from fuel station (");
                let desc2 = text3(b.as_str(), dist2.as_str(), " units)");
                steps.push(step(TaskStepType::Navigate, destination, c2, desc2));
                assert(steps_view(steps@) =~= hop_route(*ship, destination@, *d, stv).0);
                Ok((steps, t0 + c1 + 1 + c2))
            },
        }
    }

    /// The plan for an action (see [`action_plan`]); `dest` is the waypoint of the action's
    /// destination, `system_waypoints` the waypoints of the ship's system.
    pub fn create_plan(&self, action: &ShipAction, ship: &Ship, dest: Option<&Waypoint>, system_waypoints: &[Waypoint]) -> (r:
        Result<TaskPlan, String>)
        requires
            route_fits(*ship, deref_opt(dest), system_waypoints@, self.settings().fuel_safety_margin as int),
        ensures
            action_plan(
                *action,
                *ship,
                deref_opt(dest),
                system_waypoints@,
                self.settings().fuel_safety_margin as int,
                match r {
                    Ok(p) => Ok((steps_view(p.steps@), p.estimated_fuel_required as int, p.estimated_time_seconds as int)),
                    Err(e) => Err(e@),
                },
            ),
            r matches Ok(p) ==> same_action(p.action, *action),
    {
        proof {
            reveal_strlit("DOCKED");
        }
        let docked = text_eq(ship.nav.status.as_str(), "DOCKED");
        match action {
            ShipAction::Navigate { destination } => {
                let nav = self.plan_navigation(ship, destination.as_str(), dest, system_waypoints);
                let ghost way = match &nav {
                    Ok(p) => Ok::<(Seq<StepView>, int), Seq<char>>((steps_view(p.0@), p.1 as int)),
                    Err(e) => Err::<(Seq<StepView>, int), Seq<char>>(e@),
                };
                assert(navigation_plan(*ship, destination@, deref_opt(dest), system_waypoints@, self.settings().fuel_safety_margin as int, way));
                let (steps, fuel) = match nav {
                    Ok(p) => p,
                    Err(e) => {
                        return Err(e);
                    },
                };
                assert(steps_view(steps@) =~= steps_view(steps@) + Seq::<StepView>::empty());
                Ok(
                    TaskPlan {
                        action: action.duplicate(),
                        steps,
                        estimated_fuel_required: fuel,
                        estimated_time_seconds: fuel as i64 * 2,
                    },
                )
            },
            ShipAction::Mine { target, .. } => {
                let nav = self.leg(ship, target.as_str(), dest, system_waypoints);
                let ghost way = match &nav {
                    Ok(p) => Ok::<(Seq<StepView>, int), Seq<char>>((steps_view(p.0@), p.1 as int)),
                    Err(e) => Err::<(Seq<StepView>, int), Seq<char>>(e@),
                };
                assert(leg(*ship, target@, deref_opt(dest), system_waypoints@, self.settings().fuel_safety_margin as int, way));
                let (mut steps, mut fuel) = match nav {
                    Ok(p) => p,
                    Err(e) => {
                        return Err(e);
                    },
                };
                let ghost base = steps_view(steps@);
                if docked {
                    steps.push(step(TaskStepType::Orbit, target.as_str(), 1, text3("Orbit at ", target.as_str(), " for mining")));
                    fuel = fuel + 1;
                }
                steps.push(step(TaskStepType::Mine, target.as_str(), 0, join_text("Extract resources at ", target.as_str())));
                assert(steps_view(steps@) =~= base + mine_work(*ship, target@));
                Ok(
                    TaskPlan {
                        action: action.duplicate(),
                        steps,
                        estimated_fuel_required: fuel,
                        estimated_time_seconds: fuel as i64 * 2 + 30,
                    },
                )
            },
            ShipAction::Refuel { station } => {
                let nav = self.leg(ship, station.as_str(), dest, system_waypoints);
                let ghost way = match &nav {
                    Ok(p) => Ok::<(Seq<StepView>, int), Seq<char>>((steps_view(p.0@), p.1 as int)),
                    Err(e) => Err::<(Seq<StepView>, int), Seq<char>>(e@),
                };
                assert(leg(*ship, station@, deref_opt(dest), system_waypoints@, self.settings().fuel_safety_margin as int, way));
                let (mut steps, fuel) = match nav {
                    Ok(p) => p,
                    Err(e) => {
                        return Err(e);
                    },
                };
                let ghost base = steps_view(steps@);
                if !docked || !text_eq(ship.nav.waypoint_symbol.as_str(), station.as_str()) {
                    steps.push(step(TaskStepType::Dock, station.as_str(), 0, text3("Dock at ", station.as_str(), " for refueling")));
                }
                steps.push(step(TaskStepType::Refuel, station.as_str(), 0, join_text("Refuel at ", station.as_str())));
                assert(steps_view(steps@) =~= base + dock_work(*ship, station@, " for refueling"@, TaskStepType::Refuel, "Refuel at "@ + station@));
                Ok(
                    TaskPlan {
                        action: action.duplicate(),
                        steps,
                        estimated_fuel_required: fuel,
                        estimated_time_seconds: fuel as i64 * 2 + 5,
                    },
                )
            },
            ShipAction::SellCargo { marketplace } => {
                let nav = self.leg(ship, marketplace.as_str(), dest, system_waypoints);
                let ghost way = match &nav {
                    Ok(p) => Ok::<(Seq<StepView>, int), Seq<char>>((steps_view(p.0@), p.1 as int)),
                    Err(e) => Err::<(Seq<StepView>, int), Seq<char>>(e@),
                };
                assert(leg(*ship, marketplace@, deref_opt(dest), system_waypoints@, self.settings().fuel_safety_margin as int, way));
                let (mut steps, fuel) = match nav {
                    Ok(p) => p,
                    Err(e) => {
                        return Err(e);
                    },
                };
                let ghost base = steps_view(steps@);
                if !docked || !text_eq(ship.nav.waypoint_symbol.as_str(), marketplace.as_str()) {
                    steps.push(step(TaskStepType::Dock, marketplace.as_str(), 0, text3("Dock at ", marketplace.as_str(), " for trading")));
                }
                steps.push(step(TaskStepType::SellCargo, marketplace.as_str(), 0, join_text("Sell cargo at ", marketplace.as_str())));
                assert(steps_view(steps@) =~= base + dock_work(*ship, marketplace@, " for trading"@, TaskStepType::SellCargo, "Sell cargo at "@ + marketplace@));
                Ok(
                    TaskPlan {
                        action: action.duplicate(),
                        steps,
                        estimated_fuel_required: fuel,
                        estimated_time_seconds: fuel as i64 * 2 + 10,
                    },
                )
            },
            ShipAction::DeliverCargo { destination, .. } => {
                let nav = self.leg(ship, destination.as_str(), dest, system_waypoints);
                let ghost way = match &nav {
                    Ok(p) => Ok::<(Seq<StepView>, int), Seq<char>>((steps_view(p.0@), p.1 as int)),
                    Err(e) => Err::<(Seq<StepView>, int), Seq<char>>(e@),
                };
                assert(leg(*ship, destination@, deref_opt(dest), system_waypoints@, self.settings().fuel_safety_margin as int, way));
                let (mut steps, fuel) = match nav {
                    Ok(p) => p,
                    Err(e) => {
                        return Err(e);
                    },
                };
                let ghost base = steps_view(steps@);
                if !docked || !text_eq(ship.nav.waypoint_symbol.as_str(), destination.as_str()) {
                    steps.push(step(TaskStepType::Dock, destination.as_str(), 0, text3("Dock at ", destination.as_str(), " for delivery")));
                }
                steps.push(step(TaskStepType::DeliverCargo, destination.as_str(), 0, join_text("Deliver cargo to ", destination.as_str())));
                assert(steps_view(steps@) =~= base + dock_work(*ship, destination@, " for delivery"@, TaskStepType::DeliverCargo, "Deliver cargo to "@ + destination@));
                Ok(
                    TaskPlan {
                        action: action.duplicate(),
                        steps,
                        estimated_fuel_required: fuel,
                        estimated_time_seconds: fuel as i64 * 2 + 10,
                    },
                )
            },
            ShipAction::Survey { target } => {
                let nav = self.leg(ship, target.as_str(), dest, system_waypoints);
                let ghost way = match &nav {
                    Ok(p) => Ok::<(Seq<StepView>, int), Seq<char>>((steps_view(p.0@), p.1 as int)),
                    Err(e) => Err::<(Seq<StepView>, int), Seq<char>>(e@),
                };
                assert(leg(*ship, target@, deref_opt(dest), system_waypoints@, self.settings().fuel_safety_margin as int, way));
                let (mut steps, fuel) = match nav {
                    Ok(p) => p,
                    Err(e) => {
                        return Err(e);
                    },
                };
                let ghost base = steps_view(steps@);
                steps.push(step(TaskStepType::Survey, target.as_str(), 0, join_text("Survey ", target.as_str())));
                assert(steps_view(steps@) =~= base + seq![(TaskStepType::Survey, target@, 0int, "Survey "@ + target@)]);
                Ok(
                    TaskPlan {
                        action: action.duplicate(),
                        steps,
                        estimated_fuel_required: fuel,
                        estimated_time_seconds: fuel as i64 * 2 + 15,
                    },
                )
            },
            _ => {
                let mut steps: Vec<TaskStep> = Vec::new();
                let d = join_text("Execute ", action_text(action).as_str());
                proof {
                    reveal_strlit("Execute ");
                }
                steps.push(step(TaskStepType::Navigate, ship.nav.waypoint_symbol.as_str(), 10, d));
                assert(steps_view(steps@) =~= seq![(TaskStepType::Navigate, ship.nav.waypoint_symbol@, 10int, "Execute "@ + action_debug(*action))]);
                Ok(TaskPlan { action: action.duplicate(), steps, estimated_fuel_required: 10, estimated_time_seconds: 30 })
            },
        }
    }

    /// The way to `target`: none when the ship is there, else the plan to reach it.
    fn leg(&self, ship: &Ship, target: &str, dest: Option<&Waypoint>, system_waypoints: &[Waypoint]) -> (r: Result<
        (Vec<TaskStep>, i32),
        String,
    >)
        requires
            route_fits(*ship, deref_opt(dest), system_waypoints@, self.settings().fuel_safety_margin as int),
        ensures
            leg(
                *ship,
                target@,
                deref_opt(dest),
                system_waypoints@,
                self.settings().fuel_safety_margin as int,
                match r {
                    Ok(p) => Ok((steps_view(p.0@), p.1 as int)),
                    Err(e) => Err(e@),
                },
            ),
            r matches Ok(p) ==> p.1 + 1 <= i32::MAX,
    {
        if text_eq(ship.nav.waypoint_symbol.as_str(), target) {
            let steps: Vec<TaskStep> = Vec::new();
            assert(steps_view(steps@) =~= Seq::<StepView>::empty());
            Ok((steps, 0))
        } else {
            self.plan_navigation(ship, target, dest, system_waypoints)
        }
    }
}

/// The way to `target`: no steps when the ship is there, else the plan to reach it.
pub open spec fn leg(
    s: Ship,
    target: Seq<char>,
    d: Option<Waypoint>,
    ws: Seq<Waypoint>,
    margin: int,
    r: Result<(Seq<StepView>, int), Seq<char>>,
) -> bool {
    if s.nav.waypoint_symbol@ == target {
        r == Ok::<(Seq<StepView>, int), Seq<char>>((Seq::empty(), 0int))
    } else {
        navigation_plan(s, target, d, ws, margin, r)
    }
}

/// The work of mining at `t`: an orbit step at `t` when the ship is docked (also after
/// travelling there, as "navigate, orbit, mine"), then the extraction.
pub open spec fn mine_work(s: Ship, t: Seq<char>) -> Seq<StepView> {
    (if docked(s) {
        seq![(TaskStepType::Orbit, t, 1int, "Orbit at "@ + t + " for mining"@)]
    } else {
        Seq::empty()
    }) + seq![(TaskStepType::Mine, t, 0int, "Extract resources at "@ + t)]
}

/// The ship must dock at `place` before working there: it is not docked, or it travels there
/// and so arrives in orbit.
pub open spec fn must_dock_at(s: Ship, place: Seq<char>) -> bool {
    !docked(s) || s.nav.waypoint_symbol@ != place
}

/// Work done docked at `place`: a dock step (for `purpose`) when the ship must dock there (see
/// [`must_dock_at`]), then the work step.
pub open spec fn dock_work(s: Ship, place: Seq<char>, purpose: Seq<char>, work: TaskStepType, description: Seq<char>) -> Seq<
    StepView,
> {
    (if must_dock_at(s, place) {
        seq![(TaskStepType::Dock, place, 0int, "Dock at "@ + place + purpose)]
    } else {
        Seq::empty()
    }) + seq![(work, place, 0int, description)]
}

/// A plan after its way: the way's steps and fuel with the work appended, and its time two
/// seconds per unit of fuel plus `work_seconds`; the way's error when there is no way.
pub open spec fn finish(
    way: Result<(Seq<StepView>, int), Seq<char>>,
    work: Seq<StepView>,
    work_fuel: int,
    work_seconds: int,
) -> Result<(Seq<StepView>, int, int), Seq<char>> {
    match way {
        Ok(p) => Ok((p.0 + work, p.1 + work_fuel, 2 * (p.1 + work_fuel) + work_seconds)),
        Err(e) => Err(e),
    }
}

/// The plan of an action: the way to its place (see [`leg`]; for a navigation, always the
/// plan to reach the destination) followed by its work: orbit and extract for mining; dock and
/// refuel, sell or deliver; survey. Any other action gets one generic 10-fuel step at the
/// ship's waypoint, described as "Execute " and the action as its derived `Debug` writes it
/// (see [`action_debug`]), taking 30 seconds.
pub open spec fn action_plan(
    a: ShipAction,
    s: Ship,
    d: Option<Waypoint>,
    ws: Seq<Waypoint>,
    margin: int,
    r: Result<(Seq<StepView>, int, int), Seq<char>>,
) -> bool {
    match a {
        ShipAction::Navigate { destination } => exists|way: Result<(Seq<StepView>, int), Seq<char>>|
            #[trigger] navigation_plan(s, destination@, d, ws, margin, way) && r == finish(way, Seq::empty(), 0, 0),
        ShipAction::Mine { target, .. } => exists|way: Result<(Seq<StepView>, int), Seq<char>>|
            #[trigger] leg(s, target@, d, ws, margin, way) && r == finish(way, mine_work(s, target@), leave_dock_fuel(s), 30),
        ShipAction::Refuel { station } => exists|way: Result<(Seq<StepView>, int), Seq<char>>|
            #[trigger] leg(s, station@, d, ws, margin, way) && r == finish(
                way,
                dock_work(s, station@, " for refueling"@, TaskStepType::Refuel, "Refuel at "@ + station@),
                0,
                5,
            ),
        ShipAction::SellCargo { marketplace } => exists|way: Result<(Seq<StepView>, int), Seq<char>>|
            #[trigger] leg(s, marketplace@, d, ws, margin, way) && r == finish(
                way,
                dock_work(s, marketplace@, " for trading"@, TaskStepType::SellCargo, "Sell cargo at "@ + marketplace@),
                0,
                10,
            ),
        ShipAction::DeliverCargo { destination, .. } => exists|way: Result<(Seq<StepView>, int), Seq<char>>|
            #[trigger] leg(s, destination@, d, ws, margin, way) && r == finish(
                way,
                dock_work(
                    s,
                    destination@,
                    " for delivery"@,
                    TaskStepType::DeliverCargo,
                    "Deliver cargo to "@ + destination@,
                ),
                0,
                10,
            ),
        ShipAction::Survey { target } => exists|way: Result<(Seq<StepView>, int), Seq<char>>|
            #[trigger] leg(s, target@, d, ws, margin, way) && r == finish(
                way,
                seq![(TaskStepType::Survey, target@, 0int, "Survey "@ + target@)],
                0,
                15,
            ),
        _ => r == Ok::<(Seq<StepView>, int, int), Seq<char>>(
            (
                seq![(TaskStepType::Navigate, s.nav.waypoint_symbol@, 10int, "Execute "@ + action_debug(a))],
                10int,
                30int,
            ),
        ),
    }
}


/// The fuel of a list of steps: their fuel costs added up.
pub open spec fn steps_fuel(v: Seq<StepView>) -> int
    decreases v.len(),
{
    if v.len() == 0 {
        0
    } else {
        steps_fuel(v.drop_last()) + v.last().2
    }
}

proof fn lemma_steps_fuel_concat(a: Seq<StepView>, b: Seq<StepView>)
    ensures
        steps_fuel(a + b) == steps_fuel(a) + steps_fuel(b),
    decreases b.len(),
{
    if b.len() == 0 {
        assert(a + b =~= a);
    } else {
        lemma_steps_fuel_concat(a, b.drop_last());
        assert((a + b).drop_last() =~= a + b.drop_last());
    }
}

proof fn lemma_steps_fuel_one(x: StepView)
    ensures
        steps_fuel(seq![x]) == x.2,
{
    assert(seq![x].drop_last() =~= Seq::<StepView>::empty());
    assert(steps_fuel(Seq::<StepView>::empty()) == 0);
}

proof fn lemma_leave_dock_fuel(s: Ship)
    ensures
        steps_fuel(leave_dock(s)) == leave_dock_fuel(s),
{
    if docked(s) {
        lemma_steps_fuel_one((TaskStepType::Orbit, s.nav.waypoint_symbol@, 1int, "Orbit from "@ + s.nav.waypoint_symbol@));
    } else {
        assert(steps_fuel(Seq::<StepView>::empty()) == 0);
    }
}

proof fn lemma_way_fuel(s: Ship, target: Seq<char>, d: Option<Waypoint>, ws: Seq<Waypoint>, margin: int, q: (Seq<StepView>, int))
    requires
        navigation_plan(s, target, d, ws, margin, Ok(q)) || leg(s, target, d, ws, margin, Ok(q)),
    ensures
        q.1 == steps_fuel(q.0),
{
    lemma_leave_dock_fuel(s);
    if leg(s, target, d, ws, margin, Ok(q)) && s.nav.waypoint_symbol@ == target {
        return;
    }
    match d {
        None => {
            lemma_steps_fuel_one((TaskStepType::Navigate, target, 25int, "Navigate to "@ + target + " (estimated)"@));
        },
        Some(dw) => {
            if trip_fuel_on_hand(s) >= fuel_for(ship_to(s, dw)) {
                let nav = direct_route(s, target, dw);
                assert(nav.0.drop_last() =~= leave_dock(s));
                assert(steps_fuel(nav.0) == steps_fuel(nav.0.drop_last()) + nav.0.last().2);
            } else {
                let st = choose|st: Waypoint|
                    nearest_in(reachable_stations(s, ws, margin), dw.x as int, dw.y as int, Some(st)) && Ok::<
                        (Seq<StepView>, int),
                        Seq<char>,
                    >(q) == Ok::<(Seq<StepView>, int), Seq<char>>(hop_route(s, target, dw, st));
                let h = hop_route(s, target, dw, st);
                let tail = h.0.subrange(leave_dock(s).len() as int, h.0.len() as int);
                assert(h.0 =~= leave_dock(s) + tail);
                lemma_steps_fuel_concat(leave_dock(s), tail);
                reveal_with_fuel(steps_fuel, 6);
                assert(tail.drop_last().drop_last().drop_last().drop_last().drop_last() =~= Seq::<StepView>::empty());
            }
        },
    }
}

proof fn lemma_finish_fuel(way: Result<(Seq<StepView>, int), Seq<char>>, work: Seq<StepView>, work_fuel: int, secs: int, p: (Seq<StepView>, int, int))
    requires
        finish(way, work, work_fuel, secs) == Ok::<(Seq<StepView>, int, int), Seq<char>>(p),
        way matches Ok(q) ==> q.1 == steps_fuel(q.0),
        steps_fuel(work) == work_fuel,
    ensures
        p.1 == steps_fuel(p.0),
{
    if let Ok(q) = way {
        lemma_steps_fuel_concat(q.0, work);
    }
}

/// A plan's estimated fuel is the fuel of its steps added up, whatever the action.
pub proof fn law_plan_fuel_is_step_sum(
    a: ShipAction,
    s: Ship,
    d: Option<Waypoint>,
    ws: Seq<Waypoint>,
    margin: int,
    p: (Seq<StepView>, int, int),
)
    requires
        action_plan(a, s, d, ws, margin, Ok(p)),
    ensures
        p.1 == steps_fuel(p.0),
{
    let r = Ok::<(Seq<StepView>, int, int), Seq<char>>(p);
    match a {
        ShipAction::Navigate { destination } => {
            let way = choose|way: Result<(Seq<StepView>, int), Seq<char>>|
                #[trigger] navigation_plan(s, destination@, d, ws, margin, way) && r == finish(way, Seq::empty(), 0, 0);
            if let Ok(q) = way {
                lemma_way_fuel(s, destination@, d, ws, margin, q);
            }
            lemma_finish_fuel(way, Seq::empty(), 0, 0, p);
        },
        ShipAction::Mine { target, .. } => {
            let work = mine_work(s, target@);
            let way = choose|way: Result<(Seq<StepView>, int), Seq<char>>|
                #[trigger] leg(s, target@, d, ws, margin, way) && r == finish(way, work, leave_dock_fuel(s), 30);
            if let Ok(q) = way {
                lemma_way_fuel(s, target@, d, ws, margin, q);
            }
            let head = if docked(s) {
                seq![(TaskStepType::Orbit, target@, 1int, "Orbit at "@ + target@ + " for mining"@)]
            } else {
                Seq::<StepView>::empty()
            };
            let last = (TaskStepType::Mine, target@, 0int, "Extract resources at "@ + target@);
            assert(work == head + seq![last]);
            lemma_steps_fuel_concat(head, seq![last]);
            lemma_steps_fuel_one(last);
            if docked(s) {
                lemma_steps_fuel_one(head[0]);
                assert(head == seq![head[0]]);
            } else {
                assert(steps_fuel(head) == 0);
            }
            lemma_finish_fuel(way, work, leave_dock_fuel(s), 30, p);
        },
        ShipAction::Refuel { station } => {
            let work = dock_work(s, station@, " for refueling"@, TaskStepType::Refuel, "Refuel at "@ + station@);
            let way = choose|way: Result<(Seq<StepView>, int), Seq<char>>|
                #[trigger] leg(s, station@, d, ws, margin, way) && r == finish(way, work, 0, 5);
            if let Ok(q) = way {
                lemma_way_fuel(s, station@, d, ws, margin, q);
            }
            lemma_dock_work_fuel(s, station@, " for refueling"@, TaskStepType::Refuel, "Refuel at "@ + station@);
            lemma_finish_fuel(way, work, 0, 5, p);
        },
        ShipAction::SellCargo { marketplace } => {
            let work = dock_work(s, marketplace@, " for trading"@, TaskStepType::SellCargo, "Sell cargo at "@ + marketplace@);
            let way = choose|way: Result<(Seq<StepView>, int), Seq<char>>|
                #[trigger] leg(s, marketplace@, d, ws, margin, way) && r == finish(way, work, 0, 10);
            if let Ok(q) = way {
                lemma_way_fuel(s, marketplace@, d, ws, margin, q);
            }
            lemma_dock_work_fuel(s, marketplace@, " for trading"@, TaskStepType::SellCargo, "Sell cargo at "@ + marketplace@);
            lemma_finish_fuel(way, work, 0, 10, p);
        },
        ShipAction::DeliverCargo { destination, .. } => {
            let work = dock_work(
                s,
                destination@,
                " for delivery"@,
                TaskStepType::DeliverCargo,
                "Deliver cargo to "@ + destination@,
            );
            let way = choose|way: Result<(Seq<StepView>, int), Seq<char>>|
                #[trigger] leg(s, destination@, d, ws, margin, way) && r == finish(way, work, 0, 10);
            if let Ok(q) = way {
                lemma_way_fuel(s, destination@, d, ws, margin, q);
            }
            lemma_dock_work_fuel(s, destination@, " for delivery"@, TaskStepType::DeliverCargo, "Deliver cargo to "@ + destination@);
            lemma_finish_fuel(way, work, 0, 10, p);
        },
        ShipAction::Survey { target } => {
            let work = seq![(TaskStepType::Survey, target@, 0int, "Survey "@ + target@)];
            let way = choose|way: Result<(Seq<StepView>, int), Seq<char>>|
                #[trigger] leg(s, target@, d, ws, margin, way) && r == finish(way, work, 0, 15);
            if let Ok(q) = way {
                lemma_way_fuel(s, target@, d, ws, margin, q);
            }
            lemma_steps_fuel_one((TaskStepType::Survey, target@, 0int, "Survey "@ + target@));
            lemma_finish_fuel(way, work, 0, 15, p);
        },
        _ => {
            assert(p.0 == seq![p.0[0]]);
            lemma_steps_fuel_one(p.0[0]);
        },
    }
}

proof fn lemma_dock_work_fuel(s: Ship, place: Seq<char>, purpose: Seq<char>, work: TaskStepType, description: Seq<char>)
    ensures
        steps_fuel(dock_work(s, place, purpose, work, description)) == 0,
{
    let head = if must_dock_at(s, place) {
        seq![(TaskStepType::Dock, place, 0int, "Dock at "@ + place + purpose)]
    } else {
        Seq::<StepView>::empty()
    };
    let last = (work, place, 0int, description);
    assert(dock_work(s, place, purpose, work, description) == head + seq![last]);
    lemma_steps_fuel_concat(head, seq![last]);
    lemma_steps_fuel_one(last);
    if must_dock_at(s, place) {
        lemma_steps_fuel_one(head[0]);
        assert(head == seq![head[0]]);
    } else {
        assert(steps_fuel(head) == 0);
    }
}

/// The kind and place of the step that an action's plan ends with, for the actions that are
/// planned by their place; none for the others.
pub open spec fn final_step_of(a: ShipAction) -> Option<(TaskStepType, Seq<char>)> {
    match a {
        ShipAction::Navigate { destination } => Some((TaskStepType::Navigate, destination@)),
        ShipAction::Mine { target, .. } => Some((TaskStepType::Mine, target@)),
        ShipAction::Refuel { station } => Some((TaskStepType::Refuel, station@)),
        ShipAction::SellCargo { marketplace } => Some((TaskStepType::SellCargo, marketplace@)),
        ShipAction::DeliverCargo { destination, .. } => Some((TaskStepType::DeliverCargo, destination@)),
        ShipAction::Survey { target } => Some((TaskStepType::Survey, target@)),
        _ => None,
    }
}

proof fn lemma_way_ends_at(s: Ship, target: Seq<char>, d: Option<Waypoint>, ws: Seq<Waypoint>, margin: int, q: (Seq<StepView>, int))
    requires
        navigation_plan(s, target, d, ws, margin, Ok(q)),
    ensures
        q.0.len() > 0,
        q.0.last().0 == TaskStepType::Navigate,
        q.0.last().1 == target,
{
    match d {
        None => {},
        Some(dw) => {
            if trip_fuel_on_hand(s) >= fuel_for(ship_to(s, dw)) {
            } else {
                let st = choose|st: Waypoint|
                    nearest_in(reachable_stations(s, ws, margin), dw.x as int, dw.y as int, Some(st)) && Ok::<
                        (Seq<StepView>, int),
                        Seq<char>,
                    >(q) == Ok::<(Seq<StepView>, int), Seq<char>>(hop_route(s, target, dw, st));
                let h = hop_route(s, target, dw, st);
                assert(h.0.len() == leave_dock(s).len() + 5);
                assert(h.0.last() == h.0[leave_dock(s).len() as int + 4]);
            }
        },
    }
}

proof fn lemma_finish_ends_with(way: Result<(Seq<StepView>, int), Seq<char>>, work: Seq<StepView>, wf: int, secs: int, p: (Seq<StepView>, int, int))
    requires
        finish(way, work, wf, secs) == Ok::<(Seq<StepView>, int, int), Seq<char>>(p),
        work.len() > 0,
    ensures
        p.0.len() > 0,
        p.0.last() == work.last(),
{
    if let Ok(q) = way {
        assert(p.0 == q.0 + work);
        assert(p.0.last() == p.0[q.0.len() + work.len() - 1]);
    }
}

/// Every plan has a step, and a plan for an action planned by its place ends with that
/// action's own step there: navigating to the destination, mining or surveying the target,
/// refuelling at the station, selling at the marketplace, delivering at the destination.
pub proof fn law_plan_ends_with_its_work(
    a: ShipAction,
    s: Ship,
    d: Option<Waypoint>,
    ws: Seq<Waypoint>,
    margin: int,
    p: (Seq<StepView>, int, int),
)
    requires
        action_plan(a, s, d, ws, margin, Ok(p)),
    ensures
        p.0.len() > 0,
        final_step_of(a) matches Some(k) ==> p.0.last().0 == k.0 && p.0.last().1 == k.1,
{
    let r = Ok::<(Seq<StepView>, int, int), Seq<char>>(p);
    match a {
        ShipAction::Navigate { destination } => {
            let way = choose|way: Result<(Seq<StepView>, int), Seq<char>>|
                #[trigger] navigation_plan(s, destination@, d, ws, margin, way) && r == finish(way, Seq::empty(), 0, 0);
            if let Ok(q) = way {
                lemma_way_ends_at(s, destination@, d, ws, margin, q);
                assert(p.0 =~= q.0);
            }
        },
        ShipAction::Mine { target, .. } => {
            let work = mine_work(s, target@);
            let way = choose|way: Result<(Seq<StepView>, int), Seq<char>>|
                #[trigger] leg(s, target@, d, ws, margin, way) && r == finish(way, work, leave_dock_fuel(s), 30);
            assert(work.last() == work[work.len() - 1]);
            lemma_finish_ends_with(way, work, leave_dock_fuel(s), 30, p);
        },
        ShipAction::Refuel { station } => {
            let work = dock_work(s, station@, " for refueling"@, TaskStepType::Refuel, "Refuel at "@ + station@);
            let way = choose|way: Result<(Seq<StepView>, int), Seq<char>>|
                #[trigger] leg(s, station@, d, ws, margin, way) && r == finish(way, work, 0, 5);
            assert(work.last() == work[work.len() - 1]);
            lemma_finish_ends_with(way, work, 0, 5, p);
        },
        ShipAction::SellCargo { marketplace } => {
            let work = dock_work(s, marketplace@, " for trading"@, TaskStepType::SellCargo, "Sell cargo at "@ + marketplace@);
            let way = choose|way: Result<(Seq<StepView>, int), Seq<char>>|
                #[trigger] leg(s, marketplace@, d, ws, margin, way) && r == finish(way, work, 0, 10);
            assert(work.last() == work[work.len() - 1]);
            lemma_finish_ends_with(way, work, 0, 10, p);
        },
        ShipAction::DeliverCargo { destination, .. } => {
            let work = dock_work(
                s,
                destination@,
                " for delivery"@,
                TaskStepType::DeliverCargo,
                "Deliver cargo to "@ + destination@,
            );
            let way = choose|way: Result<(Seq<StepView>, int), Seq<char>>|
                #[trigger] leg(s, destination@, d, ws, margin, way) && r == finish(way, work, 0, 10);
            assert(work.last() == work[work.len() - 1]);
            lemma_finish_ends_with(way, work, 0, 10, p);
        },
        ShipAction::Survey { target } => {
            let work = seq![(TaskStepType::Survey, target@, 0int, "Survey "@ + target@)];
            let way = choose|way: Result<(Seq<StepView>, int), Seq<char>>|
                #[trigger] leg(s, target@, d, ws, margin, way) && r == finish(way, work, 0, 15);
            lemma_finish_ends_with(way, work, 0, 15, p);
        },
        _ => {},
    }
}

} // verus!
