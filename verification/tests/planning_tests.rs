use spacetraders::model::{Cargo, Frame, Fuel, Nav, Registration, Route, RouteWaypoint, Ship, Trait, Waypoint};
use spacetraders::navigation::{distance_text, estimate_fuel_cost, floor_sqrt_u128, square_distance_of, NavigationPlanner};
use spacetraders::ship_actor::{
    classify_dock_error, closer_marketplace, cooldown_text_in, estimate_fuel_needed, is_fuel_error, is_transit_error,
    local_fuel_stop, lookup_failure_status, placeholder_ship, status_after, status_report, transit_poll, DockFailure, LocalFuel,
    ShipAction, ShipActorError, ShipActorStatus, action_text, list_text,
};
use spacetraders::text::quote_text;
use spacetraders::task_planner::{PlannerConfig, TaskPlanner, TaskStepType};

fn ship_at(x: i32, y: i32, status: &str, fuel: i32) -> Ship {
    Ship {
        symbol: "SHIP-1".to_string(),
        registration: Registration { role: "COMMAND".to_string() },
        nav: Nav {
            system_symbol: "X1-N5".to_string(),
            waypoint_symbol: "HOME".to_string(),
            status: status.to_string(),
            route: Route {
                destination: RouteWaypoint { symbol: "HOME".to_string(), x, y },
                arrival: "2024-01-01T00:00:00Z".to_string(),
            },
        },
        frame: Frame { symbol: "FRAME_FRIGATE".to_string(), module_slots: 3, mounting_points: 3 },
        mounts: vec![],
        modules: vec![],
        cargo: Cargo { capacity: 40, units: 0, inventory: vec![] },
        fuel: Fuel { current: fuel, capacity: 400 },
    }
}

fn waypoint(symbol: &str, x: i32, y: i32, traits: &[&str]) -> Waypoint {
    Waypoint {
        symbol: symbol.to_string(),
        waypoint_type: "PLANET".to_string(),
        system_symbol: "X1-N5".to_string(),
        x,
        y,
        traits: traits
            .iter()
            .map(|t| Trait { symbol: t.to_string(), name: t.to_string(), description: String::new() })
            .collect(),
        faction: None,
    }
}

fn planner(margin: i32) -> TaskPlanner {
    TaskPlanner::new(PlannerConfig { fuel_safety_margin: margin })
}

#[test]
fn fuel_is_distance_rounded_up_plus_two() {
    assert_eq!(estimate_fuel_cost(0), 2);
    assert_eq!(estimate_fuel_cost(25), 7);
    assert_eq!(estimate_fuel_cost(26), 8);
    assert_eq!(estimate_fuel_cost(10_000), 102);
    assert_eq!(floor_sqrt_u128(99), 9);
    assert_eq!(floor_sqrt_u128(100), 10);
    assert_eq!(square_distance_of(0, 0, 3, -4), 25);
    assert_eq!(square_distance_of(-3, 0, 3, 8), 100);
}

#[test]
fn distances_are_written_with_one_decimal() {
    assert_eq!(distance_text(2), "1.4");
    assert_eq!(distance_text(25), "5.0");
    assert_eq!(distance_text(8_100), "90.0");
    assert_eq!(distance_text(0), "0.0");
    assert_eq!(distance_text(3), "1.7");
    // 3.873 rounds up to 3.9
    assert_eq!(distance_text(15), "3.9");
}

#[test]
fn waypoints_ranked_by_distance() {
    let nav = NavigationPlanner::new();
    let ws = vec![
        waypoint("A", 3, 4, &["MARKETPLACE"]),
        waypoint("B", 0, 0, &["SHIPYARD"]),
        waypoint("C", -4, 3, &["MARKETPLACE"]),
        waypoint("D", 1, 1, &["MARKETPLACE", "SHIPYARD"]),
    ];
    let from = RouteWaypoint { symbol: "HOME".to_string(), x: 0, y: 0 };
    let ranked: Vec<(&str, i128)> = nav
        .find_nearest_waypoints_with_trait(&ws, &from, "MARKETPLACE")
        .iter()
        .map(|(w, d)| (w.symbol.as_str(), *d))
        .collect();
    assert_eq!(ranked, vec![("D", 2), ("A", 25), ("C", 25)]);
    assert!(nav.find_nearest_waypoints_with_trait(&ws, &from, "JUMP_GATE").is_empty());
}

#[test]
fn route_check_direct() {
    let nav = NavigationPlanner::new();
    let s = ship_at(0, 0, "IN_ORBIT", 100);
    let r = nav.can_navigate_safely(&s, &waypoint("D", 3, 4, &[]), &[]);
    assert!(r.is_safe);
    assert_eq!(r.fuel_needed, 7);
    assert_eq!(r.current_fuel, 100);
    assert_eq!(r.reason, "Direct navigation possible: 100 fuel available, 7 needed");
    assert!(r.nearest_fuel_source.is_none());
}

#[test]
fn route_check_without_stations() {
    let nav = NavigationPlanner::new();
    let s = ship_at(0, 0, "IN_ORBIT", 20);
    let r = nav.can_navigate_safely(&s, &waypoint("D", 100, 0, &[]), &[waypoint("P", 5, 5, &["SHIPYARD"])]);
    assert!(!r.is_safe);
    assert_eq!(r.fuel_needed, 102);
    assert_eq!(r.reason, "No fuel stations found in system for refueling");
    assert!(r.nearest_fuel_source.is_none());
}

#[test]
fn route_check_names_nearest_station() {
    let nav = NavigationPlanner::new();
    let ws = vec![waypoint("FAR", 40, 0, &["MARKETPLACE"]), waypoint("M", 10, 0, &["MARKETPLACE"])];
    let short = ship_at(0, 0, "IN_ORBIT", 20);
    let r = nav.can_navigate_safely(&short, &waypoint("D", 100, 0, &[]), &ws);
    assert!(!r.is_safe);
    assert_eq!(r.nearest_fuel_source.as_deref(), Some("M"));
    assert_eq!(r.reason, "No reachable fuel stations: 20 fuel available, need 12 to reach nearest station at M");
    let enough = ship_at(0, 0, "IN_ORBIT", 30);
    let r = nav.can_navigate_safely(&enough, &waypoint("D", 100, 0, &[]), &ws);
    assert!(!r.is_safe);
    assert_eq!(
        r.reason,
        "Multi-hop route needed: 30 fuel available, 102 needed for direct route. Can refuel at M"
    );
}

#[test]
fn plan_for_unknown_destination_is_estimated() {
    let p = planner(5)
        .create_plan(&ShipAction::Navigate { destination: "X1-N5-Z9".to_string() }, &ship_at(0, 0, "IN_ORBIT", 100), None, &[])
        .unwrap();
    assert_eq!(p.steps.len(), 1);
    assert_eq!(p.steps[0].step_type, TaskStepType::Navigate);
    assert_eq!(p.steps[0].location, "X1-N5-Z9");
    assert_eq!(p.steps[0].fuel_cost, 25);
    assert_eq!(p.steps[0].description, "Navigate to X1-N5-Z9 (estimated)");
    assert_eq!(p.estimated_fuel_required, 25);
    assert_eq!(p.estimated_time_seconds, 50);
    assert!(matches!(p.action, ShipAction::Navigate { ref destination } if destination == "X1-N5-Z9"));
}

#[test]
fn docked_ship_orbits_before_flying() {
    let d = waypoint("D", 3, 4, &[]);
    let p = planner(5)
        .create_plan(&ShipAction::Navigate { destination: "D".to_string() }, &ship_at(0, 0, "DOCKED", 100), Some(&d), &[])
        .unwrap();
    let kinds: Vec<TaskStepType> = p.steps.iter().map(|s| s.step_type).collect();
    assert_eq!(kinds, vec![TaskStepType::Orbit, TaskStepType::Navigate]);
    assert_eq!(p.steps[0].description, "Orbit from HOME");
    assert_eq!(p.steps[1].description, "Navigate to D (5.0 units)");
    assert_eq!(p.steps[1].fuel_cost, 7);
    assert_eq!(p.estimated_fuel_required, 8);
    assert_eq!(p.estimated_time_seconds, 16);
}

#[test]
fn mining_where_the_ship_is() {
    let p = planner(5)
        .create_plan(
            &ShipAction::Mine { target: "HOME".to_string(), needed_materials: vec![], contract_id: "C".to_string() },
            &ship_at(0, 0, "DOCKED", 100),
            None,
            &[],
        )
        .unwrap();
    let kinds: Vec<TaskStepType> = p.steps.iter().map(|s| s.step_type).collect();
    assert_eq!(kinds, vec![TaskStepType::Orbit, TaskStepType::Mine]);
    assert_eq!(p.steps[0].description, "Orbit at HOME for mining");
    assert_eq!(p.steps[1].description, "Extract resources at HOME");
    assert_eq!(p.estimated_fuel_required, 1);
    assert_eq!(p.steps.iter().map(|s| s.fuel_cost).sum::<i32>(), p.estimated_fuel_required);
    assert_eq!(p.estimated_time_seconds, 32);
}

#[test]
fn refuel_elsewhere_flies_then_docks() {
    let st = waypoint("ST", 3, 4, &["MARKETPLACE"]);
    let p = planner(5)
        .create_plan(&ShipAction::Refuel { station: "ST".to_string() }, &ship_at(0, 0, "IN_ORBIT", 100), Some(&st), &[])
        .unwrap();
    let kinds: Vec<TaskStepType> = p.steps.iter().map(|s| s.step_type).collect();
    assert_eq!(kinds, vec![TaskStepType::Navigate, TaskStepType::Dock, TaskStepType::Refuel]);
    assert_eq!(p.steps[1].description, "Dock at ST for refueling");
    assert_eq!(p.steps[2].description, "Refuel at ST");
    assert_eq!(p.estimated_fuel_required, 7);
    assert_eq!(p.estimated_time_seconds, 19);
}

#[test]
fn docked_ship_docks_again_where_it_travels() {
    let st = waypoint("ST", 3, 4, &["MARKETPLACE"]);
    let p = planner(5)
        .create_plan(&ShipAction::Refuel { station: "ST".to_string() }, &ship_at(0, 0, "DOCKED", 100), Some(&st), &[])
        .unwrap();
    let kinds: Vec<TaskStepType> = p.steps.iter().map(|s| s.step_type).collect();
    assert_eq!(kinds, vec![TaskStepType::Orbit, TaskStepType::Navigate, TaskStepType::Dock, TaskStepType::Refuel]);
    assert_eq!(p.steps[2].location, "ST");
    assert_eq!(p.estimated_fuel_required, 1 + p.steps[1].fuel_cost);
    let here = planner(5)
        .create_plan(&ShipAction::SellCargo { marketplace: "HOME".to_string() }, &ship_at(0, 0, "DOCKED", 100), None, &[])
        .unwrap();
    let kinds: Vec<TaskStepType> = here.steps.iter().map(|s| s.step_type).collect();
    assert_eq!(kinds, vec![TaskStepType::SellCargo]);
    assert_eq!(here.steps.last().unwrap().location, "HOME");
}

#[test]
fn docked_ship_mining_elsewhere_orbits_at_the_target() {
    let f = waypoint("FIELD", 3, 4, &[]);
    let p = planner(5)
        .create_plan(
            &ShipAction::Mine { target: "FIELD".to_string(), needed_materials: vec![], contract_id: "C".to_string() },
            &ship_at(0, 0, "DOCKED", 100),
            Some(&f),
            &[],
        )
        .unwrap();
    let kinds: Vec<TaskStepType> = p.steps.iter().map(|s| s.step_type).collect();
    assert_eq!(kinds, vec![TaskStepType::Orbit, TaskStepType::Navigate, TaskStepType::Orbit, TaskStepType::Mine]);
    assert_eq!(p.steps[2].location, "FIELD");
    assert_eq!(p.estimated_fuel_required, p.steps.iter().map(|s| s.fuel_cost).sum::<i32>());
}

#[test]
fn long_trip_stops_to_refuel() {
    let d = waypoint("D", 100, 0, &[]);
    let ws = vec![waypoint("FAR", 60, 0, &["MARKETPLACE"]), waypoint("M", 10, 0, &["MARKETPLACE"])];
    let p = planner(5)
        .create_plan(&ShipAction::Navigate { destination: "D".to_string() }, &ship_at(0, 0, "IN_ORBIT", 20), Some(&d), &ws)
        .unwrap();
    let kinds: Vec<TaskStepType> = p.steps.iter().map(|s| s.step_type).collect();
    assert_eq!(
        kinds,
        vec![TaskStepType::Navigate, TaskStepType::Dock, TaskStepType::Refuel, TaskStepType::Orbit, TaskStepType::Navigate]
    );
    assert_eq!(p.steps[0].location, "M");
    assert_eq!(p.steps[0].description, "Navigate to fuel station M (10.0 units)");
    assert_eq!(p.steps[0].fuel_cost, 12);
    assert_eq!(p.steps[4].description, "Navigate to D from fuel station (90.0 units)");
    assert_eq!(p.steps[4].fuel_cost, 92);
    assert_eq!(p.estimated_fuel_required, 105);
    assert_eq!(p.steps.iter().map(|s| s.fuel_cost).sum::<i32>(), p.estimated_fuel_required);
}

#[test]
fn long_trip_errors() {
    let d = waypoint("D", 100, 0, &[]);
    let s = ship_at(0, 0, "IN_ORBIT", 20);
    let none = planner(5).create_plan(&ShipAction::Navigate { destination: "D".to_string() }, &s, Some(&d), &[]);
    assert_eq!(none.err().unwrap(), "No fuel stations available for multi-hop navigation");
    let far = vec![waypoint("M", 50, 0, &["MARKETPLACE"])];
    let unreachable = planner(5).create_plan(&ShipAction::Navigate { destination: "D".to_string() }, &s, Some(&d), &far);
    assert_eq!(unreachable.err().unwrap(), "No reachable fuel stations found. Available fuel: 20, stations: 1");
}

#[test]
fn other_actions_get_a_generic_step() {
    let p = planner(5).create_plan(&ShipAction::Dock, &ship_at(0, 0, "IN_ORBIT", 100), None, &[]).unwrap();
    assert_eq!(p.steps.len(), 1);
    assert_eq!(p.steps[0].step_type, TaskStepType::Navigate);
    assert_eq!(p.steps[0].location, "HOME");
    assert_eq!(p.steps[0].description, "Execute Dock");
    assert_eq!(p.estimated_fuel_required, 10);
    assert_eq!(p.estimated_time_seconds, 30);
}

#[test]
fn planner_settings_can_change() {
    let d = waypoint("D", 100, 0, &[]);
    let ws = vec![waypoint("M", 10, 0, &["MARKETPLACE"])];
    let s = ship_at(0, 0, "IN_ORBIT", 20);
    let mut p = planner(5);
    assert!(p.create_plan(&ShipAction::Navigate { destination: "D".to_string() }, &s, Some(&d), &ws).is_ok());
    p.update_config(PlannerConfig { fuel_safety_margin: 10 });
    assert!(p.create_plan(&ShipAction::Navigate { destination: "D".to_string() }, &s, Some(&d), &ws).is_err());
}

#[test]
fn cooldown_seconds_are_read_from_errors() {
    assert_eq!(
        cooldown_text_in("Ship action is still on cooldown for 27 second(s).").as_deref(),
        Some("27")
    );
    assert_eq!(cooldown_text_in("cooldown for 3.5 seconds").as_deref(), Some("3.5"));
    assert_eq!(cooldown_text_in("on cooldown").as_deref(), None);
    assert_eq!(cooldown_text_in("cooldown for ever").as_deref(), None);
}

#[test]
fn errors_are_recognised() {
    assert!(is_transit_error("Error 4214: ship is in-transit"));
    assert!(is_transit_error("ship arrives in 20 seconds"));
    assert!(!is_transit_error("ship is docked"));
    assert!(is_fuel_error("Insufficient fuel for navigation"));
    assert!(!is_fuel_error("insufficient fuel"));
    assert_eq!(classify_dock_error("ship already docked"), DockFailure::AlreadyDocked);
    assert_eq!(classify_dock_error("429 Too Many Requests"), DockFailure::RateLimited);
    assert_eq!(classify_dock_error("400 Bad Request: ship must be at waypoint"), DockFailure::NotThere);
    assert_eq!(classify_dock_error("400 Bad Request: docking not allowed here"), DockFailure::NotAllowed);
    assert_eq!(classify_dock_error("400 Bad Request: other"), DockFailure::Other);
    assert_eq!(classify_dock_error("500 Internal"), DockFailure::Other);
}

#[test]
fn transit_waits_are_capped() {
    assert_eq!(transit_poll(Some(100), 60), Some(60));
    assert_eq!(transit_poll(Some(30), 60), Some(30));
    assert_eq!(transit_poll(Some(0), 60), None);
    assert_eq!(transit_poll(None, 60), None);
}

#[test]
fn refuelling_stops() {
    assert_eq!(estimate_fuel_needed("A", "A"), 0);
    assert_eq!(estimate_fuel_needed("A", "B"), 150);
    let ws = vec![waypoint("P", 0, 0, &["SHIPYARD"]), waypoint("M1", 1, 1, &["MARKETPLACE"]), waypoint("M2", 2, 2, &["MARKETPLACE"])];
    assert_eq!(local_fuel_stop(&ws, "M2"), LocalFuel::Here);
    assert_eq!(local_fuel_stop(&ws, "P"), LocalFuel::Go(1));
    assert_eq!(local_fuel_stop(&ws[..1], "P"), LocalFuel::NoStation);
    assert_eq!(closer_marketplace(&ws, 149), None);
    assert_eq!(closer_marketplace(&ws, 150), Some(1));
}

#[test]
fn actor_statuses() {
    assert!(matches!(status_after(&Ok(())), ShipActorStatus::Idle));
    let err = status_after(&Err(ShipActorError("boom".to_string())));
    assert!(matches!(err, ShipActorStatus::Error(ref m) if m == "boom"));
    assert!(matches!(lookup_failure_status(), ShipActorStatus::Error(ref m) if m == "Failed to get current ship data"));
    let report = status_report("S1", Some(ship_at(1, 2, "DOCKED", 50)), Some(99), ShipActorStatus::Working);
    assert_eq!(report.ship.fuel.current, 50);
    assert_eq!(report.cooldown_until, Some(99));
    assert!(matches!(report.status, ShipActorStatus::Working));
    assert!(report.current_action.is_none() && report.current_plan.is_none());
    let lost = status_report("S2", None, None, ShipActorStatus::Working);
    assert_eq!(lost.ship.symbol, "S2");
    assert_eq!(lost.ship.nav.status, "UNKNOWN");
    assert!(matches!(lost.status, ShipActorStatus::Error(ref m) if m == "Failed to get current ship data"));
    let p = placeholder_ship("GHOST");
    assert_eq!(p.symbol, "GHOST");
    assert_eq!(p.nav.waypoint_symbol, "UNKNOWN");
    assert_eq!(p.fuel.capacity, 0);
}

#[test]
fn action_text_is_the_derived_debug() {
    let actions = vec![
        ShipAction::Mine { target: "X1-A".to_string(), needed_materials: vec!["IRON_ORE".to_string(), "a\"b".to_string()], contract_id: "C".to_string() },
        ShipAction::Navigate { destination: "X1-B".to_string() },
        ShipAction::Explore { systems: vec![] },
        ShipAction::Trade { items: vec!["FOOD".to_string()], marketplace: "M\n".to_string() },
        ShipAction::Refuel { station: "S".to_string() },
        ShipAction::SellCargo { marketplace: "M".to_string() },
        ShipAction::Dock,
        ShipAction::Orbit,
        ShipAction::Survey { target: "T".to_string() },
        ShipAction::DeliverCargo { contract_id: "C".to_string(), destination: "D".to_string(), trade_symbol: "G".to_string(), units: -7 },
        ShipAction::SmartSellOrJettison { marketplace: "M".to_string(), contract_materials: vec!["A".to_string(), "B".to_string()] },
        ShipAction::JettisonCargo { contract_materials: vec!["A".to_string()] },
    ];
    for a in &actions {
        assert_eq!(action_text(a), format!("{:?}", a));
    }
    assert_eq!(action_text(&ShipAction::Dock), "Dock");
    assert_eq!(list_text(&vec!["X".to_string(), "Y".to_string()]), "[\"X\", \"Y\"]");
    assert_eq!(quote_text("X1-N5_A"), "\"X1-N5_A\"");
    assert_eq!(quote_text("a\"b"), "\"a\\\"b\"");
}
