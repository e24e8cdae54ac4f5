use spacetraders::coordination::{
    best_market_for_cargo, best_mining_target, calculate_mining_preference_score, choose_task,
    delivery_task, determine_needed_deposit_type, is_cargo_full, nearest_by_trait_order, nearest_with_traits,
    needs_refuel, plan_cargo_management, should_deliver_cargo, should_expand_fleet, suitable_asteroids, CargoPlan,
    FleetTask,
};
use spacetraders::fleet::{fuel_safety_threshold, mining_readiness, plan_deployment, FleetOperations, Readiness};
use spacetraders::iron_ore_miner::{iron_ore_yield, IronOreMiner, MiningCampaign};
use spacetraders::mining::{find_target_survey, MiningOperations};
use spacetraders::model::{
    CargoItem, Cargo, Contract, Delivery, Deposit, Frame, Fuel, Market, MarketTradeGood, Module, Mount, Nav, Payment,
    Registration, Route, RouteWaypoint, Ship, Survey, Terms, TradeGood, Trait, Waypoint,
};
use spacetraders::prioritizer::{
    analyze_ship_capabilities, contract_requires_mining, get_primary_role, idle_ships, recommend_task, ShipCapabilities,
};
use spacetraders::ship_actor::ShipActorStatus;
use spacetraders::ship_ops::ShipOperations;
use spacetraders::ship_roles::{
    arrival_seconds_in, at_shipyard, best_receiver, choose_refinery_strategy, classify_navigation_error,
    determine_current_role, iron_ore_carriers, iron_requirement, iron_rounds, is_module_removable, module_on_sale,
    next_iron_delivery, plan_refinery_fitting, refinery_fitting_for, refining_cycles, removable_for_cargo, survey_modules, transfer_units,
    NavigationFailure, RefineryFitting, RefineryStrategy, ShipRole,
};
use spacetraders::shipyard::{choose_shipyard, ShipListing, ShipyardOperations};

fn item(symbol: &str, units: i32) -> CargoItem {
    CargoItem { symbol: symbol.to_string(), name: symbol.to_string(), units }
}

fn mount(symbol: &str, strength: Option<i32>) -> Mount {
    Mount { symbol: symbol.to_string(), name: symbol.to_string(), strength }
}

fn module(symbol: &str) -> Module {
    Module { symbol: symbol.to_string(), name: symbol.to_string() }
}

fn ship(symbol: &str, role: &str, at: &str, status: &str, capacity: i32, units: i32, inventory: Vec<CargoItem>) -> Ship {
    Ship {
        symbol: symbol.to_string(),
        registration: Registration { role: role.to_string() },
        nav: Nav {
            system_symbol: "X1-N5".to_string(),
            waypoint_symbol: at.to_string(),
            status: status.to_string(),
            route: Route {
                destination: RouteWaypoint { symbol: at.to_string(), x: 0, y: 0 },
                arrival: "2024-01-01T00:00:00Z".to_string(),
            },
        },
        frame: Frame { symbol: "FRAME_FRIGATE".to_string(), module_slots: 3, mounting_points: 3 },
        mounts: vec![],
        modules: vec![],
        cargo: Cargo { capacity, units, inventory },
        fuel: Fuel { current: 1000, capacity: 1000 },
    }
}

fn trait_of(symbol: &str) -> Trait {
    Trait { symbol: symbol.to_string(), name: symbol.to_string(), description: String::new() }
}

fn waypoint(symbol: &str, kind: &str, x: i32, y: i32, traits: &[&str]) -> Waypoint {
    Waypoint {
        symbol: symbol.to_string(),
        waypoint_type: kind.to_string(),
        system_symbol: "X1-N5".to_string(),
        x,
        y,
        traits: traits.iter().map(|t| trait_of(t)).collect(),
        faction: None,
    }
}

fn contract(deliver: Vec<Delivery>, on_fulfilled: i64) -> Contract {
    Contract {
        id: "C1".to_string(),
        faction_symbol: "COSMIC".to_string(),
        contract_type: "PROCUREMENT".to_string(),
        accepted: true,
        fulfilled: false,
        deadline_to_accept: String::new(),
        terms: Terms { payment: Payment { on_accepted: 0, on_fulfilled }, deliver },
    }
}

fn delivery(symbol: &str, dest: &str, required: i32, fulfilled: i32) -> Delivery {
    Delivery {
        trade_symbol: symbol.to_string(),
        destination_symbol: dest.to_string(),
        units_required: required,
        units_fulfilled: fulfilled,
    }
}

fn survey(signature: &str, deposits: &[&str]) -> Survey {
    Survey {
        signature: signature.to_string(),
        symbol: "X1-N5-B7".to_string(),
        deposits: deposits.iter().map(|d| Deposit { symbol: d.to_string() }).collect(),
        expiration: String::new(),
        size: "SMALL".to_string(),
    }
}

#[test]
fn mining_and_hauling_ships() {
    let ops = ShipOperations::new();
    let mut miner = ship("M", "EXCAVATOR", "A", "IN_ORBIT", 30, 0, vec![]);
    miner.mounts = vec![mount("MOUNT_MINING_LASER_II", Some(25))];
    let hauler = ship("H", "HAULER", "A", "IN_ORBIT", 80, 0, vec![]);
    let small = ship("S", "SATELLITE", "A", "IN_ORBIT", 0, 0, vec![]);
    assert!(ops.has_mining_capability(&miner));
    assert!(!ops.is_hauler(&miner));
    assert!(ops.is_hauler(&hauler));
    assert!(!ops.is_hauler(&small));
    let fleet = FleetOperations::new();
    let ships = vec![miner, hauler, small];
    assert_eq!(fleet.get_mining_ships(&ships).len(), 1);
    assert_eq!(fleet.get_hauler_ships(&ships)[0].symbol, "H");
    let a = fleet.analyze_fleet(&ships);
    assert_eq!((a.total_ships, a.mining_ships, a.hauler_ships, a.total_cargo_capacity), (3, 1, 1, 110));
}

#[test]
fn fleet_efficiency_counts() {
    let mut miner = ship("M", "EXCAVATOR", "A", "IN_ORBIT", 30, 12, vec![]);
    miner.mounts = vec![mount("MOUNT_MINING_LASER_II", Some(25))];
    let hauler = ship("H", "HAULER", "A", "DOCKED", 80, 40, vec![]);
    let moving = ship("T", "HAULER", "A", "IN_TRANSIT", 10, 0, vec![]);
    let e = FleetOperations::new().calculate_fleet_efficiency(&[miner, hauler, moving]);
    assert_eq!(e.mining_power, 1);
    assert_eq!((e.cargo_used, e.cargo_capacity), (52, 120));
    assert_eq!((e.active_ships, e.idle_ships), (1, 1));
}

#[test]
fn deployment_refuses_without_fields() {
    let fleet = FleetOperations::new();
    let ships = vec![ship("M", "EXCAVATOR", "A", "IN_ORBIT", 30, 0, vec![])];
    let r = fleet.assign_mining_positions(&ships, &[]);
    assert_eq!(r.err(), Some("No asteroid fields available for deployment".to_string()));
    let fields = vec![waypoint("F1", "ASTEROID", 0, 0, &[]), waypoint("F2", "ASTEROID", 0, 0, &[])];
    let three = vec![ship("A", "X", "A", "IN_ORBIT", 1, 0, vec![]), ship("B", "X", "A", "IN_ORBIT", 1, 0, vec![]), ship("C", "X", "A", "IN_ORBIT", 1, 0, vec![])];
    let v = fleet.assign_mining_positions(&three, &fields).unwrap();
    let targets: Vec<&str> = v.iter().map(|(_, w)| w.symbol.as_str()).collect();
    assert_eq!(targets, vec!["F1", "F2", "F1"]);
}

#[test]
fn deployment_plans_refuel_below_ninety_percent() {
    assert_eq!(fuel_safety_threshold(400), 360);
    assert_eq!(fuel_safety_threshold(-15), -13);
    let mut s = ship("M", "EXCAVATOR", "A", "DOCKED", 30, 0, vec![]);
    s.fuel = Fuel { current: 300, capacity: 400 };
    let target = waypoint("F", "ASTEROID", 0, 0, &[]);
    let p = plan_deployment(&s, &target);
    assert!(p.navigate && p.refuel_first && !p.dock_for_refuel && p.orbit_before_navigation);
    let here = waypoint("A", "ASTEROID", 0, 0, &[]);
    assert!(!plan_deployment(&s, &here).navigate);
    assert_eq!(mining_readiness(&[s.clone()], &s, &here), Readiness::NeedsOrbit);
    assert_eq!(mining_readiness(&[], &s, &here), Readiness::Missing);
}

#[test]
fn surveys_for_needed_materials() {
    let needed = vec!["IRON_ORE".to_string()];
    let surveys = vec![survey("S1", &["COPPER_ORE"]), survey("S2", &["QUARTZ", "IRON_ORE"]), survey("S3", &["IRON_ORE"])];
    assert_eq!(find_target_survey(&surveys, &needed).map(|s| s.signature.clone()), Some("S2".to_string()));
    let ops = MiningOperations::new();
    assert_eq!(ops.select_best_survey(&surveys[..1], &needed).map(|s| s.signature), None);
}

#[test]
fn asteroid_scores_by_traits() {
    let ops = MiningOperations::new();
    let mut w = waypoint("B7", "ASTEROID", 0, 0, &[]);
    w.traits = vec![Trait {
        symbol: "COMMON_METAL_DEPOSITS".to_string(),
        name: "Common Metal Deposits".to_string(),
        description: "Rich in iron_ore and metal ore".to_string(),
    }];
    let needed = vec!["IRON_ORE".to_string(), "ALUMINUM_ORE".to_string()];
    // aluminium hint (metal ore) 100 + ore/metal 50 + one material named (iron_ore) 75
    assert_eq!(ops.score_asteroid_for_materials(&w, &needed), 225);
}

#[test]
fn asteroid_fields_best_scoring_first() {
    let ops = MiningOperations::new();
    let field = |symbol: &str, kind: &str, description: &str| {
        let mut w = waypoint(symbol, kind, 0, 0, &[]);
        w.traits = vec![Trait { symbol: "X".to_string(), name: "Field".to_string(), description: description.to_string() }];
        w
    };
    let ws = vec![
        field("F1", "ASTEROID_FIELD", "plain rock"),
        field("F2", "ASTEROID_FIELD", "metal rich"),
        field("P", "PLANET", "iron_ore"),
        field("F3", "ASTEROID_FIELD", "iron_ore deposits"),
        field("F4", "ASTEROID_FIELD", "metal"),
    ];
    let needed = vec!["IRON_ORE".to_string()];
    let ranked: Vec<&str> = ops.find_asteroid_fields(&ws, &needed).iter().map(|w| w.symbol.as_str()).collect();
    assert_eq!(ranked, vec!["F3", "F2", "F4", "F1"]);
}

#[test]
fn refuel_and_delivery_decisions() {
    let mut s = ship("M", "EXCAVATOR", "A", "IN_ORBIT", 100, 95, vec![item("IRON_ORE", 95)]);
    s.fuel = Fuel { current: 450, capacity: 2300 };
    assert!(needs_refuel(&s));
    s.fuel = Fuel { current: 450, capacity: 2250 };
    assert!(!needs_refuel(&s));
    s.fuel = Fuel { current: 399, capacity: 400 };
    assert!(needs_refuel(&s));
    let mut probe = s.clone();
    probe.registration.role = "SATELLITE".to_string();
    assert!(!needs_refuel(&probe));

    let c = contract(vec![delivery("IRON_ORE", "HQ", 500, 0)], 0);
    assert!(should_deliver_cargo(&s, &c));
    let partial = ship("M", "EXCAVATOR", "A", "IN_ORBIT", 100, 80, vec![item("IRON_ORE", 74), item("ICE", 6)]);
    assert!(!should_deliver_cargo(&partial, &c));
    let most = ship("M", "EXCAVATOR", "A", "IN_ORBIT", 100, 80, vec![item("IRON_ORE", 75), item("ICE", 5)]);
    assert!(should_deliver_cargo(&most, &c));
    let small = contract(vec![delivery("IRON_ORE", "HQ", 10, 5)], 0);
    let few = ship("M", "EXCAVATOR", "A", "IN_ORBIT", 100, 5, vec![item("IRON_ORE", 5)]);
    assert!(should_deliver_cargo(&few, &small));
    let none = ship("M", "EXCAVATOR", "A", "IN_ORBIT", 100, 100, vec![item("ICE", 100)]);
    assert!(!should_deliver_cargo(&none, &c));
    assert!(is_cargo_full(&none));
}

#[test]
fn task_precedence() {
    let c = contract(vec![delivery("IRON_ORE", "HQ", 500, 0)], 0);
    let mut probe = ship("P", "SATELLITE", "A", "IN_ORBIT", 0, 0, vec![]);
    probe.fuel = Fuel { current: 0, capacity: 0 };
    assert_eq!(choose_task(&probe, &c, true, true), FleetTask::Skip);
    probe.fuel = Fuel { current: 10, capacity: 100 };
    assert_eq!(choose_task(&probe, &c, true, true), FleetTask::Explore);
    let mut low = ship("L", "EXCAVATOR", "A", "IN_ORBIT", 100, 0, vec![]);
    low.fuel = Fuel { current: 100, capacity: 1000 };
    assert_eq!(choose_task(&low, &c, true, true), FleetTask::Refuel);
    let full = ship("F", "EXCAVATOR", "A", "IN_ORBIT", 100, 100, vec![item("ICE", 100)]);
    assert_eq!(choose_task(&full, &c, true, true), FleetTask::ManageCargo);
    let idle = ship("I", "EXCAVATOR", "A", "IN_ORBIT", 100, 0, vec![]);
    assert_eq!(choose_task(&idle, &c, true, true), FleetTask::Mine);
    assert_eq!(choose_task(&idle, &c, false, true), FleetTask::Support);
    assert_eq!(choose_task(&idle, &c, false, false), FleetTask::Idle);
}

#[test]
fn deposit_type_from_materials() {
    assert_eq!(determine_needed_deposit_type(&["IRON_ORE".to_string()]), "COMMON_METAL_DEPOSITS");
    assert_eq!(determine_needed_deposit_type(&["DIAMONDS".to_string()]), "PRECIOUS_METAL_DEPOSITS");
    assert_eq!(determine_needed_deposit_type(&["FOOD".to_string(), "QUARTZ_SAND".to_string()]), "MINERAL_DEPOSITS");
    assert_eq!(determine_needed_deposit_type(&["FOOD".to_string()]), "COMMON_METAL_DEPOSITS");
}

#[test]
fn mining_target_preference() {
    let ws = vec![
        waypoint("A", "ASTEROID", 0, 0, &["COMMON_METAL_DEPOSITS"]),
        waypoint("B", "ENGINEERED_ASTEROID", 0, 0, &["COMMON_METAL_DEPOSITS", "MARKETPLACE", "EXPLOSIVE_GASES"]),
        waypoint("C", "ENGINEERED_ASTEROID", 0, 0, &["COMMON_METAL_DEPOSITS", "MARKETPLACE", "FUEL_STATION"]),
        waypoint("D", "PLANET", 0, 0, &["COMMON_METAL_DEPOSITS", "MARKETPLACE"]),
    ];
    assert_eq!(calculate_mining_preference_score(&ws[1]), 1090);
    assert_eq!(calculate_mining_preference_score(&ws[2]), 1300);
    let suitable = suitable_asteroids(&ws, "COMMON_METAL_DEPOSITS");
    assert_eq!(suitable.len(), 3);
    assert_eq!(best_mining_target(&suitable), Some(2));
    assert_eq!(best_mining_target(&[]), None);
}

#[test]
fn delivery_task_and_cargo_plan() {
    let c = contract(vec![delivery("COPPER_ORE", "HQ", 10, 10), delivery("IRON_ORE", "HQ", 50, 20)], 0);
    let s = ship("M", "EXCAVATOR", "A", "IN_ORBIT", 100, 100, vec![item("COPPER_ORE", 5), item("IRON_ORE", 60), item("ICE", 35)]);
    let t = delivery_task(&s, &c).unwrap();
    assert_eq!((t.trade_symbol.as_str(), t.units, t.destination.as_str(), t.navigate_first), ("IRON_ORE", 30, "HQ", true));
    assert_eq!(plan_cargo_management(&s, &c), CargoPlan::Deliver);
    let ice = ship("M", "EXCAVATOR", "A", "IN_ORBIT", 100, 100, vec![item("ICE", 100)]);
    assert_eq!(plan_cargo_management(&ice, &c), CargoPlan::SellOrJettison);
    assert!(delivery_task(&ice, &c).is_none());
    let empty = ship("M", "EXCAVATOR", "A", "IN_ORBIT", 100, 0, vec![]);
    assert_eq!(plan_cargo_management(&empty, &c), CargoPlan::Mine);
}

#[test]
fn best_market_buys_most() {
    let goods = vec![item("ICE", 10), item("QUARTZ_SAND", 4)];
    let refs: Vec<&CargoItem> = goods.iter().collect();
    let m1 = Market { symbol: "M1".to_string(), imports: vec![TradeGood { symbol: "ICE".to_string() }], exports: vec![], exchange: vec![], trade_goods: None };
    let m2 = Market {
        symbol: "M2".to_string(),
        imports: vec![TradeGood { symbol: "ICE".to_string() }],
        exports: vec![],
        exchange: vec![TradeGood { symbol: "QUARTZ_SAND".to_string() }],
        trade_goods: None,
    };
    assert_eq!(best_market_for_cargo(&[Some(m1.clone()), None, Some(m2)], &refs), Some(2));
    let nothing = Market { symbol: "M3".to_string(), imports: vec![], exports: vec![], exchange: vec![], trade_goods: None };
    assert_eq!(best_market_for_cargo(&[Some(nothing), None], &refs), None);
}

#[test]
fn nearest_waypoints_with_traits() {
    let ws = vec![
        waypoint("FAR", "PLANET", 10, 10, &["MARKETPLACE"]),
        waypoint("SHIPYARD", "PLANET", 1, 1, &["SHIPYARD"]),
        waypoint("NEAR", "PLANET", 2, 2, &["MARKETPLACE"]),
        waypoint("TIE", "PLANET", -2, -2, &["MARKETPLACE"]),
    ];
    assert_eq!(nearest_with_traits(&ws, &["MARKETPLACE", "SHIPYARD"], 0, 0).map(|w| w.symbol.clone()), Some("SHIPYARD".to_string()));
    assert_eq!(nearest_with_traits(&ws, &["MARKETPLACE"], 0, 0).map(|w| w.symbol.clone()), Some("NEAR".to_string()));
    assert_eq!(nearest_by_trait_order(&ws, &["FUEL_STATION", "MARKETPLACE"], 0, 0).map(|w| w.symbol.clone()), Some("NEAR".to_string()));
    assert!(nearest_by_trait_order(&ws, &["FUEL_STATION"], 0, 0).is_none());
}

#[test]
fn fleet_expansion_rule() {
    let c = contract(vec![delivery("IRON_ORE", "HQ", 40, 0)], 20_000);
    let mut m = ship("M", "EXCAVATOR", "A", "IN_ORBIT", 100, 0, vec![]);
    m.mounts = vec![mount("MOUNT_MINING_LASER_I", Some(10))];
    assert!(should_expand_fleet(150_000, &[m.clone()], &c));
    assert!(!should_expand_fleet(149_999, &[m.clone()], &c));
    let four = vec![m.clone(), m.clone(), m.clone(), m.clone()];
    assert!(!should_expand_fleet(500_000, &four, &c));
    let cheap = contract(vec![delivery("IRON_ORE", "HQ", 40, 0)], 10_000);
    assert!(!should_expand_fleet(500_000, &[m], &cheap));
}

#[test]
fn ship_capabilities_and_roles() {
    let mut m = ship("M", "EXCAVATOR", "A", "IN_ORBIT", 30, 0, vec![]);
    m.mounts = vec![mount("MOUNT_MINING_LASER_II", Some(25)), mount("MOUNT_GAS_SIPHON", Some(5)), mount("MOUNT_EXTRACTOR_X", None)];
    let caps = analyze_ship_capabilities(&m);
    assert!(caps.can_mine && caps.can_trade && !caps.can_haul && !caps.can_explore);
    assert_eq!(caps.mining_power, 25);
    assert_eq!(get_primary_role(&caps), "Primary Miner");
    let mut p = ship("P", "SATELLITE", "A", "IN_ORBIT", 0, 0, vec![]);
    p.mounts = vec![mount("MOUNT_MINING_LASER_I", Some(10))];
    let pc = analyze_ship_capabilities(&p);
    assert!(!pc.can_mine && pc.can_explore);
    assert_eq!(pc.mining_power, 0);
    assert_eq!(get_primary_role(&pc), "Explorer");
    assert!(contract_requires_mining(&["RAW_IRON_ORE".to_string()]));
    assert!(!contract_requires_mining(&["FOOD".to_string()]));
}

#[test]
fn task_recommendations_and_idle_ships() {
    let caps = |can_mine: bool, can_haul: bool, can_explore: bool, cargo: i32| ShipCapabilities {
        can_mine,
        can_trade: cargo >= 10,
        can_explore,
        can_haul,
        mining_power: 10,
        cargo_capacity: cargo,
        fuel_capacity: 100,
    };
    assert_eq!(recommend_task(&caps(true, false, false, 40), true), "High-priority mining");
    assert_eq!(recommend_task(&caps(true, false, false, 40), false), "Support operations");
    assert_eq!(recommend_task(&caps(false, true, false, 40), false), "Cargo transport");
    assert_eq!(recommend_task(&caps(false, true, false, 30), false), "Support operations");
    assert_eq!(recommend_task(&caps(false, false, true, 0), true), "System exploration");
    let fleet = vec![
        ("A".to_string(), ShipActorStatus::Idle),
        ("B".to_string(), ShipActorStatus::Working),
        ("C".to_string(), ShipActorStatus::Idle),
        ("D".to_string(), ShipActorStatus::Error("x".to_string())),
    ];
    assert_eq!(idle_ships(&fleet), vec!["A".to_string(), "C".to_string()]);
    assert!(idle_ships(&[]).is_empty());
}

#[test]
fn current_role_of_ships() {
    let mut s = ship("S", "COMMAND", "A", "IN_ORBIT", 40, 0, vec![]);
    assert_eq!(determine_current_role(&s), ShipRole::Hauler);
    s.modules = vec![module("MODULE_ORE_REFINERY_I")];
    assert_eq!(determine_current_role(&s), ShipRole::Refiner);
    s.registration.role = "PROBE".to_string();
    assert_eq!(determine_current_role(&s), ShipRole::Scout);
    let u = ship("U", "COMMAND", "A", "IN_ORBIT", 10, 0, vec![]);
    assert_eq!(determine_current_role(&u), ShipRole::Utility);
}

#[test]
fn refinery_fitting_plans() {
    assert!(is_module_removable("MODULE_CARGO_HOLD_II"));
    assert!(!is_module_removable("MODULE_WARP_DRIVE_I"));
    let mut s = ship("S", "COMMAND", "A", "IN_ORBIT", 40, 0, vec![]);
    s.frame.module_slots = 2;
    s.modules = vec![module("MODULE_CARGO_HOLD_I"), module("MODULE_WARP_DRIVE_I")];
    let survey = survey_modules(&s);
    assert_eq!(survey.available_module_slots, 0);
    assert_eq!(survey.removable_modules, vec!["MODULE_CARGO_HOLD_I".to_string()]);
    assert_eq!(plan_refinery_fitting(&survey), RefineryFitting::Fit { remove: Some("MODULE_CARGO_HOLD_I".to_string()) });
    s.modules = vec![module("MODULE_WARP_DRIVE_I"), module("MODULE_JUMP_DRIVE_I")];
    assert_eq!(plan_refinery_fitting(&survey_modules(&s)), RefineryFitting::NoRoom);
    s.modules = vec![module("MODULE_MICRO_REFINERY_I")];
    assert_eq!(plan_refinery_fitting(&survey_modules(&s)), RefineryFitting::AlreadyFitted);
    s.modules = vec![];
    assert_eq!(plan_refinery_fitting(&survey_modules(&s)), RefineryFitting::Fit { remove: None });
    let analyses = vec![("S".to_string(), survey_modules(&s))];
    assert_eq!(refinery_fitting_for(&analyses, "S"), Ok(RefineryFitting::Fit { remove: None }));
    assert_eq!(refinery_fitting_for(&analyses, "T"), Err("Ship T not analyzed".to_string()));
    assert_eq!(removable_for_cargo(&[module("MODULE_ORE_REFINERY_I"), module("MODULE_CARGO_HOLD_I")]), vec!["MODULE_CARGO_HOLD_I".to_string()]);
}

#[test]
fn markets_and_shipyards_for_refineries() {
    let market = Market {
        symbol: "M".to_string(),
        imports: vec![],
        exports: vec![],
        exchange: vec![],
        trade_goods: Some(vec![
            MarketTradeGood { symbol: "MODULE_MICRO_REFINERY_I".to_string(), trade_volume: 0, purchase_price: 1, sell_price: 1 },
        ]),
    };
    assert!(!module_on_sale(&market, "MODULE_MICRO_REFINERY_I"));
    let ws = vec![waypoint("A", "PLANET", 0, 0, &["SHIPYARD"]), waypoint("A", "PLANET", 0, 0, &[])];
    assert!(at_shipyard(&ws, "A"));
    assert!(!at_shipyard(&ws, "B"));
}

#[test]
fn navigation_errors_are_read() {
    assert_eq!(
        classify_navigation_error("Ship is currently in-transit and arrives in 42 seconds."),
        NavigationFailure::InTransit { arrival_seconds: 42 }
    );
    assert_eq!(classify_navigation_error("in-transit, arrives in soon seconds"), NavigationFailure::InTransit { arrival_seconds: 30 });
    assert_eq!(classify_navigation_error("in-transit"), NavigationFailure::InTransit { arrival_seconds: 30 });
    assert_eq!(classify_navigation_error("Ship is currently located at the destination"), NavigationFailure::AtDestination);
    assert_eq!(classify_navigation_error("500"), NavigationFailure::Other);
    assert_eq!(arrival_seconds_in("arrives in 7 seconds, arrives in 9 seconds"), 7);
}

#[test]
fn ore_transfers() {
    let ships = vec![
        ship("A", "X", "W1", "DOCKED", 100, 30, vec![item("ICE", 5), item("IRON_ORE", 0), item("IRON_ORE", 25)]),
        ship("B", "X", "W2", "DOCKED", 100, 0, vec![]),
    ];
    let carriers = iron_ore_carriers(&ships);
    assert_eq!(carriers.len(), 1);
    assert_eq!((carriers[0].ship_symbol.as_str(), carriers[0].iron_ore_units, carriers[0].current_location.as_str()), ("A", 25, "W1"));
    assert_eq!(transfer_units(25, 100, 90), Some(10));
    assert_eq!(transfer_units(25, 100, 0), Some(25));
    assert_eq!(transfer_units(25, 100, 100), None);
    let receivers = vec![
        ship("A", "X", "W", "DOCKED", 150, 60, vec![]),
        ship("B", "X", "W", "DOCKED", 300, 100, vec![]),
        ship("C", "X", "W", "DOCKED", 250, 50, vec![]),
    ];
    assert_eq!(best_receiver(&receivers), Some(1));
    assert_eq!(best_receiver(&receivers[..1]), None);
    assert_eq!(refining_cycles(250), 2);
    assert_eq!(refining_cycles(-150), -1);
}

#[test]
fn refinery_contract_strategy() {
    let c = contract(vec![delivery("COPPER", "A", 10, 0), delivery("IRON", "HQ", 30, 5)], 0);
    assert_eq!(iron_requirement(&c), Some((25, "HQ".to_string())));
    assert_eq!(iron_requirement(&contract(vec![], 0)), None);
    assert_eq!(choose_refinery_strategy(0, 10), RefineryStrategy::Done);
    assert_eq!(choose_refinery_strategy(25, 35), RefineryStrategy::Batch);
    assert_eq!(choose_refinery_strategy(25, 34), RefineryStrategy::Incremental);
    assert_eq!(next_iron_delivery(25, 20), 5);
    assert_eq!(next_iron_delivery(25, 0), 10);
}

#[test]
fn iron_rounds_deliver_the_whole_order() {
    for required in [1, 9, 10, 11, 25, 100] {
        let rounds = iron_rounds(required);
        let mut delivered = 0;
        for _ in 0..rounds {
            let amount = next_iron_delivery(required, delivered);
            assert!((1..=10).contains(&amount));
            delivered += amount;
        }
        assert_eq!(delivered, required);
    }
    assert_eq!(iron_rounds(25), 3);
}

#[test]
fn iron_ore_campaign() {
    let miner = IronOreMiner::new(100);
    assert_eq!(miner.target_ore_amount(), 100);
    assert_eq!(miner.find_best_mining_site("X1-N5-B7"), "X1-N5-B7");
    assert_eq!(miner.find_best_mining_site("X1-N5-A1"), "X1-N5-B7");
    let mut s = ship("M", "EXCAVATOR", "A", "IN_ORBIT", 30, 10, vec![]);
    s.modules = vec![module("MODULE_MINERAL_PROCESSOR_I")];
    let full = {
        let mut f = s.clone();
        f.cargo.units = 30;
        f.symbol = "F".to_string();
        f
    };
    let bare = ship("B", "EXCAVATOR", "A", "IN_ORBIT", 30, 0, vec![]);
    assert!(miner.has_mining_equipment(&s));
    assert_eq!(miner.find_mining_capable_ships(&[s, full, bare]), vec!["M".to_string()]);
    let surveys = vec![survey("S1", &["ICE"]), survey("S2", &["IRON_ORE"])];
    assert_eq!(miner.find_best_iron_ore_survey(&surveys).map(|s| s.signature.clone()), Some("S2".to_string()));
    assert_eq!(iron_ore_yield("IRON_ORE", 7), 7);
    assert_eq!(iron_ore_yield("ICE", 7), 0);

    let mut campaign = MiningCampaign::start(20);
    let mut rounds = 0;
    while campaign.wants_round() {
        campaign.begin_round();
        rounds += 1;
        campaign.record(0);
    }
    assert_eq!(rounds, 50);
    assert!(!campaign.succeeded());
    let mut quick = MiningCampaign::start(20);
    quick.begin_round();
    quick.record(25);
    assert!(!quick.wants_round());
    assert!(quick.succeeded());
}

#[test]
fn shipyard_choices() {
    let ops = ShipyardOperations::new();
    let ws = vec![waypoint("Y1", "ORBITAL_STATION", 0, 0, &["SHIPYARD"]), waypoint("Y2", "PLANET", 0, 0, &["SHIPYARD", "UNCHARTED"])];
    assert_eq!(ops.shipyard_locations("X1-N5", &ws).len(), 2);
    let far = ops.shipyard_locations("X1-ZZ", &ws);
    assert_eq!(far.len(), 1);
    assert_eq!(far[0].waypoint_symbol, "Y1");
    assert_eq!(far[0].system_symbol, "X1-ZZ");
    assert_eq!(choose_shipyard(&far, "X1-N5"), Some(0));
    assert_eq!(choose_shipyard(&[], "X1-N5"), None);
    let reference = ship("R", "EXCAVATOR", "A", "IN_ORBIT", 30, 0, vec![]);
    let listings = vec![
        ShipListing { ship_type: "SHIP_PROBE".to_string(), frame_symbol: "FRAME_PROBE".to_string(), mounts: vec![], purchase_price: 10 },
        ShipListing { ship_type: "SHIP_LIGHT_HAULER".to_string(), frame_symbol: "FRAME_FRIGATE".to_string(), mounts: vec![], purchase_price: 20 },
    ];
    assert_eq!(ops.suitable_mining_ship(&listings, &reference), Some(1));
    assert_eq!(ops.check_funds(100, 150), Err(50));
    assert_eq!(ops.check_funds(150, 150), Ok(()));
    let mut outfitted = reference.clone();
    outfitted.mounts = vec![mount("MOUNT_SURVEYOR_I", None), mount("MOUNT_GAS_SIPHON_I", None)];
    outfitted.modules = vec![module("MODULE_CARGO_HOLD_I"), module("MODULE_CREW_QUARTERS_I")];
    let (mounts, modules) = ops.outfit_plan(&outfitted);
    assert_eq!(mounts.len(), 1);
    assert_eq!(modules[0].symbol, "MODULE_CARGO_HOLD_I");
}
