use spacetraders::contract_analyzer::{ContractAnalyzer, FleetCapabilities, GoalPriority, GoalStatus};
use spacetraders::contracts::{
    delivery_status, deliverable_cargo, is_complete, is_manufactured_good, ready_for_fulfillment, ContractChoice,
    ContractOperations,
};
use spacetraders::model::{
    CargoItem, Cargo, Contract, Delivery, Frame, Fuel, Market, MarketTradeGood, Module, Mount, Nav, Payment,
    Registration, Route, RouteWaypoint, Ship, Terms, Trait, Waypoint,
};
use spacetraders::purchasing::{
    best_quote, choose_scout, choose_trading_ship, classify_negotiation_error, find_quote, is_already_docked,
    is_already_in_orbit, negotiators, purchase_budget, purchase_needs, MarketQuote, NegotiationFailure, TradingPlan,
    first_negotiation_step, next_negotiation_step, NegotiationEvent, NegotiationStep,
};

fn delivery(symbol: &str, dest: &str, required: i32, fulfilled: i32) -> Delivery {
    Delivery {
        trade_symbol: symbol.to_string(),
        destination_symbol: dest.to_string(),
        units_required: required,
        units_fulfilled: fulfilled,
    }
}

fn contract(id: &str, accepted: bool, fulfilled: bool, on_accepted: i64, on_fulfilled: i64, deliver: Vec<Delivery>) -> Contract {
    Contract {
        id: id.to_string(),
        faction_symbol: "COSMIC".to_string(),
        contract_type: "PROCUREMENT".to_string(),
        accepted,
        fulfilled,
        deadline_to_accept: "2030-01-01T00:00:00Z".to_string(),
        terms: Terms { payment: Payment { on_accepted, on_fulfilled }, deliver },
    }
}

fn item(symbol: &str, units: i32) -> CargoItem {
    CargoItem { symbol: symbol.to_string(), name: symbol.to_string(), units }
}

fn ship(symbol: &str, role: &str, at: &str, status: &str, capacity: i32, inventory: Vec<CargoItem>) -> Ship {
    let units = inventory.iter().map(|i| i.units).sum();
    Ship {
        symbol: symbol.to_string(),
        registration: Registration { role: role.to_string() },
        nav: Nav {
            system_symbol: "X1-N5".to_string(),
            waypoint_symbol: at.to_string(),
            status: status.to_string(),
            route: Route {
                destination: RouteWaypoint { symbol: at.to_string(), x: 0, y: 0 },
                arrival: "2024-01-01T00:00:00Z".to_string(),
            },
        },
        frame: Frame { symbol: "FRAME_FRIGATE".to_string(), module_slots: 3, mounting_points: 3 },
        mounts: Vec::<Mount>::new(),
        modules: Vec::<Module>::new(),
        cargo: Cargo { capacity, units, inventory },
        fuel: Fuel { current: 400, capacity: 400 },
    }
}

fn waypoint(symbol: &str, faction: Option<&str>) -> Waypoint {
    Waypoint {
        symbol: symbol.to_string(),
        waypoint_type: "PLANET".to_string(),
        system_symbol: "X1-N5".to_string(),
        x: 0,
        y: 0,
        traits: Vec::<Trait>::new(),
        faction: faction.map(|f| f.to_string()),
    }
}

#[test]
fn required_materials_in_term_order() {
    let ops = ContractOperations::new();
    let c = contract("C1", false, false, 0, 0, vec![delivery("IRON_ORE", "A", 10, 0), delivery("COPPER_ORE", "A", 5, 0)]);
    assert_eq!(ops.get_required_materials(&c), vec!["IRON_ORE".to_string(), "COPPER_ORE".to_string()]);
}

#[test]
fn contract_score_is_credits_per_unit() {
    let ops = ContractOperations::new();
    let c = contract("C1", false, false, 1_000, 9_000, vec![delivery("IRON_ORE", "A", 60, 0), delivery("COPPER_ORE", "A", 40, 0)]);
    assert_eq!(ops.score_contract(&c), 100);
    let none = contract("C2", false, false, 300, 400, vec![]);
    assert_eq!(ops.score_contract(&none), 700);
    let negative = contract("C3", false, false, -7, 0, vec![delivery("IRON_ORE", "A", 2, 0)]);
    assert_eq!(ops.score_contract(&negative), -3);
}

#[test]
fn choose_contract_prefers_best_offer() {
    let ops = ContractOperations::new();
    let cs = vec![
        contract("ACTIVE", true, false, 0, 0, vec![delivery("IRON_ORE", "A", 10, 0)]),
        contract("LOW", false, false, 100, 100, vec![delivery("IRON_ORE", "A", 10, 0)]),
        contract("HIGH", false, false, 1000, 1000, vec![delivery("IRON_ORE", "A", 10, 0)]),
        contract("TIE", false, false, 1000, 1000, vec![delivery("IRON_ORE", "A", 10, 0)]),
    ];
    assert_eq!(ops.choose_contract(&cs), ContractChoice::Accept(2));
}

#[test]
fn choose_contract_continues_or_negotiates() {
    let ops = ContractOperations::new();
    let cs = vec![
        contract("DONE", true, true, 0, 0, vec![]),
        contract("ACTIVE", true, false, 0, 0, vec![delivery("IRON_ORE", "A", 10, 0)]),
        contract("WORTHLESS", false, false, 0, 0, vec![delivery("IRON_ORE", "A", 10, 0)]),
    ];
    assert_eq!(ops.choose_contract(&cs), ContractChoice::Continue(1));
    let done = vec![contract("DONE", true, true, 0, 0, vec![])];
    assert_eq!(ops.choose_contract(&done), ContractChoice::Negotiate);
    assert_eq!(ops.choose_contract(&[]), ContractChoice::Negotiate);
}

#[test]
fn contract_progress_percent() {
    let ops = ContractOperations::new();
    let c = contract("C", true, false, 0, 0, vec![delivery("IRON_ORE", "A", 30, 10), delivery("COPPER_ORE", "A", 30, 10)]);
    let p = ops.contract_progress(&c);
    assert_eq!((p.fulfilled, p.required, p.percent), (20, 60, 33));
    let empty = contract("E", true, false, 0, 0, vec![]);
    assert_eq!(ops.contract_progress(&empty).percent, 0);
}

#[test]
fn manufactured_goods_need_markets() {
    let ops = ContractOperations::new();
    assert!(is_manufactured_good("ELECTRONICS"));
    assert!(!is_manufactured_good("IRON_ORE"));
    assert!(ops.needs_marketplace_trading(&["IRON_ORE".to_string(), "MACHINERY".to_string()]));
    assert!(!ops.needs_marketplace_trading(&["IRON_ORE".to_string()]));
}

#[test]
fn delivery_status_counts_carriers() {
    let needed = vec!["IRON_ORE".to_string()];
    let c = contract("C", true, false, 0, 0, vec![delivery("IRON_ORE", "HQ", 50, 0)]);
    let ships = vec![
        ship("S1", "EXCAVATOR", "A", "IN_ORBIT", 40, vec![item("IRON_ORE", 30), item("QUARTZ_SAND", 5)]),
        ship("S2", "EXCAVATOR", "A", "IN_ORBIT", 40, vec![]),
        ship("S3", "EXCAVATOR", "A", "IN_ORBIT", 40, vec![item("QUARTZ_SAND", 5)]),
        ship("S4", "EXCAVATOR", "A", "IN_ORBIT", 40, vec![item("IRON_ORE", 25)]),
    ];
    let st = delivery_status(&ships, &needed, &c);
    assert_eq!(st.carriers, vec![(0, 30), (3, 25)]);
    assert_eq!(st.collected, 55);
    assert_eq!(st.required, 50);
    assert!(st.ready());
    assert_eq!(deliverable_cargo(&ships[0], &needed), vec![("IRON_ORE".to_string(), 30)]);
}

#[test]
fn fulfillment_readiness() {
    let done = contract("C", true, false, 0, 0, vec![delivery("IRON_ORE", "HQ", 50, 50)]);
    let open = contract("C", true, false, 0, 0, vec![delivery("IRON_ORE", "HQ", 50, 49)]);
    assert!(is_complete(&done));
    assert!(!is_complete(&open));
    assert!(ready_for_fulfillment(Some(&done), 0, 100));
    assert!(!ready_for_fulfillment(Some(&open), 100, 0));
    assert!(ready_for_fulfillment(None, 50, 50));
    assert!(!ready_for_fulfillment(None, 49, 50));
}

#[test]
fn purchase_budget_per_unit() {
    assert_eq!(purchase_budget(50_000, 100), Some(500));
    assert_eq!(purchase_budget(9_999, 100), None);
    assert_eq!(purchase_budget(10_000, 100), Some(100));
    assert_eq!(purchase_budget(-50_000, 100), None);
}

#[test]
fn scout_prefers_free_satellite() {
    let ships = vec![
        ship("CMD", "COMMAND", "A", "DOCKED", 40, vec![]),
        ship("SAT1", "SATELLITE", "A", "IN_TRANSIT", 0, vec![]),
        ship("SAT2", "SATELLITE", "A", "IN_ORBIT", 0, vec![]),
    ];
    assert_eq!(choose_scout(&ships), Some(2));
    let no_sat = vec![ship("SAT1", "SATELLITE", "A", "IN_TRANSIT", 0, vec![]), ship("CMD", "COMMAND", "A", "DOCKED", 40, vec![])];
    assert_eq!(choose_scout(&no_sat), Some(1));
    let none = vec![ship("H", "HAULER", "A", "DOCKED", 40, vec![])];
    assert_eq!(choose_scout(&none), None);
}

#[test]
fn market_quotes_and_best_offer() {
    let market = Market {
        symbol: "M".to_string(),
        imports: vec![],
        exports: vec![],
        exchange: vec![],
        trade_goods: Some(vec![
            MarketTradeGood { symbol: "FOOD".to_string(), trade_volume: 10, purchase_price: 300, sell_price: 250 },
            MarketTradeGood { symbol: "ELECTRONICS".to_string(), trade_volume: 40, purchase_price: 1200, sell_price: 1000 },
        ]),
    };
    assert_eq!(find_quote(&market, "ELECTRONICS"), Some(MarketQuote { price: 1200, volume: 40 }));
    assert_eq!(find_quote(&market, "TOOLS"), None);
    let quotes = vec![
        Some(MarketQuote { price: 900, volume: 10 }),
        None,
        Some(MarketQuote { price: 800, volume: 50 }),
        Some(MarketQuote { price: 800, volume: 60 }),
        Some(MarketQuote { price: 2000, volume: 60 }),
    ];
    assert_eq!(best_quote(&quotes, 1000, 20), Some(2));
    assert_eq!(best_quote(&quotes, 700, 20), None);
}

#[test]
fn trading_ship_has_largest_hold() {
    let ships = vec![
        ship("A", "COMMAND", "X", "DOCKED", 60, vec![]),
        ship("B", "HAULER", "X", "IN_TRANSIT", 120, vec![]),
        ship("C", "HAULER", "X", "IN_ORBIT", 60, vec![]),
        ship("D", "EXCAVATOR", "X", "IN_ORBIT", 10, vec![]),
    ];
    assert_eq!(choose_trading_ship(&ships, 30), Some(2));
    assert_eq!(choose_trading_ship(&ships, 100), None);
}

#[test]
fn trading_plan_total_cost() {
    let plan = TradingPlan::new("ELECTRONICS", 20, "X1-N5-M".to_string(), 1_200, "SHIP-1".to_string());
    assert_eq!(plan.total_cost, 24_000);
    assert_eq!(plan.good, "ELECTRONICS");
}

#[test]
fn purchase_needs_lists_outstanding_goods() {
    let c = contract(
        "C",
        true,
        false,
        0,
        0,
        vec![delivery("FOOD", "A", 10, 4), delivery("IRON_ORE", "A", 10, 0), delivery("TOOLS", "A", 5, 5)],
    );
    assert_eq!(purchase_needs(&c), vec![("FOOD".to_string(), 6)]);
}

#[test]
fn negotiation_errors_are_classified() {
    assert_eq!(classify_negotiation_error("HTTP 400 Bad Request: not at faction"), NegotiationFailure::Refused);
    assert_eq!(classify_negotiation_error("409 Conflict"), NegotiationFailure::SlotTaken);
    assert_eq!(classify_negotiation_error("timeout"), NegotiationFailure::Other);
    assert!(is_already_docked("ship is already docked"));
    assert!(is_already_in_orbit("ship is already in orbit"));
    assert!(!is_already_docked("no such ship"));
}

#[test]
fn negotiators_first_three_at_faction_waypoints() {
    let ships = vec![
        ship("S0", "COMMAND", "A", "IN_TRANSIT", 40, vec![]),
        ship("S1", "COMMAND", "A", "DOCKED", 40, vec![]),
        ship("S2", "COMMAND", "B", "DOCKED", 40, vec![]),
        ship("S3", "COMMAND", "A", "IN_ORBIT", 40, vec![]),
        ship("S4", "COMMAND", "A", "IN_ORBIT", 40, vec![]),
        ship("S5", "COMMAND", "A", "IN_ORBIT", 40, vec![]),
    ];
    let at = vec![
        Some(waypoint("A", Some("COSMIC"))),
        Some(waypoint("A", Some("COSMIC"))),
        Some(waypoint("B", None)),
        Some(waypoint("A", Some("COSMIC"))),
        None,
        Some(waypoint("A", Some("COSMIC"))),
    ];
    assert_eq!(negotiators(&ships, &at), vec![1, 3, 5]);
}

#[test]
fn analyzer_reads_contract_needs() {
    let analyzer = ContractAnalyzer::new();
    assert_eq!(analyzer.ore_for_metal("IRON"), Some("IRON_ORE".to_string()));
    assert_eq!(analyzer.ore_for_metal("FOOD"), None);
    let c = contract(
        "K1",
        true,
        false,
        0,
        0,
        vec![delivery("IRON", "A", 400, 0), delivery("IRON_ORE", "A", 200, 0), delivery("FOOD", "A", 10, 0)],
    );
    let req = analyzer.analyze_contract_requirements(&c);
    assert_eq!(req.raw_materials, vec!["IRON_ORE".to_string(), "IRON_ORE".to_string()]);
    assert_eq!(req.refined_materials, vec!["IRON".to_string()]);
    assert!(req.requires_mining && req.requires_refining && req.requires_hauling);
    assert_eq!(req.recommended_ships.miners_needed, 3);
    assert_eq!(req.recommended_ships.refiners_needed, 2);
    assert_eq!(req.recommended_ships.haulers_needed, 1);
}

#[test]
fn recommended_ship_counts() {
    let analyzer = ContractAnalyzer::new();
    let r = analyzer.calculate_recommended_ships(250, true, true);
    assert_eq!((r.miners_needed, r.refiners_needed, r.haulers_needed), (2, 1, 1));
    let r = analyzer.calculate_recommended_ships(50, true, false);
    assert_eq!((r.miners_needed, r.refiners_needed), (1, 0));
    let r = analyzer.calculate_recommended_ships(-300, false, true);
    assert_eq!((r.miners_needed, r.refiners_needed), (0, 1));
}

#[test]
fn fleet_capabilities_and_goals() {
    let analyzer = ContractAnalyzer::new();
    let mut refiner = ship("R", "COMMAND", "A", "DOCKED", 60, vec![]);
    refiner.modules = vec![Module { symbol: "MODULE_ORE_REFINERY_I".to_string(), name: "Refinery".to_string() }];
    let mut miner = ship("M", "EXCAVATOR", "A", "DOCKED", 30, vec![]);
    miner.mounts = vec![Mount { symbol: "MOUNT_MINING_LASER_I".to_string(), name: "Laser".to_string(), strength: Some(10) }];
    let hauler = ship("H", "HAULER", "A", "DOCKED", 80, vec![]);
    let small = ship("P", "SATELLITE", "A", "DOCKED", 0, vec![]);
    let caps = analyzer.analyze_current_fleet(&[refiner, miner, hauler, small]);
    assert_eq!((caps.active_refiners, caps.active_miners, caps.active_haulers), (1, 1, 1));
    assert_eq!(caps.total_cargo_capacity, 170);
    assert_eq!(caps.ships_with_refinery, vec!["R".to_string()]);

    let c = contract("K9", true, false, 0, 0, vec![delivery("IRON", "A", 600, 0), delivery("FOOD", "A", 1, 0)]);
    let req = analyzer.analyze_contract_requirements(&c);
    let none_yet = FleetCapabilities {
        active_miners: 0,
        active_haulers: 0,
        active_refiners: 0,
        total_cargo_capacity: 0,
        ships_with_refinery: vec![],
    };
    let goals = analyzer.generate_required_ship_roles(&req, &none_yet);
    let ids: Vec<String> = goals.iter().map(|g| g.id.clone()).collect();
    assert_eq!(
        ids,
        vec![
            "auto_designate_refiner_K9_0".to_string(),
            "auto_designate_refiner_K9_1".to_string(),
            "auto_designate_hauler_K9_0".to_string(),
        ]
    );
    assert_eq!(goals[0].priority, GoalPriority::Urgent);
    assert_eq!(goals[2].priority, GoalPriority::Economic);
    assert_eq!(goals[2].desired_role, "hauler");
    assert!(goals.iter().all(|g| g.target_ship.is_none()));
    assert!(goals.iter().all(|g| g.status == GoalStatus::Pending));
    let goals = analyzer.generate_required_ship_roles(&req, &caps);
    assert_eq!(goals.len(), 1);
}

#[test]
fn negotiation_docks_then_negotiates_then_accepts() {
    let ships = vec![
        ship("A", "COMMAND", "X1-A-1", "IN_ORBIT", 40, vec![]),
        ship("B", "COMMAND", "X1-A-1", "DOCKED", 40, vec![]),
    ];
    let chosen = vec![0usize, 1];
    assert_eq!(first_negotiation_step(&ships, &chosen), NegotiationStep::Dock(0));
    assert_eq!(next_negotiation_step(&ships, &chosen, NegotiationEvent::Docked(0, true)), NegotiationStep::Negotiate(0));
    assert_eq!(next_negotiation_step(&ships, &chosen, NegotiationEvent::Docked(0, false)), NegotiationStep::Negotiate(1));
    assert_eq!(next_negotiation_step(&ships, &chosen, NegotiationEvent::Negotiated(0, true)), NegotiationStep::Accept);
    assert_eq!(next_negotiation_step(&ships, &chosen, NegotiationEvent::Negotiated(1, false)), NegotiationStep::GiveUp);
    assert_eq!(next_negotiation_step(&ships, &chosen, NegotiationEvent::AcceptAnswered), NegotiationStep::ReturnContract);
    assert_eq!(first_negotiation_step(&ships, &[]), NegotiationStep::GiveUp);
}
