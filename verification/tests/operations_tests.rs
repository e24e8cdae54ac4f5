use spacetraders::exploration::{has_jump_gate_trait, has_shipyard_trait, probe_system, ExplorationLog, ExplorationOperations};
use spacetraders::model::{
    Cargo, CargoItem, Frame, Fuel, Market, Nav, Registration, Route, RouteWaypoint, Ship, TradeGood, Trait, Waypoint,
};
use spacetraders::output::{should_show, BrokerAction, BrokerCore, OutputLevel};
use spacetraders::product_knowledge::ProductKnowledge;
use spacetraders::trading::{should_retry_sale, SalesOutcome, SalesTally, TradingOperations};

fn item(symbol: &str, units: i32) -> CargoItem {
    CargoItem { symbol: symbol.to_string(), name: symbol.to_string(), units }
}

fn ship(symbol: &str, role: &str, frame: &str, at: &str, status: &str, inventory: Vec<CargoItem>) -> Ship {
    let units = inventory.iter().map(|i| i.units).sum();
    Ship {
        symbol: symbol.to_string(),
        registration: Registration { role: role.to_string() },
        nav: Nav {
            system_symbol: "X1-N5".to_string(),
            waypoint_symbol: at.to_string(),
            status: status.to_string(),
            route: Route {
                destination: RouteWaypoint { symbol: at.to_string(), x: 0, y: 0 },
                arrival: "2024-01-01T00:00:00Z".to_string(),
            },
        },
        frame: Frame { symbol: frame.to_string(), module_slots: 0, mounting_points: 0 },
        mounts: vec![],
        modules: vec![],
        cargo: Cargo { capacity: 40, units, inventory },
        fuel: Fuel { current: 100, capacity: 100 },
    }
}

fn trait_named(symbol: &str, name: &str, description: &str) -> Trait {
    Trait { symbol: symbol.to_string(), name: name.to_string(), description: description.to_string() }
}

fn waypoint(symbol: &str, kind: &str, traits: Vec<Trait>) -> Waypoint {
    Waypoint {
        symbol: symbol.to_string(),
        waypoint_type: kind.to_string(),
        system_symbol: "X1-N5".to_string(),
        x: 0,
        y: 0,
        traits,
        faction: None,
    }
}

fn goods(symbols: &[&str]) -> Vec<TradeGood> {
    symbols.iter().map(|s| TradeGood { symbol: s.to_string() }).collect()
}

fn market(imports: &[&str], exchange: &[&str]) -> Market {
    Market {
        symbol: "M".to_string(),
        imports: goods(imports),
        exports: goods(&["FUEL"]),
        exchange: goods(exchange),
        trade_goods: None,
    }
}

#[test]
fn probes_are_satellites_or_probe_frames() {
    let ops = ExplorationOperations::new();
    let ships = vec![
        ship("A", "SATELLITE", "FRAME_DRONE", "X1-N5-A1", "DOCKED", vec![]),
        ship("B", "EXCAVATOR", "FRAME_MINER", "X1-N5-A1", "DOCKED", vec![]),
        ship("C", "COMMAND", "FRAME_PROBE", "X1-N5-A1", "DOCKED", vec![]),
    ];
    let probes: Vec<&str> = ops.get_probe_ships(&ships).iter().map(|s| s.symbol.as_str()).collect();
    assert_eq!(probes, vec!["A", "C"]);
    assert_eq!(probe_system(&ships[0]).as_deref(), Some("X1-N5"));
    let lost = ship("D", "SATELLITE", "FRAME_PROBE", "NOWHERE", "DOCKED", vec![]);
    assert_eq!(probe_system(&lost), None);
}

#[test]
fn shipyards_found_by_name_or_description() {
    let ops = ExplorationOperations::new();
    let ws = vec![
        waypoint("W1", "PLANET", vec![trait_named("SHIPYARD", "Shipyard", "")]),
        waypoint("W2", "PLANET", vec![trait_named("X", "Dock", "An orbital SHIPYARD for frigates")]),
        waypoint("W3", "PLANET", vec![trait_named("MARKETPLACE", "Marketplace", "Goods")]),
    ];
    assert!(has_shipyard_trait(&ws[0]));
    assert!(!has_shipyard_trait(&ws[2]));
    assert_eq!(ops.shipyard_candidates(&ws), vec!["W1".to_string(), "W2".to_string()]);
}

#[test]
fn jump_gates_found() {
    let ops = ExplorationOperations::new();
    let ws = vec![
        waypoint("G1", "PLANET", vec![trait_named("JUMP_GATE", "Gate", "")]),
        waypoint("G2", "PLANET", vec![trait_named("X", "Old Jump Point", "")]),
        waypoint("G3", "JUMP_GATE", vec![trait_named("X", "Quiet", "")]),
        // a gate waypoint with no traits is not reported
        waypoint("G4", "JUMP_GATE", vec![]),
        waypoint("P", "PLANET", vec![trait_named("X", "Quiet", "")]),
    ];
    assert!(has_jump_gate_trait(&ws[2]));
    assert!(!has_jump_gate_trait(&ws[3]));
    assert_eq!(ops.find_jump_gates(&ws), vec!["G1".to_string(), "G2".to_string(), "G3".to_string()]);
}

#[test]
fn exploration_log_takes_each_system_once() {
    let mut log = ExplorationLog::new();
    assert!(log.begin_system("X1-A"));
    assert!(!log.begin_system("X1-A"));
    assert!(log.was_explored("X1-A"));
    assert!(!log.was_explored("X1-B"));
    log.record_shipyards(&["Y1".to_string(), "Y2".to_string()]);
    assert!(!log.limit_reached());
    log.record_shipyards(&["Y3".to_string(), "Y4".to_string(), "Y5".to_string()]);
    assert!(log.limit_reached());
    assert_eq!(log.shipyards(), vec!["Y1", "Y2", "Y3", "Y4", "Y5"]);
}

#[test]
fn connected_systems_added_once() {
    let ops = ExplorationOperations::new();
    let mut systems = vec!["X1-A".to_string()];
    let connected = vec!["X1-B".to_string(), "X1-A".to_string(), "X1-C".to_string(), "X1-B".to_string(), "X1-HOME".to_string()];
    ops.add_connected_systems(&mut systems, &connected, "X1-HOME");
    systems.sort();
    assert_eq!(systems, vec!["X1-A", "X1-B", "X1-C"]);
}

#[test]
fn markets_buy_imports_and_exchanges() {
    let ops = TradingOperations::new();
    let m = market(&["IRON_ORE"], &["ICE_WATER"]);
    assert!(ops.market_accepts_trade(&m, "IRON_ORE"));
    assert!(ops.market_accepts_trade(&m, "ICE_WATER"));
    assert!(!ops.market_accepts_trade(&m, "FUEL"));
}

#[test]
fn cargo_split_and_sale_plan() {
    let ops = TradingOperations::new();
    let s = ship("S", "EXCAVATOR", "FRAME_MINER", "X1-N5-A1", "DOCKED", vec![item("IRON_ORE", 10), item("ICE_WATER", 5), item("QUARTZ_SAND", 3)]);
    let reserved = vec!["IRON_ORE".to_string()];
    let (kept, rest) = ops.categorize_cargo(&s, &reserved);
    assert_eq!(kept.iter().map(|i| i.symbol.as_str()).collect::<Vec<_>>(), vec!["IRON_ORE"]);
    assert_eq!(rest.iter().map(|i| i.symbol.as_str()).collect::<Vec<_>>(), vec!["ICE_WATER", "QUARTZ_SAND"]);

    let m = market(&["IRON_ORE"], &["ICE_WATER"]);
    let sellable = ops.get_sellable_items_at_market(&s, &reserved, Some(&m));
    assert_eq!(sellable.iter().map(|i| i.symbol.as_str()).collect::<Vec<_>>(), vec!["ICE_WATER"]);
    let unknown = ops.get_sellable_items_at_market(&s, &reserved, None);
    assert_eq!(unknown.len(), 2);

    let plan = ops.plan_sale(&s, &reserved, Some(&m)).unwrap();
    assert_eq!(plan.items.len(), 1);
    assert!(!plan.dock_first);
    assert!(plan.orbit_after);
    let orbiting = ship("S", "EXCAVATOR", "FRAME_MINER", "X1-N5-A1", "IN_ORBIT", vec![item("ICE_WATER", 5)]);
    let plan = ops.plan_sale(&orbiting, &reserved, Some(&m)).unwrap();
    assert!(plan.dock_first);
    assert!(plan.orbit_after);
    let only_ore = ship("S", "EXCAVATOR", "FRAME_MINER", "X1-N5-A1", "DOCKED", vec![item("IRON_ORE", 5)]);
    assert!(ops.plan_sale(&only_ore, &reserved, Some(&m)).is_none());
    let empty = ship("S", "EXCAVATOR", "FRAME_MINER", "X1-N5-A1", "DOCKED", vec![]);
    assert!(ops.plan_sale(&empty, &reserved, None).is_none());
}

#[test]
fn marketplaces_by_trait_name() {
    let ops = TradingOperations::new();
    let ws = vec![
        waypoint("A", "PLANET", vec![trait_named("MARKETPLACE", "Marketplace", "")]),
        waypoint("B", "PLANET", vec![trait_named("X", "Black MARKETPLACE", "")]),
        waypoint("C", "PLANET", vec![trait_named("MARKETPLACE", "Bazaar", "")]),
    ];
    let found: Vec<&str> = ops.analyze_market_opportunities(&ws).iter().map(|w| w.symbol.as_str()).collect();
    assert_eq!(found, vec!["A", "B"]);
}

#[test]
fn profit_potential_formula() {
    let ops = TradingOperations::new();
    let s = ship("S", "HAULER", "FRAME", "X1-N5-A1", "DOCKED", vec![item("A", 1), item("B", 1), item("C", 1)]);
    assert_eq!(ops.calculate_profit_potential(&s, 40), 220);
    assert_eq!(ops.calculate_profit_potential(&s, 200), -100);
}

#[test]
fn sales_tally_counts() {
    let mut t = SalesTally::new();
    assert_eq!(t.outcome(), SalesOutcome::NothingTried);
    assert_eq!(t.average_price_per_unit(), None);
    t.record_failure();
    assert_eq!(t.outcome(), SalesOutcome::NoRevenue);
    t.record_sale(1000, 3);
    t.record_sale(500, 4);
    assert_eq!(t.attempts, 3);
    assert_eq!(t.successes, 2);
    assert_eq!(t.failures, 1);
    assert_eq!(t.total_revenue, 1500);
    assert_eq!(t.items_sold, 7);
    assert_eq!(t.average_price_per_unit(), Some(214));
    assert_eq!(t.outcome(), SalesOutcome::Revenue);
}

#[test]
fn sale_retries_on_rate_limit() {
    assert!(should_retry_sale("HTTP 429 Too Many Requests", 0));
    assert!(should_retry_sale("429", 2));
    assert!(!should_retry_sale("429", 3));
    assert!(!should_retry_sale("400 Bad Request", 0));
}

#[test]
fn levels_shown_by_verbosity() {
    assert!(should_show(OutputLevel::Error, 0));
    assert!(should_show(OutputLevel::Summary, 0));
    assert!(!should_show(OutputLevel::Info, 0));
    assert!(should_show(OutputLevel::Info, 1));
    assert!(!should_show(OutputLevel::Debug, 1));
    assert!(should_show(OutputLevel::Trace, 2));
}

#[test]
fn broker_control_messages() {
    let mut b = BrokerCore::new(0);
    assert!(matches!(b.handle(OutputLevel::Info, "hidden".to_string()), BrokerAction::Ignored));
    assert!(matches!(b.handle(OutputLevel::Error, "boom".to_string()), BrokerAction::Print(ref m) if m == "boom"));
    assert!(matches!(b.handle(OutputLevel::Summary, "s1".to_string()), BrokerAction::Queued));
    assert!(matches!(b.handle(OutputLevel::Summary, "s2".to_string()), BrokerAction::Queued));
    assert_eq!(b.pending_count(), 2);
    assert!(matches!(b.handle(OutputLevel::Debug, "SET_VERBOSITY_2".to_string()), BrokerAction::VerbositySet(2)));
    assert_eq!(b.verbosity_level(), 2);
    assert!(matches!(b.handle(OutputLevel::Debug, "SET_VERBOSITY_300".to_string()), BrokerAction::Ignored));
    assert!(matches!(b.handle(OutputLevel::Debug, "SET_VERBOSITY_x".to_string()), BrokerAction::Ignored));
    assert_eq!(b.verbosity_level(), 2);
    assert!(matches!(b.handle(OutputLevel::Debug, "shown now".to_string()), BrokerAction::Print(_)));
    match b.handle(OutputLevel::Summary, "FLUSH_SUMMARIES".to_string()) {
        BrokerAction::Flush(out) => assert_eq!(out, vec!["s1", "s2"]),
        _ => panic!("expected a flush"),
    }
    assert_eq!(b.pending_count(), 0);
}

#[test]
fn broker_keeps_the_newest_hundred_summaries() {
    let mut b = BrokerCore::new(0);
    for i in 0..105 {
        b.handle(OutputLevel::Summary, format!("s{}", i));
    }
    assert_eq!(b.pending_count(), 100);
    let out = b.flush();
    assert_eq!(out.first().map(|s| s.as_str()), Some("s5"));
    assert_eq!(out.last().map(|s| s.as_str()), Some("s104"));
}

#[test]
fn product_catalogue() {
    let pk = ProductKnowledge::new();
    assert!(pk.is_manufactured_good("ELECTRONICS"));
    assert!(!pk.is_manufactured_good("IRON_ORE"));
    assert_eq!(pk.get_transaction_limit("ELECTRONICS"), Some(20));
    assert_eq!(pk.get_transaction_limit("IRON_ORE"), None);
    assert_eq!(pk.get_max_reasonable_price("ELECTRONICS"), 4000);
    assert_eq!(pk.get_max_reasonable_price("IRON_ORE"), 5000);
    assert!(pk.is_reasonable_price("ELECTRONICS", 1000));
    assert!(pk.is_reasonable_price("ELECTRONICS", 4000));
    assert!(!pk.is_reasonable_price("ELECTRONICS", 999));
    assert!(!pk.is_reasonable_price("ELECTRONICS", 4001));
    assert!(pk.is_reasonable_price("IRON_ORE", 5000));
    assert!(!pk.is_reasonable_price("IRON_ORE", 5001));
    assert_eq!(pk.get_preferred_traits("ELECTRONICS"), vec!["HIGH_TECH", "MARKETPLACE"]);
    assert_eq!(pk.get_preferred_traits("WEAPONS"), vec!["MILITARY", "INDUSTRIAL", "MARKETPLACE"]);
    assert_eq!(pk.get_preferred_traits("IRON_ORE"), vec!["MARKETPLACE"]);
    let info = pk.get_product_info("FOOD").unwrap();
    assert_eq!(info.typical_price_range, (300, 800));
    assert_eq!(info.cargo_per_unit, 1);
    let d = ProductKnowledge::default();
    assert!(d.is_manufactured_good("MACHINERY"));
}
