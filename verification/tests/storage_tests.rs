use spacetraders::coordination::find_nearest_fuel_station_cached_at;
use spacetraders::keyed::KeyedVec;
use spacetraders::model::{
    Cargo, Deposit, Frame, Fuel, Nav, Registration, Route, RouteWaypoint, Ship, Survey, Trait, Waypoint,
};
use spacetraders::storage::cooldown_store::{CooldownEntry, CooldownStore};
use spacetraders::storage::ship_state_store::{CachedShipState, ShipStateStore};
use spacetraders::storage::survey_cache::{nearest_waypoint, waypoint_distance_squared, SurveyCache};

const HOUR: i64 = 3_600_000;

fn ship(symbol: &str) -> Ship {
    Ship {
        symbol: symbol.to_string(),
        registration: Registration { role: "EXCAVATOR".to_string() },
        nav: Nav {
            system_symbol: "X1-N5".to_string(),
            waypoint_symbol: "X1-N5-A1".to_string(),
            status: "DOCKED".to_string(),
            route: Route {
                destination: RouteWaypoint { symbol: "X1-N5-A1".to_string(), x: 0, y: 0 },
                arrival: "2024-01-01T00:00:00Z".to_string(),
            },
        },
        frame: Frame { symbol: "FRAME_MINER".to_string(), module_slots: 2, mounting_points: 2 },
        mounts: vec![],
        modules: vec![],
        cargo: Cargo { capacity: 30, units: 0, inventory: vec![] },
        fuel: Fuel { current: 100, capacity: 100 },
    }
}

fn waypoint(symbol: &str, x: i32, y: i32, traits: &[&str]) -> Waypoint {
    Waypoint {
        symbol: symbol.to_string(),
        waypoint_type: "PLANET".to_string(),
        system_symbol: "X1-N5".to_string(),
        x,
        y,
        traits: traits
            .iter()
            .map(|t| Trait { symbol: t.to_string(), name: t.to_string(), description: String::new() })
            .collect(),
        faction: None,
    }
}

fn survey(signature: &str) -> Survey {
    Survey {
        signature: signature.to_string(),
        symbol: "X1-N5-B7".to_string(),
        deposits: vec![Deposit { symbol: "IRON_ORE".to_string() }],
        expiration: "2024-01-01T00:00:00Z".to_string(),
        size: "MODERATE".to_string(),
    }
}

#[test]
fn keyed_table_reads_back_what_was_written() {
    let mut t: KeyedVec<i32> = KeyedVec::new();
    t.insert("A".to_string(), 1);
    t.insert("B".to_string(), 2);
    t.insert("A".to_string(), 3);
    assert_eq!(t.len(), 2);
    assert_eq!(t.get("A"), Some(&3));
    assert_eq!(t.get("B"), Some(&2));
    assert_eq!(t.get("C"), None);
    *t.get_mut("B").unwrap() += 5;
    assert_eq!(t.get("B"), Some(&7));
    assert!(t.get_mut("C").is_none());
    *t.get_mut("B").unwrap() -= 5;
    assert!(t.remove("A"));
    assert!(!t.remove("A"));
    assert_eq!(t.take("B"), Some(2));
    assert_eq!(t.len(), 0);
}

#[test]
fn cooldown_set_then_read() {
    let mut store = CooldownStore::new("cooldowns.json");
    assert_eq!(store.storage_path(), "cooldowns.json");
    store.set_cooldown_at("SHIP-1", 70, 1_000_000);
    // 70 s from 1 000 000 ms: 69.5 s left is read as 69 whole seconds
    assert_eq!(store.get_remaining_cooldown_at("SHIP-1", 1_000_500), Some(69));
    assert_eq!(store.get_remaining_cooldown_at("SHIP-1", 1_000_000), Some(70));
    assert!(store.is_on_cooldown_at("SHIP-1", 1_069_000));
    // less than a whole second left counts as no cooldown
    assert_eq!(store.get_remaining_cooldown_at("SHIP-1", 1_069_500), None);
    assert!(!store.is_on_cooldown_at("SHIP-1", 1_070_000));
    assert_eq!(store.get_remaining_cooldown_at("SHIP-2", 1_000_000), None);
}

#[test]
fn cooldown_read_soon_after_setting() {
    let mut store = CooldownStore::new("c.json");
    store.set_cooldown_at("S", 5, 0);
    assert_eq!(store.get_remaining_cooldown_at("S", 999), Some(4));
    assert_eq!(store.get_remaining_cooldown_at("S", 0), Some(5));
    assert!(store.is_on_cooldown_at("S", 999));
    assert!(store.clear_cooldown("S"));
    assert_eq!(store.get_remaining_cooldown_at("S", 999), None);
}

#[test]
fn cooldown_clear_and_cleanup() {
    let mut store = CooldownStore::new("c.json");
    store.set_cooldown_at("A", 10, 0);
    store.set_cooldown_at("B", 100, 0);
    store.set_cooldown_at("C", 50, 0);
    assert!(store.clear_cooldown("C"));
    assert!(!store.clear_cooldown("C"));
    assert_eq!(store.len(), 2);
    assert_eq!(store.cleanup_expired_at(20_000), 1);
    assert_eq!(store.len(), 1);
    assert!(store.is_on_cooldown_at("B", 20_000));
    assert!(!store.is_on_cooldown_at("A", 5_000));
}

#[test]
fn active_cooldowns_shortest_first() {
    let mut store = CooldownStore::new("c.json");
    store.set_cooldown_at("LONG", 300, 0);
    store.set_cooldown_at("DONE", 1, 0);
    store.set_cooldown_at("SHORT", 40, 0);
    let active = store.list_active_cooldowns_at(10_000);
    assert_eq!(active, vec![("SHORT".to_string(), 30), ("LONG".to_string(), 290)]);
}

#[test]
fn cooldowns_restore_keeps_running_ones() {
    let mut store = CooldownStore::new("c.json");
    let loaded = vec![
        CooldownEntry { ship_symbol: "A".to_string(), cooldown_until: 5_000, last_updated: 0 },
        CooldownEntry { ship_symbol: "B".to_string(), cooldown_until: 50_000, last_updated: 0 },
        CooldownEntry { ship_symbol: "A".to_string(), cooldown_until: 90_000, last_updated: 1 },
    ];
    store.restore(loaded, 10_000);
    assert_eq!(store.len(), 2);
    assert_eq!(store.get_remaining_cooldown_at("A", 10_000), Some(80));
    assert_eq!(store.get_remaining_cooldown_at("B", 10_000), Some(40));
}

#[test]
fn saved_stores_restore_what_was_stored() {
    let mut cooldowns = CooldownStore::new("c.json");
    cooldowns.set_cooldown_at("A", 30, 0);
    cooldowns.set_cooldown_at("B", 90, 0);
    let saved: Vec<CooldownEntry> = (0..cooldowns.len()).map(|i| cooldowns.entry_at(i).clone()).collect();
    let mut again = CooldownStore::new("c.json");
    again.restore(saved, 10_000);
    assert_eq!(again.len(), 2);
    assert_eq!(again.get_remaining_cooldown_at("A", 10_000), Some(20));
    assert_eq!(again.get_remaining_cooldown_at("B", 10_000), Some(80));

    let mut states = ShipStateStore::new("s.json", 5);
    states.cache_ship_at(ship("A"), 0);
    states.cache_ship_at(ship("B"), 0);
    states.mark_ship_action("B", "dock");
    let saved: Vec<CachedShipState> = (0..states.len()).map(|i| states.state_at(i).clone()).collect();
    let mut again = ShipStateStore::new("s.json", 5);
    again.restore(saved, HOUR);
    assert_eq!(again.len(), 2);
    assert_eq!(again.get_ship_state("B").unwrap().pending_actions, vec!["dock".to_string()]);
    let mut stale = again.get_stale_ships_at(HOUR);
    stale.sort();
    assert_eq!(stale, vec!["A".to_string(), "B".to_string()]);

    let mut cache = SurveyCache::new("surveys.json", 1);
    cache.cache_system_waypoints_at("X1-A", vec![waypoint("W", 0, 0, &["MARKETPLACE"])], 0);
    cache.cache_survey_data_at("X1-A-W", vec![survey("S1")], 0);
    let scans: Vec<_> = (0..cache.scan_count()).map(|i| {
        let (k, v) = cache.scan_at(i);
        (k.clone(), v.clone())
    }).collect();
    let surveys: Vec<_> = (0..cache.survey_count()).map(|i| {
        let (k, v) = cache.survey_at(i);
        (k.clone(), v.clone())
    }).collect();
    let mut again = SurveyCache::new("surveys.json", 1);
    again.restore(scans, surveys, 60_000);
    assert_eq!(again.get_cached_waypoints_at("X1-A", 60_000).map(|w| w.len()), Some(1));
    assert_eq!(again.get_cached_surveys_at("X1-A-W", 60_000).map(|s| s[0].signature.clone()), Some("S1".to_string()));
}

#[test]
fn ship_state_staleness() {
    let mut state = CachedShipState::new_at(ship("S"), 0);
    assert!(!state.should_refresh_at(5, 5 * 60_000));
    assert!(state.should_refresh_at(5, 5 * 60_000 + 1));
    state.mark_stale();
    assert!(state.should_refresh_at(5, 0));
    let mut busy = CachedShipState::new_at(ship("S"), 0);
    busy.add_pending_action("dock");
    assert!(busy.should_refresh_at(5, 0));
    // clearing the actions leaves the state stale
    busy.clear_pending_actions();
    assert!(busy.pending_actions.is_empty());
    assert!(busy.is_stale);
    assert!(busy.should_refresh_at(5, 0));
}

#[test]
fn ship_state_store_tracks_actions() {
    let mut store = ShipStateStore::new("ships.json", 5);
    assert_eq!(store.staleness_threshold_minutes(), 5);
    store.cache_ship_at(ship("A"), 0);
    store.cache_ship_at(ship("B"), 0);
    assert_eq!(store.get_ship_state("A").map(|s| s.ship.symbol.as_str()), Some("A"));
    assert!(!store.should_refresh_ship_at("A", 0));
    assert!(!store.should_refresh_ship_at("A", 1_000));
    assert!(store.should_refresh_ship_at("UNKNOWN", 1_000));
    let before = store.get_ship_state("A").unwrap().clone();
    assert!(store.mark_ship_action("A", "navigate"));
    assert_eq!(store.get_ship_state("A").unwrap().last_updated, before.last_updated);
    assert_eq!(store.get_ship_state("A").unwrap().last_api_refresh, before.last_api_refresh);
    assert!(!store.mark_ship_action("Z", "navigate"));
    let a = store.get_ship_state("A").unwrap();
    assert!(a.is_stale);
    assert_eq!(a.pending_actions, vec!["navigate".to_string()]);
    assert_eq!(store.get_stale_ships_at(1_000), vec!["A".to_string()]);
    store.update_ship_from_api_at(ship("A"), 2_000);
    assert!(store.get_stale_ships_at(2_000).is_empty());
    let mut all = store.list_cached_ships();
    all.sort();
    assert_eq!(all, vec!["A".to_string(), "B".to_string()]);
}

#[test]
fn ship_state_changed_in_place() {
    let mut store = ShipStateStore::new("ships.json", 5);
    store.cache_ship_at(ship("A"), 0);
    assert!(store.get_ship_state_mut("MISSING").is_none());
    let state = store.get_ship_state_mut("A").unwrap();
    assert!(!state.is_stale);
    state.add_pending_action("orbit");
    let a = store.get_ship_state("A").unwrap();
    assert!(a.is_stale);
    assert_eq!(a.pending_actions, vec!["orbit".to_string()]);
    assert_eq!(store.get_stale_ships_at(0), vec!["A".to_string()]);
}

#[test]
fn ship_state_store_cleans_old_states() {
    let mut store = ShipStateStore::new("ships.json", 5);
    store.cache_ship_at(ship("OLD"), 0);
    store.cache_ship_at(ship("NEW"), 20 * HOUR);
    assert_eq!(store.cleanup_old_cache_at(24, 24 * HOUR), 0);
    assert_eq!(store.cleanup_old_cache_at(24, 24 * HOUR + 1), 1);
    assert!(store.get_ship_state("OLD").is_none());
    assert!(store.get_ship_state("NEW").is_some());
}

#[test]
fn survey_cache_reads_back_fresh_scans() {
    let mut cache = SurveyCache::new("surveys.json", 1);
    let ws = vec![waypoint("X1-N5-A1", 0, 0, &["MARKETPLACE"]), waypoint("X1-N5-B2", 3, 4, &["SHIPYARD"])];
    cache.cache_system_waypoints_at("X1-N5", ws.clone(), 0);
    assert_eq!(cache.get_cached_waypoints_at("X1-N5", HOUR + HOUR / 2).map(|w| w.len()), Some(2));
    assert!(!cache.should_scan_system_at("X1-N5", HOUR + HOUR / 2));
    assert!(cache.get_cached_waypoints_at("X1-N5", 2 * HOUR).is_none());
    assert!(cache.should_scan_system_at("X1-N5", 2 * HOUR));
    assert!(cache.should_scan_system_at("X1-OTHER", 0));
}

#[test]
fn surveys_expire_after_thirty_minutes() {
    let mut cache = SurveyCache::new("surveys.json", 1);
    cache.cache_survey_data_at("X1-N5-B7", vec![survey("S1"), survey("S2")], 0);
    assert_eq!(cache.get_cached_surveys_at("X1-N5-B7", 30 * 60_000 - 1).map(|s| s.len()), Some(2));
    assert!(!cache.should_survey_waypoint_at("X1-N5-B7", 60_000));
    assert!(cache.get_cached_surveys_at("X1-N5-B7", 30 * 60_000).is_none());
    assert!(cache.should_survey_waypoint_at("X1-N5-B7", 30 * 60_000));
}

#[test]
fn survey_cache_cleanup_counts() {
    let mut cache = SurveyCache::new("surveys.json", 1);
    cache.cache_survey_data_at("W1", vec![survey("S1")], 0);
    cache.cache_survey_data_at("W2", vec![survey("S2")], 40 * 60_000);
    cache.cache_system_waypoints_at("SYS-OLD", vec![], 0);
    cache.cache_system_waypoints_at("SYS-NEW", vec![], HOUR);
    assert_eq!(cache.cleanup_expired_at(HOUR + 1), (1, 1));
    assert_eq!(cache.survey_count(), 1);
    assert_eq!(cache.scan_count(), 1);
}

#[test]
fn nearest_waypoint_with_trait() {
    let mut cache = SurveyCache::new("surveys.json", 1);
    let ws = vec![
        waypoint("FAR", 10, 10, &["MARKETPLACE"]),
        waypoint("YARD", 1, 1, &["SHIPYARD"]),
        waypoint("NEAR", 2, 2, &["MARKETPLACE"]),
        waypoint("TIE", -2, -2, &["MARKETPLACE"]),
    ];
    cache.cache_system_waypoints_at("X1-N5", ws, 0);
    let markets = cache.find_waypoints_with_trait_at("X1-N5", "MARKETPLACE", 0);
    assert_eq!(markets.iter().map(|w| w.symbol.as_str()).collect::<Vec<_>>(), vec!["FAR", "NEAR", "TIE"]);
    let nearest = cache.find_nearest_waypoint_with_trait_at("X1-N5", "MARKETPLACE", 0, 0, 0).unwrap();
    assert_eq!(nearest.symbol, "NEAR");
    assert!(cache.find_nearest_waypoint_with_trait_at("X1-N5", "JUMP_GATE", 0, 0, 0).is_none());
    assert!(cache.find_nearest_waypoint_with_trait_at("X1-N5", "MARKETPLACE", 0, 0, 2 * HOUR).is_none());
}

#[test]
fn cached_fuel_station_before_marketplace() {
    let mut cache = SurveyCache::new("surveys.json", 1);
    cache.cache_system_waypoints_at(
        "X1-A",
        vec![waypoint("MARKET", 1, 1, &["MARKETPLACE"]), waypoint("FUEL", 9, 9, &["FUEL_STATION"])],
        0,
    );
    cache.cache_system_waypoints_at("X1-B", vec![waypoint("MARKET_B", 1, 1, &["MARKETPLACE"])], 0);
    assert_eq!(find_nearest_fuel_station_cached_at(&cache, "X1-A", 0, 0, 0), Some("FUEL".to_string()));
    assert_eq!(find_nearest_fuel_station_cached_at(&cache, "X1-B", 0, 0, 0), Some("MARKET_B".to_string()));
    assert_eq!(find_nearest_fuel_station_cached_at(&cache, "X1-C", 0, 0, 0), None);
    assert_eq!(find_nearest_fuel_station_cached_at(&cache, "X1-A", 0, 0, 2 * HOUR), None);
}

#[test]
fn distances_between_points() {
    let w = waypoint("W", 3, -4, &[]);
    assert_eq!(waypoint_distance_squared(&w, 0, 0), 25);
    let a = waypoint("A", 5, 0, &[]);
    let b = waypoint("B", 0, 5, &[]);
    let c = waypoint("C", 7, 7, &[]);
    assert_eq!(nearest_waypoint(&vec![&c, &a, &b], 0, 0).unwrap().symbol, "A");
    assert!(nearest_waypoint(&vec![], 0, 0).is_none());
}
