//! Ship roles and refinery work: what a ship is, whether and how it can take a refinery, where
//! iron ore is and how it moves to the refiner, and how much refining a contract asks for.
use vstd::prelude::*;
use crate::model::{Ship, Module, Market, Waypoint, Contract, Delivery, CargoItem, waypoint_has_trait, has_trait};
use crate::text::{join_text, text_eq, has_text, contains_text, is_one_of, find_text, first_occurrence, occurs_at, parse_u64,
    parsed_u64, chars_of};
use crate::seqs::lemma_filter_step;
use vstd::string::*;

verus! {

/// What a ship does in the fleet.
#[derive(Clone, Copy, Debug, PartialEq, Eq)]
pub enum ShipRole {
    Miner,
    Hauler,
    Refiner,
    Scout,
    Utility,
}

/// Some mount of the ship mines or carries a laser.
pub open spec fn has_mining_mounts(s: Ship) -> bool {
    exists|i: int| 0 <= i < s.mounts@.len() && (contains_text(s.mounts@[i].symbol@, "MINING"@) || contains_text(
        s.mounts@[i].symbol@,
        "LASER"@,
    ))
}

/// Some module of the ship is a refinery.
pub open spec fn has_refinery_module(modules: Seq<Module>) -> bool {
    exists|i: int| 0 <= i < modules.len() && contains_text(modules[i].symbol@, "REFINERY"@)
}

/// The role of a ship: from its registered role where that names one, else from what it
/// carries (a refinery, mining mounts, a hold of 30 or more units).
pub open spec fn role_of(s: Ship) -> ShipRole {
    let r = s.registration.role@;
    if r == "EXCAVATOR"@ || r == "MINER"@ {
        ShipRole::Miner
    } else if r == "HAULER"@ || r == "TRANSPORT"@ {
        ShipRole::Hauler
    } else if r == "REFINERY"@ {
        ShipRole::Refiner
    } else if r == "SATELLITE"@ || r == "PROBE"@ {
        ShipRole::Scout
    } else if has_refinery_module(s.modules@) {
        ShipRole::Refiner
    } else if has_mining_mounts(s) {
        ShipRole::Miner
    } else if s.cargo.capacity >= 30 {
        ShipRole::Hauler
    } else {
        ShipRole::Utility
    }
}

/// The modules that can be taken out to make room for a refinery.
pub open spec fn removable_modules() -> Seq<Seq<char>> {
    seq![
        "MODULE_CARGO_HOLD_I"@,
        "MODULE_CARGO_HOLD_II"@,
        "MODULE_CARGO_HOLD_III"@,
        "MODULE_CREW_QUARTERS_I"@,
        "MODULE_CREW_QUARTERS_II"@,
        "MODULE_CREW_QUARTERS_III"@,
        "MODULE_MINERAL_PROCESSOR_I"@,
        "MODULE_GAS_PROCESSOR_I"@,
        "MODULE_SHIELD_GENERATOR_I"@,
        "MODULE_SHIELD_GENERATOR_II"@,
    ]
}

/// The modules a refiner keeps when it makes room for cargo.
pub open spec fn critical_modules() -> Seq<Seq<char>> {
    seq![
        "MODULE_ORE_REFINERY_I"@,
        "MODULE_WARP_DRIVE_I"@,
        "MODULE_WARP_DRIVE_II"@,
        "MODULE_WARP_DRIVE_III"@,
        "MODULE_JUMP_DRIVE_I"@,
        "MODULE_JUMP_DRIVE_II"@,
        "MODULE_JUMP_DRIVE_III"@,
        "MODULE_CREW_QUARTERS_I"@,
        "MODULE_SENSOR_ARRAY_I"@,
        "MODULE_SENSOR_ARRAY_II"@,
        "MODULE_SENSOR_ARRAY_III"@,
    ]
}

/// Whether the ship has a refinery module.
pub fn ship_has_refinery(modules: &[Module]) -> (r: bool)
    ensures
        r == has_refinery_module(modules@),
{
    let mut i: usize = 0;
    while i < modules.len()
        invariant
            i <= modules@.len(),
            forall|j: int| 0 <= j < i ==> !contains_text(#[trigger] modules@[j].symbol@, "REFINERY"@),
        decreases modules@.len() - i,
    {
        if has_text(modules[i].symbol.as_str(), "REFINERY") {
            return true;
        }
        i = i + 1;
    }
    false
}

/// The role of a ship (see [`role_of`]).
pub fn determine_current_role(ship: &Ship) -> (r: ShipRole)
    ensures
        r == role_of(*ship),
{
    let role = ship.registration.role.as_str();
    if text_eq(role, "EXCAVATOR") || text_eq(role, "MINER") {
        return ShipRole::Miner;
    }
    if text_eq(role, "HAULER") || text_eq(role, "TRANSPORT") {
        return ShipRole::Hauler;
    }
    if text_eq(role, "REFINERY") {
        return ShipRole::Refiner;
    }
    if text_eq(role, "SATELLITE") || text_eq(role, "PROBE") {
        return ShipRole::Scout;
    }
    if ship_has_refinery(ship.modules.as_slice()) {
        return ShipRole::Refiner;
    }
    let mut mining = false;
    let mut i: usize = 0;
    while i < ship.mounts.len()
        invariant
            i <= ship.mounts@.len(),
            mining == exists|j: int| 0 <= j < i && (contains_text(ship.mounts@[j].symbol@, "MINING"@) || contains_text(
                ship.mounts@[j].symbol@,
                "LASER"@,
            )),
        decreases ship.mounts@.len() - i,
    {
        if has_text(ship.mounts[i].symbol.as_str(), "MINING") || has_text(ship.mounts[i].symbol.as_str(), "LASER") {
            mining = true;
        }
        i = i + 1;
    }
    if mining {
        ShipRole::Miner
    } else if ship.cargo.capacity >= 30 {
        ShipRole::Hauler
    } else {
        ShipRole::Utility
    }
}

/// Whether the module can be taken out to make room for a refinery.
pub fn is_module_removable(module_symbol: &str) -> (r: bool)
    ensures
        r == removable_modules().contains(module_symbol@),
{
    let names: [&str; 10] = [
        "MODULE_CARGO_HOLD_I",
        "MODULE_CARGO_HOLD_II",
        "MODULE_CARGO_HOLD_III",
        "MODULE_CREW_QUARTERS_I",
        "MODULE_CREW_QUARTERS_II",
        "MODULE_CREW_QUARTERS_III",
        "MODULE_MINERAL_PROCESSOR_I",
        "MODULE_GAS_PROCESSOR_I",
        "MODULE_SHIELD_GENERATOR_I",
        "MODULE_SHIELD_GENERATOR_II",
    ];
    let r = is_one_of(module_symbol, &names);
    proof {
        assert(names@.map_values(|g: &str| g@) =~= removable_modules());
        if r {
            let i = choose|i: int| 0 <= i < names@.len() && names@[i]@ == module_symbol@;
            assert(removable_modules()[i] == module_symbol@);
        }
        if removable_modules().contains(module_symbol@) {
            let i = choose|i: int| 0 <= i < removable_modules().len() && removable_modules()[i] == module_symbol@;
            assert(names@[i]@ == module_symbol@);
        }
    }
    r
}

/// Whether a refiner keeps the module when making room for cargo.
pub fn is_module_critical(module_symbol: &str) -> (r: bool)
    ensures
        r == critical_modules().contains(module_symbol@),
{
    let names: [&str; 11] = [
        "MODULE_ORE_REFINERY_I",
        "MODULE_WARP_DRIVE_I",
        "MODULE_WARP_DRIVE_II",
        "MODULE_WARP_DRIVE_III",
        "MODULE_JUMP_DRIVE_I",
        "MODULE_JUMP_DRIVE_II",
        "MODULE_JUMP_DRIVE_III",
        "MODULE_CREW_QUARTERS_I",
        "MODULE_SENSOR_ARRAY_I",
        "MODULE_SENSOR_ARRAY_II",
        "MODULE_SENSOR_ARRAY_III",
    ];
    let r = is_one_of(module_symbol, &names);
    proof {
        assert(names@.map_values(|g: &str| g@) =~= critical_modules());
        if r {
            let i = choose|i: int| 0 <= i < names@.len() && names@[i]@ == module_symbol@;
            assert(critical_modules()[i] == module_symbol@);
        }
        if critical_modules().contains(module_symbol@) {
            let i = choose|i: int| 0 <= i < critical_modules().len() && critical_modules()[i] == module_symbol@;
            assert(names@[i]@ == module_symbol@);
        }
    }
    r
}

/// The module is not a refinery and can be taken out.
pub open spec fn removable_here(m: Module) -> bool {
    !contains_text(m.symbol@, "REFINERY"@) && removable_modules().contains(m.symbol@)
}

/// What a ship's modules allow for refining.
#[derive(Clone, Debug)]
pub struct ModuleSurvey {
    pub has_refinery: bool,
    /// The modules that can be taken out, in the ship's order.
    pub removable_modules: Vec<String>,
    /// Module slots not in use (negative when more modules are fitted than the frame holds).
    pub available_module_slots: i32,
}

/// What a ship's modules allow: whether one is a refinery, which can be taken out, and how
/// many slots are free.
pub fn survey_modules(ship: &Ship) -> (r: ModuleSurvey)
    requires
        ship.modules@.len() <= i32::MAX,
        i32::MIN <= ship.frame.module_slots - ship.modules@.len() <= i32::MAX,
    ensures
        r.has_refinery == has_refinery_module(ship.modules@),
        r.removable_modules@.map_values(|s: String| s@) == ship.modules@.filter(|m: Module| removable_here(m)).map_values(
            |m: Module| m.symbol@,
        ),
        r.available_module_slots == ship.frame.module_slots - ship.modules@.len(),
{
    let ms = &ship.modules;
    let mut refinery = false;
    let mut removable: Vec<String> = Vec::new();
    let mut i: usize = 0;
    while i < ms.len()
        invariant
            i <= ms@.len(),
            ms@ == ship.modules@,
            refinery == exists|j: int| 0 <= j < i && contains_text(ms@[j].symbol@, "REFINERY"@),
            removable@.map_values(|s: String| s@) == ms@.take(i as int).filter(|m: Module| removable_here(m)).map_values(
                |m: Module| m.symbol@,
            ),
        decreases ms@.len() - i,
    {
        proof {
            lemma_filter_step(ms@, |m: Module| removable_here(m), i as int);
        }
        let ghost f = ms@.take(i as int).filter(|m: Module| removable_here(m));
        let ghost before = removable@;
        if has_text(ms[i].symbol.as_str(), "REFINERY") {
            refinery = true;
        } else if is_module_removable(ms[i].symbol.as_str()) {
            removable.push(ms[i].symbol.clone());
            assert(removable@.map_values(|s: String| s@) =~= before.map_values(|s: String| s@).push(ms@[i as int].symbol@));
            assert(f.push(ms@[i as int]).map_values(|m: Module| m.symbol@) =~= f.map_values(|m: Module| m.symbol@).push(
                ms@[i as int].symbol@,
            ));
        }
        i = i + 1;
    }
    assert(ms@.take(i as int) =~= ms@);
    let used = ms.len() as i32;
    ModuleSurvey {
        has_refinery: refinery,
        removable_modules: removable,
        available_module_slots: ship.frame.module_slots - used,
    }
}

/// How a ship comes to carry a refinery.
#[derive(Clone, Debug, PartialEq, Eq)]
pub enum RefineryFitting {
    /// It has one already.
    AlreadyFitted,
    /// No slot is free and nothing can be taken out.
    NoRoom,
    /// It goes to a shipyard and, when no slot is free, first takes out `remove`.
    Fit { remove: Option<String> },
}

/// `r` is how the surveyed ship comes to carry a refinery: fitted already; no room when no slot
/// is free and nothing can be taken out; else fit it, taking out the first removable module
/// when no slot is free.
pub open spec fn fitting_for(survey: ModuleSurvey, r: RefineryFitting) -> bool {
    &&& survey.has_refinery ==> r == RefineryFitting::AlreadyFitted
    &&& !survey.has_refinery && survey.available_module_slots <= 0 && survey.removable_modules@.len() == 0 ==> r
        == RefineryFitting::NoRoom
    &&& !survey.has_refinery && !(survey.available_module_slots <= 0 && survey.removable_modules@.len() == 0) ==> (r
        matches RefineryFitting::Fit { remove } && (if survey.available_module_slots <= 0 {
        remove matches Some(m) && m@ == survey.removable_modules@[0]@
    } else {
        remove is None
    }))
}

/// How the surveyed ship comes to carry a refinery (see [`fitting_for`]).
pub fn plan_refinery_fitting(survey: &ModuleSurvey) -> (r: RefineryFitting)
    ensures
        fitting_for(*survey, r),
{
    if survey.has_refinery {
        RefineryFitting::AlreadyFitted
    } else if survey.available_module_slots <= 0 && survey.removable_modules.len() == 0 {
        RefineryFitting::NoRoom
    } else if survey.available_module_slots <= 0 {
        RefineryFitting::Fit { remove: Some(survey.removable_modules[0].clone()) }
    } else {
        RefineryFitting::Fit { remove: None }
    }
}

/// The market lists the good with units to trade.
pub open spec fn on_sale(m: Market, good: Seq<char>) -> bool {
    match m.trade_goods {
        Some(goods) => exists|i: int| 0 <= i < goods@.len() && goods@[i].symbol@ == good && goods@[i].trade_volume > 0,
        None => false,
    }
}

/// Whether the market lists the good with units to trade.
pub fn module_on_sale(market: &Market, good: &str) -> (r: bool)
    ensures
        r == on_sale(*market, good@),
{
    match &market.trade_goods {
        None => false,
        Some(goods) => {
            let mut i: usize = 0;
            while i < goods.len()
                invariant
                    i <= goods@.len(),
                    market.trade_goods == Some(*goods),
                    forall|j: int| 0 <= j < i ==> !(goods@[j].symbol@ == good@ && goods@[j].trade_volume > 0),
                decreases goods@.len() - i,
            {
                if text_eq(goods[i].symbol.as_str(), good) && goods[i].trade_volume > 0 {
                    assert(market.trade_goods->0@ == goods@);
                    return true;
                }
                i = i + 1;
            }
            false
        },
    }
}

/// The first waypoint with the symbol.
pub open spec fn first_waypoint(ws: Seq<Waypoint>, symbol: Seq<char>, i: int) -> bool {
    0 <= i < ws.len() && ws[i].symbol@ == symbol && forall|j: int| 0 <= j < i ==> ws[j].symbol@ != symbol
}

/// Whether the ship's waypoint, looked up among the system's waypoints, is a shipyard.
pub fn at_shipyard(waypoints: &[Waypoint], current: &str) -> (r: bool)
    ensures
        r == exists|i: int| first_waypoint(waypoints@, current@, i) && waypoint_has_trait(waypoints@[i], "SHIPYARD"@),
{
    let mut i: usize = 0;
    while i < waypoints.len()
        invariant
            i <= waypoints@.len(),
            forall|j: int| 0 <= j < i ==> waypoints@[j].symbol@ != current@,
        decreases waypoints@.len() - i,
    {
        if text_eq(waypoints[i].symbol.as_str(), current) {
            let r = has_trait(&waypoints[i], "SHIPYARD");
            proof {
                assert(first_waypoint(waypoints@, current@, i as int));
                if !r {
                    assert forall|k: int| first_waypoint(waypoints@, current@, k) implies k == i by {}
                }
            }
            return r;
        }
        i = i + 1;
    }
    false
}

/// Why a navigation request failed.
#[derive(Clone, Copy, Debug, PartialEq, Eq)]
pub enum NavigationFailure {
    /// The ship is travelling already and arrives in that many seconds.
    InTransit { arrival_seconds: u64 },
    /// The ship is at the destination already.
    AtDestination,
    /// Anything else.
    Other,
}

/// The seconds that an in-transit error text announces: the number between the first
/// "arrives in " and the next " seconds", or 30 when there is none to read.
pub open spec fn announced_seconds(msg: Seq<char>) -> u64 {
    let k = choose|k: int| first_occurrence(msg, "arrives in "@, k);
    let rest = msg.skip(k + 11);
    let e = choose|e: int| first_occurrence(rest, " seconds"@, e);
    if !contains_text(msg, "arrives in "@) || !contains_text(rest, " seconds"@) {
        30
    } else {
        match parsed_u64(rest.take(e)) {
            Some(n) => n,
            None => 30,
        }
    }
}

/// What a navigation error text says: in transit (with the announced arrival, see
/// [`announced_seconds`]) when it mentions "in-transit"; already there when it mentions being
/// "currently located at the destination"; else another failure.
pub fn classify_navigation_error(message: &str) -> (r: NavigationFailure)
    ensures
        r == (if contains_text(message@, "in-transit"@) {
            NavigationFailure::InTransit { arrival_seconds: announced_seconds(message@) }
        } else if contains_text(message@, "currently located at the destination"@) {
            NavigationFailure::AtDestination
        } else {
            NavigationFailure::Other
        }),
{
    if has_text(message, "in-transit") {
        NavigationFailure::InTransit { arrival_seconds: arrival_seconds_in(message) }
    } else if has_text(message, "currently located at the destination") {
        NavigationFailure::AtDestination
    } else {
        NavigationFailure::Other
    }
}

/// The seconds that an in-transit error text announces (see [`announced_seconds`]).
pub fn arrival_seconds_in(message: &str) -> (r: u64)
    ensures
        r == announced_seconds(message@),
{
    proof {
        reveal_strlit("arrives in ");
    }
    match find_text(message, "arrives in ") {
        None => 30,
        Some(k) => {
            let cs = chars_of(message);
            let ghost rest = message@.skip(k + 11);
            proof {
                assert(first_occurrence(message@, "arrives in "@, k as int));
                let k2 = choose|k2: int| first_occurrence(message@, "arrives in "@, k2);
                if k2 < k {
                    assert(!occurs_at(message@, "arrives in "@, k2));
                } else if k < k2 {
                    assert(!occurs_at(message@, "arrives in "@, k as int));
                }
                assert(k2 == k);
            }
            let n = cs.len();
            assert(k + 11 <= n);
            let tail = message.substring_char(k + 11, n);
            assert(tail@ =~= rest);
            match find_text(tail, " seconds") {
                None => 30,
                Some(e) => {
                    proof {
                        let e2 = choose|e2: int| first_occurrence(rest, " seconds"@, e2);
                        if e2 < e {
                            assert(!occurs_at(rest, " seconds"@, e2));
                        } else if e < e2 {
                            assert(!occurs_at(rest, " seconds"@, e as int));
                        }
                        assert(e2 == e);
                    }
                    let digits = tail.substring_char(0, e);
                    assert(digits@ =~= rest.take(e as int));
                    match parse_u64(digits) {
                        Some(n) => n,
                        None => 30,
                    }
                },
            }
        },
    }
}

/// A ship carrying iron ore.
#[derive(Clone, Debug)]
pub struct OreCarrier {
    pub ship_symbol: String,
    pub iron_ore_units: i32,
    pub current_location: String,
}

/// The units of the first stack of iron ore holding any, if there is one.
pub open spec fn first_ore_units(inv: Seq<CargoItem>) -> Option<i32>
    decreases inv.len(),
{
    if inv.len() == 0 {
        None
    } else if inv[0].symbol@ == "IRON_ORE"@ && inv[0].units > 0 {
        Some(inv[0].units)
    } else {
        first_ore_units(inv.drop_first())
    }
}

/// The carriers among the first `n` ships.
pub open spec fn carriers_prefix(ships: Seq<Ship>, n: int) -> Seq<(Seq<char>, i32, Seq<char>)>
    decreases n,
{
    if n <= 0 || n > ships.len() {
        Seq::empty()
    } else {
        match first_ore_units(ships[n - 1].cargo.inventory@) {
            Some(u) => carriers_prefix(ships, n - 1).push((ships[n - 1].symbol@, u, ships[n - 1].nav.waypoint_symbol@)),
            None => carriers_prefix(ships, n - 1),
        }
    }
}

fn ore_units(inv: &Vec<CargoItem>) -> (r: Option<i32>)
    ensures
        r == first_ore_units(inv@),
{
    let mut i: usize = 0;
    assert(inv@.skip(0) =~= inv@);
    while i < inv.len()
        invariant
            i <= inv@.len(),
            first_ore_units(inv@) == first_ore_units(inv@.skip(i as int)),
        decreases inv@.len() - i,
    {
        assert(inv@.skip(i as int).drop_first() =~= inv@.skip(i + 1));
        if text_eq(inv[i].symbol.as_str(), "IRON_ORE") && inv[i].units > 0 {
            return Some(inv[i].units);
        }
        i = i + 1;
    }
    None
}

/// The ships carrying iron ore, in fleet order, each with the units of its first stack of ore
/// and where it is.
pub fn iron_ore_carriers(ships: &[Ship]) -> (r: Vec<OreCarrier>)
    ensures
        r@.map_values(|c: OreCarrier| (c.ship_symbol@, c.iron_ore_units, c.current_location@)) == carriers_prefix(
            ships@,
            ships@.len() as int,
        ),
{
    let mut r: Vec<OreCarrier> = Vec::new();
    let mut i: usize = 0;
    while i < ships.len()
        invariant
            i <= ships@.len(),
            r@.map_values(|c: OreCarrier| (c.ship_symbol@, c.iron_ore_units, c.current_location@)) == carriers_prefix(
                ships@,
                i as int,
            ),
        decreases ships@.len() - i,
    {
        let s = &ships[i];
        match ore_units(&s.cargo.inventory) {
            Some(u) => {
                let ghost before = r@;
                r.push(
                    OreCarrier {
                        ship_symbol: s.symbol.clone(),
                        iron_ore_units: u,
                        current_location: s.nav.waypoint_symbol.clone(),
                    },
                );
                assert(r@.map_values(|c: OreCarrier| (c.ship_symbol@, c.iron_ore_units, c.current_location@)) =~= before.map_values(
                    |c: OreCarrier| (c.ship_symbol@, c.iron_ore_units, c.current_location@),
                ).push((s.symbol@, u, s.nav.waypoint_symbol@)));
            },
            None => {},
        }
        i = i + 1;
    }
    r
}

/// How much ore moves from a carrier to the refiner: what the carrier holds, at most the
/// refiner's free space; `None` when that is nothing.
pub fn transfer_units(carrier_units: i32, refiner_capacity: i32, refiner_units: i32) -> (r: Option<i32>)
    requires
        i32::MIN <= refiner_capacity - refiner_units <= i32::MAX,
    ensures
        ({
            let space = refiner_capacity - refiner_units;
            let n = if carrier_units < space {
                carrier_units as int
            } else {
                space
            };
            r == if n > 0 {
                Some(n as i32)
            } else {
                None
            }
        }),
        r matches Some(n) ==> 0 < n <= carrier_units && n <= refiner_capacity - refiner_units,
{
    let space = refiner_capacity - refiner_units;
    let n = if carrier_units < space {
        carrier_units
    } else {
        space
    };
    if n > 0 {
        Some(n)
    } else {
        None
    }
}

/// The modules a refiner can take out to make room for cargo, in order: those not critical.
pub fn removable_for_cargo(modules: &[Module]) -> (r: Vec<String>)
    ensures
        r@.map_values(|s: String| s@) == modules@.filter(|m: Module| !critical_modules().contains(m.symbol@)).map_values(
            |m: Module| m.symbol@,
        ),
{
    let mut r: Vec<String> = Vec::new();
    let mut i: usize = 0;
    while i < modules.len()
        invariant
            i <= modules@.len(),
            r@.map_values(|s: String| s@) == modules@.take(i as int).filter(
                |m: Module| !critical_modules().contains(m.symbol@),
            ).map_values(|m: Module| m.symbol@),
        decreases modules@.len() - i,
    {
        proof {
            lemma_filter_step(modules@, |m: Module| !critical_modules().contains(m.symbol@), i as int);
        }
        let ghost f = modules@.take(i as int).filter(|m: Module| !critical_modules().contains(m.symbol@));
        let ghost before = r@;
        if !is_module_critical(modules[i].symbol.as_str()) {
            r.push(modules[i].symbol.clone());
            assert(r@.map_values(|s: String| s@) =~= before.map_values(|s: String| s@).push(modules@[i as int].symbol@));
            assert(f.push(modules@[i as int]).map_values(|m: Module| m.symbol@) =~= f.map_values(|m: Module| m.symbol@).push(
                modules@[i as int].symbol@,
            ));
        }
        i = i + 1;
    }
    assert(modules@.take(i as int) =~= modules@);
    r
}

/// A ship's free cargo space.
pub open spec fn free_space(s: Ship) -> int {
    s.cargo.capacity - s.cargo.units
}

/// `i` is the first ship of greatest free space among those with 100 units or more free.
pub open spec fn is_best_receiver(ships: Seq<Ship>, i: int) -> bool {
    &&& 0 <= i < ships.len()
    &&& free_space(ships[i]) >= 100
    &&& forall|j: int| 0 <= j < i && free_space(#[trigger] ships[j]) >= 100 ==> free_space(ships[j]) < free_space(ships[i])
    &&& forall|j: int| i < j < ships.len() && free_space(#[trigger] ships[j]) >= 100 ==> free_space(ships[j]) <= free_space(ships[i])
}

/// The ship to gather ore on when no refiner can hold a batch: of the ships with 100 or more
/// units free, the first with the most free space.
pub fn best_receiver(ships: &[Ship]) -> (r: Option<usize>)
    requires
        forall|j: int| 0 <= j < ships@.len() ==> i32::MIN <= #[trigger] free_space(ships@[j]) <= i32::MAX,
    ensures
        r matches Some(i) ==> is_best_receiver(ships@, i as int),
        r is None ==> forall|j: int| 0 <= j < ships@.len() ==> free_space(#[trigger] ships@[j]) < 100,
{
    let mut best: Option<usize> = None;
    let mut best_space: i32 = 0;
    let mut i: usize = 0;
    while i < ships.len()
        invariant
            i <= ships@.len(),
            forall|j: int| 0 <= j < ships@.len() ==> i32::MIN <= #[trigger] free_space(ships@[j]) <= i32::MAX,
            match best {
                Some(b) => {
                    &&& b < i
                    &&& best_space == free_space(ships@[b as int])
                    &&& best_space >= 100
                    &&& forall|j: int| 0 <= j < b && free_space(#[trigger] ships@[j]) >= 100 ==> free_space(ships@[j]) < best_space
                    &&& forall|j: int| b < j < i && free_space(#[trigger] ships@[j]) >= 100 ==> free_space(ships@[j]) <= best_space
                },
                None => forall|j: int| 0 <= j < i ==> free_space(#[trigger] ships@[j]) < 100,
            },
        decreases ships@.len() - i,
    {
        assert(i32::MIN <= free_space(ships@[i as int]) <= i32::MAX);
        let space = ships[i].cargo.capacity - ships[i].cargo.units;
        if space >= 100 {
            let take = match best {
                None => true,
                Some(_) => space > best_space,
            };
            if take {
                best = Some(i);
                best_space = space;
            }
        }
        i = i + 1;
    }
    best
}

/// How many refining runs the ore allows: one per hundred units (rounded toward zero).
pub fn refining_cycles(available_units: i32) -> (r: i32)
    ensures
        available_units >= 0 ==> r == available_units / 100,
        available_units < 0 ==> r == -((-available_units) / 100),
{
    if available_units >= 0 {
        available_units / 100
    } else {
        let a: i64 = -(available_units as i64);
        -((a / 100) as i32)
    }
}

/// A refining error that only says the refinery is cooling down, after which the run is tried
/// again.
pub fn is_cooldown_error(message: &str) -> (r: bool)
    ensures
        r == contains_text(message@, "cooldown"@),
{
    has_text(message, "cooldown")
}

/// How a refinery contract is worked.
#[derive(Clone, Copy, Debug, PartialEq, Eq)]
pub enum RefineryStrategy {
    /// No iron is owed.
    Done,
    /// The refiner's hold takes the whole order (with room to spare): refine it in one batch.
    Batch,
    /// Refine and deliver ten units at a time.
    Incremental,
}

/// The first delivery term for iron.
pub open spec fn first_iron_term(d: Seq<Delivery>, i: int) -> bool {
    0 <= i < d.len() && d[i].trade_symbol@ == "IRON"@ && forall|j: int| 0 <= j < i ==> d[j].trade_symbol@ != "IRON"@
}

/// The iron still owed on the contract's first iron term, with its destination; `None` when no
/// term asks for iron.
pub fn iron_requirement(contract: &Contract) -> (r: Option<(i32, String)>)
    requires
        forall|k: int| 0 <= k < contract.terms.deliver@.len() ==> i32::MIN <= #[trigger] contract.terms.deliver@[k].units_required
            - contract.terms.deliver@[k].units_fulfilled <= i32::MAX,
    ensures
        r matches Some(p) ==> exists|i: int| first_iron_term(contract.terms.deliver@, i) && p.0
            == contract.terms.deliver@[i].units_required - contract.terms.deliver@[i].units_fulfilled && p.1@
            == contract.terms.deliver@[i].destination_symbol@,
        r is None ==> forall|j: int| 0 <= j < contract.terms.deliver@.len() ==> contract.terms.deliver@[j].trade_symbol@ != "IRON"@,
{
    let d = &contract.terms.deliver;
    let mut i: usize = 0;
    while i < d.len()
        invariant
            i <= d@.len(),
            d@ == contract.terms.deliver@,
            forall|k: int| 0 <= k < d@.len() ==> i32::MIN <= #[trigger] d@[k].units_required - d@[k].units_fulfilled <= i32::MAX,
            forall|j: int| 0 <= j < i ==> d@[j].trade_symbol@ != "IRON"@,
        decreases d@.len() - i,
    {
        if text_eq(d[i].trade_symbol.as_str(), "IRON") {
            assert(first_iron_term(d@, i as int));
            assert(i32::MIN <= d@[i as int].units_required - d@[i as int].units_fulfilled <= i32::MAX);
            return Some((d[i].units_required - d[i].units_fulfilled, d[i].destination_symbol.clone()));
        }
        i = i + 1;
    }
    None
}

/// How to work an order of `required_iron` units with a refiner holding `refiner_capacity`:
/// done when nothing is owed; one batch when the hold takes the order and 10 more; else ten
/// at a time.
pub fn choose_refinery_strategy(required_iron: i32, refiner_capacity: i32) -> (r: RefineryStrategy)
    ensures
        r == (if required_iron <= 0 {
            RefineryStrategy::Done
        } else if refiner_capacity >= required_iron + 10 {
            RefineryStrategy::Batch
        } else {
            RefineryStrategy::Incremental
        }),
{
    if required_iron <= 0 {
        RefineryStrategy::Done
    } else if refiner_capacity as i64 >= required_iron as i64 + 10 {
        RefineryStrategy::Batch
    } else {
        RefineryStrategy::Incremental
    }
}

/// Whether a batch needs a larger hold first: the hold is under the order plus 20.
pub fn batch_needs_larger_hold(refiner_capacity: i32, required_iron: i32) -> (r: bool)
    ensures
        r == (refiner_capacity < required_iron + 20),
{
    (refiner_capacity as i64) < required_iron as i64 + 20
}

/// How many ten-unit rounds an order of `required_iron` units takes (rounded up).
pub fn iron_rounds(required_iron: i32) -> (r: i32)
    requires
        required_iron > 0,
        required_iron <= i32::MAX - 9,
    ensures
        r == (required_iron + 9) / 10,
{
    (required_iron + 9) / 10
}

/// How much iron the next round delivers: ten units, or what is left when less.
pub fn next_iron_delivery(required_iron: i32, delivered: i32) -> (r: i32)
    requires
        i32::MIN <= required_iron - delivered <= i32::MAX,
    ensures
        r == next_delivery(required_iron as int, delivered as int),
{
    let left = required_iron - delivered;
    if left < 10 {
        left
    } else {
        10
    }
}

/// What the next round delivers after `delivered` of `required_iron` units: ten, or what is
/// left when less.
pub open spec fn next_delivery(required_iron: int, delivered: int) -> int {
    if required_iron - delivered < 10 {
        required_iron - delivered
    } else {
        10
    }
}

/// The iron delivered after `rounds` rounds of an order of `required_iron` units.
pub open spec fn delivered_after(required_iron: int, rounds: nat) -> int
    decreases rounds,
{
    if rounds == 0 {
        0
    } else {
        let before = delivered_after(required_iron, (rounds - 1) as nat);
        before + next_delivery(required_iron, before)
    }
}

proof fn lemma_delivered_after(required_iron: int, rounds: nat)
    requires
        required_iron > 0,
    ensures
        delivered_after(required_iron, rounds) == if 10 * rounds <= required_iron { 10 * rounds as int } else { required_iron },
    decreases rounds,
{
    if rounds > 0 {
        lemma_delivered_after(required_iron, (rounds - 1) as nat);
    }
}

/// Delivering the next round's amount for as many rounds as [`iron_rounds`] counts delivers
/// the whole order and no more, each round delivering between one and ten units.
pub proof fn law_iron_rounds_deliver_order(required_iron: int)
    requires
        required_iron > 0,
    ensures
        delivered_after(required_iron, ((required_iron + 9) / 10) as nat) == required_iron,
        forall|k: nat| k < (required_iron + 9) / 10 ==> 1 <= #[trigger] next_delivery(required_iron, delivered_after(required_iron, k)) <= 10,
{
    let n = ((required_iron + 9) / 10) as nat;
    lemma_delivered_after(required_iron, n);
    assert(10 * n >= required_iron);
    assert forall|k: nat| k < (required_iron + 9) / 10 implies 1 <= #[trigger] next_delivery(required_iron, delivered_after(required_iron, k)) <= 10 by {
        lemma_delivered_after(required_iron, k);
        assert(10 * k < required_iron);
    }
}

/// The analysis at `i` is the first one of the ship `symbol`.
pub open spec fn first_analysis(analyses: Seq<(String, ModuleSurvey)>, symbol: Seq<char>, i: int) -> bool {
    &&& 0 <= i < analyses.len()
    &&& analyses[i].0@ == symbol
    &&& forall|j: int| 0 <= j < i ==> analyses[j].0@ != symbol
}

/// How the ship `ship_symbol` comes to carry a refinery, by its analysis among `analyses` (ship
/// symbol and module survey, the first for a ship counting): the error "Ship <symbol> not
/// analyzed" when the ship has none, else the fitting for its survey (see [`fitting_for`]).
pub fn refinery_fitting_for(analyses: &[(String, ModuleSurvey)], ship_symbol: &str) -> (r: Result<RefineryFitting, String>)
    ensures
        match r {
            Ok(f) => exists|i: int| first_analysis(analyses@, ship_symbol@, i) && fitting_for(analyses@[i].1, f),
            Err(e) => e@ == "Ship "@ + ship_symbol@ + " not analyzed"@
                && forall|j: int| 0 <= j < analyses@.len() ==> analyses@[j].0@ != ship_symbol@,
        },
{
    let mut i: usize = 0;
    while i < analyses.len()
        invariant
            i <= analyses@.len(),
            forall|j: int| 0 <= j < i ==> analyses@[j].0@ != ship_symbol@,
        decreases analyses@.len() - i,
    {
        if text_eq(analyses[i].0.as_str(), ship_symbol) {
            let f = plan_refinery_fitting(&analyses[i].1);
            assert(first_analysis(analyses@, ship_symbol@, i as int));
            return Ok(f);
        }
        i = i + 1;
    }
    proof {
        reveal_strlit("Ship ");
        reveal_strlit(" not analyzed");
    }
    let a = join_text("Ship ", ship_symbol);
    Err(join_text(a.as_str(), " not analyzed"))
}

/// A ship's registered role decides its role whatever it carries: EXCAVATOR and MINER ships
/// mine, HAULER and TRANSPORT ships haul, REFINERY ships refine, SATELLITE and PROBE ships
/// scout; for any other registered role, a refinery module makes a refiner before mining mounts
/// make a miner, and a hold of 30 or more a hauler.
pub proof fn law_registered_role_decides(s: Ship)
    ensures
        s.registration.role@ == "SATELLITE"@ || s.registration.role@ == "PROBE"@ ==> role_of(s) == ShipRole::Scout,
        s.registration.role@ == "EXCAVATOR"@ || s.registration.role@ == "MINER"@ ==> role_of(s) == ShipRole::Miner,
        s.registration.role@ == "HAULER"@ || s.registration.role@ == "TRANSPORT"@ ==> role_of(s) == ShipRole::Hauler,
        s.registration.role@ == "REFINERY"@ ==> role_of(s) == ShipRole::Refiner,
        !is_one_of_roles(s.registration.role@) && has_refinery_module(s.modules@) ==> role_of(s) == ShipRole::Refiner,
        !is_one_of_roles(s.registration.role@) && !has_refinery_module(s.modules@) && has_mining_mounts(s)
            ==> role_of(s) == ShipRole::Miner,
        !is_one_of_roles(s.registration.role@) && !has_refinery_module(s.modules@) && !has_mining_mounts(s)
            ==> (role_of(s) == ShipRole::Hauler <==> s.cargo.capacity >= 30),
{
    reveal_strlit("SATELLITE");
    reveal_strlit("PROBE");
    reveal_strlit("EXCAVATOR");
    reveal_strlit("MINER");
    reveal_strlit("HAULER");
    reveal_strlit("TRANSPORT");
    reveal_strlit("REFINERY");
    let r = s.registration.role@;
    if r == "SATELLITE"@ || r == "PROBE"@ {
        assert(r.len() == 9 || r.len() == 5);
        assert(r != "EXCAVATOR"@) by {
            if r.len() == 9 {
                assert(r[0] != "EXCAVATOR"@[0]);
            }
        }
        assert(r != "MINER"@) by {
            if r.len() == 5 {
                assert(r[0] != "MINER"@[0]);
            }
        }
        assert(r != "HAULER"@);
        assert(r != "TRANSPORT"@) by {
            if r.len() == 9 {
                assert(r[0] != "TRANSPORT"@[0]);
            }
        }
        assert(r != "REFINERY"@);
    }
    if r == "EXCAVATOR"@ || r == "MINER"@ {
    }
    if r == "HAULER"@ || r == "TRANSPORT"@ {
        assert(r.len() == 6 || r.len() == 9);
        assert(r != "EXCAVATOR"@) by {
            if r.len() == 9 {
                assert(r[0] != "EXCAVATOR"@[0]);
            }
        }
        assert(r != "MINER"@);
    }
    if r == "REFINERY"@ {
        assert(r.len() == 8);
        assert(r != "EXCAVATOR"@);
        assert(r != "MINER"@);
        assert(r != "HAULER"@);
        assert(r != "TRANSPORT"@);
    }
}

/// The role is one of those registered roles that decide a ship's role by themselves.
pub open spec fn is_one_of_roles(r: Seq<char>) -> bool {
    r == "EXCAVATOR"@ || r == "MINER"@ || r == "HAULER"@ || r == "TRANSPORT"@ || r == "REFINERY"@ || r == "SATELLITE"@
        || r == "PROBE"@
}

} // verus!
