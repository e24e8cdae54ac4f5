//! The fleet coordinator's decisions: which task an idle ship gets, when a ship delivers or
//! refuels, where it mines, sells or refuels, and when the fleet grows.
use vstd::prelude::*;
use crate::model::{Ship, Contract, Delivery, CargoItem, Waypoint, Market, waypoint_has_trait, has_trait, total_required};
use crate::exploration::is_probe;
use crate::trading::{accepts, TradingOperations};
use crate::contracts::{required_sums_fit, required_units};
use crate::storage::survey_cache::{nearest_in, nearest_waypoint, with_trait, fresh_waypoints, scan_at_clock, SurveyCache};
use crate::clock::now_millis;
use crate::seqs::lemma_filter_step;
use crate::text::{text_eq, has_text, contains_text, contains_any_of, is_one_of};

verus! {

/// Whether `num / den`, computed in `f64`, is below `p / q` for a ratio `p / q` of small
/// positive integers: for integers of `i32` size the floating-point test and this integer one
/// agree (a zero denominator gives infinity or NaN).
pub open spec fn ratio_below(num: int, den: int, p: int, q: int) -> bool {
    if den > 0 {
        q * num < p * den
    } else if den == 0 {
        num < 0
    } else {
        q * num > p * den
    }
}

/// Whether `num / den`, computed in `f64`, is at least `p / q` (see [`ratio_below`]).
pub open spec fn ratio_at_least(num: int, den: int, p: int, q: int) -> bool {
    if den > 0 {
        q * num >= p * den
    } else if den == 0 {
        num > 0
    } else {
        q * num <= p * den
    }
}

fn below(num: i32, den: i32, p: i64, q: i64) -> (r: bool)
    requires
        0 < p <= 100,
        0 < q <= 100,
    ensures
        r == ratio_below(num as int, den as int, p as int, q as int),
{
    assert(-100 * 0x8000_0000 <= q * num <= 100 * 0x8000_0000) by (nonlinear_arith)
        requires
            0 < q <= 100,
            -0x8000_0000 <= num < 0x8000_0000,
    ;
    assert(-100 * 0x8000_0000 <= p * den <= 100 * 0x8000_0000) by (nonlinear_arith)
        requires
            0 < p <= 100,
            -0x8000_0000 <= den < 0x8000_0000,
    ;
    let a: i64 = q * num as i64;
    let b: i64 = p * den as i64;
    if den > 0 {
        a < b
    } else if den == 0 {
        num < 0
    } else {
        a > b
    }
}

fn at_least(num: i32, den: i32, p: i64, q: i64) -> (r: bool)
    requires
        0 < p <= 100,
        0 < q <= 100,
    ensures
        r == ratio_at_least(num as int, den as int, p as int, q as int),
{
    assert(-100 * 0x8000_0000 <= q * num <= 100 * 0x8000_0000) by (nonlinear_arith)
        requires
            0 < q <= 100,
            -0x8000_0000 <= num < 0x8000_0000,
    ;
    assert(-100 * 0x8000_0000 <= p * den <= 100 * 0x8000_0000) by (nonlinear_arith)
        requires
            0 < p <= 100,
            -0x8000_0000 <= den < 0x8000_0000,
    ;
    let a: i64 = q * num as i64;
    let b: i64 = p * den as i64;
    if den > 0 {
        a >= b
    } else if den == 0 {
        num > 0
    } else {
        a <= b
    }
}

/// The ship needs fuel: it is no probe, and its tank is under a fifth full or holds under 400
/// units.
pub open spec fn needs_fuel(s: Ship) -> bool {
    !is_probe(s) && (ratio_below(s.fuel.current as int, s.fuel.capacity as int, 1, 5) || s.fuel.current < 400)
}

/// Whether the ship is a probe.
pub fn ship_is_probe(ship: &Ship) -> (r: bool)
    ensures
        r == is_probe(*ship),
{
    text_eq(ship.registration.role.as_str(), "SATELLITE") || has_text(ship.frame.symbol.as_str(), "PROBE")
}

/// Whether the ship needs fuel (see [`needs_fuel`]).
pub fn needs_refuel(ship: &Ship) -> (r: bool)
    ensures
        r == needs_fuel(*ship),
{
    if ship_is_probe(ship) {
        return false;
    }
    below(ship.fuel.current, ship.fuel.capacity, 1, 5) || ship.fuel.current < 400
}

/// Whether the hold is full.
pub fn is_cargo_full(ship: &Ship) -> (r: bool)
    ensures
        r == (ship.cargo.units >= ship.cargo.capacity),
{
    ship.cargo.units >= ship.cargo.capacity
}

/// The units of the first stack of the good, if the hold has one.
pub open spec fn first_stack(inv: Seq<CargoItem>, symbol: Seq<char>) -> Option<i32>
    decreases inv.len(),
{
    if inv.len() == 0 {
        None
    } else if inv[0].symbol@ == symbol {
        Some(inv[0].units)
    } else {
        first_stack(inv.drop_first(), symbol)
    }
}

fn stack_of(inv: &Vec<CargoItem>, symbol: &str) -> (r: Option<i32>)
    ensures
        r == first_stack(inv@, symbol@),
{
    let mut i: usize = 0;
    assert(inv@.skip(0) =~= inv@);
    while i < inv.len()
        invariant
            i <= inv@.len(),
            first_stack(inv@, symbol@) == first_stack(inv@.skip(i as int), symbol@),
        decreases inv@.len() - i,
    {
        assert(inv@.skip(i as int).drop_first() =~= inv@.skip(i + 1));
        if text_eq(inv[i].symbol.as_str(), symbol) {
            return Some(inv[i].units);
        }
        i = i + 1;
    }
    None
}

/// Units still owed on a delivery term.
pub open spec fn owed(d: Delivery) -> int {
    d.units_required - d.units_fulfilled
}

/// What the ship's hold counts toward a term: the first stack of its good, at most what is owed.
pub open spec fn counted_toward(inv: Seq<CargoItem>, d: Delivery) -> int {
    match first_stack(inv, d.trade_symbol@) {
        Some(u) => if u < owed(d) {
            u as int
        } else {
            owed(d)
        },
        None => 0,
    }
}

/// Units the hold counts toward the first `n` terms.
pub open spec fn counted_prefix(inv: Seq<CargoItem>, d: Seq<Delivery>, n: int) -> int
    decreases n,
{
    if n <= 0 || n > d.len() {
        0
    } else {
        counted_prefix(inv, d, n - 1) + counted_toward(inv, d[n - 1])
    }
}

/// Units owed over the first `n` terms.
pub open spec fn owed_prefix(d: Seq<Delivery>, n: int) -> int
    decreases n,
{
    if n <= 0 || n > d.len() {
        0
    } else {
        owed_prefix(d, n - 1) + owed(d[n - 1])
    }
}

/// The contract asks for the good.
pub open spec fn asked_for(c: Contract, symbol: Seq<char>) -> bool {
    exists|k: int| 0 <= k < c.terms.deliver@.len() && c.terms.deliver@[k].trade_symbol@ == symbol
}

/// The hold has a stack the contract asks for.
pub open spec fn has_reserved(inv: Seq<CargoItem>, c: Contract) -> bool {
    exists|i: int| 0 <= i < inv.len() && #[trigger] asked_for(c, inv[i].symbol@)
}

/// The hold has a stack the contract does not ask for.
pub open spec fn has_unreserved(inv: Seq<CargoItem>, c: Contract) -> bool {
    exists|i: int| 0 <= i < inv.len() && !#[trigger] asked_for(c, inv[i].symbol@)
}

/// The hold has a stack of some good the contract asks for.
pub open spec fn carries_contract_goods(s: Ship, c: Contract) -> bool {
    has_reserved(s.cargo.inventory@, c)
}

fn is_asked_for(contract: &Contract, symbol: &str) -> (r: bool)
    ensures
        r == asked_for(*contract, symbol@),
{
    let d = &contract.terms.deliver;
    let mut k: usize = 0;
    while k < d.len()
        invariant
            k <= d@.len(),
            d@ == contract.terms.deliver@,
            forall|j: int| 0 <= j < k ==> d@[j].trade_symbol@ != symbol@,
        decreases d@.len() - k,
    {
        if text_eq(d[k].trade_symbol.as_str(), symbol) {
            return true;
        }
        k = k + 1;
    }
    false
}

/// The ship should deliver: it carries contract goods, and its hold is at least nine tenths
/// full, or it carries all that is owed, or the contract goods fill three quarters of its hold.
pub open spec fn ready_to_deliver(s: Ship, c: Contract) -> bool {
    let d = c.terms.deliver@;
    let count = counted_prefix(s.cargo.inventory@, d, d.len() as int);
    let total = owed_prefix(d, d.len() as int);
    carries_contract_goods(s, c) && (ratio_at_least(s.cargo.units as int, s.cargo.capacity as int, 9, 10) || count
        >= total || ratio_at_least(count, s.cargo.capacity as int, 3, 4))
}

/// Every running total of owed units and of counted units fits in an `i32`, and so does each
/// term's owed units.
pub open spec fn delivery_counts_fit(s: Ship, c: Contract) -> bool {
    let d = c.terms.deliver@;
    &&& forall|k: int| 0 <= k < d.len() ==> i32::MIN <= #[trigger] owed(d[k]) <= i32::MAX
    &&& forall|n: int| 0 <= n <= d.len() ==> i32::MIN <= #[trigger] owed_prefix(d, n) <= i32::MAX
    &&& forall|n: int| 0 <= n <= d.len() ==> i32::MIN <= #[trigger] counted_prefix(s.cargo.inventory@, d, n) <= i32::MAX
}

fn carries_any(ship: &Ship, contract: &Contract) -> (r: bool)
    ensures
        r == carries_contract_goods(*ship, *contract),
{
    let inv = &ship.cargo.inventory;
    let mut i: usize = 0;
    while i < inv.len()
        invariant
            i <= inv@.len(),
            inv@ == ship.cargo.inventory@,
            forall|a: int| 0 <= a < i ==> !#[trigger] asked_for(*contract, inv@[a].symbol@),
        decreases inv@.len() - i,
    {
        if is_asked_for(contract, inv[i].symbol.as_str()) {
            return true;
        }
        i = i + 1;
    }
    false
}

/// Whether the ship should deliver (see [`ready_to_deliver`]).
pub fn should_deliver_cargo(ship: &Ship, contract: &Contract) -> (r: bool)
    requires
        delivery_counts_fit(*ship, *contract),
    ensures
        r == ready_to_deliver(*ship, *contract),
{
    if !carries_any(ship, contract) {
        return false;
    }
    let d = &contract.terms.deliver;
    let inv = &ship.cargo.inventory;
    let mut count: i32 = 0;
    let mut total: i32 = 0;
    let mut k: usize = 0;
    while k < d.len()
        invariant
            k <= d@.len(),
            d@ == contract.terms.deliver@,
            inv@ == ship.cargo.inventory@,
            delivery_counts_fit(*ship, *contract),
            count == counted_prefix(inv@, d@, k as int),
            total == owed_prefix(d@, k as int),
        decreases d@.len() - k,
    {
        assert(i32::MIN <= owed(d@[k as int]) <= i32::MAX);
        assert(i32::MIN <= owed_prefix(d@, k + 1) <= i32::MAX);
        assert(i32::MIN <= counted_prefix(inv@, d@, k + 1) <= i32::MAX);
        let remaining = d[k].units_required - d[k].units_fulfilled;
        total = total + remaining;
        match stack_of(inv, d[k].trade_symbol.as_str()) {
            Some(u) => {
                let c = if u < remaining {
                    u
                } else {
                    remaining
                };
                count = count + c;
            },
            None => {},
        }
        k = k + 1;
    }
    at_least(ship.cargo.units, ship.cargo.capacity, 9, 10) || count >= total || at_least(count, ship.cargo.capacity, 3, 4)
}

/// The task an idle ship is given.
#[derive(Clone, Copy, Debug, PartialEq, Eq)]
pub enum FleetTask {
    /// A probe without fuel tank: left alone.
    Skip,
    /// A probe that can move: explore.
    Explore,
    Refuel,
    Deliver,
    /// A full hold: sort out the cargo.
    ManageCargo,
    Mine,
    /// Ready to trade in support.
    Support,
    /// Nothing to do.
    Idle,
}

/// The task for an idle ship, in order of precedence: probes explore (or are left alone without
/// a tank); then refuelling, delivering, sorting out a full hold; then mining when the ship
/// mines and contributes enough to the contract (`worth_mining`); then support when it can
/// trade (`can_trade`).
pub open spec fn task_for(s: Ship, c: Contract, worth_mining: bool, can_trade: bool) -> FleetTask {
    if is_probe(s) {
        if s.fuel.capacity == 0 {
            FleetTask::Skip
        } else {
            FleetTask::Explore
        }
    } else if needs_fuel(s) {
        FleetTask::Refuel
    } else if ready_to_deliver(s, c) {
        FleetTask::Deliver
    } else if s.cargo.units >= s.cargo.capacity {
        FleetTask::ManageCargo
    } else if worth_mining {
        FleetTask::Mine
    } else if can_trade {
        FleetTask::Support
    } else {
        FleetTask::Idle
    }
}

/// The task for an idle ship (see [`task_for`]).
pub fn choose_task(ship: &Ship, contract: &Contract, worth_mining: bool, can_trade: bool) -> (r: FleetTask)
    requires
        delivery_counts_fit(*ship, *contract),
    ensures
        r == task_for(*ship, *contract, worth_mining, can_trade),
{
    if ship_is_probe(ship) {
        if ship.fuel.capacity == 0 {
            FleetTask::Skip
        } else {
            FleetTask::Explore
        }
    } else if needs_refuel(ship) {
        FleetTask::Refuel
    } else if should_deliver_cargo(ship, contract) {
        FleetTask::Deliver
    } else if is_cargo_full(ship) {
        FleetTask::ManageCargo
    } else if worth_mining {
        FleetTask::Mine
    } else if can_trade {
        FleetTask::Support
    } else {
        FleetTask::Idle
    }
}

/// The metal ores mined from common metal deposits.
pub open spec fn metal_ores() -> Seq<Seq<char>> {
    seq!["IRON_ORE"@, "COPPER_ORE"@, "ALUMINUM_ORE"@, "GOLD_ORE"@, "PLATINUM_ORE"@, "SILVER_ORE"@, "URANIUM_ORE"@,
        "TITANIUM_ORE"@, "ZINC_ORE"@]
}

/// The precious materials.
pub open spec fn precious_materials() -> Seq<Seq<char>> {
    seq!["PRECIOUS_STONES"@, "DIAMONDS"@, "RARE_EARTH_ELEMENTS"@]
}

/// The industrial minerals.
pub open spec fn industrial_minerals() -> Seq<Seq<char>> {
    seq!["QUARTZ_SAND"@, "SILICON_CRYSTALS"@, "CRYSTALLIZED_SULFUR"@, "SALT"@, "GRAPHITE"@, "LIMESTONE"@, "CLAY"@]
}

/// Some name of `list` occurs in `m`.
pub open spec fn mentions_any(m: Seq<char>, list: Seq<Seq<char>>) -> bool {
    exists|i: int| 0 <= i < list.len() && contains_text(m, list[i])
}

/// The deposit trait to mine for the materials: decided by the first material that mentions a
/// metal ore (common metal deposits), a precious material (precious metal deposits) or an
/// industrial mineral (mineral deposits); common metal deposits when none does.
pub open spec fn deposit_for(ms: Seq<Seq<char>>) -> Seq<char>
    decreases ms.len(),
{
    if ms.len() == 0 {
        "COMMON_METAL_DEPOSITS"@
    } else if mentions_any(ms[0], metal_ores()) {
        "COMMON_METAL_DEPOSITS"@
    } else if mentions_any(ms[0], precious_materials()) {
        "PRECIOUS_METAL_DEPOSITS"@
    } else if mentions_any(ms[0], industrial_minerals()) {
        "MINERAL_DEPOSITS"@
    } else {
        deposit_for(ms.drop_first())
    }
}

/// The deposit trait to mine for the needed materials (see [`deposit_for`]).
pub fn determine_needed_deposit_type(needed_materials: &[String]) -> (r: &'static str)
    ensures
        r@ == deposit_for(needed_materials@.map_values(|s: String| s@)),
{
    let metal: [&str; 9] = ["IRON_ORE", "COPPER_ORE", "ALUMINUM_ORE", "GOLD_ORE", "PLATINUM_ORE", "SILVER_ORE",
        "URANIUM_ORE", "TITANIUM_ORE", "ZINC_ORE"];
    let precious: [&str; 3] = ["PRECIOUS_STONES", "DIAMONDS", "RARE_EARTH_ELEMENTS"];
    let industrial: [&str; 7] = ["QUARTZ_SAND", "SILICON_CRYSTALS", "CRYSTALLIZED_SULFUR", "SALT", "GRAPHITE",
        "LIMESTONE", "CLAY"];
    proof {
        reveal_strlit("COMMON_METAL_DEPOSITS");
        reveal_strlit("PRECIOUS_METAL_DEPOSITS");
        reveal_strlit("MINERAL_DEPOSITS");
        assert(metal@.map_values(|g: &str| g@) =~= metal_ores());
        assert(precious@.map_values(|g: &str| g@) =~= precious_materials());
        assert(industrial@.map_values(|g: &str| g@) =~= industrial_minerals());
    }
    let ghost ms = needed_materials@.map_values(|s: String| s@);
    let mut i: usize = 0;
    assert(ms.skip(0) =~= ms);
    while i < needed_materials.len()
        invariant
            i <= needed_materials@.len(),
            ms == needed_materials@.map_values(|s: String| s@),
            deposit_for(ms) == deposit_for(ms.skip(i as int)),
            metal@.map_values(|g: &str| g@) == metal_ores(),
            precious@.map_values(|g: &str| g@) == precious_materials(),
            industrial@.map_values(|g: &str| g@) == industrial_minerals(),
        decreases needed_materials@.len() - i,
    {
        let m = needed_materials[i].as_str();
        let ghost rest = ms.skip(i as int);
        assert(rest[0] == m@);
        assert(rest.drop_first() =~= ms.skip(i + 1));
        let is_metal = contains_any_of(m, &metal);
        proof {
            if is_metal {
                let j = choose|j: int| 0 <= j < metal@.len() && contains_text(m@, metal@[j]@);
                assert(metal_ores()[j] == metal@[j]@);
            }
            if mentions_any(m@, metal_ores()) {
                let j = choose|j: int| 0 <= j < metal_ores().len() && contains_text(m@, metal_ores()[j]);
                assert(metal@[j]@ == metal_ores()[j]);
            }
        }
        if is_metal {
            return "COMMON_METAL_DEPOSITS";
        }
        let is_precious = contains_any_of(m, &precious);
        proof {
            if is_precious {
                let j = choose|j: int| 0 <= j < precious@.len() && contains_text(m@, precious@[j]@);
                assert(precious_materials()[j] == precious@[j]@);
            }
            if mentions_any(m@, precious_materials()) {
                let j = choose|j: int| 0 <= j < precious_materials().len() && contains_text(m@, precious_materials()[j]);
                assert(precious@[j]@ == precious_materials()[j]);
            }
        }
        if is_precious {
            return "PRECIOUS_METAL_DEPOSITS";
        }
        let is_industrial = contains_any_of(m, &industrial);
        proof {
            if is_industrial {
                let j = choose|j: int| 0 <= j < industrial@.len() && contains_text(m@, industrial@[j]@);
                assert(industrial_minerals()[j] == industrial@[j]@);
            }
            if mentions_any(m@, industrial_minerals()) {
                let j = choose|j: int| 0 <= j < industrial_minerals().len() && contains_text(m@, industrial_minerals()[j]);
                assert(industrial@[j]@ == industrial_minerals()[j]);
            }
        }
        if is_industrial {
            return "MINERAL_DEPOSITS";
        }
        i = i + 1;
    }
    "COMMON_METAL_DEPOSITS"
}

/// How much the coordinator likes mining at a waypoint: 100 for an engineered asteroid, 1000
/// for a marketplace, 200 for a fuel station, less 10 for explosive gases.
pub open spec fn mining_preference(w: Waypoint) -> int {
    (if w.waypoint_type@ == "ENGINEERED_ASTEROID"@ {
        100int
    } else {
        0int
    }) + (if waypoint_has_trait(w, "MARKETPLACE"@) {
        1000int
    } else {
        0int
    }) + (if waypoint_has_trait(w, "FUEL_STATION"@) {
        200int
    } else {
        0int
    }) - (if waypoint_has_trait(w, "EXPLOSIVE_GASES"@) {
        10int
    } else {
        0int
    })
}

/// How much the coordinator likes mining at the waypoint (see [`mining_preference`]).
pub fn calculate_mining_preference_score(waypoint: &Waypoint) -> (r: i32)
    ensures
        r == mining_preference(*waypoint),
{
    let mut score: i32 = 0;
    if text_eq(waypoint.waypoint_type.as_str(), "ENGINEERED_ASTEROID") {
        score = score + 100;
    }
    if has_trait(waypoint, "MARKETPLACE") {
        score = score + 1000;
    }
    if has_trait(waypoint, "FUEL_STATION") {
        score = score + 200;
    }
    if has_trait(waypoint, "EXPLOSIVE_GASES") {
        score = score - 10;
    }
    score
}

/// The waypoint is an asteroid (plain or engineered) with the deposit trait.
pub open spec fn minable_for(w: Waypoint, deposit: Seq<char>) -> bool {
    (w.waypoint_type@ == "ASTEROID"@ || w.waypoint_type@ == "ENGINEERED_ASTEROID"@) && waypoint_has_trait(w, deposit)
}

/// The asteroids with the deposit trait, in order.
pub fn suitable_asteroids<'b>(waypoints: &'b [Waypoint], deposit: &str) -> (r: Vec<&'b Waypoint>)
    ensures
        r@.map_values(|w: &Waypoint| *w) == waypoints@.filter(|w: Waypoint| minable_for(w, deposit@)),
{
    let mut r: Vec<&'b Waypoint> = Vec::new();
    let mut i: usize = 0;
    while i < waypoints.len()
        invariant
            i <= waypoints@.len(),
            r@.map_values(|w: &Waypoint| *w) == waypoints@.take(i as int).filter(|w: Waypoint| minable_for(w, deposit@)),
        decreases waypoints@.len() - i,
    {
        proof {
            lemma_filter_step(waypoints@, |w: Waypoint| minable_for(w, deposit@), i as int);
        }
        let w = &waypoints[i];
        if (text_eq(w.waypoint_type.as_str(), "ASTEROID") || text_eq(w.waypoint_type.as_str(), "ENGINEERED_ASTEROID"))
            && has_trait(w, deposit) {
            r.push(w);
        }
        assert(r@.map_values(|w: &Waypoint| *w) =~= waypoints@.take(i + 1).filter(|w: Waypoint| minable_for(w, deposit@)));
        i = i + 1;
    }
    assert(waypoints@.take(i as int) =~= waypoints@);
    r
}

/// `i` is the first waypoint of greatest preference.
pub open spec fn is_preferred(ws: Seq<Waypoint>, i: int) -> bool {
    &&& 0 <= i < ws.len()
    &&& forall|j: int| 0 <= j < ws.len() ==> mining_preference(#[trigger] ws[j]) <= mining_preference(ws[i])
    &&& forall|j: int| 0 <= j < i ==> mining_preference(#[trigger] ws[j]) < mining_preference(ws[i])
}

/// Where to mine among the reachable asteroids: the first of greatest preference.
pub fn best_mining_target(asteroids: &[&Waypoint]) -> (r: Option<usize>)
    ensures
        r matches Some(i) ==> is_preferred(asteroids@.map_values(|w: &Waypoint| *w), i as int),
        r is None <==> asteroids@.len() == 0,
{
    let ghost ws = asteroids@.map_values(|w: &Waypoint| *w);
    if asteroids.len() == 0 {
        return None;
    }
    let mut best: usize = 0;
    let mut best_score = calculate_mining_preference_score(asteroids[0]);
    let mut i: usize = 1;
    while i < asteroids.len()
        invariant
            1 <= i <= asteroids@.len(),
            ws == asteroids@.map_values(|w: &Waypoint| *w),
            best < i,
            best_score == mining_preference(ws[best as int]),
            forall|j: int| 0 <= j < i ==> mining_preference(#[trigger] ws[j]) <= best_score,
            forall|j: int| 0 <= j < best ==> mining_preference(#[trigger] ws[j]) < best_score,
        decreases asteroids@.len() - i,
    {
        let s = calculate_mining_preference_score(asteroids[i]);
        if s > best_score {
            best = i;
            best_score = s;
        }
        i = i + 1;
    }
    Some(best)
}

/// A delivery the ship makes for the contract.
#[derive(Clone, Debug)]
pub struct DeliveryTask {
    pub destination: String,
    pub trade_symbol: String,
    pub units: i32,
    /// The ship is elsewhere and navigates to the destination first.
    pub navigate_first: bool,
}

/// What the hold delivers toward the term: its first stack of the good, at most what is owed;
/// `None` when it has none of the good.
pub open spec fn deliverable(inv: Seq<CargoItem>, d: Delivery) -> Option<int> {
    match first_stack(inv, d.trade_symbol@) {
        Some(u) => Some(
            if u < owed(d) {
                u as int
            } else {
                owed(d)
            },
        ),
        None => None,
    }
}

/// Term `k` is the first the ship can deliver a positive amount toward.
pub open spec fn first_deliverable_term(s: Ship, d: Seq<Delivery>, k: int) -> bool {
    &&& 0 <= k < d.len()
    &&& deliverable(s.cargo.inventory@, d[k]) matches Some(n) && n > 0
    &&& forall|j: int| 0 <= j < k ==> !(deliverable(s.cargo.inventory@, #[trigger] d[j]) matches Some(n) && n > 0)
}

/// The delivery the ship makes: toward the first term it can deliver a positive amount toward,
/// that amount, navigating first when it is elsewhere; `None` when it can deliver toward none.
pub fn delivery_task(ship: &Ship, contract: &Contract) -> (r: Option<DeliveryTask>)
    requires
        forall|k: int| 0 <= k < contract.terms.deliver@.len() ==> i32::MIN <= #[trigger] owed(contract.terms.deliver@[k])
            <= i32::MAX,
    ensures
        r matches Some(t) ==> exists|k: int| {
            &&& first_deliverable_term(*ship, contract.terms.deliver@, k)
            &&& deliverable(ship.cargo.inventory@, contract.terms.deliver@[k]) == Some(t.units as int)
            &&& t.trade_symbol@ == contract.terms.deliver@[k].trade_symbol@
            &&& t.destination@ == contract.terms.deliver@[k].destination_symbol@
            &&& t.navigate_first == (ship.nav.waypoint_symbol@ != contract.terms.deliver@[k].destination_symbol@)
        },
        r is None ==> forall|j: int| 0 <= j < contract.terms.deliver@.len() ==> !(deliverable(
            ship.cargo.inventory@,
            #[trigger] contract.terms.deliver@[j],
        ) matches Some(n) && n > 0),
{
    let d = &contract.terms.deliver;
    let mut k: usize = 0;
    while k < d.len()
        invariant
            k <= d@.len(),
            d@ == contract.terms.deliver@,
            forall|k: int| 0 <= k < d@.len() ==> i32::MIN <= #[trigger] owed(d@[k]) <= i32::MAX,
            forall|j: int| 0 <= j < k ==> !(deliverable(ship.cargo.inventory@, #[trigger] d@[j]) matches Some(n) && n > 0),
        decreases d@.len() - k,
    {
        assert(i32::MIN <= owed(d@[k as int]) <= i32::MAX);
        match stack_of(&ship.cargo.inventory, d[k].trade_symbol.as_str()) {
            Some(u) => {
                let remaining = d[k].units_required - d[k].units_fulfilled;
                let n = if u < remaining {
                    u
                } else {
                    remaining
                };
                if n > 0 {
                    let navigate_first = !text_eq(ship.nav.waypoint_symbol.as_str(), d[k].destination_symbol.as_str());
                    assert(first_deliverable_term(*ship, d@, k as int));
                    return Some(
                        DeliveryTask {
                            destination: d[k].destination_symbol.clone(),
                            trade_symbol: d[k].trade_symbol.clone(),
                            units: n,
                            navigate_first,
                        },
                    );
                }
            },
            None => {},
        }
        k = k + 1;
    }
    None
}

/// What to do with a full hold.
#[derive(Clone, Copy, Debug, PartialEq, Eq)]
pub enum CargoPlan {
    Deliver,
    /// Sell the goods the contract does not ask for, or jettison them.
    SellOrJettison,
    /// Nothing on board: go back to mining.
    Mine,
}

/// What to do with a full hold: deliver when it holds contract goods and should deliver; else
/// sell or jettison the other goods when there are any; else deliver the contract goods; else
/// mine.
pub fn plan_cargo_management(ship: &Ship, contract: &Contract) -> (r: CargoPlan)
    requires
        delivery_counts_fit(*ship, *contract),
    ensures
        r == (if has_reserved(ship.cargo.inventory@, *contract) && ready_to_deliver(*ship, *contract) {
            CargoPlan::Deliver
        } else if has_unreserved(ship.cargo.inventory@, *contract) {
            CargoPlan::SellOrJettison
        } else if has_reserved(ship.cargo.inventory@, *contract) {
            CargoPlan::Deliver
        } else {
            CargoPlan::Mine
        }),
{
    let inv = &ship.cargo.inventory;
    let mut reserved = false;
    let mut unreserved = false;
    let mut i: usize = 0;
    while i < inv.len()
        invariant
            i <= inv@.len(),
            inv@ == ship.cargo.inventory@,
            reserved == exists|a: int| 0 <= a < i && #[trigger] asked_for(*contract, inv@[a].symbol@),
            unreserved == exists|a: int| 0 <= a < i && !#[trigger] asked_for(*contract, inv@[a].symbol@),
        decreases inv@.len() - i,
    {
        if is_asked_for(contract, inv[i].symbol.as_str()) {
            reserved = true;
        } else {
            unreserved = true;
        }
        i = i + 1;
    }
    if reserved && should_deliver_cargo(ship, contract) {
        CargoPlan::Deliver
    } else if unreserved {
        CargoPlan::SellOrJettison
    } else if reserved {
        CargoPlan::Deliver
    } else {
        CargoPlan::Mine
    }
}

/// How many of the goods the market buys.
pub open spec fn compatibility(m: Market, goods: Seq<CargoItem>, n: int) -> int
    decreases n,
{
    if n <= 0 || n > goods.len() {
        0
    } else {
        compatibility(m, goods, n - 1) + if accepts(m, goods[n - 1].symbol@) {
            1int
        } else {
            0int
        }
    }
}

/// The score of a market read (or not) for the goods: how many it buys, 0 when unread.
pub open spec fn market_score(m: Option<Market>, goods: Seq<CargoItem>) -> int {
    match m {
        Some(m) => compatibility(m, goods, goods.len() as int),
        None => 0,
    }
}

/// `i` is the first market that buys the most of the goods, and it buys some.
pub open spec fn is_best_market(ms: Seq<Option<Market>>, goods: Seq<CargoItem>, i: int) -> bool {
    &&& 0 <= i < ms.len()
    &&& market_score(ms[i], goods) > 0
    &&& forall|j: int| 0 <= j < ms.len() ==> market_score(#[trigger] ms[j], goods) <= market_score(ms[i], goods)
    &&& forall|j: int| 0 <= j < i ==> market_score(#[trigger] ms[j], goods) < market_score(ms[i], goods)
}

proof fn lemma_compatibility_bounds(m: Market, goods: Seq<CargoItem>, n: int)
    requires
        0 <= n <= goods.len(),
    ensures
        0 <= compatibility(m, goods, n) <= n,
    decreases n,
{
    if n > 0 {
        lemma_compatibility_bounds(m, goods, n - 1);
    }
}

fn score_market(market: &Market, goods: &[&CargoItem]) -> (r: usize)
    ensures
        r == compatibility(*market, goods@.map_values(|g: &CargoItem| *g), goods@.len() as int),
{
    let ghost gs = goods@.map_values(|g: &CargoItem| *g);
    let trading = TradingOperations::new();
    let mut score: usize = 0;
    let mut i: usize = 0;
    while i < goods.len()
        invariant
            i <= goods@.len(),
            gs == goods@.map_values(|g: &CargoItem| *g),
            score == compatibility(*market, gs, i as int),
        decreases goods@.len() - i,
    {
        proof {
            lemma_compatibility_bounds(*market, gs, i as int);
        }
        if trading.market_accepts_trade(market, goods[i].symbol.as_str()) {
            score = score + 1;
        }
        i = i + 1;
    }
    score
}

/// Where to sell the goods: of the markets read (`None` where a market could not be read), the
/// first that buys the most of them, when it buys any.
pub fn best_market_for_cargo(markets: &[Option<Market>], goods: &[&CargoItem]) -> (r: Option<usize>)
    ensures
        r matches Some(i) ==> is_best_market(markets@, goods@.map_values(|g: &CargoItem| *g), i as int),
        r is None ==> forall|j: int| 0 <= j < markets@.len() ==> market_score(
            #[trigger] markets@[j],
            goods@.map_values(|g: &CargoItem| *g),
        ) == 0,
{
    let ghost gs = goods@.map_values(|g: &CargoItem| *g);
    let mut best: Option<usize> = None;
    let mut best_score: usize = 0;
    let mut i: usize = 0;
    while i < markets.len()
        invariant
            i <= markets@.len(),
            gs == goods@.map_values(|g: &CargoItem| *g),
            forall|j: int| 0 <= j < i ==> market_score(#[trigger] markets@[j], gs) <= best_score,
            forall|j: int| 0 <= j < i ==> 0 <= market_score(#[trigger] markets@[j], gs),
            match best {
                Some(b) => b < i && best_score == market_score(markets@[b as int], gs) && best_score > 0 && forall|j: int|
                    0 <= j < b ==> market_score(#[trigger] markets@[j], gs) < best_score,
                None => best_score == 0,
            },
        decreases markets@.len() - i,
    {
        let s: usize = match &markets[i] {
            Some(m) => score_market(m, goods),
            None => 0,
        };
        proof {
            match markets@[i as int] {
                Some(m) => {
                    lemma_compatibility_bounds(m, gs, gs.len() as int);
                },
                None => {},
            }
        }
        if s > best_score {
            best_score = s;
            best = Some(i);
        }
        i = i + 1;
    }
    best
}

/// The waypoint has a trait named in `traits`.
pub open spec fn has_any_trait(w: Waypoint, traits: Seq<Seq<char>>) -> bool {
    exists|i: int| 0 <= i < w.traits@.len() && traits.contains(w.traits@[i].symbol@)
}

fn any_trait_of(w: &Waypoint, traits: &[&str]) -> (r: bool)
    ensures
        r == has_any_trait(*w, traits@.map_values(|t: &str| t@)),
{
    let ghost ts = traits@.map_values(|t: &str| t@);
    let mut i: usize = 0;
    while i < w.traits.len()
        invariant
            i <= w.traits@.len(),
            ts == traits@.map_values(|t: &str| t@),
            forall|j: int| 0 <= j < i ==> !ts.contains(#[trigger] w.traits@[j].symbol@),
        decreases w.traits@.len() - i,
    {
        let found = is_one_of(w.traits[i].symbol.as_str(), traits);
        proof {
            if found {
                let k = choose|k: int| 0 <= k < traits@.len() && traits@[k]@ == w.traits@[i as int].symbol@;
                assert(ts[k] == w.traits@[i as int].symbol@);
            }
            if ts.contains(w.traits@[i as int].symbol@) {
                let k = choose|k: int| 0 <= k < ts.len() && ts[k] == w.traits@[i as int].symbol@;
                assert(traits@[k]@ == w.traits@[i as int].symbol@);
            }
        }
        if found {
            return true;
        }
        i = i + 1;
    }
    false
}

/// The waypoint closest to (`x`, `y`) with any of the traits, the first among equally close
/// ones. Distances are compared squared and exactly.
pub fn nearest_with_traits<'b>(waypoints: &'b [Waypoint], traits: &[&str], x: i32, y: i32) -> (r: Option<&'b Waypoint>)
    ensures
        nearest_in(
            waypoints@.filter(|w: Waypoint| has_any_trait(w, traits@.map_values(|t: &str| t@))),
            x as int,
            y as int,
            match r {
                Some(w) => Some(*w),
                None => None,
            },
        ),
{
    let ghost ts = traits@.map_values(|t: &str| t@);
    let mut cands: Vec<&'b Waypoint> = Vec::new();
    let mut i: usize = 0;
    while i < waypoints.len()
        invariant
            i <= waypoints@.len(),
            ts == traits@.map_values(|t: &str| t@),
            cands@.map_values(|w: &Waypoint| *w) == waypoints@.take(i as int).filter(|w: Waypoint| has_any_trait(w, ts)),
        decreases waypoints@.len() - i,
    {
        proof {
            lemma_filter_step(waypoints@, |w: Waypoint| has_any_trait(w, ts), i as int);
        }
        if any_trait_of(&waypoints[i], traits) {
            cands.push(&waypoints[i]);
        }
        assert(cands@.map_values(|w: &Waypoint| *w) =~= waypoints@.take(i + 1).filter(|w: Waypoint| has_any_trait(w, ts)));
        i = i + 1;
    }
    assert(waypoints@.take(i as int) =~= waypoints@);
    nearest_waypoint(&cands, x, y)
}

/// The waypoints having the trait, in order.
pub open spec fn having_trait(ws: Seq<Waypoint>, t: Seq<char>) -> Seq<Waypoint> {
    ws.filter(|w: Waypoint| waypoint_has_trait(w, t))
}

/// The waypoint closest to (`x`, `y`) with the first of the traits that any waypoint has, the
/// first among equally close ones; `None` when no waypoint has any of them.
pub fn nearest_by_trait_order<'b>(waypoints: &'b [Waypoint], traits: &[&str], x: i32, y: i32) -> (r: Option<&'b Waypoint>)
    ensures
        r matches Some(w) ==> exists|k: int|
            0 <= k < traits@.len() && nearest_in(
                having_trait(waypoints@, traits@[k]@),
                x as int,
                y as int,
                Some(*w),
            ) && forall|j: int|
                0 <= j < k ==> #[trigger] having_trait(waypoints@, traits@[j]@).len() == 0,
        r is None ==> forall|j: int|
            0 <= j < traits@.len() ==> #[trigger] having_trait(waypoints@, traits@[j]@).len() == 0,
{
    let mut k: usize = 0;
    while k < traits.len()
        invariant
            k <= traits@.len(),
            forall|j: int|
                0 <= j < k ==> #[trigger] having_trait(waypoints@, traits@[j]@).len() == 0,
        decreases traits@.len() - k,
    {
        let t = traits[k];
        let mut cands: Vec<&'b Waypoint> = Vec::new();
        let mut i: usize = 0;
        while i < waypoints.len()
            invariant
                i <= waypoints@.len(),
                t@ == traits@[k as int]@,
                cands@.map_values(|w: &Waypoint| *w) == waypoints@.take(i as int).filter(|w: Waypoint| waypoint_has_trait(w, t@)),
            decreases waypoints@.len() - i,
        {
            proof {
                lemma_filter_step(waypoints@, |w: Waypoint| waypoint_has_trait(w, t@), i as int);
            }
            if has_trait(&waypoints[i], t) {
                cands.push(&waypoints[i]);
            }
            assert(cands@.map_values(|w: &Waypoint| *w) =~= waypoints@.take(i + 1).filter(
                |w: Waypoint| waypoint_has_trait(w, t@),
            ));
            i = i + 1;
        }
        assert(waypoints@.take(i as int) =~= waypoints@);
        match nearest_waypoint(&cands, x, y) {
            Some(w) => {
                return Some(w);
            },
            None => {},
        }
        k = k + 1;
    }
    None
}

/// The mining ships of the fleet: those with a mount mentioning mining.
pub open spec fn mines(s: Ship) -> bool {
    exists|i: int| 0 <= i < s.mounts@.len() && contains_text(s.mounts@[i].symbol@, "MINING"@)
}

fn ship_mines(s: &Ship) -> (r: bool)
    ensures
        r == mines(*s),
{
    let mut i: usize = 0;
    while i < s.mounts.len()
        invariant
            i <= s.mounts@.len(),
            forall|j: int| 0 <= j < i ==> !contains_text(#[trigger] s.mounts@[j].symbol@, "MINING"@),
        decreases s.mounts@.len() - i,
    {
        if has_text(s.mounts[i].symbol.as_str(), "MINING") {
            return true;
        }
        i = i + 1;
    }
    false
}

/// Whether the fleet should grow: at least 150000 credits, a contract of 30 units or more or
/// paying 10000 or more on fulfilment, fewer than four mining ships, and a fulfilment payment
/// over 10000.
pub fn should_expand_fleet(credits: i64, ships: &[Ship], contract: &Contract) -> (r: bool)
    requires
        required_sums_fit(*contract),
    ensures
        r == (credits >= 150000 && (total_required(*contract) >= 30 || contract.terms.payment.on_fulfilled >= 10000)
            && ships@.filter(|s: Ship| mines(s)).len() < 4 && contract.terms.payment.on_fulfilled > 10000),
{
    let mut miners: usize = 0;
    let mut i: usize = 0;
    while i < ships.len()
        invariant
            i <= ships@.len(),
            miners == ships@.take(i as int).filter(|s: Ship| mines(s)).len(),
            miners <= i,
        decreases ships@.len() - i,
    {
        proof {
            lemma_filter_step(ships@, |s: Ship| mines(s), i as int);
        }
        if ship_mines(&ships[i]) {
            miners = miners + 1;
        }
        i = i + 1;
    }
    assert(ships@.take(i as int) =~= ships@);
    let units = required_units(contract);
    let value = contract.terms.payment.on_fulfilled;
    credits >= 150000 && (units >= 30 || value >= 10000) && miners < 4 && value > 10000
}

/// Probes are left out of fuel management: a probe never needs fuel.
pub proof fn law_probes_never_need_fuel(s: Ship)
    requires
        is_probe(s),
    ensures
        !needs_fuel(s),
{
}

/// Where a refuel heads, by the cache: the nearest fuel station when there is one, else the
/// nearest marketplace.
pub open spec fn cached_fuel_stop(station: Option<Waypoint>, market: Option<Waypoint>) -> Option<Seq<char>> {
    match station {
        Some(w) => Some(w.symbol@),
        None => match market {
            Some(w) => Some(w.symbol@),
            None => None,
        },
    }
}

/// The text of an optional string.
pub open spec fn opt_text(r: Option<String>) -> Option<Seq<char>> {
    match r {
        Some(s) => Some(s@),
        None => None,
    }
}

/// The nearest fresh cached fuel station of `system_symbol` at `now` seen from
/// (`from_x`, `from_y`), else the nearest fresh cached marketplace.
pub fn find_nearest_fuel_station_cached_at(cache: &SurveyCache, system_symbol: &str, from_x: i32, from_y: i32, now: i64) -> (r:
    Option<String>)
    requires
        cache.wf(),
    ensures
        exists|station: Option<Waypoint>, market: Option<Waypoint>|
            #![trigger cached_fuel_stop(station, market)]
            nearest_in(
                with_trait(fresh_waypoints(cache.scans(), cache.duration_hours(), system_symbol@, now as int), "FUEL_STATION"@),
                from_x as int,
                from_y as int,
                station,
            ) && nearest_in(
                with_trait(fresh_waypoints(cache.scans(), cache.duration_hours(), system_symbol@, now as int), "MARKETPLACE"@),
                from_x as int,
                from_y as int,
                market,
            ) && opt_text(r) == cached_fuel_stop(station, market),
{
    let station = cache.find_nearest_waypoint_with_trait_at(system_symbol, "FUEL_STATION", from_x, from_y, now);
    let market = cache.find_nearest_waypoint_with_trait_at(system_symbol, "MARKETPLACE", from_x, from_y, now);
    let ghost s = match station {
        Some(w) => Some(*w),
        None => None,
    };
    let ghost m = match market {
        Some(w) => Some(*w),
        None => None,
    };
    let r = match station {
        Some(w) => Some(w.symbol.clone()),
        None => match market {
            Some(w) => Some(w.symbol.clone()),
            None => None,
        },
    };
    assert(opt_text(r) == cached_fuel_stop(s, m));
    r
}

/// The nearest fresh cached fuel station of `system_symbol` now, seen from
/// (`from_x`, `from_y`), else the nearest fresh cached marketplace.
pub fn find_nearest_fuel_station_cached(cache: &SurveyCache, system_symbol: &str, from_x: i32, from_y: i32) -> (r: Option<String>)
    requires
        cache.wf(),
    ensures
        exists|now: i64, station: Option<Waypoint>, market: Option<Waypoint>|
            #![trigger scan_at_clock(cache.scans(), cache.duration_hours(), system_symbol@, now), cached_fuel_stop(station, market)]
            nearest_in(
                with_trait(scan_at_clock(cache.scans(), cache.duration_hours(), system_symbol@, now), "FUEL_STATION"@),
                from_x as int,
                from_y as int,
                station,
            ) && nearest_in(
                with_trait(scan_at_clock(cache.scans(), cache.duration_hours(), system_symbol@, now), "MARKETPLACE"@),
                from_x as int,
                from_y as int,
                market,
            ) && opt_text(r) == cached_fuel_stop(station, market),
{
    let now = now_millis();
    let r = find_nearest_fuel_station_cached_at(cache, system_symbol, from_x, from_y, now);
    assert(scan_at_clock(cache.scans(), cache.duration_hours(), system_symbol@, now) == fresh_waypoints(
        cache.scans(),
        cache.duration_hours(),
        system_symbol@,
        now as int,
    ));
    r
}

/// When a ship should deliver: never when its hold has no stack the contract asks for; always
/// when it has one and the hold is at least nine tenths full (of a positive capacity), or the
/// contract goods it holds (each counted up to what is still owed of it) cover all that is owed,
/// or fill three quarters of the hold.
pub proof fn law_delivery_readiness(s: Ship, c: Contract, i: int, k: int)
    ensures
        !(exists|x: int, y: int| 0 <= x < s.cargo.inventory@.len() && 0 <= y < c.terms.deliver@.len()
            && #[trigger] s.cargo.inventory@[x].symbol@ == #[trigger] c.terms.deliver@[y].trade_symbol@)
            ==> !ready_to_deliver(s, c),
        0 <= i < s.cargo.inventory@.len() && 0 <= k < c.terms.deliver@.len()
            && s.cargo.inventory@[i].symbol@ == c.terms.deliver@[k].trade_symbol@ ==> {
            let d = c.terms.deliver@;
            let count = counted_prefix(s.cargo.inventory@, d, d.len() as int);
            &&& s.cargo.capacity > 0 && 10 * s.cargo.units >= 9 * s.cargo.capacity ==> ready_to_deliver(s, c)
            &&& count >= owed_prefix(d, d.len() as int) ==> ready_to_deliver(s, c)
            &&& s.cargo.capacity > 0 && 4 * count >= 3 * s.cargo.capacity ==> ready_to_deliver(s, c)
        },
{
    if 0 <= i < s.cargo.inventory@.len() && 0 <= k < c.terms.deliver@.len()
        && s.cargo.inventory@[i].symbol@ == c.terms.deliver@[k].trade_symbol@ {
        assert(asked_for(c, s.cargo.inventory@[i].symbol@));
        assert(carries_contract_goods(s, c));
    }
    if ready_to_deliver(s, c) {
        let x = choose|x: int| 0 <= x < s.cargo.inventory@.len() && #[trigger] asked_for(c, s.cargo.inventory@[x].symbol@);
        let y = choose|y: int| 0 <= y < c.terms.deliver@.len() && c.terms.deliver@[y].trade_symbol@ == s.cargo.inventory@[x].symbol@;
        assert(s.cargo.inventory@[x].symbol@ == c.terms.deliver@[y].trade_symbol@);
    }
}

/// The order in which an idle ship's needs are met: a probe explores (or, without a tank, is
/// left alone) whatever else holds; a ship low on fuel refuels; else a ship that should deliver
/// delivers, however full its hold; else a full hold is sorted out before mining or trading.
pub proof fn law_task_precedence(s: Ship, c: Contract, worth_mining: bool, can_trade: bool)
    ensures
        is_probe(s) ==> (task_for(s, c, worth_mining, can_trade) == FleetTask::Skip
            || task_for(s, c, worth_mining, can_trade) == FleetTask::Explore),
        is_probe(s) && s.fuel.capacity == 0 ==> task_for(s, c, worth_mining, can_trade) == FleetTask::Skip,
        !is_probe(s) && needs_fuel(s) ==> task_for(s, c, worth_mining, can_trade) == FleetTask::Refuel,
        !is_probe(s) && !needs_fuel(s) && ready_to_deliver(s, c) ==> task_for(s, c, worth_mining, can_trade)
            == FleetTask::Deliver,
        !is_probe(s) && !needs_fuel(s) && !ready_to_deliver(s, c) && s.cargo.units >= s.cargo.capacity
            ==> task_for(s, c, worth_mining, can_trade) == FleetTask::ManageCargo,
        task_for(s, c, worth_mining, can_trade) == FleetTask::Mine ==> worth_mining && !ready_to_deliver(s, c)
            && s.cargo.units < s.cargo.capacity,
        task_for(s, c, worth_mining, can_trade) == FleetTask::Deliver ==> ready_to_deliver(s, c),
{
}

} // verus!
