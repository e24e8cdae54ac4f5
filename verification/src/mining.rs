//! Survey-guided mining: which surveys and asteroid fields serve a contract, and how far the
//! mining fleet has come.
use vstd::prelude::*;
use crate::model::{Contract, Delivery, Survey, same_survey, Ship, Waypoint, CargoItem, is_listed, required_prefix, total_required,
    listed_units, listed_units_prefix, find_ship, first_ship_with_symbol};
use crate::fleet::mining_readiness;
use crate::text::{contains_text, lowercase, to_lowercase, has_text, list_contains, text_eq, occurs_at};

verus! {

/// The survey found a deposit of one of the needed materials.
pub open spec fn survey_has_needed(s: Survey, needed: Seq<String>) -> bool {
    exists|k: int| 0 <= k < s.deposits@.len() && is_listed(needed, s.deposits@[k].symbol@)
}

/// The asteroid fields among the waypoints, in order.
pub open spec fn asteroid_fields(ws: Seq<Waypoint>) -> Seq<Waypoint> {
    ws.filter(|w: Waypoint| w.waypoint_type@ == "ASTEROID_FIELD"@)
}

/// Ranking by score for the needed materials, position `i` of `c` comes before position `j`:
/// it scores more, or as much and is earlier in `c`.
pub open spec fn scores_before(c: Seq<Waypoint>, needed: Seq<String>, i: int, j: int) -> bool {
    let si = asteroid_score(c[i], needed);
    let sj = asteroid_score(c[j], needed);
    si > sj || (si == sj && i < j)
}

/// `order` lists every position of `c` once, best scoring first, equally scored ones in their
/// order in `c`.
pub open spec fn score_ranking(c: Seq<Waypoint>, needed: Seq<String>, order: Seq<int>) -> bool {
    &&& order.len() == c.len()
    &&& forall|k: int| 0 <= k < order.len() ==> 0 <= #[trigger] order[k] < c.len()
    &&& forall|a: int, b: int| 0 <= a < b < order.len() ==> scores_before(c, needed, #[trigger] order[a], #[trigger] order[b])
}

/// `r` holds the waypoints of `c`, best scoring first for the needed materials, equally scored
/// ones in their order in `c`.
pub open spec fn ranked_by_score(c: Seq<Waypoint>, needed: Seq<String>, r: Seq<Waypoint>) -> bool {
    exists|order: Seq<int>|
        #[trigger] score_ranking(c, needed, order) && r.len() == c.len() && forall|k: int| 0 <= k < r.len() ==> r[k] == c[order[k]]
}

/// `i` is the first survey of `surveys` that found a needed material.
pub open spec fn first_useful_survey(surveys: Seq<Survey>, needed: Seq<String>, i: int) -> bool {
    &&& 0 <= i < surveys.len()
    &&& survey_has_needed(surveys[i], needed)
    &&& forall|j: int| 0 <= j < i ==> !survey_has_needed(surveys[j], needed)
}

/// Score of one waypoint trait for the needed materials.
pub open spec fn trait_score(description: Seq<char>, name: Seq<char>, needed: Seq<String>) -> int {
    let d = lowercase(description);
    let n = lowercase(name);
    (if is_listed(needed, "ALUMINUM_ORE"@) && (contains_text(d, "aluminum"@) || contains_text(d, "metal ore"@)
        || contains_text(n, "mineral"@) || contains_text(n, "rich"@)) {
        100int
    } else {
        0int
    }) + (if contains_text(d, "mineral"@) || contains_text(d, "ore"@) || contains_text(d, "metal"@) {
        50int
    } else {
        0int
    }) + material_matches(d, n, needed, needed.len() as int) * 75
}

/// How many of the first `m` needed materials appear, lowercased, in the description or name.
pub open spec fn material_matches(d: Seq<char>, n: Seq<char>, needed: Seq<String>, m: int) -> int
    decreases m,
{
    if m <= 0 || m > needed.len() {
        0
    } else {
        material_matches(d, n, needed, m - 1) + if contains_text(d, lowercase(needed[m - 1]@))
            || contains_text(n, lowercase(needed[m - 1]@)) {
            1int
        } else {
            0int
        }
    }
}

/// Score of the first `k` traits of an asteroid field.
pub open spec fn asteroid_score_prefix(w: Waypoint, needed: Seq<String>, k: int) -> int
    decreases k,
{
    if k <= 0 || k > w.traits@.len() {
        0
    } else {
        asteroid_score_prefix(w, needed, k - 1) + trait_score(
            w.traits@[k - 1].description@,
            w.traits@[k - 1].name@,
            needed,
        )
    }
}

/// How likely an asteroid field is to hold the needed materials, judged from its traits.
pub open spec fn asteroid_score(w: Waypoint, needed: Seq<String>) -> int {
    asteroid_score_prefix(w, needed, w.traits@.len() as int)
}

proof fn lemma_material_matches_bounds(d: Seq<char>, n: Seq<char>, needed: Seq<String>, m: int)
    requires
        0 <= m <= needed.len(),
    ensures
        0 <= material_matches(d, n, needed, m) <= m,
    decreases m,
{
    if m > 0 {
        lemma_material_matches_bounds(d, n, needed, m - 1);
    }
}

proof fn lemma_score_prefix_monotone(w: Waypoint, needed: Seq<String>, k: int)
    requires
        0 <= k <= w.traits@.len(),
    ensures
        0 <= asteroid_score_prefix(w, needed, k) <= asteroid_score(w, needed),
    decreases w.traits@.len() - k,
{
    if k < w.traits@.len() {
        lemma_score_prefix_monotone(w, needed, k + 1);
        let t = w.traits@[k];
        lemma_material_matches_bounds(lowercase(t.description@), lowercase(t.name@), needed, needed.len() as int);
    }
    lemma_score_prefix_nonneg(w, needed, k);
}

proof fn lemma_score_prefix_nonneg(w: Waypoint, needed: Seq<String>, k: int)
    requires
        0 <= k <= w.traits@.len(),
    ensures
        0 <= asteroid_score_prefix(w, needed, k),
    decreases k,
{
    if k > 0 {
        lemma_score_prefix_nonneg(w, needed, k - 1);
        let t = w.traits@[k - 1];
        lemma_material_matches_bounds(lowercase(t.description@), lowercase(t.name@), needed, needed.len() as int);
    }
}

/// Whether a survey found a deposit of a needed material.
pub fn survey_finds_needed(s: &Survey, needed: &[String]) -> (r: bool)
    ensures
        r == survey_has_needed(*s, needed@),
{
    let mut k: usize = 0;
    while k < s.deposits.len()
        invariant
            k <= s.deposits@.len(),
            forall|j: int| 0 <= j < k ==> !is_listed(needed@, s.deposits@[j].symbol@),
        decreases s.deposits@.len() - k,
    {
        if list_contains(needed, s.deposits[k].symbol.as_str()) {
            return true;
        }
        k = k + 1;
    }
    false
}

/// The first survey that found a needed material.
pub fn find_target_survey<'a>(surveys: &'a [Survey], needed: &[String]) -> (r: Option<&'a Survey>)
    ensures
        match r {
            Some(s) => exists|i: int| first_useful_survey(surveys@, needed@, i) && surveys@[i] == *s,
            None => forall|j: int| 0 <= j < surveys@.len() ==> !survey_has_needed(surveys@[j], needed@),
        },
{
    let mut i: usize = 0;
    while i < surveys.len()
        invariant
            i <= surveys@.len(),
            forall|j: int| 0 <= j < i ==> !survey_has_needed(surveys@[j], needed@),
        decreases surveys@.len() - i,
    {
        if survey_finds_needed(&surveys[i], needed) {
            assert(first_useful_survey(surveys@, needed@, i as int));
            return Some(&surveys[i]);
        }
        i = i + 1;
    }
    None
}

/// An asteroid field needs a new survey when none of its surveys found a needed material
/// (in particular when it has no survey).
pub fn asteroid_needs_survey(surveys: &[Survey], needed: &[String]) -> (r: bool)
    ensures
        r == forall|j: int| 0 <= j < surveys@.len() ==> !survey_has_needed(surveys@[j], needed@),
{
    find_target_survey(surveys, needed).is_none()
}

/// Units of `symbol` in the first stack of it in `inventory`, or 0.
pub open spec fn units_in_cargo(inv: Seq<CargoItem>, symbol: Seq<char>) -> int
    decreases inv.len(),
{
    if inv.len() == 0 {
        0
    } else if inv[0].symbol@ == symbol {
        inv[0].units as int
    } else {
        units_in_cargo(inv.drop_first(), symbol)
    }
}

/// Units of `symbol` that the first delivery term for it requires, or 0.
pub open spec fn units_required_for(d: Seq<Delivery>, symbol: Seq<char>) -> int
    decreases d.len(),
{
    if d.len() == 0 {
        0
    } else if d[0].trade_symbol@ == symbol {
        d[0].units_required as int
    } else {
        units_required_for(d.drop_first(), symbol)
    }
}

/// Units of `symbol` held in the first stack of it, or 0.
pub fn cargo_units_of(inventory: &[CargoItem], symbol: &str) -> (r: i32)
    ensures
        r as int == units_in_cargo(inventory@, symbol@),
{
    let mut i: usize = 0;
    assert(inventory@.skip(0) =~= inventory@);
    while i < inventory.len()
        invariant
            i <= inventory@.len(),
            units_in_cargo(inventory@, symbol@) == units_in_cargo(inventory@.skip(i as int), symbol@),
        decreases inventory@.len() - i,
    {
        assert(inventory@.skip(i as int).drop_first() =~= inventory@.skip(i + 1));
        if text_eq(inventory[i].symbol.as_str(), symbol) {
            return inventory[i].units;
        }
        i = i + 1;
    }
    0
}

/// Units of `symbol` that the contract's first delivery term for it requires, or 0.
pub fn required_units_of(contract: &Contract, symbol: &str) -> (r: i32)
    ensures
        r as int == units_required_for(contract.terms.deliver@, symbol@),
{
    let d = &contract.terms.deliver;
    let mut i: usize = 0;
    assert(d@.skip(0) =~= d@);
    while i < d.len()
        invariant
            i <= d@.len(),
            d@ == contract.terms.deliver@,
            units_required_for(d@, symbol@) == units_required_for(d@.skip(i as int), symbol@),
        decreases d@.len() - i,
    {
        assert(d@.skip(i as int).drop_first() =~= d@.skip(i + 1));
        assert(d@.skip(i as int)[0] == d@[i as int]);
        if text_eq(d[i].trade_symbol.as_str(), symbol) {
            return d[i].units_required;
        }
        i = i + 1;
    }
    0
}

/// How far the mining fleet has come on a contract.
#[derive(Clone, Copy, Debug)]
pub struct FleetMiningProgress {
    /// Units of contract materials held by the mining ships.
    pub contract_materials: i32,
    /// Mining ships whose hold is full.
    pub full_ships: usize,
    /// Units the contract requires in all.
    pub needed: i32,
}

/// The contract is complete once the fleet holds what it requires.
pub open spec fn progress_complete(p: FleetMiningProgress) -> bool {
    p.contract_materials >= p.needed
}

impl FleetMiningProgress {
    /// Whether the fleet holds all the units the contract requires.
    pub fn is_complete(&self) -> (r: bool)
        ensures
            r == progress_complete(*self),
    {
        self.contract_materials >= self.needed
    }
}

/// The ship that the listing `updated` holds for miner `symbol`, if any.
pub open spec fn updated_ship(updated: Seq<Ship>, symbol: Seq<char>) -> Option<Ship> {
    if exists|i: int| first_ship_with_symbol(updated, symbol, i) {
        Some(updated[choose|i: int| first_ship_with_symbol(updated, symbol, i)])
    } else {
        None
    }
}

/// Contract materials held by the first `n` miners, as listed in `updated`.
pub open spec fn miners_material_prefix(miners: Seq<String>, updated: Seq<Ship>, needed: Seq<String>, n: int) -> int
    decreases n,
{
    if n <= 0 || n > miners.len() {
        0
    } else {
        miners_material_prefix(miners, updated, needed, n - 1) + match updated_ship(updated, miners[n - 1]@) {
            Some(s) => listed_units(s.cargo.inventory@, needed),
            None => 0,
        }
    }
}

/// Miners among the first `n` whose listed hold is full.
pub open spec fn full_miners_prefix(miners: Seq<String>, updated: Seq<Ship>, n: int) -> int
    decreases n,
{
    if n <= 0 || n > miners.len() {
        0
    } else {
        full_miners_prefix(miners, updated, n - 1) + match updated_ship(updated, miners[n - 1]@) {
            Some(s) => if s.cargo.units >= s.cargo.capacity { 1int } else { 0int },
            None => 0,
        }
    }
}

/// The running total after counting the first `n` miners and the first `m` cargo items of miner `n`.
pub open spec fn miner_running_total(miners: Seq<String>, updated: Seq<Ship>, needed: Seq<String>, n: int, m: int) -> int {
    miners_material_prefix(miners, updated, needed, n) + match updated_ship(updated, miners[n]@) {
        Some(s) => listed_units_prefix(s.cargo.inventory@, needed, m),
        None => 0,
    }
}

/// Every running total that counting the miners' contract materials item by item passes through
/// fits in an `i32`, and so does every running total of the contract's required units.
pub open spec fn progress_sums_fit(miners: Seq<String>, updated: Seq<Ship>, needed: Seq<String>, contract: Contract) -> bool {
    &&& forall|n: int, m: int| 0 <= n < miners.len() && 0 <= m && (match updated_ship(updated, miners[n]@) {
        Some(s) => m <= s.cargo.inventory@.len(),
        None => false,
    }) ==> i32::MIN <= #[trigger] miner_running_total(miners, updated, needed, n, m) <= i32::MAX
    &&& forall|n: int| 0 <= n <= miners.len() ==> i32::MIN <= #[trigger] miners_material_prefix(miners, updated, needed, n) <= i32::MAX
    &&& forall|n: int| 0 <= n <= contract.terms.deliver@.len() ==> i32::MIN <= #[trigger] required_prefix(contract.terms.deliver@, n) <= i32::MAX
}

fn find_updated<'a>(updated: &'a [Ship], symbol: &String) -> (r: Option<&'a Ship>)
    ensures
        match r {
            Some(s) => updated_ship(updated@, symbol@) == Some(*s),
            None => updated_ship(updated@, symbol@) is None,
        },
{
    match find_ship(updated, symbol.as_str()) {
        Some(s) => {
            proof {
                let i = choose|i: int| first_ship_with_symbol(updated@, symbol@, i) && updated@[i] == *s;
                let k = choose|k: int| first_ship_with_symbol(updated@, symbol@, k);
                assert(i == k);
            }
            Some(s)
        },
        None => None,
    }
}

/// Totals the contract materials and full holds of the mining ships (named by `miners`) in the
/// fresh listing `updated`, against the units the contract requires.
pub fn fleet_mining_progress(
    miners: &[String],
    updated: &[Ship],
    needed_materials: &[String],
    contract: &Contract,
) -> (r: FleetMiningProgress)
    requires
        progress_sums_fit(miners@, updated@, needed_materials@, *contract),
    ensures
        r.contract_materials == miners_material_prefix(miners@, updated@, needed_materials@, miners@.len() as int),
        r.full_ships == full_miners_prefix(miners@, updated@, miners@.len() as int),
        r.needed == total_required(*contract),
{
    let mut total: i32 = 0;
    let mut full: usize = 0;
    let mut n: usize = 0;
    while n < miners.len()
        invariant
            n <= miners@.len(),
            progress_sums_fit(miners@, updated@, needed_materials@, *contract),
            total == miners_material_prefix(miners@, updated@, needed_materials@, n as int),
            full == full_miners_prefix(miners@, updated@, n as int),
            full <= n,
        decreases miners@.len() - n,
    {
        match find_updated(updated, &miners[n]) {
            Some(s) => {
                let inv = &s.cargo.inventory;
                let ghost base = total as int;
                let mut m: usize = 0;
                while m < inv.len()
                    invariant
                        m <= inv@.len(),
                        n < miners@.len(),
                        inv@ == s.cargo.inventory@,
                        updated_ship(updated@, miners@[n as int]@) == Some(*s),
                        progress_sums_fit(miners@, updated@, needed_materials@, *contract),
                        base == miners_material_prefix(miners@, updated@, needed_materials@, n as int),
                        total == base + listed_units_prefix(inv@, needed_materials@, m as int),
                    decreases inv@.len() - m,
                {
                    if list_contains(needed_materials, inv[m].symbol.as_str()) {
                        assert(i32::MIN <= miner_running_total(miners@, updated@, needed_materials@, n as int, m + 1) <= i32::MAX);
                        total = total + inv[m].units;
                    }
                    m = m + 1;
                }
                if s.cargo.units >= s.cargo.capacity {
                    full = full + 1;
                }
            },
            None => {},
        }
        n = n + 1;
    }
    let mut needed: i32 = 0;
    let d = &contract.terms.deliver;
    let mut k: usize = 0;
    while k < d.len()
        invariant
            k <= d@.len(),
            d@ == contract.terms.deliver@,
            progress_sums_fit(miners@, updated@, needed_materials@, *contract),
            needed == required_prefix(d@, k as int),
        decreases d@.len() - k,
    {
        assert(i32::MIN <= required_prefix(d@, k + 1) <= i32::MAX);
        needed = needed + d[k].units_required;
        k = k + 1;
    }
    FleetMiningProgress { contract_materials: total, full_ships: full, needed }
}

/// Number of distinct asteroid fields among the first `n` positions: those whose symbol does not
/// occur earlier.
pub open spec fn distinct_prefix(fields: Seq<String>, n: int) -> int
    decreases n,
{
    if n <= 0 || n > fields.len() {
        0
    } else {
        distinct_prefix(fields, n - 1) + if is_listed(fields.take(n - 1), fields[n - 1]@) { 0int } else { 1int }
    }
}

/// How many different asteroid fields the miners work.
pub fn distinct_field_count(fields: &[String]) -> (r: usize)
    ensures
        r == distinct_prefix(fields@, fields@.len() as int),
{
    let mut count: usize = 0;
    let mut n: usize = 0;
    while n < fields.len()
        invariant
            n <= fields@.len(),
            count == distinct_prefix(fields@, n as int),
            count <= n,
        decreases fields@.len() - n,
    {
        let earlier = list_contains(&fields[0..n], fields[n].as_str());
        assert(fields@.subrange(0, n as int) =~= fields@.take(n as int));
        if !earlier {
            count = count + 1;
        }
        n = n + 1;
    }
    count
}

/// Survey-based mining decisions.
pub struct MiningOperations {}

impl MiningOperations {
    pub fn new() -> (r: Self) {
        MiningOperations {}
    }

    /// A copy of the first survey that found a needed material.
    pub fn select_best_survey(&self, surveys: &[Survey], needed_materials: &[String]) -> (r: Option<Survey>)
        ensures
            match r {
                Some(s) => exists|i: int| first_useful_survey(surveys@, needed_materials@, i)
                    && same_survey(s, surveys@[i]),
                None => forall|j: int| 0 <= j < surveys@.len() ==> !survey_has_needed(surveys@[j], needed_materials@),
            },
    {
        match find_target_survey(surveys, needed_materials) {
            Some(s) => Some(s.duplicate()),
            None => None,
        }
    }

    /// Scores an asteroid field's traits for the needed materials: per trait 100 when aluminium
    /// ore is needed and the trait hints at it, 50 for a mineral, ore or metal description, and 75
    /// per needed material named in its description or name (all compared in lowercase).
    pub fn score_asteroid_for_materials(&self, asteroid: &Waypoint, needed_materials: &[String]) -> (r: i32)
        requires
            asteroid_score(*asteroid, needed_materials@) <= i32::MAX,
        ensures
            r as int == asteroid_score(*asteroid, needed_materials@),
    {
        let needs_aluminum = list_contains(needed_materials, "ALUMINUM_ORE");
        let mut score: i32 = 0;
        let mut k: usize = 0;
        while k < asteroid.traits.len()
            invariant
                k <= asteroid.traits@.len(),
                needs_aluminum == is_listed(needed_materials@, "ALUMINUM_ORE"@),
                asteroid_score(*asteroid, needed_materials@) <= i32::MAX,
                score as int == asteroid_score_prefix(*asteroid, needed_materials@, k as int),
            decreases asteroid.traits@.len() - k,
        {
            proof {
                lemma_score_prefix_monotone(*asteroid, needed_materials@, k + 1);
                lemma_score_prefix_monotone(*asteroid, needed_materials@, k as int);
            }
            let t = &asteroid.traits[k];
            let description = to_lowercase(t.description.as_str());
            let name = to_lowercase(t.name.as_str());
            let mut add: i32 = 0;
            if needs_aluminum {
                if has_text(description.as_str(), "aluminum") || has_text(description.as_str(), "metal ore")
                    || has_text(name.as_str(), "mineral") || has_text(name.as_str(), "rich") {
                    add = 100;
                }
            }
            if has_text(description.as_str(), "mineral") || has_text(description.as_str(), "ore")
                || has_text(description.as_str(), "metal") {
                add = add + 50;
            }
            let mut matches: usize = 0;
            let mut m: usize = 0;
            while m < needed_materials.len()
                invariant
                    m <= needed_materials@.len(),
                    description@ == lowercase(t.description@),
                    name@ == lowercase(t.name@),
                    matches as int == material_matches(description@, name@, needed_materials@, m as int),
                    matches <= m,
                decreases needed_materials@.len() - m,
            {
                let material = to_lowercase(needed_materials[m].as_str());
                if has_text(description.as_str(), material.as_str()) || has_text(name.as_str(), material.as_str()) {
                    matches = matches + 1;
                }
                m = m + 1;
            }
            assert(trait_score(t.description@, t.name@, needed_materials@) == add + matches * 75);
            assert(asteroid_score_prefix(*asteroid, needed_materials@, k + 1) == score + add + matches * 75);
            assert(matches * 75 <= i32::MAX);
            let bonus: i32 = (matches as i32) * 75;
            score = score + add + bonus;
            k = k + 1;
        }
        score
    }

    /// The system's asteroid fields (waypoints of type ASTEROID_FIELD), best scoring first for
    /// the needed materials (see [`asteroid_score`]); equally scored ones keep their order.
    pub fn find_asteroid_fields<'a>(&self, waypoints: &'a [Waypoint], needed_materials: &[String]) -> (r: Vec<&'a Waypoint>)
        requires
            forall|k: int| 0 <= k < waypoints@.len() ==> asteroid_score(#[trigger] waypoints@[k], needed_materials@) <= i32::MAX,
        ensures
            ranked_by_score(asteroid_fields(waypoints@), needed_materials@, r@.map_values(|w: &Waypoint| *w)),
    {
        let mut cands: Vec<&'a Waypoint> = Vec::new();
        let mut i: usize = 0;
        while i < waypoints.len()
            invariant
                i <= waypoints@.len(),
                cands@.map_values(|w: &Waypoint| *w) == waypoints@.take(i as int).filter(|w: Waypoint| w.waypoint_type@ == "ASTEROID_FIELD"@),
            decreases waypoints@.len() - i,
        {
            proof {
                crate::seqs::lemma_filter_step(waypoints@, |w: Waypoint| w.waypoint_type@ == "ASTEROID_FIELD"@, i as int);
            }
            if text_eq(waypoints[i].waypoint_type.as_str(), "ASTEROID_FIELD") {
                cands.push(&waypoints[i]);
            }
            assert(cands@.map_values(|w: &Waypoint| *w) =~= waypoints@.take(i + 1).filter(|w: Waypoint| w.waypoint_type@ == "ASTEROID_FIELD"@));
            i = i + 1;
        }
        assert(waypoints@.take(i as int) =~= waypoints@);
        let ghost c = cands@.map_values(|w: &Waypoint| *w);
        proof {
            assert forall|k: int| 0 <= k < c.len() implies asteroid_score(#[trigger] c[k], needed_materials@) <= i32::MAX by {
                waypoints@.lemma_filter_contains_rev(|w: Waypoint| w.waypoint_type@ == "ASTEROID_FIELD"@, c[k]);
                assert(c.contains(c[k]));
                let j = choose|j: int| 0 <= j < waypoints@.len() && waypoints@[j] == c[k];
                assert(asteroid_score(waypoints@[j], needed_materials@) <= i32::MAX);
            }
        }
        let mut out: Vec<&'a Waypoint> = Vec::new();
        let mut scores: Vec<i32> = Vec::new();
        let ghost mut order: Seq<int> = Seq::empty();
        let mut i: usize = 0;
        while i < cands.len()
            invariant
                c == cands@.map_values(|w: &Waypoint| *w),
                forall|k: int| 0 <= k < c.len() ==> asteroid_score(#[trigger] c[k], needed_materials@) <= i32::MAX,
                i <= cands@.len(),
                out@.len() == i,
                scores@.len() == i,
                order.len() == i,
                forall|k: int| 0 <= k < i ==> 0 <= #[trigger] order[k] < i,
                forall|a: int, b: int| 0 <= a < b < i ==> scores_before(c, needed_materials@, #[trigger] order[a], #[trigger] order[b]),
                forall|k: int|
                    #![trigger out@[k]]
                    #![trigger scores@[k]]
                    0 <= k < i ==> *out@[k] == c[order[k]] && scores@[k] == asteroid_score(c[order[k]], needed_materials@),
            decreases cands@.len() - i,
        {
            assert(c[i as int] == *cands@[i as int]);
            assert(asteroid_score(c[i as int], needed_materials@) <= i32::MAX);
            let sc = self.score_asteroid_for_materials(cands[i], needed_materials);
            let mut p: usize = 0;
            while p < out.len() && scores[p] >= sc
                invariant
                    p <= out@.len(),
                    scores@.len() == out@.len(),
                    forall|k: int| 0 <= k < p ==> scores@[k] >= sc,
                decreases out@.len() - p,
            {
                p = p + 1;
            }
            proof {
                assert forall|k: int| p <= k < out@.len() implies scores@[k] < sc by {
                    if k > p {
                        assert(scores_before(c, needed_materials@, order[p as int], order[k]));
                    }
                }
            }
            let ghost old_out = out@;
            let ghost old_scores = scores@;
            let ghost old_order = order;
            out.insert(p, cands[i]);
            scores.insert(p, sc);
            proof {
                order = order.insert(p as int, i as int);
                old_out.insert_ensures(p as int, cands@[i as int]);
                old_scores.insert_ensures(p as int, sc);
                old_order.insert_ensures(p as int, i as int);
                assert(c[i as int] == *cands@[i as int]);
                assert forall|k: int| 0 <= k < i + 1 implies 0 <= #[trigger] order[k] < i + 1 by {
                    if k < p {
                        assert(order[k] == old_order[k]);
                    } else if k > p {
                        assert(order[k] == old_order[k - 1]);
                    }
                }
                assert forall|k: int|
                    #![trigger out@[k]]
                    #![trigger scores@[k]]
                    0 <= k < i + 1 implies *out@[k] == c[order[k]] && scores@[k] == asteroid_score(c[order[k]], needed_materials@) by {
                    if k < p {
                        assert(out@[k] == old_out[k] && scores@[k] == old_scores[k] && order[k] == old_order[k]);
                    } else if k > p {
                        assert(out@[k] == old_out[k - 1] && scores@[k] == old_scores[k - 1] && order[k] == old_order[k - 1]);
                    }
                }
                assert forall|a: int, b: int| 0 <= a < b < i + 1 implies scores_before(c, needed_materials@, #[trigger] order[a], #[trigger] order[b]) by {
                    if b < p {
                        assert(order[a] == old_order[a] && order[b] == old_order[b]);
                    } else if a > p {
                        assert(order[a] == old_order[a - 1] && order[b] == old_order[b - 1]);
                    } else if a < p && b > p {
                        assert(order[a] == old_order[a] && order[b] == old_order[b - 1]);
                    } else if a == p {
                        assert(order[b] == old_order[b - 1]);
                        assert(old_scores[b - 1] < sc);
                    } else {
                        assert(order[a] == old_order[a]);
                        assert(old_scores[a] >= sc);
                    }
                }
            }
            i = i + 1;
        }
        proof {
            assert(score_ranking(c, needed_materials@, order));
            assert forall|k: int| 0 <= k < out@.len() implies out@.map_values(|w: &Waypoint| *w)[k] == c[order[k]] by {}
        }
        out
    }
}

proof fn lemma_material_match_found(d: Seq<char>, n: Seq<char>, needed: Seq<String>, m: int, j: int)
    requires
        0 <= j < m <= needed.len(),
        contains_text(d, lowercase(needed[j]@)) || contains_text(n, lowercase(needed[j]@)),
    ensures
        material_matches(d, n, needed, m) >= 1,
    decreases m,
{
    if j < m - 1 {
        lemma_material_match_found(d, n, needed, m - 1, j);
    } else {
        lemma_material_matches_bounds(d, n, needed, m - 1);
    }
}

/// Each hint in an asteroid field's traits raises its score to at least the hint's worth, and
/// no score is negative: a trait whose lowercased description mentions a mineral, an ore or a
/// metal gives at least 50; one whose lowercased description mentions aluminium, when aluminium
/// ore is needed, at least 100 (150 with the metal hint); one that names a needed material (in
/// lowercase, in its description or name) at least 75.
pub proof fn law_asteroid_hints_raise_score(w: Waypoint, needed: Seq<String>, k: int, j: int)
    requires
        0 <= k < w.traits@.len(),
    ensures
        asteroid_score(w, needed) >= 0,
        ({
            let d = lowercase(w.traits@[k].description@);
            let n = lowercase(w.traits@[k].name@);
            &&& contains_text(d, "mineral"@) || contains_text(d, "ore"@) || contains_text(d, "metal"@)
                ==> asteroid_score(w, needed) >= 50
            &&& is_listed(needed, "ALUMINUM_ORE"@) && contains_text(d, "aluminum"@) ==> asteroid_score(w, needed) >= 100
            &&& is_listed(needed, "ALUMINUM_ORE"@) && contains_text(d, "metal ore"@) ==> asteroid_score(w, needed) >= 150
            &&& 0 <= j < needed.len() && (contains_text(d, lowercase(needed[j]@)) || contains_text(n, lowercase(needed[j]@)))
                ==> asteroid_score(w, needed) >= 75
        }),
{
    let t = w.traits@[k];
    let d = lowercase(t.description@);
    let n = lowercase(t.name@);
    lemma_score_prefix_monotone(w, needed, k + 1);
    lemma_score_prefix_nonneg(w, needed, k);
    lemma_score_prefix_nonneg(w, needed, w.traits@.len() as int);
    lemma_material_matches_bounds(d, n, needed, needed.len() as int);
    assert(asteroid_score_prefix(w, needed, k + 1) == asteroid_score_prefix(w, needed, k) + trait_score(t.description@, t.name@, needed));
    if 0 <= j < needed.len() && (contains_text(d, lowercase(needed[j]@)) || contains_text(n, lowercase(needed[j]@))) {
        lemma_material_match_found(d, n, needed, needed.len() as int, j);
    }
    if contains_text(d, "metal ore"@) {
        let i = choose|i: int| occurs_at(d, "metal ore"@, i);
        reveal_strlit("metal ore");
        reveal_strlit("metal");
        assert forall|q: int| 0 <= q < 5 implies d.subrange(i, i + 5)[q] == "metal"@[q] by {
            assert(d.subrange(i, i + 9)[q] == d[i + q]);
        }
        assert(d.subrange(i, i + 5) =~= "metal"@);
        assert(occurs_at(d, "metal"@, i));
    }
}

} // verus!