//! What a contract asks of the fleet (mining, refining, hauling), what the fleet can do, and the
//! ship-role goals that close the gap.
use vstd::prelude::*;
use crate::model::{Contract, Delivery, Ship, total_required};
use crate::contracts::{required_sums_fit, required_units};
use crate::fleet::capacity_prefix;
use crate::text::{contains_text, ends_with_text, ends_with, has_text, text_eq, texts, holds_text, decimal, decimal_text,
    join_text};

verus! {

/// The ores the analyzer knows how to refine, each with the metal it yields.
pub open spec fn refining_table() -> Seq<(Seq<char>, Seq<char>)> {
    seq![
        ("IRON_ORE"@, "IRON"@),
        ("COPPER_ORE"@, "COPPER"@),
        ("ALUMINUM_ORE"@, "ALUMINUM"@),
        ("SILVER_ORE"@, "SILVER"@),
        ("GOLD_ORE"@, "GOLD"@),
        ("PLATINUM_ORE"@, "PLATINUM"@),
        ("TITANIUM_ORE"@, "TITANIUM"@),
        ("URANIUM_ORE"@, "URANIUM"@),
    ]
}

/// The ore that the first pair of `table` yielding `metal` starts from.
pub open spec fn ore_for(table: Seq<(Seq<char>, Seq<char>)>, metal: Seq<char>) -> Option<Seq<char>>
    decreases table.len(),
{
    if table.len() == 0 {
        None
    } else if table[0].1 == metal {
        Some(table[0].0)
    } else {
        ore_for(table.drop_first(), metal)
    }
}

/// What the deliveries of a contract call for: the raw materials to mine, the refined ones to
/// produce, and whether mining, refining and hauling are needed.
pub struct MaterialNeeds {
    pub raw: Seq<Seq<char>>,
    pub refined: Seq<Seq<char>>,
    pub mining: bool,
    pub refining: bool,
    pub hauling: bool,
}

/// Nothing needed yet.
pub open spec fn no_needs() -> MaterialNeeds {
    MaterialNeeds { raw: Seq::empty(), refined: Seq::empty(), mining: false, refining: false, hauling: false }
}

/// The needs after one more delivered material: an ore is mined; a metal the table yields is
/// refined, and its ore is mined (listed once); anything else is hauled.
pub open spec fn needs_step(st: MaterialNeeds, m: Seq<char>) -> MaterialNeeds {
    if ends_with_text(m, "_ORE"@) {
        MaterialNeeds { raw: st.raw.push(m), mining: true, ..st }
    } else {
        match ore_for(refining_table(), m) {
            Some(ore) => if st.raw.contains(ore) {
                MaterialNeeds { refined: st.refined.push(m), refining: true, ..st }
            } else {
                MaterialNeeds { raw: st.raw.push(ore), refined: st.refined.push(m), mining: true, refining: true, ..st }
            },
            None => MaterialNeeds { hauling: true, ..st },
        }
    }
}

/// The needs of the first `n` delivery terms.
pub open spec fn needs_prefix(d: Seq<Delivery>, n: int) -> MaterialNeeds
    decreases n,
{
    if n <= 0 || n > d.len() {
        no_needs()
    } else {
        needs_step(needs_prefix(d, n - 1), d[n - 1].trade_symbol@)
    }
}

/// How many miners a contract of `total_units` units calls for: one per hundred units, at least
/// one and at most three, when mining is needed.
pub open spec fn miners_for(total_units: int, mining: bool) -> int {
    if !mining {
        0
    } else if total_units < 100 {
        1
    } else if total_units / 100 > 3 {
        3
    } else {
        total_units / 100
    }
}

/// How many refiners a contract calls for: one, or two above 500 units, when refining is needed.
pub open spec fn refiners_for(total_units: int, refining: bool) -> int {
    if !refining {
        0
    } else if total_units > 500 {
        2
    } else {
        1
    }
}

/// The ships a contract calls for.
#[derive(Clone, Copy, Debug)]
pub struct RecommendedShips {
    pub miners_needed: i32,
    pub haulers_needed: i32,
    pub refiners_needed: i32,
}

/// What a contract asks of the fleet.
#[derive(Clone, Debug)]
pub struct ContractRequirements {
    pub contract_id: String,
    pub requires_mining: bool,
    pub requires_refining: bool,
    pub requires_hauling: bool,
    /// Ores to mine, e.g. IRON_ORE.
    pub raw_materials: Vec<String>,
    /// Metals to refine, e.g. IRON.
    pub refined_materials: Vec<String>,
    pub recommended_ships: RecommendedShips,
}

/// What the fleet can do now.
#[derive(Clone, Debug)]
pub struct FleetCapabilities {
    pub active_miners: i32,
    pub active_haulers: i32,
    pub active_refiners: i32,
    pub total_cargo_capacity: i32,
    pub ships_with_refinery: Vec<String>,
}

/// Some mount of the ship mines or carries a laser.
pub open spec fn mines_or_lasers(s: Ship) -> bool {
    exists|i: int| 0 <= i < s.mounts@.len() && (contains_text(s.mounts@[i].symbol@, "MINING"@) || contains_text(
        s.mounts@[i].symbol@,
        "LASER"@,
    ))
}

/// Some module of the ship is a refinery.
pub open spec fn has_refinery(s: Ship) -> bool {
    exists|i: int| 0 <= i < s.modules@.len() && contains_text(s.modules@[i].symbol@, "REFINERY"@)
}

/// What the ship counts as: a refiner when it has a refinery, else a miner when it mines, else
/// a hauler when it holds 30 or more units.
pub open spec fn counts_as_refiner(s: Ship) -> bool {
    has_refinery(s)
}

pub open spec fn counts_as_miner(s: Ship) -> bool {
    !has_refinery(s) && mines_or_lasers(s)
}

pub open spec fn counts_as_hauler(s: Ship) -> bool {
    !has_refinery(s) && !mines_or_lasers(s) && s.cargo.capacity >= 30
}

/// How many of the first `n` ships pass `p`.
pub open spec fn count_prefix(ships: Seq<Ship>, p: spec_fn(Ship) -> bool, n: int) -> int
    decreases n,
{
    if n <= 0 || n > ships.len() {
        0
    } else {
        count_prefix(ships, p, n - 1) + if p(ships[n - 1]) {
            1int
        } else {
            0int
        }
    }
}

proof fn lemma_count_bounds(ships: Seq<Ship>, p: spec_fn(Ship) -> bool, n: int)
    requires
        0 <= n <= ships.len(),
    ensures
        0 <= count_prefix(ships, p, n) <= n,
    decreases n,
{
    if n > 0 {
        lemma_count_bounds(ships, p, n - 1);
    }
}

/// Every running total of the fleet's cargo capacity fits in an `i32`.
pub open spec fn capacity_sums_fit(ships: Seq<Ship>) -> bool {
    forall|n: int| 0 <= n <= ships.len() ==> i32::MIN <= #[trigger] capacity_prefix(ships, n) <= i32::MAX
}

/// How urgent a goal is.
#[derive(Clone, Copy, Debug, PartialEq, Eq)]
pub enum GoalPriority {
    /// Needed for the contract at hand.
    Urgent,
    /// Useful for earnings.
    Economic,
}

/// Where a goal stands.
#[derive(Clone, Copy, Debug, PartialEq, Eq)]
pub enum GoalStatus {
    /// Not taken up yet.
    Pending,
}

/// A goal to give some ship a role (the ship is left for the fleet to pick).
#[derive(Clone, Debug)]
pub struct RoleGoal {
    pub id: String,
    pub target_ship: Option<String>,
    pub desired_role: String,
    pub priority: GoalPriority,
    pub status: GoalStatus,
}

/// The name of the `i`th goal of a kind for a contract.
pub open spec fn goal_id(role: Seq<char>, contract_id: Seq<char>, i: nat) -> Seq<char> {
    "auto_designate_"@ + role + "_"@ + contract_id + "_"@ + decimal(i)
}

/// How many refiner goals the gap calls for.
pub open spec fn refiner_gap(req: ContractRequirements, fleet: FleetCapabilities) -> int {
    if req.requires_refining && fleet.active_refiners < req.recommended_ships.refiners_needed {
        req.recommended_ships.refiners_needed - fleet.active_refiners
    } else {
        0
    }
}

/// How many hauler goals the gap calls for: at most one.
pub open spec fn hauler_gap(req: ContractRequirements, fleet: FleetCapabilities) -> int {
    if req.requires_hauling && fleet.active_haulers < req.recommended_ships.haulers_needed {
        1
    } else {
        0
    }
}

/// The `i`th goal is the one the gap calls for at that place: refiner goals first (urgent), then
/// a hauler goal (economic), each numbered from 0 within its kind.
pub open spec fn is_gap_goal(g: RoleGoal, req: ContractRequirements, fleet: FleetCapabilities, i: int) -> bool {
    let rc = refiner_gap(req, fleet);
    &&& g.target_ship is None
    &&& g.status == GoalStatus::Pending
    &&& if i < rc {
        &&& g.id@ == goal_id("refiner"@, req.contract_id@, i as nat)
        &&& g.desired_role@ == "refiner"@
        &&& g.priority == GoalPriority::Urgent
    } else {
        &&& g.id@ == goal_id("hauler"@, req.contract_id@, (i - rc) as nat)
        &&& g.desired_role@ == "hauler"@
        &&& g.priority == GoalPriority::Economic
    }
}

fn role_goal(role: &str, contract_id: &str, i: u32, priority: GoalPriority) -> (r: RoleGoal)
    ensures
        r.id@ == goal_id(role@, contract_id@, i as nat),
        r.target_ship is None,
        r.desired_role@ == role@,
        r.priority == priority,
        r.status == GoalStatus::Pending,
{
    let a = join_text("auto_designate_", role);
    let b = join_text(a.as_str(), "_");
    let c = join_text(b.as_str(), contract_id);
    let d = join_text(c.as_str(), "_");
    let n = decimal_text(i);
    let id = join_text(d.as_str(), n.as_str());
    proof {
        reveal_strlit("auto_designate_");
        reveal_strlit("_");
    }
    RoleGoal { id, target_ship: None, desired_role: String::from_str(role), priority, status: GoalStatus::Pending }
}

/// Reads contracts for what they ask of the fleet.
pub struct ContractAnalyzer {
    refining_pairs: Vec<(String, String)>,
}

impl ContractAnalyzer {
    /// The analyzer knows exactly the refining table.
    pub closed spec fn wf(&self) -> bool {
        self.refining_pairs@.map_values(|p: (String, String)| (p.0@, p.1@)) == refining_table()
    }

    /// An analyzer that knows the common ore-to-metal refining pairs.
    pub fn new() -> (r: Self)
        ensures
            r.wf(),
    {
        let mut refining_pairs: Vec<(String, String)> = Vec::new();
        refining_pairs.push((String::from_str("IRON_ORE"), String::from_str("IRON")));
        refining_pairs.push((String::from_str("COPPER_ORE"), String::from_str("COPPER")));
        refining_pairs.push((String::from_str("ALUMINUM_ORE"), String::from_str("ALUMINUM")));
        refining_pairs.push((String::from_str("SILVER_ORE"), String::from_str("SILVER")));
        refining_pairs.push((String::from_str("GOLD_ORE"), String::from_str("GOLD")));
        refining_pairs.push((String::from_str("PLATINUM_ORE"), String::from_str("PLATINUM")));
        refining_pairs.push((String::from_str("TITANIUM_ORE"), String::from_str("TITANIUM")));
        refining_pairs.push((String::from_str("URANIUM_ORE"), String::from_str("URANIUM")));
        let r = ContractAnalyzer { refining_pairs };
        assert(r.refining_pairs@.map_values(|p: (String, String)| (p.0@, p.1@)) =~= refining_table());
        r
    }

    /// The ore the analyzer refines into `metal`, if any.
    pub fn ore_for_metal(&self, metal: &str) -> (r: Option<String>)
        requires
            self.wf(),
        ensures
            match r {
                Some(o) => ore_for(refining_table(), metal@) == Some(o@),
                None => ore_for(refining_table(), metal@) is None,
            },
    {
        let ghost t = self.refining_pairs@.map_values(|p: (String, String)| (p.0@, p.1@));
        let mut i: usize = 0;
        assert(t.skip(0) =~= t);
        while i < self.refining_pairs.len()
            invariant
                i <= self.refining_pairs@.len(),
                t == self.refining_pairs@.map_values(|p: (String, String)| (p.0@, p.1@)),
                t == refining_table(),
                ore_for(t, metal@) == ore_for(t.skip(i as int), metal@),
            decreases self.refining_pairs@.len() - i,
        {
            assert(t.skip(i as int).drop_first() =~= t.skip(i + 1));
            assert(t.skip(i as int)[0] == t[i as int]);
            if text_eq(self.refining_pairs[i].1.as_str(), metal) {
                return Some(self.refining_pairs[i].0.clone());
            }
            i = i + 1;
        }
        None
    }

    /// How many miners, refiners and haulers a contract of `total_units` units calls for.
    pub fn calculate_recommended_ships(&self, total_units: i32, requires_mining: bool, requires_refining: bool) -> (r:
        RecommendedShips)
        ensures
            r.miners_needed == miners_for(total_units as int, requires_mining),
            r.refiners_needed == refiners_for(total_units as int, requires_refining),
            r.haulers_needed == 1,
    {
        let miners_needed = if !requires_mining {
            0
        } else if total_units < 100 {
            1
        } else if total_units / 100 > 3 {
            3
        } else {
            total_units / 100
        };
        let refiners_needed = if !requires_refining {
            0
        } else if total_units > 500 {
            2
        } else {
            1
        };
        RecommendedShips { miners_needed, haulers_needed: 1, refiners_needed }
    }

    /// What the contract asks of the fleet: its deliveries read one by one (see [`needs_step`])
    /// and the ships recommended for its total units.
    pub fn analyze_contract_requirements(&self, contract: &Contract) -> (r: ContractRequirements)
        requires
            self.wf(),
            required_sums_fit(*contract),
        ensures
            r.contract_id == contract.id,
            texts(r.raw_materials@) == needs_prefix(contract.terms.deliver@, contract.terms.deliver@.len() as int).raw,
            texts(r.refined_materials@) == needs_prefix(contract.terms.deliver@, contract.terms.deliver@.len() as int).refined,
            r.requires_mining == needs_prefix(contract.terms.deliver@, contract.terms.deliver@.len() as int).mining,
            r.requires_refining == needs_prefix(contract.terms.deliver@, contract.terms.deliver@.len() as int).refining,
            r.requires_hauling == needs_prefix(contract.terms.deliver@, contract.terms.deliver@.len() as int).hauling,
            r.recommended_ships.miners_needed == miners_for(total_required(*contract), r.requires_mining),
            r.recommended_ships.refiners_needed == refiners_for(total_required(*contract), r.requires_refining),
            r.recommended_ships.haulers_needed == 1,
            r.requires_mining == (r.raw_materials@.len() > 0),
            r.requires_refining == (r.refined_materials@.len() > 0),
    {
        proof {
            law_needs_follow_terms(contract.terms.deliver@, contract.terms.deliver@.len() as int);
        }
        let total = required_units(contract);
        let d = &contract.terms.deliver;
        let mut raw: Vec<String> = Vec::new();
        let mut refined: Vec<String> = Vec::new();
        let mut mining = false;
        let mut refining = false;
        let mut hauling = false;
        let mut k: usize = 0;
        while k < d.len()
            invariant
                k <= d@.len(),
                d@ == contract.terms.deliver@,
                self.wf(),
                texts(raw@) == needs_prefix(d@, k as int).raw,
                texts(refined@) == needs_prefix(d@, k as int).refined,
                mining == needs_prefix(d@, k as int).mining,
                refining == needs_prefix(d@, k as int).refining,
                hauling == needs_prefix(d@, k as int).hauling,
            decreases d@.len() - k,
        {
            let m = &d[k].trade_symbol;
            let ghost raw0 = texts(raw@);
            let ghost refined0 = texts(refined@);
            if ends_with(m.as_str(), "_ORE") {
                raw.push(m.clone());
                mining = true;
                assert(texts(raw@) =~= raw0.push(m@));
            } else {
                match self.ore_for_metal(m.as_str()) {
                    Some(ore) => {
                        refined.push(m.clone());
                        refining = true;
                        assert(texts(refined@) =~= refined0.push(m@));
                        if !holds_text(&raw, ore.as_str()) {
                            raw.push(ore);
                            mining = true;
                            assert(texts(raw@) =~= raw0.push(ore@));
                        }
                    },
                    None => {
                        hauling = true;
                    },
                }
            }
            k = k + 1;
        }
        let recommended_ships = self.calculate_recommended_ships(total, mining, refining);
        ContractRequirements {
            contract_id: contract.id.clone(),
            requires_mining: mining,
            requires_refining: refining,
            requires_hauling: hauling,
            raw_materials: raw,
            refined_materials: refined,
            recommended_ships,
        }
    }

    /// What the fleet can do: ships counted as refiners, miners and haulers (see
    /// [`counts_as_refiner`] and the like), the total cargo capacity, and the refinery ships.
    pub fn analyze_current_fleet(&self, ships: &[Ship]) -> (r: FleetCapabilities)
        requires
            capacity_sums_fit(ships@),
            ships@.len() <= i32::MAX,
        ensures
            r.active_refiners == count_prefix(ships@, |s: Ship| counts_as_refiner(s), ships@.len() as int),
            r.active_miners == count_prefix(ships@, |s: Ship| counts_as_miner(s), ships@.len() as int),
            r.active_haulers == count_prefix(ships@, |s: Ship| counts_as_hauler(s), ships@.len() as int),
            r.total_cargo_capacity == capacity_prefix(ships@, ships@.len() as int),
            texts(r.ships_with_refinery@) == ships@.filter(|s: Ship| counts_as_refiner(s)).map_values(|s: Ship| s.symbol@),
    {
        let mut miners: i32 = 0;
        let mut haulers: i32 = 0;
        let mut refiners: i32 = 0;
        let mut capacity: i32 = 0;
        let mut refinery_ships: Vec<String> = Vec::new();
        let mut i: usize = 0;
        while i < ships.len()
            invariant
                i <= ships@.len(),
                ships@.len() <= i32::MAX,
                capacity_sums_fit(ships@),
                refiners == count_prefix(ships@, |s: Ship| counts_as_refiner(s), i as int),
                miners == count_prefix(ships@, |s: Ship| counts_as_miner(s), i as int),
                haulers == count_prefix(ships@, |s: Ship| counts_as_hauler(s), i as int),
                capacity == capacity_prefix(ships@, i as int),
                texts(refinery_ships@) == ships@.take(i as int).filter(|s: Ship| counts_as_refiner(s)).map_values(
                    |s: Ship| s.symbol@,
                ),
            decreases ships@.len() - i,
        {
            let s = &ships[i];
            proof {
                lemma_count_bounds(ships@, |s: Ship| counts_as_refiner(s), i as int);
                lemma_count_bounds(ships@, |s: Ship| counts_as_miner(s), i as int);
                lemma_count_bounds(ships@, |s: Ship| counts_as_hauler(s), i as int);
                crate::seqs::lemma_filter_step(ships@, |s: Ship| counts_as_refiner(s), i as int);
            }
            assert(i32::MIN <= capacity_prefix(ships@, i + 1) <= i32::MAX);
            capacity = capacity + s.cargo.capacity;
            let mut mining = false;
            let mut m: usize = 0;
            while m < s.mounts.len()
                invariant
                    m <= s.mounts@.len(),
                    mining == exists|j: int| 0 <= j < m && (contains_text(s.mounts@[j].symbol@, "MINING"@) || contains_text(
                        s.mounts@[j].symbol@,
                        "LASER"@,
                    )),
                decreases s.mounts@.len() - m,
            {
                if has_text(s.mounts[m].symbol.as_str(), "MINING") || has_text(s.mounts[m].symbol.as_str(), "LASER") {
                    mining = true;
                }
                m = m + 1;
            }
            let mut refinery = false;
            let mut k: usize = 0;
            while k < s.modules.len()
                invariant
                    k <= s.modules@.len(),
                    refinery == exists|j: int| 0 <= j < k && contains_text(s.modules@[j].symbol@, "REFINERY"@),
                decreases s.modules@.len() - k,
            {
                if has_text(s.modules[k].symbol.as_str(), "REFINERY") {
                    refinery = true;
                }
                k = k + 1;
            }
            let ghost f = ships@.take(i as int).filter(|s: Ship| counts_as_refiner(s));
            let ghost before = refinery_ships@;
            if refinery {
                refiners = refiners + 1;
                refinery_ships.push(s.symbol.clone());
                assert(texts(refinery_ships@) =~= texts(before).push(s.symbol@));
                assert(f.push(*s).map_values(|s: Ship| s.symbol@) =~= f.map_values(|s: Ship| s.symbol@).push(s.symbol@));
            } else if mining {
                miners = miners + 1;
            } else if s.cargo.capacity >= 30 {
                haulers = haulers + 1;
            }
            i = i + 1;
        }
        assert(ships@.take(i as int) =~= ships@);
        FleetCapabilities {
            active_miners: miners,
            active_haulers: haulers,
            active_refiners: refiners,
            total_cargo_capacity: capacity,
            ships_with_refinery: refinery_ships,
        }
    }

    /// The role goals that close the gap between what the contract asks and what the fleet
    /// has: one urgent refiner goal per missing refiner when refining is needed, then one
    /// economic hauler goal when hauling is needed and haulers are missing.
    pub fn generate_required_ship_roles(&self, requirements: &ContractRequirements, fleet: &FleetCapabilities) -> (r:
        Vec<RoleGoal>)
        requires
            requirements.requires_refining && fleet.active_refiners < requirements.recommended_ships.refiners_needed
                ==> requirements.recommended_ships.refiners_needed - fleet.active_refiners <= i32::MAX,
        ensures
            r@.len() == refiner_gap(*requirements, *fleet) + hauler_gap(*requirements, *fleet),
            forall|i: int| 0 <= i < r@.len() ==> is_gap_goal(#[trigger] r@[i], *requirements, *fleet, i),
    {
        let mut goals: Vec<RoleGoal> = Vec::new();
        let needed = requirements.recommended_ships.refiners_needed;
        let rc: i32 = if requirements.requires_refining && fleet.active_refiners < needed {
            needed - fleet.active_refiners
        } else {
            0
        };
        let mut i: i32 = 0;
        while i < rc
            invariant
                0 <= i <= rc,
                rc == refiner_gap(*requirements, *fleet),
                goals@.len() == i,
                forall|j: int| 0 <= j < goals@.len() ==> is_gap_goal(#[trigger] goals@[j], *requirements, *fleet, j),
            decreases rc - i,
        {
            let g = role_goal("refiner", requirements.contract_id.as_str(), i as u32, GoalPriority::Urgent);
            proof {
                reveal_strlit("refiner");
            }
            goals.push(g);
            i = i + 1;
        }
        if requirements.requires_hauling && fleet.active_haulers < requirements.recommended_ships.haulers_needed {
            let g = role_goal("hauler", requirements.contract_id.as_str(), 0, GoalPriority::Economic);
            proof {
                reveal_strlit("hauler");
            }
            goals.push(g);
        }
        goals
    }
}

/// A mining contract calls for one to three miners, and a refining contract for one or two
/// refiners.
pub proof fn law_recommended_counts_bounded(total_units: int)
    ensures
        1 <= miners_for(total_units, true) <= 3,
        1 <= refiners_for(total_units, true) <= 2,
        miners_for(total_units, false) == 0,
        refiners_for(total_units, false) == 0,
{
}

/// What a contract's delivery terms call for, term by term: mining is needed exactly when some
/// raw material is to be mined, and refining exactly when some metal is to be refined; every
/// ore delivered is mined; every metal the refining table yields is refined and its ore mined;
/// every other good is hauled.
pub proof fn law_needs_follow_terms(d: Seq<Delivery>, n: int)
    requires
        0 <= n <= d.len(),
    ensures
        needs_prefix(d, n).mining <==> needs_prefix(d, n).raw.len() > 0,
        needs_prefix(d, n).refining <==> needs_prefix(d, n).refined.len() > 0,
        forall|j: int| 0 <= j < n && ends_with_text(#[trigger] d[j].trade_symbol@, "_ORE"@)
            ==> needs_prefix(d, n).mining && needs_prefix(d, n).raw.contains(d[j].trade_symbol@),
        forall|j: int| 0 <= j < n && !ends_with_text(#[trigger] d[j].trade_symbol@, "_ORE"@)
            && ore_for(refining_table(), d[j].trade_symbol@) is Some ==> {
                &&& needs_prefix(d, n).mining
                &&& needs_prefix(d, n).refining
                &&& needs_prefix(d, n).raw.contains(ore_for(refining_table(), d[j].trade_symbol@)->0)
                &&& needs_prefix(d, n).refined.contains(d[j].trade_symbol@)
            },
        forall|j: int| 0 <= j < n && !ends_with_text(#[trigger] d[j].trade_symbol@, "_ORE"@)
            && ore_for(refining_table(), d[j].trade_symbol@) is None ==> needs_prefix(d, n).hauling,
    decreases n,
{
    if n > 0 {
        law_needs_follow_terms(d, n - 1);
        let prev = needs_prefix(d, n - 1);
        let cur = needs_prefix(d, n);
        let m = d[n - 1].trade_symbol@;
        assert(cur == needs_step(prev, m));
        assert forall|x: Seq<char>| prev.raw.contains(x) implies cur.raw.contains(x) by {
            let i = choose|i: int| 0 <= i < prev.raw.len() && prev.raw[i] == x;
            if cur.raw.len() > prev.raw.len() {
                assert(cur.raw[i] == x);
            }
        }
        assert forall|x: Seq<char>| prev.refined.contains(x) implies cur.refined.contains(x) by {
            let i = choose|i: int| 0 <= i < prev.refined.len() && prev.refined[i] == x;
            if cur.refined.len() > prev.refined.len() {
                assert(cur.refined[i] == x);
            }
        }
        if ends_with_text(m, "_ORE"@) {
            assert(cur.raw[cur.raw.len() - 1] == m);
        } else {
            match ore_for(refining_table(), m) {
                Some(ore) => {
                    assert(cur.refined[cur.refined.len() - 1] == m);
                    if !prev.raw.contains(ore) {
                        assert(cur.raw[cur.raw.len() - 1] == ore);
                    }
                },
                None => {},
            }
        }
    }
}

} // verus!
