//! An iron ore campaign: which ships mine, where, with which survey, and when the campaign
//! ends.
use vstd::prelude::*;
use vstd::string::*;
use crate::model::{Ship, Module, Survey};
use crate::seqs::lemma_filter_step;
use crate::text::{text_eq, has_text, contains_text, texts, holds_text};

verus! {

/// The rounds a campaign makes at most.
pub open spec fn max_rounds() -> int {
    50
}

/// The module counts as mining equipment: a mining laser, a surveyor, anything for mining, or a
/// mineral processor.
pub open spec fn mining_module(m: Module) -> bool {
    ||| contains_text(m.symbol@, "MINING_LASER"@)
    ||| contains_text(m.symbol@, "SURVEYOR"@)
    ||| contains_text(m.symbol@, "MINING"@)
    ||| contains_text(m.symbol@, "MINERAL_PROCESSOR"@)
}

/// The ship has mining equipment among its modules.
pub open spec fn has_equipment(s: Ship) -> bool {
    exists|i: int| 0 <= i < s.modules@.len() && mining_module(s.modules@[i])
}

/// The ship mines in the campaign: it has mining equipment and room in its hold.
pub open spec fn campaign_miner(s: Ship) -> bool {
    has_equipment(s) && s.cargo.units < s.cargo.capacity
}

/// The survey found iron ore.
pub open spec fn finds_iron(s: Survey) -> bool {
    exists|i: int| 0 <= i < s.deposits@.len() && s.deposits@[i].symbol@ == "IRON_ORE"@
}

/// The iron ore an extraction yielded: its units when it yielded iron ore, else none.
pub fn iron_ore_yield(symbol: &str, units: i32) -> (r: i32)
    ensures
        r == (if symbol@ == "IRON_ORE"@ {
            units
        } else {
            0
        }),
{
    if text_eq(symbol, "IRON_ORE") {
        units
    } else {
        0
    }
}

/// Mines iron ore until a target amount is reached.
pub struct IronOreMiner {
    target_ore_amount: i32,
    mining_sites: Vec<String>,
}

impl IronOreMiner {
    /// The units of ore to mine.
    pub closed spec fn target(&self) -> int {
        self.target_ore_amount as int
    }

    /// The known mining sites, in order of preference.
    pub closed spec fn sites(&self) -> Seq<Seq<char>> {
        texts(self.mining_sites@)
    }

    /// A campaign for `target_ore_amount` units at the known iron ore site.
    pub fn new(target_ore_amount: i32) -> (r: Self)
        ensures
            r.target() == target_ore_amount,
            r.sites() == seq!["X1-N5-B7"@],
    {
        let mut mining_sites: Vec<String> = Vec::new();
        mining_sites.push(String::from_str("X1-N5-B7"));
        let r = IronOreMiner { target_ore_amount, mining_sites };
        assert(r.sites() =~= seq!["X1-N5-B7"@]);
        r
    }

    /// The units of ore to mine.
    pub fn target_ore_amount(&self) -> (r: i32)
        ensures
            r == self.target(),
    {
        self.target_ore_amount
    }

    /// Whether the ship has mining equipment among its modules.
    pub fn has_mining_equipment(&self, ship: &Ship) -> (r: bool)
        ensures
            r == has_equipment(*ship),
    {
        let mut i: usize = 0;
        while i < ship.modules.len()
            invariant
                i <= ship.modules@.len(),
                forall|j: int| 0 <= j < i ==> !mining_module(#[trigger] ship.modules@[j]),
            decreases ship.modules@.len() - i,
        {
            let s = ship.modules[i].symbol.as_str();
            if has_text(s, "MINING_LASER") || has_text(s, "SURVEYOR") || has_text(s, "MINING") || has_text(
                s,
                "MINERAL_PROCESSOR",
            ) {
                return true;
            }
            i = i + 1;
        }
        false
    }

    /// The ships that mine in the campaign, in fleet order: those with mining equipment and
    /// room in their hold.
    pub fn find_mining_capable_ships(&self, ships: &[Ship]) -> (r: Vec<String>)
        ensures
            texts(r@) == ships@.filter(|s: Ship| campaign_miner(s)).map_values(|s: Ship| s.symbol@),
    {
        let mut r: Vec<String> = Vec::new();
        let mut i: usize = 0;
        while i < ships.len()
            invariant
                i <= ships@.len(),
                texts(r@) == ships@.take(i as int).filter(|s: Ship| campaign_miner(s)).map_values(|s: Ship| s.symbol@),
            decreases ships@.len() - i,
        {
            proof {
                lemma_filter_step(ships@, |s: Ship| campaign_miner(s), i as int);
            }
            let ghost f = ships@.take(i as int).filter(|s: Ship| campaign_miner(s));
            let ghost before = r@;
            if self.has_mining_equipment(&ships[i]) && ships[i].cargo.units < ships[i].cargo.capacity {
                r.push(ships[i].symbol.clone());
                assert(texts(r@) =~= texts(before).push(ships@[i as int].symbol@));
                assert(f.push(ships@[i as int]).map_values(|s: Ship| s.symbol@) =~= f.map_values(|s: Ship| s.symbol@).push(
                    ships@[i as int].symbol@,
                ));
            }
            i = i + 1;
        }
        assert(ships@.take(i as int) =~= ships@);
        r
    }

    /// Where a ship mines: where it is when that is a known site, else the first known site
    /// (the iron ore site when none is known).
    pub fn find_best_mining_site(&self, current_location: &str) -> (r: String)
        ensures
            r@ == (if self.sites().contains(current_location@) {
                current_location@
            } else if self.sites().len() > 0 {
                self.sites()[0]
            } else {
                "X1-N5-B7"@
            }),
    {
        if holds_text(&self.mining_sites, current_location) {
            String::from_str(current_location)
        } else if self.mining_sites.len() > 0 {
            self.mining_sites[0].clone()
        } else {
            String::from_str("X1-N5-B7")
        }
    }

    /// The first survey that found iron ore.
    pub fn find_best_iron_ore_survey<'a>(&self, surveys: &'a [Survey]) -> (r: Option<&'a Survey>)
        ensures
            r matches Some(s) ==> exists|i: int|
                0 <= i < surveys@.len() && surveys@[i] == *s && finds_iron(*s) && forall|j: int|
                    0 <= j < i ==> !finds_iron(#[trigger] surveys@[j]),
            r is None ==> forall|j: int| 0 <= j < surveys@.len() ==> !finds_iron(#[trigger] surveys@[j]),
    {
        let mut i: usize = 0;
        while i < surveys.len()
            invariant
                i <= surveys@.len(),
                forall|j: int| 0 <= j < i ==> !finds_iron(#[trigger] surveys@[j]),
            decreases surveys@.len() - i,
        {
            let s = &surveys[i];
            let mut found = false;
            let mut k: usize = 0;
            while k < s.deposits.len()
                invariant
                    k <= s.deposits@.len(),
                    found == exists|j: int| 0 <= j < k && s.deposits@[j].symbol@ == "IRON_ORE"@,
                decreases s.deposits@.len() - k,
            {
                if text_eq(s.deposits[k].symbol.as_str(), "IRON_ORE") {
                    found = true;
                }
                k = k + 1;
            }
            if found {
                return Some(s);
            }
            i = i + 1;
        }
        None
    }
}

/// How far an iron ore campaign has come.
#[derive(Clone, Copy, Debug)]
pub struct MiningCampaign {
    pub target: i32,
    pub total_mined: i32,
    pub rounds: i32,
}

impl MiningCampaign {
    /// A campaign counts its rounds up to the limit.
    pub open spec fn wf(self) -> bool {
        0 <= self.rounds <= max_rounds()
    }

    /// A campaign for `target` units, with nothing mined yet.
    pub fn start(target: i32) -> (r: Self)
        ensures
            r.wf(),
            r.target == target && r.total_mined == 0 && r.rounds == 0,
    {
        MiningCampaign { target, total_mined: 0, rounds: 0 }
    }

    /// Whether another round is made: the target is not reached and fewer than 50 rounds were.
    pub fn wants_round(&self) -> (r: bool)
        ensures
            r == (self.total_mined < self.target && self.rounds < max_rounds()),
    {
        self.total_mined < self.target && self.rounds < 50
    }

    /// Starts a round.
    pub fn begin_round(&mut self)
        requires
            old(self).wf(),
            old(self).rounds < max_rounds(),
        ensures
            final(self).wf(),
            final(self).rounds == old(self).rounds + 1,
            final(self).target == old(self).target,
            final(self).total_mined == old(self).total_mined,
    {
        self.rounds = self.rounds + 1;
    }

    /// Whether a ship still mines in this round: the target is not reached.
    pub fn wants_ship(&self) -> (r: bool)
        ensures
            r == (self.total_mined < self.target),
    {
        self.total_mined < self.target
    }

    /// Adds what a ship mined.
    pub fn record(&mut self, ore: i32)
        requires
            i32::MIN <= old(self).total_mined + ore <= i32::MAX,
        ensures
            final(self).total_mined == old(self).total_mined + ore,
            final(self).target == old(self).target,
            final(self).rounds == old(self).rounds,
    {
        self.total_mined = self.total_mined + ore;
    }

    /// Whether the campaign reached its target.
    pub fn succeeded(&self) -> (r: bool)
        ensures
            r == (self.total_mined >= self.target),
    {
        self.total_mined >= self.target
    }
}

} // verus!
