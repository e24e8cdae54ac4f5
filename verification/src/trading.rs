//! Selling cargo: what may be sold where, retries under rate limits, and the tally of a selling
//! round.
use vstd::prelude::*;
use crate::model::{Ship, CargoItem, Market, TradeGood, Waypoint, is_listed};
use crate::seqs::lemma_filter_step;
use crate::text::{text_eq, has_text, contains_text, list_contains, lowercase, to_lowercase};

verus! {

/// The good is named in the list.
pub open spec fn names_good(list: Seq<TradeGood>, symbol: Seq<char>) -> bool {
    exists|i: int| 0 <= i < list.len() && list[i].symbol@ == symbol
}

/// A market buys a good when it imports or exchanges it.
pub open spec fn accepts(m: Market, symbol: Seq<char>) -> bool {
    names_good(m.imports@, symbol) || names_good(m.exchange@, symbol)
}

fn names(list: &Vec<TradeGood>, symbol: &str) -> (r: bool)
    ensures
        r == names_good(list@, symbol@),
{
    let mut i: usize = 0;
    while i < list.len()
        invariant
            i <= list@.len(),
            forall|j: int| 0 <= j < i ==> list@[j].symbol@ != symbol@,
        decreases list@.len() - i,
    {
        if text_eq(list[i].symbol.as_str(), symbol) {
            return true;
        }
        i = i + 1;
    }
    false
}

/// The cargo item is kept for the contract.
pub open spec fn reserved(it: CargoItem, contract_materials: Seq<String>) -> bool {
    is_listed(contract_materials, it.symbol@)
}

/// The cargo item may be offered at the market: it is not kept for the contract, and the market
/// buys it, or the market could not be read (then the sale is tried anyway).
pub open spec fn offered(it: CargoItem, contract_materials: Seq<String>, market: Option<&Market>) -> bool {
    !reserved(it, contract_materials) && match market {
        Some(m) => accepts(*m, it.symbol@),
        None => true,
    }
}

/// The waypoint has a trait whose name, lowercased, mentions a marketplace.
pub open spec fn has_marketplace_trait(w: Waypoint) -> bool {
    exists|i: int| 0 <= i < w.traits@.len() && contains_text(lowercase(w.traits@[i].name@), "marketplace"@)
}

/// What one ship does in a selling round.
#[derive(Clone, Debug)]
pub struct SalePlan<'b> {
    /// The stacks to sell, in hold order.
    pub items: Vec<&'b CargoItem>,
    /// The ship must dock first.
    pub dock_first: bool,
    /// The ship goes back to orbit after selling.
    pub orbit_after: bool,
}

/// The counts of a selling round.
#[derive(Clone, Copy, Debug)]
pub struct SalesTally {
    pub total_revenue: i64,
    pub items_sold: i32,
    pub attempts: i32,
    pub successes: i32,
    pub failures: i32,
}

/// How a selling round went.
#[derive(Clone, Copy, Debug, PartialEq, Eq)]
pub enum SalesOutcome {
    /// Some sale brought revenue.
    Revenue,
    /// Sales were tried and none brought revenue.
    NoRevenue,
    /// Nothing was offered for sale.
    NothingTried,
}

impl SalesTally {
    /// Every attempt ended in exactly one success or failure.
    pub open spec fn wf(self) -> bool {
        self.attempts == self.successes + self.failures && 0 <= self.successes && 0 <= self.failures
    }

    /// A tally with nothing counted.
    pub fn new() -> (r: Self)
        ensures
            r.wf(),
            r.total_revenue == 0 && r.items_sold == 0 && r.attempts == 0 && r.successes == 0 && r.failures == 0,
    {
        SalesTally { total_revenue: 0, items_sold: 0, attempts: 0, successes: 0, failures: 0 }
    }

    /// Counts a sale that brought `total_price` credits for `units` units.
    pub fn record_sale(&mut self, total_price: i64, units: i32)
        requires
            old(self).wf(),
            i64::MIN <= old(self).total_revenue + total_price <= i64::MAX,
            i32::MIN <= old(self).items_sold + units <= i32::MAX,
            old(self).attempts < i32::MAX,
        ensures
            final(self).wf(),
            final(self).total_revenue == old(self).total_revenue + total_price,
            final(self).items_sold == old(self).items_sold + units,
            final(self).attempts == old(self).attempts + 1,
            final(self).successes == old(self).successes + 1,
            final(self).failures == old(self).failures,
    {
        self.total_revenue = self.total_revenue + total_price;
        self.items_sold = self.items_sold + units;
        self.attempts = self.attempts + 1;
        self.successes = self.successes + 1;
    }

    /// Counts a sale that failed.
    pub fn record_failure(&mut self)
        requires
            old(self).wf(),
            old(self).attempts < i32::MAX,
        ensures
            final(self).wf(),
            final(self).total_revenue == old(self).total_revenue,
            final(self).items_sold == old(self).items_sold,
            final(self).attempts == old(self).attempts + 1,
            final(self).successes == old(self).successes,
            final(self).failures == old(self).failures + 1,
    {
        self.attempts = self.attempts + 1;
        self.failures = self.failures + 1;
    }

    /// Revenue per unit sold (rounded toward zero), when any unit was sold.
    pub fn average_price_per_unit(&self) -> (r: Option<i64>)
        ensures
            r == (if self.items_sold > 0 {
                Some(crate::contracts::div_toward_zero(self.total_revenue as int, self.items_sold as int) as i64)
            } else {
                None
            }),
    {
        if self.items_sold > 0 {
            let n = self.items_sold as i64;
            if self.total_revenue >= 0 {
                Some(self.total_revenue / n)
            } else {
                let a: i128 = -(self.total_revenue as i128);
                let q: i128 = a / (n as i128);
                assert(q <= a) by (nonlinear_arith)
                    requires
                        a >= 0,
                        n >= 1,
                        q == (a as int) / (n as int),
                ;
                Some((-q) as i64)
            }
        } else {
            None
        }
    }

    /// How the round went: revenue when a sale succeeded and the revenue is positive; else no
    /// revenue when anything was tried; else nothing tried.
    pub fn outcome(&self) -> (r: SalesOutcome)
        ensures
            r == (if self.successes > 0 && self.total_revenue > 0 {
                SalesOutcome::Revenue
            } else if self.attempts > 0 {
                SalesOutcome::NoRevenue
            } else {
                SalesOutcome::NothingTried
            }),
    {
        if self.successes > 0 && self.total_revenue > 0 {
            SalesOutcome::Revenue
        } else if self.attempts > 0 {
            SalesOutcome::NoRevenue
        } else {
            SalesOutcome::NothingTried
        }
    }
}

/// Whether a failed sale is tried again: on a rate-limit error ("429") while fewer than three
/// retries were made.
pub fn should_retry_sale(message: &str, retries: u32) -> (r: bool)
    ensures
        r == (contains_text(message@, "429"@) && retries < 3),
{
    has_text(message, "429") && retries < 3
}

/// Trading operations.
pub struct TradingOperations {}

impl TradingOperations {
    pub fn new() -> (r: Self) {
        TradingOperations {}
    }

    /// Whether the market buys the good: it imports or exchanges it.
    pub fn market_accepts_trade(&self, market: &Market, trade_symbol: &str) -> (r: bool)
        ensures
            r == accepts(*market, trade_symbol@),
    {
        names(&market.imports, trade_symbol) || names(&market.exchange, trade_symbol)
    }

    /// Splits the hold into the stacks kept for the contract and the rest, each in hold order.
    pub fn categorize_cargo<'b>(&self, ship: &'b Ship, contract_materials: &[String]) -> (r: (Vec<&'b CargoItem>, Vec<&'b CargoItem>))
        ensures
            r.0@.map_values(|it: &CargoItem| *it) == ship.cargo.inventory@.filter(
                |it: CargoItem| reserved(it, contract_materials@),
            ),
            r.1@.map_values(|it: &CargoItem| *it) == unreserved_stacks(ship.cargo.inventory@, contract_materials@),
    {
        let inv = &ship.cargo.inventory;
        let mut kept: Vec<&'b CargoItem> = Vec::new();
        let mut rest: Vec<&'b CargoItem> = Vec::new();
        let mut i: usize = 0;
        while i < inv.len()
            invariant
                i <= inv@.len(),
                inv@ == ship.cargo.inventory@,
                kept@.map_values(|it: &CargoItem| *it) == inv@.take(i as int).filter(
                    |it: CargoItem| reserved(it, contract_materials@),
                ),
                rest@.map_values(|it: &CargoItem| *it) == inv@.take(i as int).filter(
                    |it: CargoItem| !reserved(it, contract_materials@),
                ),
            decreases inv@.len() - i,
        {
            proof {
                lemma_filter_step(inv@, |it: CargoItem| reserved(it, contract_materials@), i as int);
                lemma_filter_step(inv@, |it: CargoItem| !reserved(it, contract_materials@), i as int);
            }
            if list_contains(contract_materials, inv[i].symbol.as_str()) {
                kept.push(&inv[i]);
            } else {
                rest.push(&inv[i]);
            }
            assert(kept@.map_values(|it: &CargoItem| *it) =~= inv@.take(i + 1).filter(
                |it: CargoItem| reserved(it, contract_materials@),
            ));
            assert(rest@.map_values(|it: &CargoItem| *it) =~= inv@.take(i + 1).filter(
                |it: CargoItem| !reserved(it, contract_materials@),
            ));
            i = i + 1;
        }
        assert(inv@.take(i as int) =~= inv@);
        (kept, rest)
    }

    /// The stacks of the hold to offer at the ship's market, in hold order: those not kept for
    /// the contract that the market buys, or all of those when the market could not be read.
    pub fn get_sellable_items_at_market<'b>(
        &self,
        ship: &'b Ship,
        contract_materials: &[String],
        market: Option<&Market>,
    ) -> (r: Vec<&'b CargoItem>)
        ensures
            r@.map_values(|it: &CargoItem| *it) == offered_stacks(ship.cargo.inventory@, contract_materials@, market),
    {
        let inv = &ship.cargo.inventory;
        let mut r: Vec<&'b CargoItem> = Vec::new();
        let mut i: usize = 0;
        while i < inv.len()
            invariant
                i <= inv@.len(),
                inv@ == ship.cargo.inventory@,
                r@.map_values(|it: &CargoItem| *it) == inv@.take(i as int).filter(
                    |it: CargoItem| offered(it, contract_materials@, market),
                ),
            decreases inv@.len() - i,
        {
            proof {
                lemma_filter_step(inv@, |it: CargoItem| offered(it, contract_materials@, market), i as int);
            }
            if !list_contains(contract_materials, inv[i].symbol.as_str()) {
                let take = match market {
                    Some(m) => self.market_accepts_trade(m, inv[i].symbol.as_str()),
                    None => true,
                };
                if take {
                    r.push(&inv[i]);
                }
            }
            assert(r@.map_values(|it: &CargoItem| *it) =~= inv@.take(i + 1).filter(
                |it: CargoItem| offered(it, contract_materials@, market),
            ));
            i = i + 1;
        }
        assert(inv@.take(i as int) =~= inv@);
        r
    }

    /// What a ship does in a selling round at its current market (`market` is `None` when it
    /// could not be read): nothing when its hold is empty or nothing may be offered; else it
    /// sells the offered stacks, docking first unless docked, and goes back to orbit after
    /// selling.
    pub fn plan_sale<'b>(&self, ship: &'b Ship, contract_materials: &[String], market: Option<&Market>) -> (r: Option<
        SalePlan<'b>,
    >)
        ensures
            r matches Some(p) ==> {
                &&& ship.cargo.units != 0
                &&& p.items@.len() > 0
                &&& p.items@.map_values(|it: &CargoItem| *it) == offered_stacks(ship.cargo.inventory@, contract_materials@, market)
                &&& p.dock_first == (ship.nav.status@ != "DOCKED"@)
                &&& p.orbit_after
            },
            r is None ==> ship.cargo.units == 0 || offered_stacks(ship.cargo.inventory@, contract_materials@, market).len() == 0,
    {
        if ship.cargo.units == 0 {
            return None;
        }
        let items = self.get_sellable_items_at_market(ship, contract_materials, market);
        if items.len() == 0 {
            return None;
        }
        let docked = text_eq(ship.nav.status.as_str(), "DOCKED");
        Some(SalePlan { items, dock_first: !docked, orbit_after: true })
    }

    /// The waypoints with a trait whose name, lowercased, mentions a marketplace, in order.
    pub fn analyze_market_opportunities<'b>(&self, waypoints: &'b [Waypoint]) -> (r: Vec<&'b Waypoint>)
        ensures
            r@.map_values(|w: &Waypoint| *w) == waypoints@.filter(|w: Waypoint| has_marketplace_trait(w)),
    {
        let mut r: Vec<&'b Waypoint> = Vec::new();
        let mut i: usize = 0;
        while i < waypoints.len()
            invariant
                i <= waypoints@.len(),
                r@.map_values(|w: &Waypoint| *w) == waypoints@.take(i as int).filter(|w: Waypoint| has_marketplace_trait(w)),
            decreases waypoints@.len() - i,
        {
            proof {
                lemma_filter_step(waypoints@, |w: Waypoint| has_marketplace_trait(w), i as int);
            }
            let w = &waypoints[i];
            let mut found = false;
            let mut k: usize = 0;
            while k < w.traits.len()
                invariant
                    k <= w.traits@.len(),
                    found == exists|j: int| 0 <= j < k && contains_text(lowercase(w.traits@[j].name@), "marketplace"@),
                decreases w.traits@.len() - k,
            {
                let name = to_lowercase(w.traits[k].name.as_str());
                if has_text(name.as_str(), "marketplace") {
                    found = true;
                }
                k = k + 1;
            }
            if found {
                r.push(w);
            }
            assert(r@.map_values(|w: &Waypoint| *w) =~= waypoints@.take(i + 1).filter(|w: Waypoint| has_marketplace_trait(w)));
            i = i + 1;
        }
        assert(waypoints@.take(i as int) =~= waypoints@);
        r
    }

    /// A rough profit estimate for selling a ship's cargo at a market `distance_to_market` away:
    /// 100 per kind of good carried, less 2 per unit of distance.
    pub fn calculate_profit_potential(&self, ship: &Ship, distance_to_market: i32) -> (r: i32)
        requires
            ship.cargo.inventory@.len() * 100 <= i32::MAX,
            i32::MIN <= distance_to_market * 2 <= i32::MAX,
            i32::MIN <= ship.cargo.inventory@.len() * 100 - distance_to_market * 2 <= i32::MAX,
        ensures
            r == ship.cargo.inventory@.len() * 100 - distance_to_market * 2,
    {
        let kinds = ship.cargo.inventory.len() as i32;
        kinds * 100 - distance_to_market * 2
    }
}

/// The stacks of `inventory` that may be offered at `market`, in hold order.
pub open spec fn offered_stacks(inventory: Seq<CargoItem>, contract_materials: Seq<String>, market: Option<&Market>) -> Seq<CargoItem> {
    inventory.filter(|it: CargoItem| offered(it, contract_materials, market))
}

/// The stacks of `inventory` not kept for the contract, in hold order.
pub open spec fn unreserved_stacks(inventory: Seq<CargoItem>, contract_materials: Seq<String>) -> Seq<CargoItem> {
    inventory.filter(|it: CargoItem| !reserved(it, contract_materials))
}

/// Cargo kept for the contract is never offered at a market, and never among the stacks that
/// the hold's split leaves to sell or jettison.
pub proof fn law_contract_cargo_is_kept(inventory: Seq<CargoItem>, contract_materials: Seq<String>, market: Option<&Market>)
    ensures
        forall|i: int| 0 <= i < offered_stacks(inventory, contract_materials, market).len()
            ==> !reserved(#[trigger] offered_stacks(inventory, contract_materials, market)[i], contract_materials),
        forall|i: int| 0 <= i < unreserved_stacks(inventory, contract_materials).len()
            ==> !reserved(#[trigger] unreserved_stacks(inventory, contract_materials)[i], contract_materials),
{
    broadcast use vstd::seq_lib::group_filter_ensures;

}

} // verus!
