//! The game's data as the fleet logic reads it: ships, waypoints, contracts, surveys and markets.
use vstd::prelude::*;
use crate::text::text_eq;

verus! {

/// A trait of a waypoint (MARKETPLACE, SHIPYARD, COMMON_METAL_DEPOSITS, ...).
#[derive(Clone, Debug)]
pub struct Trait {
    pub symbol: String,
    pub name: String,
    pub description: String,
}

/// A location within a star system.
#[derive(Clone, Debug)]
pub struct Waypoint {
    pub symbol: String,
    pub waypoint_type: String,
    pub system_symbol: String,
    pub x: i32,
    pub y: i32,
    pub traits: Vec<Trait>,
    /// The symbol of the faction that controls the waypoint, if any.
    pub faction: Option<String>,
}

/// A mount fitted to a ship (mining laser, surveyor, ...).
#[derive(Clone, Debug)]
pub struct Mount {
    pub symbol: String,
    pub name: String,
    pub strength: Option<i32>,
}

/// A module installed in a ship (cargo hold, refinery, ...).
#[derive(Clone, Debug)]
pub struct Module {
    pub symbol: String,
    pub name: String,
}

/// A stack of one good in a cargo hold.
#[derive(Clone, Debug)]
pub struct CargoItem {
    pub symbol: String,
    pub name: String,
    pub units: i32,
}

/// A ship's cargo hold.
#[derive(Clone, Debug)]
pub struct Cargo {
    pub capacity: i32,
    pub units: i32,
    pub inventory: Vec<CargoItem>,
}

/// A ship's fuel tank.
#[derive(Clone, Debug)]
pub struct Fuel {
    pub current: i32,
    pub capacity: i32,
}

/// One end of a ship's route.
#[derive(Clone, Debug)]
pub struct RouteWaypoint {
    pub symbol: String,
    pub x: i32,
    pub y: i32,
}

/// A ship's current route.
#[derive(Clone, Debug)]
pub struct Route {
    pub destination: RouteWaypoint,
    /// Arrival time, in RFC 3339.
    pub arrival: String,
}

/// Where a ship is and what it is doing (DOCKED, IN_ORBIT, IN_TRANSIT).
#[derive(Clone, Debug)]
pub struct Nav {
    pub system_symbol: String,
    pub waypoint_symbol: String,
    pub status: String,
    pub route: Route,
}

/// A ship's frame.
#[derive(Clone, Debug)]
pub struct Frame {
    pub symbol: String,
    pub module_slots: i32,
    pub mounting_points: i32,
}

/// A ship's registration.
#[derive(Clone, Debug)]
pub struct Registration {
    pub role: String,
}

/// A ship of the fleet.
#[derive(Clone, Debug)]
pub struct Ship {
    pub symbol: String,
    pub registration: Registration,
    pub nav: Nav,
    pub frame: Frame,
    pub mounts: Vec<Mount>,
    pub modules: Vec<Module>,
    pub cargo: Cargo,
    pub fuel: Fuel,
}

/// One delivery term of a contract.
#[derive(Clone, Debug)]
pub struct Delivery {
    pub trade_symbol: String,
    pub destination_symbol: String,
    pub units_required: i32,
    pub units_fulfilled: i32,
}

/// What a contract pays.
#[derive(Clone, Debug)]
pub struct Payment {
    pub on_accepted: i64,
    pub on_fulfilled: i64,
}

/// The terms of a contract.
#[derive(Clone, Debug)]
pub struct Terms {
    pub payment: Payment,
    pub deliver: Vec<Delivery>,
}

/// A faction contract.
#[derive(Clone, Debug)]
pub struct Contract {
    pub id: String,
    pub faction_symbol: String,
    pub contract_type: String,
    pub accepted: bool,
    pub fulfilled: bool,
    pub deadline_to_accept: String,
    pub terms: Terms,
}

/// A deposit found by a survey.
#[derive(Clone, Debug)]
pub struct Deposit {
    pub symbol: String,
}

/// A survey of a waypoint's deposits.
#[derive(Clone, Debug)]
pub struct Survey {
    pub signature: String,
    pub symbol: String,
    pub deposits: Vec<Deposit>,
    pub expiration: String,
    pub size: String,
}

impl Survey {
    /// A copy of this survey with the same signature, waypoint, deposits, expiry and size.
    pub fn duplicate(&self) -> (r: Survey)
        ensures
            same_survey(r, *self),
    {
        let mut deposits: Vec<Deposit> = Vec::new();
        let mut i: usize = 0;
        while i < self.deposits.len()
            invariant
                i <= self.deposits@.len(),
                deposits@ == self.deposits@.take(i as int),
            decreases self.deposits@.len() - i,
        {
            deposits.push(Deposit { symbol: self.deposits[i].symbol.clone() });
            assert(deposits@ =~= self.deposits@.take(i + 1));
            i = i + 1;
        }
        assert(deposits@ =~= self.deposits@);
        Survey {
            signature: self.signature.clone(),
            symbol: self.symbol.clone(),
            deposits,
            expiration: self.expiration.clone(),
            size: self.size.clone(),
        }
    }
}

/// A copy of the traits in `v`, equal to them.
pub fn copy_traits(v: &Vec<Trait>) -> (r: Vec<Trait>)
    ensures
        r@ == v@,
{
    let mut r: Vec<Trait> = Vec::new();
    let mut i: usize = 0;
    while i < v.len()
        invariant
            i <= v@.len(),
            r@ == v@.take(i as int),
        decreases v@.len() - i,
    {
        r.push(Trait { symbol: v[i].symbol.clone(), name: v[i].name.clone(), description: v[i].description.clone() });
        assert(r@ =~= v@.take(i + 1));
        i = i + 1;
    }
    assert(r@ =~= v@);
    r
}

/// The two surveys have the same signature, waypoint, deposits, expiry and size.
pub open spec fn same_survey(a: Survey, b: Survey) -> bool {
    &&& a.signature@ == b.signature@
    &&& a.symbol@ == b.symbol@
    &&& a.deposits@ == b.deposits@
    &&& a.expiration@ == b.expiration@
    &&& a.size@ == b.size@
}

/// A good named in a market's import, export or exchange list.
#[derive(Clone, Debug)]
pub struct TradeGood {
    pub symbol: String,
}

/// A good offered at a market, with its prices.
#[derive(Clone, Debug)]
pub struct MarketTradeGood {
    pub symbol: String,
    pub trade_volume: i32,
    pub purchase_price: i32,
    pub sell_price: i32,
}

/// A marketplace.
#[derive(Clone, Debug)]
pub struct Market {
    pub symbol: String,
    pub imports: Vec<TradeGood>,
    pub exports: Vec<TradeGood>,
    pub exchange: Vec<TradeGood>,
    pub trade_goods: Option<Vec<MarketTradeGood>>,
}

// ---- spec helpers over the model ----

/// `w` has a trait whose symbol is `t`.
pub open spec fn waypoint_has_trait(w: Waypoint, t: Seq<char>) -> bool {
    exists|i: int| 0 <= i < w.traits@.len() && w.traits@[i].symbol@ == t
}

/// `s` is one of the strings of `list`.
pub open spec fn is_listed(list: Seq<String>, s: Seq<char>) -> bool {
    exists|i: int| 0 <= i < list.len() && list[i]@ == s
}

/// Sum of units required over the first `n` delivery terms.
pub open spec fn required_prefix(d: Seq<Delivery>, n: int) -> int
    decreases n,
{
    if n <= 0 || n > d.len() {
        0
    } else {
        required_prefix(d, n - 1) + d[n - 1].units_required
    }
}

/// Sum of units fulfilled over the first `n` delivery terms.
pub open spec fn fulfilled_prefix(d: Seq<Delivery>, n: int) -> int
    decreases n,
{
    if n <= 0 || n > d.len() {
        0
    } else {
        fulfilled_prefix(d, n - 1) + d[n - 1].units_fulfilled
    }
}

/// Total units required by a contract's delivery terms.
pub open spec fn total_required(c: Contract) -> int {
    required_prefix(c.terms.deliver@, c.terms.deliver@.len() as int)
}

/// Total units already fulfilled on a contract's delivery terms.
pub open spec fn total_fulfilled(c: Contract) -> int {
    fulfilled_prefix(c.terms.deliver@, c.terms.deliver@.len() as int)
}

/// Sum of the units of the first `n` cargo items whose symbol is listed in `materials`.
pub open spec fn listed_units_prefix(inv: Seq<CargoItem>, materials: Seq<String>, n: int) -> int
    decreases n,
{
    if n <= 0 || n > inv.len() {
        0
    } else {
        listed_units_prefix(inv, materials, n - 1) + if is_listed(materials, inv[n - 1].symbol@) {
            inv[n - 1].units as int
        } else {
            0int
        }
    }
}

/// Units of listed materials in a cargo hold.
pub open spec fn listed_units(inv: Seq<CargoItem>, materials: Seq<String>) -> int {
    listed_units_prefix(inv, materials, inv.len() as int)
}

/// `i` is the position of the first ship of `ships` whose symbol is `symbol`.
pub open spec fn first_ship_with_symbol(ships: Seq<Ship>, symbol: Seq<char>, i: int) -> bool {
    0 <= i < ships.len() && ships[i].symbol@ == symbol && forall|j: int| 0 <= j < i ==> ships[j].symbol@ != symbol
}

/// Whether the waypoint has a trait whose symbol is `t`.
pub fn has_trait(w: &Waypoint, t: &str) -> (r: bool)
    ensures
        r == waypoint_has_trait(*w, t@),
{
    let mut i: usize = 0;
    while i < w.traits.len()
        invariant
            i <= w.traits@.len(),
            forall|j: int| 0 <= j < i ==> w.traits@[j].symbol@ != t@,
        decreases w.traits@.len() - i,
    {
        if text_eq(w.traits[i].symbol.as_str(), t) {
            return true;
        }
        i = i + 1;
    }
    false
}

/// The first ship of `ships` whose symbol is `symbol`.
pub fn find_ship<'a>(ships: &'a [Ship], symbol: &str) -> (r: Option<&'a Ship>)
    ensures
        match r {
            Some(s) => exists|i: int| first_ship_with_symbol(ships@, symbol@, i) && ships@[i] == *s,
            None => forall|j: int| 0 <= j < ships@.len() ==> ships@[j].symbol@ != symbol@,
        },
{
    let mut i: usize = 0;
    while i < ships.len()
        invariant
            i <= ships@.len(),
            forall|j: int| 0 <= j < i ==> ships@[j].symbol@ != symbol@,
        decreases ships@.len() - i,
    {
        if text_eq(ships[i].symbol.as_str(), symbol) {
            assert(first_ship_with_symbol(ships@, symbol@, i as int));
            return Some(&ships[i]);
        }
        i = i + 1;
    }
    None
}

} // verus!
