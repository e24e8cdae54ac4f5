//! Buying manufactured contract goods at markets, and choosing ships for contract negotiation.
use vstd::prelude::*;
use crate::model::{Contract, Delivery, Ship, Market, MarketTradeGood, Waypoint};
use crate::contracts::{div_toward_zero, is_manufactured, is_manufactured_good};
use crate::text::{text_eq, has_text, contains_text};

verus! {

/// The highest price per unit the budget allows for `needed` units, or `None` when that is
/// under 100 credits and buying is not worth it.
pub fn purchase_budget(budget: i64, needed: i64) -> (r: Option<i64>)
    requires
        needed > 0,
    ensures
        r == (if div_toward_zero(budget as int, needed as int) >= 100 {
            Some(div_toward_zero(budget as int, needed as int) as i64)
        } else {
            None
        }),
{
    let max = if budget >= 0 {
        budget / needed
    } else {
        let a: i128 = -(budget as i128);
        let q: i128 = a / (needed as i128);
        assert(q <= a) by (nonlinear_arith)
            requires
                a >= 0,
                needed >= 1,
                q == (a as int) / (needed as int),
        ;
        (-q) as i64
    };
    if max >= 100 {
        Some(max)
    } else {
        None
    }
}

/// The ship has the given role and is not in transit.
pub open spec fn available_with_role(s: Ship, role: Seq<char>) -> bool {
    s.registration.role@ == role && s.nav.status@ != "IN_TRANSIT"@
}

/// `i` is the first ship of `ships` with the role that is not in transit.
pub open spec fn first_available(ships: Seq<Ship>, role: Seq<char>, i: int) -> bool {
    &&& 0 <= i < ships.len()
    &&& available_with_role(ships[i], role)
    &&& forall|j: int| 0 <= j < i ==> !available_with_role(#[trigger] ships[j], role)
}

/// No ship of `ships` with the role is free of transit.
pub open spec fn none_available(ships: Seq<Ship>, role: Seq<char>) -> bool {
    forall|j: int| 0 <= j < ships.len() ==> !available_with_role(#[trigger] ships[j], role)
}

/// The first ship with the role that is not in transit.
pub fn first_available_with_role(ships: &[Ship], role: &str) -> (r: Option<usize>)
    ensures
        r matches Some(i) ==> first_available(ships@, role@, i as int),
        r is None ==> none_available(ships@, role@),
{
    let mut i: usize = 0;
    while i < ships.len()
        invariant
            i <= ships@.len(),
            forall|j: int| 0 <= j < i ==> !available_with_role(#[trigger] ships@[j], role@),
        decreases ships@.len() - i,
    {
        if text_eq(ships[i].registration.role.as_str(), role) && !text_eq(ships[i].nav.status.as_str(), "IN_TRANSIT") {
            return Some(i);
        }
        i = i + 1;
    }
    None
}

/// The ship that scouts markets: the first satellite not in transit, else the first command
/// ship not in transit.
pub fn choose_scout(ships: &[Ship]) -> (r: Option<usize>)
    ensures
        r matches Some(i) ==> first_available(ships@, "SATELLITE"@, i as int) || (none_available(
            ships@,
            "SATELLITE"@,
        ) && first_available(ships@, "COMMAND"@, i as int)),
        r is None ==> none_available(ships@, "SATELLITE"@) && none_available(ships@, "COMMAND"@),
{
    match first_available_with_role(ships, "SATELLITE") {
        Some(i) => Some(i),
        None => first_available_with_role(ships, "COMMAND"),
    }
}

/// What a market asks for a good and how much of it it trades at once.
#[derive(Clone, Copy, Debug, PartialEq, Eq)]
pub struct MarketQuote {
    pub price: i32,
    pub volume: i32,
}

/// `i` is the first good of `goods` with the symbol.
pub open spec fn first_good(goods: Seq<MarketTradeGood>, symbol: Seq<char>, i: int) -> bool {
    &&& 0 <= i < goods.len()
    &&& goods[i].symbol@ == symbol
    &&& forall|j: int| 0 <= j < i ==> goods[j].symbol@ != symbol
}

/// The market's quote for a good: purchase price and trade volume of the first listing of it,
/// or `None` when the market lists no prices or not the good.
pub fn find_quote(market: &Market, good: &str) -> (r: Option<MarketQuote>)
    ensures
        r is Some ==> market.trade_goods is Some && exists|i: int|
            #[trigger] first_good(market.trade_goods->0@, good@, i) && r->0.price == market.trade_goods->0@[i].purchase_price
                && r->0.volume == market.trade_goods->0@[i].trade_volume,
        r is None && market.trade_goods is Some ==> forall|j: int|
            0 <= j < market.trade_goods->0@.len() ==> market.trade_goods->0@[j].symbol@ != good@,
{
    match &market.trade_goods {
        None => None,
        Some(goods) => {
            let mut i: usize = 0;
            while i < goods.len()
                invariant
                    i <= goods@.len(),
                    market.trade_goods == Some(*goods),
                    forall|j: int| 0 <= j < i ==> goods@[j].symbol@ != good@,
                decreases goods@.len() - i,
            {
                if text_eq(goods[i].symbol.as_str(), good) {
                    assert(market.trade_goods->0@ == goods@);
                    assert(first_good(goods@, good@, i as int));
                    return Some(MarketQuote { price: goods[i].purchase_price, volume: goods[i].trade_volume });
                }
                i = i + 1;
            }
            None
        },
    }
}

/// The quote is within the price limit and the market trades enough units.
pub open spec fn viable(q: Option<MarketQuote>, max_price: i64, needed: i64) -> bool {
    match q {
        Some(q) => q.price <= max_price && q.volume >= needed,
        None => false,
    }
}

/// `i` is the cheapest viable quote, the first among equals.
pub open spec fn is_best_quote(quotes: Seq<Option<MarketQuote>>, max_price: i64, needed: i64, i: int) -> bool {
    &&& 0 <= i < quotes.len()
    &&& viable(quotes[i], max_price, needed)
    &&& forall|j: int| 0 <= j < i && viable(#[trigger] quotes[j], max_price, needed) ==> quotes[j]->0.price > quotes[i]->0.price
    &&& forall|j: int| i < j < quotes.len() && viable(#[trigger] quotes[j], max_price, needed) ==> quotes[j]->0.price >= quotes[i]->0.price
}

/// Of the quotes gathered from the markets (`None` where a market could not be read or does not
/// trade the good), the cheapest one within the price limit whose market trades at least
/// `needed` units; the first among equals.
pub fn best_quote(quotes: &[Option<MarketQuote>], max_price: i64, needed: i64) -> (r: Option<usize>)
    ensures
        r matches Some(i) ==> is_best_quote(quotes@, max_price, needed, i as int),
        r is None ==> forall|j: int| 0 <= j < quotes@.len() ==> !viable(#[trigger] quotes@[j], max_price, needed),
{
    let mut best: Option<usize> = None;
    let mut i: usize = 0;
    while i < quotes.len()
        invariant
            i <= quotes@.len(),
            match best {
                Some(b) => b < i && is_best_quote(quotes@.take(i as int), max_price, needed, b as int),
                None => forall|j: int| 0 <= j < i ==> !viable(#[trigger] quotes@[j], max_price, needed),
            },
        decreases quotes@.len() - i,
    {
        if let Some(q) = quotes[i] {
            if q.price as i64 <= max_price && q.volume as i64 >= needed {
                let better = match best {
                    Some(b) => match quotes[b] {
                        Some(bq) => q.price < bq.price,
                        None => true,
                    },
                    None => true,
                };
                if better {
                    best = Some(i);
                }
            }
        }
        proof {
            let t = quotes@.take(i + 1);
            assert(t =~= quotes@.take(i as int).push(quotes@[i as int]));
            if let Some(b) = best {
                assert(forall|j: int| 0 <= j < i ==> #[trigger] t[j] == quotes@.take(i as int)[j]);
            }
        }
        i = i + 1;
    }
    proof {
        assert(quotes@.take(i as int) =~= quotes@);
    }
    best
}

/// The ship is not in transit and its hold takes `needed` units.
pub open spec fn can_carry(s: Ship, needed: int) -> bool {
    s.nav.status@ != "IN_TRANSIT"@ && s.cargo.capacity >= needed
}

/// `i` is the last ship of largest hold among those that can carry the purchase.
pub open spec fn is_trading_ship(ships: Seq<Ship>, needed: int, i: int) -> bool {
    &&& 0 <= i < ships.len()
    &&& can_carry(ships[i], needed)
    &&& forall|j: int| 0 <= j < i && can_carry(#[trigger] ships[j], needed) ==> ships[j].cargo.capacity <= ships[i].cargo.capacity
    &&& forall|j: int| i < j < ships.len() && can_carry(#[trigger] ships[j], needed) ==> ships[j].cargo.capacity < ships[i].cargo.capacity
}

/// The ship that makes the purchase: of the ships not in transit whose hold takes `needed`
/// units, one with the largest hold (the last of equals).
pub fn choose_trading_ship(ships: &[Ship], needed: i64) -> (r: Option<usize>)
    requires
        i32::MIN <= needed <= i32::MAX,
    ensures
        r matches Some(i) ==> is_trading_ship(ships@, needed as int, i as int),
        r is None ==> forall|j: int| 0 <= j < ships@.len() ==> !can_carry(#[trigger] ships@[j], needed as int),
{
    let need = needed as i32;
    let mut best: Option<usize> = None;
    let mut i: usize = 0;
    while i < ships.len()
        invariant
            i <= ships@.len(),
            need == needed,
            match best {
                Some(b) => {
                    &&& b < i
                    &&& can_carry(ships@[b as int], needed as int)
                    &&& forall|j: int| 0 <= j < i && can_carry(#[trigger] ships@[j], needed as int)
                        ==> ships@[j].cargo.capacity <= ships@[b as int].cargo.capacity
                    &&& forall|j: int| b < j < i && can_carry(#[trigger] ships@[j], needed as int)
                        ==> ships@[j].cargo.capacity < ships@[b as int].cargo.capacity
                },
                None => forall|j: int| 0 <= j < i ==> !can_carry(#[trigger] ships@[j], needed as int),
            },
        decreases ships@.len() - i,
    {
        if !text_eq(ships[i].nav.status.as_str(), "IN_TRANSIT") && ships[i].cargo.capacity >= need {
            let take = match best {
                Some(b) => ships[i].cargo.capacity >= ships[b].cargo.capacity,
                None => true,
            };
            if take {
                best = Some(i);
            }
        }
        i = i + 1;
    }
    best
}

/// A purchase of contract goods at a market.
#[derive(Clone, Debug)]
pub struct TradingPlan {
    pub good: String,
    pub quantity: i64,
    pub source_marketplace: String,
    pub price_per_unit: i64,
    pub total_cost: i64,
    pub assigned_ship: String,
}

impl TradingPlan {
    /// A plan to buy `quantity` units of `good` at `price_per_unit` from `source_marketplace`
    /// with `assigned_ship`; the total cost is quantity times price.
    pub fn new(good: &str, quantity: i64, source_marketplace: String, price_per_unit: i64, assigned_ship: String) -> (r: Self)
        requires
            i64::MIN <= quantity * price_per_unit <= i64::MAX,
        ensures
            r.good@ == good@,
            r.quantity == quantity,
            r.source_marketplace == source_marketplace,
            r.price_per_unit == price_per_unit,
            r.total_cost == quantity * price_per_unit,
            r.assigned_ship == assigned_ship,
    {
        TradingPlan {
            good: good.to_string(),
            quantity,
            source_marketplace,
            price_per_unit,
            total_cost: quantity * price_per_unit,
            assigned_ship,
        }
    }
}

/// Units still to deliver on a term.
pub open spec fn outstanding(d: Delivery) -> int {
    d.units_required - d.units_fulfilled
}

/// The manufactured goods among the first `n` terms that still need units, with those units.
pub open spec fn purchases_prefix(d: Seq<Delivery>, n: int) -> Seq<(Seq<char>, i32)>
    decreases n,
{
    if n <= 0 || n > d.len() {
        Seq::empty()
    } else if outstanding(d[n - 1]) > 0 && is_manufactured(d[n - 1].trade_symbol@) {
        purchases_prefix(d, n - 1).push((d[n - 1].trade_symbol@, outstanding(d[n - 1]) as i32))
    } else {
        purchases_prefix(d, n - 1)
    }
}

/// The goods of the contract to buy rather than mine: each manufactured good whose term still
/// needs units, with the units it needs, in term order.
pub fn purchase_needs(contract: &Contract) -> (r: Vec<(String, i32)>)
    requires
        forall|k: int| 0 <= k < contract.terms.deliver@.len()
            ==> i32::MIN <= #[trigger] outstanding(contract.terms.deliver@[k]) <= i32::MAX,
    ensures
        r@.map_values(|p: (String, i32)| (p.0@, p.1))
            == purchases_prefix(contract.terms.deliver@, contract.terms.deliver@.len() as int),
{
    let d = &contract.terms.deliver;
    let mut r: Vec<(String, i32)> = Vec::new();
    let mut k: usize = 0;
    while k < d.len()
        invariant
            k <= d@.len(),
            d@ == contract.terms.deliver@,
            forall|k: int| 0 <= k < d@.len() ==> i32::MIN <= #[trigger] outstanding(d@[k]) <= i32::MAX,
            r@.map_values(|p: (String, i32)| (p.0@, p.1)) == purchases_prefix(d@, k as int),
        decreases d@.len() - k,
    {
        assert(i32::MIN <= outstanding(d@[k as int]) <= i32::MAX);
        let needed = d[k].units_required - d[k].units_fulfilled;
        if needed > 0 && is_manufactured_good(d[k].trade_symbol.as_str()) {
            let ghost before = r@;
            r.push((d[k].trade_symbol.clone(), needed));
            assert(r@.map_values(|p: (String, i32)| (p.0@, p.1))
                =~= before.map_values(|p: (String, i32)| (p.0@, p.1)).push((d@[k as int].trade_symbol@, needed)));
        }
        k = k + 1;
    }
    r
}

/// Why the game refused to negotiate a contract.
#[derive(Clone, Copy, Debug, PartialEq, Eq)]
pub enum NegotiationFailure {
    /// A requirement was not met, such as standing at a faction waypoint.
    Refused,
    /// The agent already holds the most contracts it may.
    SlotTaken,
    /// Anything else.
    Other,
}

/// What a failed negotiation's error text says: a "400 Bad Request" is a refusal, a "409" a
/// taken contract slot.
pub fn classify_negotiation_error(message: &str) -> (r: NegotiationFailure)
    ensures
        r == (if contains_text(message@, "400 Bad Request"@) {
            NegotiationFailure::Refused
        } else if contains_text(message@, "409"@) {
            NegotiationFailure::SlotTaken
        } else {
            NegotiationFailure::Other
        }),
{
    if has_text(message, "400 Bad Request") {
        NegotiationFailure::Refused
    } else if has_text(message, "409") {
        NegotiationFailure::SlotTaken
    } else {
        NegotiationFailure::Other
    }
}

/// A docking error that only says the ship is docked already, which is no failure.
pub fn is_already_docked(message: &str) -> (r: bool)
    ensures
        r == contains_text(message@, "already docked"@),
{
    has_text(message, "already docked")
}

/// An orbit error that only says the ship is in orbit already, which is no failure.
pub fn is_already_in_orbit(message: &str) -> (r: bool)
    ensures
        r == contains_text(message@, "already in orbit"@),
{
    has_text(message, "already in orbit")
}

/// The ship is not in transit and stands at a waypoint held by a faction.
pub open spec fn can_negotiate(s: Ship, w: Option<Waypoint>) -> bool {
    s.nav.status@ != "IN_TRANSIT"@ && (w matches Some(w) && w.faction is Some)
}

/// The positions of the first `n` ships that can negotiate.
pub open spec fn negotiators_prefix(ships: Seq<Ship>, at: Seq<Option<Waypoint>>, n: int) -> Seq<usize>
    decreases n,
{
    if n <= 0 || n > ships.len() || n > at.len() {
        Seq::empty()
    } else if can_negotiate(ships[n - 1], at[n - 1]) {
        negotiators_prefix(ships, at, n - 1).push((n - 1) as usize)
    } else {
        negotiators_prefix(ships, at, n - 1)
    }
}

/// The ships to negotiate with, in the order to try them: those not in transit whose current
/// waypoint (`at[i]`, `None` where it could not be read) is held by a faction; the first of
/// them and then at most two more.
pub fn negotiators(ships: &[Ship], at: &[Option<Waypoint>]) -> (r: Vec<usize>)
    requires
        ships@.len() == at@.len(),
    ensures
        r@ == negotiators_prefix(ships@, at@, ships@.len() as int).take(
            if negotiators_prefix(ships@, at@, ships@.len() as int).len() < 3 {
                negotiators_prefix(ships@, at@, ships@.len() as int).len() as int
            } else {
                3
            },
        ),
{
    let mut all: Vec<usize> = Vec::new();
    let mut i: usize = 0;
    while i < ships.len()
        invariant
            i <= ships@.len(),
            ships@.len() == at@.len(),
            all@ == negotiators_prefix(ships@, at@, i as int),
        decreases ships@.len() - i,
    {
        let held = match &at[i] {
            Some(w) => w.faction.is_some(),
            None => false,
        };
        if !text_eq(ships[i].nav.status.as_str(), "IN_TRANSIT") && held {
            all.push(i);
        }
        i = i + 1;
    }
    let mut r: Vec<usize> = Vec::new();
    let mut k: usize = 0;
    while k < all.len() && k < 3
        invariant
            k <= all@.len(),
            k <= 3,
            r@ == all@.take(k as int),
        decreases all@.len() - k,
    {
        r.push(all[k]);
        assert(r@ =~= all@.take(k + 1));
        k = k + 1;
    }
    assert(r@ =~= all@.take(k as int));
    r
}

/// A step of negotiating a new contract with the chosen ships.
#[derive(Clone, Copy, Debug, PartialEq, Eq)]
pub enum NegotiationStep {
    /// Dock the `k`-th chosen ship, which is not docked at its faction waypoint.
    Dock(usize),
    /// Ask the `k`-th chosen ship, docked, for a new contract.
    Negotiate(usize),
    /// Accept the contract just negotiated; it is the result whatever the acceptance gives.
    Accept,
    /// Hand back the contract negotiated.
    ReturnContract,
    /// No contract could be had this time.
    GiveUp,
}

/// What came of the last step.
#[derive(Clone, Copy, Debug, PartialEq, Eq)]
pub enum NegotiationEvent {
    /// Docking the `k`-th chosen ship succeeded (`true`) or failed.
    Docked(usize, bool),
    /// Negotiating with the `k`-th chosen ship gave a contract (`true`) or failed.
    Negotiated(usize, bool),
    /// The acceptance was answered (either way).
    AcceptAnswered,
}

/// Trying the `k`-th chosen ship (positions `chosen` into `ships`): dock it first when it is not
/// docked, else negotiate; give up when no chosen ship is left.
pub open spec fn try_chosen(ships: Seq<Ship>, chosen: Seq<usize>, k: int) -> NegotiationStep {
    if k < 0 || k >= chosen.len() {
        NegotiationStep::GiveUp
    } else if ships[chosen[k] as int].nav.status@ == "DOCKED"@ {
        NegotiationStep::Negotiate(k as usize)
    } else {
        NegotiationStep::Dock(k as usize)
    }
}

/// The step after an event: a docked ship negotiates; a ship that could not dock or negotiate
/// hands over to the next chosen ship; a negotiated contract is accepted, then handed back.
pub open spec fn step_after(ships: Seq<Ship>, chosen: Seq<usize>, event: NegotiationEvent) -> NegotiationStep {
    match event {
        NegotiationEvent::Docked(k, ok) => if ok && k < chosen.len() {
            NegotiationStep::Negotiate(k)
        } else {
            try_chosen(ships, chosen, k + 1)
        },
        NegotiationEvent::Negotiated(k, ok) => if ok {
            NegotiationStep::Accept
        } else {
            try_chosen(ships, chosen, k + 1)
        },
        NegotiationEvent::AcceptAnswered => NegotiationStep::ReturnContract,
    }
}

fn try_chosen_exec(ships: &[Ship], chosen: &[usize], k: usize) -> (r: NegotiationStep)
    requires
        forall|j: int| 0 <= j < chosen@.len() ==> chosen@[j] < ships@.len(),
    ensures
        r == try_chosen(ships@, chosen@, k as int),
{
    proof {
        reveal_strlit("DOCKED");
    }
    if k >= chosen.len() {
        NegotiationStep::GiveUp
    } else if text_eq(ships[chosen[k]].nav.status.as_str(), "DOCKED") {
        NegotiationStep::Negotiate(k)
    } else {
        NegotiationStep::Dock(k)
    }
}

/// The first step of a negotiation with the chosen ships (see [`negotiators`]): try the first.
pub fn first_negotiation_step(ships: &[Ship], chosen: &[usize]) -> (r: NegotiationStep)
    requires
        forall|j: int| 0 <= j < chosen@.len() ==> chosen@[j] < ships@.len(),
    ensures
        r == try_chosen(ships@, chosen@, 0),
{
    try_chosen_exec(ships, chosen, 0)
}

/// The next step of a negotiation after `event` (see [`step_after`]).
pub fn next_negotiation_step(ships: &[Ship], chosen: &[usize], event: NegotiationEvent) -> (r: NegotiationStep)
    requires
        forall|j: int| 0 <= j < chosen@.len() ==> chosen@[j] < ships@.len(),
        chosen@.len() < usize::MAX,
    ensures
        r == step_after(ships@, chosen@, event),
{
    match event {
        NegotiationEvent::Docked(k, ok) => if ok && k < chosen.len() {
            NegotiationStep::Negotiate(k)
        } else if k < chosen.len() {
            try_chosen_exec(ships, chosen, k + 1)
        } else {
            NegotiationStep::GiveUp
        },
        NegotiationEvent::Negotiated(k, ok) => if ok {
            NegotiationStep::Accept
        } else if k < chosen.len() {
            try_chosen_exec(ships, chosen, k + 1)
        } else {
            NegotiationStep::GiveUp
        },
        NegotiationEvent::AcceptAnswered => NegotiationStep::ReturnContract,
    }
}

/// Trying a chosen ship asks it to negotiate only when it is docked and has it dock first
/// otherwise; it never accepts or hands back a contract (that comes only after a successful
/// negotiation, see [`step_after`]).
pub proof fn law_negotiation_docks_before_negotiating(ships: Seq<Ship>, chosen: Seq<usize>, k: int)
    requires
        forall|j: int| 0 <= j < chosen.len() ==> chosen[j] < ships.len(),
        chosen.len() <= usize::MAX,
    ensures
        try_chosen(ships, chosen, k) matches NegotiationStep::Negotiate(i) ==> i == k && ships[chosen[k] as int].nav.status@ == "DOCKED"@,
        try_chosen(ships, chosen, k) matches NegotiationStep::Dock(i) ==> i == k && ships[chosen[k] as int].nav.status@ != "DOCKED"@,
        try_chosen(ships, chosen, k) != NegotiationStep::Accept,
        try_chosen(ships, chosen, k) != NegotiationStep::ReturnContract,
{
}

} // verus!
