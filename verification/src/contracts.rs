//! Contract decisions: which contract to take, how far it is, when to deliver and fulfil, and
//! how to buy manufactured goods for it.
use vstd::prelude::*;
use vstd::string::*;
use crate::model::{Contract, Ship, Delivery, CargoItem, is_listed, required_prefix, fulfilled_prefix, total_required,
    total_fulfilled, listed_units, listed_units_prefix};
use crate::text::{text_eq, has_text, contains_text, list_contains, is_one_of};

verus! {

/// The manufactured goods that are bought at markets rather than mined.
pub open spec fn manufactured_goods() -> Seq<Seq<char>> {
    seq!["ELECTRONICS"@, "MACHINERY"@, "MEDICINE"@, "DRUGS"@, "CLOTHING"@, "FOOD"@, "JEWELRY"@, "TOOLS"@,
        "WEAPONS"@, "EQUIPMENT"@]
}

/// `s` names a manufactured good.
pub open spec fn is_manufactured(s: Seq<char>) -> bool {
    exists|i: int| 0 <= i < manufactured_goods().len() && manufactured_goods()[i] == s
}

/// Whether `s` names a manufactured good.
pub fn is_manufactured_good(s: &str) -> (r: bool)
    ensures
        r == is_manufactured(s@),
{
    let goods: [&str; 10] = ["ELECTRONICS", "MACHINERY", "MEDICINE", "DRUGS", "CLOTHING", "FOOD", "JEWELRY", "TOOLS",
        "WEAPONS", "EQUIPMENT"];
    let r = is_one_of(s, &goods);
    proof {
        assert(goods@.map_values(|g: &str| g@) =~= manufactured_goods());
        if r {
            let i = choose|i: int| 0 <= i < goods@.len() && goods@[i]@ == s@;
            assert(manufactured_goods()[i] == s@);
        }
        if is_manufactured(s@) {
            let i = choose|i: int| 0 <= i < manufactured_goods().len() && manufactured_goods()[i] == s@;
            assert(goods@[i]@ == s@);
        }
    }
    r
}

/// Rust's integer division of `a` by a positive `b`, rounding toward zero.
pub open spec fn div_toward_zero(a: int, b: int) -> int {
    if a >= 0 {
        a / b
    } else {
        -((-a) / b)
    }
}

/// Every running total of the units the contract requires fits in an `i32`.
pub open spec fn required_sums_fit(c: Contract) -> bool {
    forall|n: int| 0 <= n <= c.terms.deliver@.len() ==> i32::MIN <= #[trigger] required_prefix(c.terms.deliver@, n) <= i32::MAX
}

/// Every running total of the units already fulfilled fits in an `i32`.
pub open spec fn fulfilled_sums_fit(c: Contract) -> bool {
    forall|n: int| 0 <= n <= c.terms.deliver@.len() ==> i32::MIN <= #[trigger] fulfilled_prefix(c.terms.deliver@, n) <= i32::MAX
}

/// Credits per required unit: what the contract pays in all divided by the units it requires,
/// or the whole payment when it requires none.
pub open spec fn contract_score(c: Contract) -> int {
    let pay = c.terms.payment.on_accepted + c.terms.payment.on_fulfilled;
    if total_required(c) > 0 {
        div_toward_zero(pay, total_required(c))
    } else {
        pay
    }
}

/// The contract's total units required.
pub fn required_units(contract: &Contract) -> (r: i32)
    requires
        required_sums_fit(*contract),
    ensures
        r == total_required(*contract),
{
    let d = &contract.terms.deliver;
    let mut total: i32 = 0;
    let mut k: usize = 0;
    while k < d.len()
        invariant
            k <= d@.len(),
            d@ == contract.terms.deliver@,
            required_sums_fit(*contract),
            total == required_prefix(d@, k as int),
        decreases d@.len() - k,
    {
        assert(i32::MIN <= required_prefix(d@, k + 1) <= i32::MAX);
        total = total + d[k].units_required;
        k = k + 1;
    }
    total
}

/// The contract's total units already fulfilled.
pub fn fulfilled_units(contract: &Contract) -> (r: i32)
    requires
        fulfilled_sums_fit(*contract),
    ensures
        r == total_fulfilled(*contract),
{
    let d = &contract.terms.deliver;
    let mut total: i32 = 0;
    let mut k: usize = 0;
    while k < d.len()
        invariant
            k <= d@.len(),
            d@ == contract.terms.deliver@,
            fulfilled_sums_fit(*contract),
            total == fulfilled_prefix(d@, k as int),
        decreases d@.len() - k,
    {
        assert(i32::MIN <= fulfilled_prefix(d@, k + 1) <= i32::MAX);
        total = total + d[k].units_fulfilled;
        k = k + 1;
    }
    total
}

/// Fulfilled units as a whole percentage of required units, 0 when nothing is required
/// (rounded toward zero).
pub open spec fn percent_complete(fulfilled: int, required: int) -> int {
    if required > 0 {
        div_toward_zero(fulfilled * 100, required)
    } else {
        0
    }
}

/// How far a contract is.
#[derive(Clone, Copy, Debug)]
pub struct ContractProgress {
    pub fulfilled: i32,
    pub required: i32,
    pub percent: i32,
}

/// What the bot does about contracts.
#[derive(Clone, Copy, Debug, PartialEq, Eq)]
pub enum ContractChoice {
    /// No contract to take or work on: negotiate a new one.
    Negotiate,
    /// Accept the contract at this position.
    Accept(usize),
    /// Keep working on the accepted, unfulfilled contract at this position.
    Continue(usize),
}

/// The contract at `i` is unaccepted and scores more than 0 and than every earlier unaccepted
/// contract, and no later unaccepted contract scores more.
pub open spec fn is_best_offer(cs: Seq<Contract>, i: int) -> bool {
    &&& 0 <= i < cs.len()
    &&& !cs[i].accepted
    &&& contract_score(cs[i]) > 0
    &&& forall|j: int| 0 <= j < i && !cs[j].accepted ==> contract_score(#[trigger] cs[j]) < contract_score(cs[i])
    &&& forall|j: int| i < j < cs.len() && !cs[j].accepted ==> contract_score(#[trigger] cs[j]) <= contract_score(cs[i])
}

/// No unaccepted contract scores more than 0.
pub open spec fn no_offer(cs: Seq<Contract>) -> bool {
    forall|j: int| 0 <= j < cs.len() && !cs[j].accepted ==> contract_score(#[trigger] cs[j]) <= 0
}

/// The contract at `i` is the first accepted and unfulfilled one.
pub open spec fn is_first_active(cs: Seq<Contract>, i: int) -> bool {
    &&& 0 <= i < cs.len()
    &&& cs[i].accepted && !cs[i].fulfilled
    &&& forall|j: int| 0 <= j < i ==> !(cs[j].accepted && !cs[j].fulfilled)
}

/// The payments and required units of every contract can be added up without overflow.
pub open spec fn contracts_fit(cs: Seq<Contract>) -> bool {
    forall|i: int| 0 <= i < cs.len() ==> {
        &&& required_sums_fit(#[trigger] cs[i])
        &&& i64::MIN <= cs[i].terms.payment.on_accepted + cs[i].terms.payment.on_fulfilled <= i64::MAX
    }
}

/// Contract operations.
pub struct ContractOperations {}

impl ContractOperations {
    pub fn new() -> (r: Self) {
        ContractOperations {}
    }

    /// The goods the contract asks for, in term order.
    pub fn get_required_materials(&self, contract: &Contract) -> (r: Vec<String>)
        ensures
            r@.map_values(|s: String| s@) == contract.terms.deliver@.map_values(|d: Delivery| d.trade_symbol@),
    {
        let d = &contract.terms.deliver;
        let mut r: Vec<String> = Vec::new();
        let mut k: usize = 0;
        while k < d.len()
            invariant
                k <= d@.len(),
                d@ == contract.terms.deliver@,
                r@.len() == k,
                forall|j: int| 0 <= j < k ==> #[trigger] r@[j]@ == d@[j].trade_symbol@,
            decreases d@.len() - k,
        {
            let s = d[k].trade_symbol.clone();
            r.push(s);
            k = k + 1;
        }
        assert(r@.map_values(|s: String| s@) =~= d@.map_values(|d: Delivery| d.trade_symbol@));
        r
    }

    /// Credits per required unit (see [`contract_score`]).
    pub fn score_contract(&self, contract: &Contract) -> (r: i64)
        requires
            required_sums_fit(*contract),
            i64::MIN <= contract.terms.payment.on_accepted + contract.terms.payment.on_fulfilled <= i64::MAX,
        ensures
            r == contract_score(*contract),
    {
        let pay = contract.terms.payment.on_accepted + contract.terms.payment.on_fulfilled;
        let units = required_units(contract);
        if units > 0 {
            let u = units as i64;
            if pay >= 0 {
                pay / u
            } else {
                let a: i128 = -(pay as i128);
                let q: i128 = a / (u as i128);
                assert(q <= a) by (nonlinear_arith)
                    requires
                        a >= 0,
                        u >= 1,
                        q == (a as int) / (u as int),
                ;
                (-q) as i64
            }
        } else {
            pay
        }
    }

    /// Chooses what to do about the listed contracts: accept the best-scoring unaccepted one
    /// scoring more than 0 (the first among equals); failing that keep working on the first
    /// accepted, unfulfilled one; failing that (and with no contract at all) negotiate.
    pub fn choose_contract(&self, contracts: &[Contract]) -> (r: ContractChoice)
        requires
            contracts_fit(contracts@),
        ensures
            match r {
                ContractChoice::Accept(i) => is_best_offer(contracts@, i as int),
                ContractChoice::Continue(i) => no_offer(contracts@) && is_first_active(contracts@, i as int),
                ContractChoice::Negotiate => no_offer(contracts@)
                    && forall|j: int| 0 <= j < contracts@.len() ==> !(contracts@[j].accepted && !contracts@[j].fulfilled),
            },
    {
        let mut best: Option<usize> = None;
        let mut best_score: i64 = 0;
        let mut i: usize = 0;
        while i < contracts.len()
            invariant
                i <= contracts@.len(),
                contracts_fit(contracts@),
                match best {
                    None => best_score == 0 && forall|j: int| 0 <= j < i && !contracts@[j].accepted
                        ==> contract_score(#[trigger] contracts@[j]) <= 0,
                    Some(b) => {
                        &&& b < i
                        &&& !contracts@[b as int].accepted
                        &&& best_score == contract_score(contracts@[b as int])
                        &&& best_score > 0
                        &&& forall|j: int| 0 <= j < b && !contracts@[j].accepted ==> contract_score(#[trigger] contracts@[j]) < best_score
                        &&& forall|j: int| b < j < i && !contracts@[j].accepted ==> contract_score(#[trigger] contracts@[j]) <= best_score
                    },
                },
            decreases contracts@.len() - i,
        {
            if !contracts[i].accepted {
                let score = self.score_contract(&contracts[i]);
                if score > best_score {
                    best_score = score;
                    best = Some(i);
                }
            }
            i = i + 1;
        }
        match best {
            Some(b) => ContractChoice::Accept(b),
            None => {
                let mut k: usize = 0;
                while k < contracts.len()
                    invariant
                        k <= contracts@.len(),
                        no_offer(contracts@),
                        forall|j: int| 0 <= j < k ==> !(contracts@[j].accepted && !contracts@[j].fulfilled),
                    decreases contracts@.len() - k,
                {
                    if contracts[k].accepted && !contracts[k].fulfilled {
                        return ContractChoice::Continue(k);
                    }
                    k = k + 1;
                }
                ContractChoice::Negotiate
            },
        }
    }

    /// How far a contract is: units fulfilled, units required and the whole percentage done.
    pub fn contract_progress(&self, contract: &Contract) -> (r: ContractProgress)
        requires
            required_sums_fit(*contract),
            fulfilled_sums_fit(*contract),
            i32::MIN <= total_fulfilled(*contract) * 100 <= i32::MAX,
        ensures
            r.fulfilled == total_fulfilled(*contract),
            r.required == total_required(*contract),
            r.percent == percent_complete(total_fulfilled(*contract), total_required(*contract)),
    {
        let fulfilled = fulfilled_units(contract);
        let required = required_units(contract);
        let percent = if required > 0 {
            let p = fulfilled * 100;
            if p >= 0 {
                p / required
            } else {
                -((-(p as i64)) / (required as i64)) as i32
            }
        } else {
            0
        };
        ContractProgress { fulfilled, required, percent }
    }

    /// Whether the contract asks for a manufactured good, which must be bought rather than mined.
    pub fn needs_marketplace_trading(&self, needed_materials: &[String]) -> (r: bool)
        ensures
            r == exists|i: int| 0 <= i < needed_materials@.len() && is_manufactured(needed_materials@[i]@),
    {
        let mut i: usize = 0;
        while i < needed_materials.len()
            invariant
                i <= needed_materials@.len(),
                forall|j: int| 0 <= j < i ==> !is_manufactured(needed_materials@[j]@),
            decreases needed_materials@.len() - i,
        {
            if is_manufactured_good(needed_materials[i].as_str()) {
                return true;
            }
            i = i + 1;
        }
        false
    }
}


// ---- delivery ----

/// Units of the contract's materials that the ship carries, counted only for a ship whose hold
/// is not empty.
pub open spec fn carried_units(s: Ship, needed: Seq<String>) -> int {
    if s.cargo.units != 0 {
        listed_units(s.cargo.inventory@, needed)
    } else {
        0
    }
}

/// Units of the contract's materials carried by the first `n` ships.
pub open spec fn collected_prefix(ships: Seq<Ship>, needed: Seq<String>, n: int) -> int
    decreases n,
{
    if n <= 0 || n > ships.len() {
        0
    } else {
        collected_prefix(ships, needed, n - 1) + carried_units(ships[n - 1], needed)
    }
}

/// The ships among the first `n` that carry contract materials, each with the units it
/// carries, in fleet order.
pub open spec fn carriers_prefix(ships: Seq<Ship>, needed: Seq<String>, n: int) -> Seq<(usize, i32)>
    decreases n,
{
    if n <= 0 || n > ships.len() {
        Seq::empty()
    } else if carried_units(ships[n - 1], needed) > 0 {
        carriers_prefix(ships, needed, n - 1).push(((n - 1) as usize, carried_units(ships[n - 1], needed) as i32))
    } else {
        carriers_prefix(ships, needed, n - 1)
    }
}

/// Every running total that counting the carried contract materials passes through fits in
/// an `i32`: per ship and over the fleet.
pub open spec fn delivery_sums_fit(ships: Seq<Ship>, needed: Seq<String>) -> bool {
    &&& forall|n: int, m: int| 0 <= n < ships.len() && 0 <= m <= ships[n].cargo.inventory@.len() ==> {
        &&& i32::MIN <= #[trigger] listed_units_prefix(ships[n].cargo.inventory@, needed, m) <= i32::MAX
        &&& i32::MIN <= collected_prefix(ships, needed, n) + listed_units_prefix(ships[n].cargo.inventory@, needed, m) <= i32::MAX
    }
    &&& forall|n: int| 0 <= n <= ships.len() ==> i32::MIN <= #[trigger] collected_prefix(ships, needed, n) <= i32::MAX
}

/// Which ships carry contract materials and how many units the fleet has collected.
#[derive(Clone, Debug)]
pub struct DeliveryStatus {
    /// Position of each carrying ship in the fleet, with the units it carries.
    pub carriers: Vec<(usize, i32)>,
    /// Units of contract materials carried by the whole fleet.
    pub collected: i32,
    /// Units the contract requires.
    pub required: i32,
}

impl DeliveryStatus {
    /// Whether the fleet has collected enough to deliver the whole contract.
    pub fn ready(&self) -> (r: bool)
        ensures
            r == (self.collected >= self.required),
    {
        self.collected >= self.required
    }
}

/// Counts the contract materials each ship carries (ships with an empty hold are passed over),
/// keeps the ships that carry any, and sets the total against what the contract requires.
pub fn delivery_status(ships: &[Ship], needed_materials: &[String], contract: &Contract) -> (r: DeliveryStatus)
    requires
        delivery_sums_fit(ships@, needed_materials@),
        required_sums_fit(*contract),
    ensures
        r.carriers@ == carriers_prefix(ships@, needed_materials@, ships@.len() as int),
        r.collected == collected_prefix(ships@, needed_materials@, ships@.len() as int),
        r.required == total_required(*contract),
{
    let mut carriers: Vec<(usize, i32)> = Vec::new();
    let mut total: i32 = 0;
    let mut n: usize = 0;
    while n < ships.len()
        invariant
            n <= ships@.len(),
            delivery_sums_fit(ships@, needed_materials@),
            total == collected_prefix(ships@, needed_materials@, n as int),
            carriers@ == carriers_prefix(ships@, needed_materials@, n as int),
        decreases ships@.len() - n,
    {
        let s = &ships[n];
        if s.cargo.units != 0 {
            let inv = &s.cargo.inventory;
            let mut own: i32 = 0;
            let mut m: usize = 0;
            while m < inv.len()
                invariant
                    m <= inv@.len(),
                    n < ships@.len(),
                    inv@ == ships@[n as int].cargo.inventory@,
                    delivery_sums_fit(ships@, needed_materials@),
                    own == listed_units_prefix(inv@, needed_materials@, m as int),
                    total == collected_prefix(ships@, needed_materials@, n as int) + own,
                decreases inv@.len() - m,
            {
                if list_contains(needed_materials, inv[m].symbol.as_str()) {
                    assert(i32::MIN <= listed_units_prefix(ships@[n as int].cargo.inventory@, needed_materials@, m + 1) <= i32::MAX);
                    own = own + inv[m].units;
                    total = total + inv[m].units;
                }
                m = m + 1;
            }
            if own > 0 {
                carriers.push((n, own));
            }
        }
        assert(i32::MIN <= collected_prefix(ships@, needed_materials@, n + 1) <= i32::MAX);
        n = n + 1;
    }
    let required = required_units(contract);
    DeliveryStatus { carriers, collected: total, required }
}

/// The cargo stacks of the first `n` items that hold contract materials, as (good, units).
pub open spec fn deliverable_prefix(inv: Seq<CargoItem>, needed: Seq<String>, n: int) -> Seq<(Seq<char>, i32)>
    decreases n,
{
    if n <= 0 || n > inv.len() {
        Seq::empty()
    } else if is_listed(needed, inv[n - 1].symbol@) {
        deliverable_prefix(inv, needed, n - 1).push((inv[n - 1].symbol@, inv[n - 1].units))
    } else {
        deliverable_prefix(inv, needed, n - 1)
    }
}

/// The cargo stacks of a ship to hand over for the contract, in hold order, as (good, units).
pub fn deliverable_cargo(ship: &Ship, needed_materials: &[String]) -> (r: Vec<(String, i32)>)
    ensures
        r@.map_values(|p: (String, i32)| (p.0@, p.1))
            == deliverable_prefix(ship.cargo.inventory@, needed_materials@, ship.cargo.inventory@.len() as int),
{
    let inv = &ship.cargo.inventory;
    let mut r: Vec<(String, i32)> = Vec::new();
    let mut m: usize = 0;
    while m < inv.len()
        invariant
            m <= inv@.len(),
            inv@ == ship.cargo.inventory@,
            r@.map_values(|p: (String, i32)| (p.0@, p.1)) == deliverable_prefix(inv@, needed_materials@, m as int),
        decreases inv@.len() - m,
    {
        if list_contains(needed_materials, inv[m].symbol.as_str()) {
            let ghost before = r@;
            r.push((inv[m].symbol.clone(), inv[m].units));
            assert(r@.map_values(|p: (String, i32)| (p.0@, p.1))
                =~= before.map_values(|p: (String, i32)| (p.0@, p.1)).push((inv@[m as int].symbol@, inv@[m as int].units)));
        }
        m = m + 1;
    }
    r
}

/// Whether every unit the contract requires has been fulfilled.
pub fn is_complete(contract: &Contract) -> (r: bool)
    requires
        required_sums_fit(*contract),
        fulfilled_sums_fit(*contract),
    ensures
        r == (total_fulfilled(*contract) >= total_required(*contract)),
{
    fulfilled_units(contract) >= required_units(contract)
}

/// Whether the contract can be fulfilled after a delivery round: judged from a fresh copy of
/// it when one could be fetched, else from the units delivered in the round against the units
/// required.
pub fn ready_for_fulfillment(fresh: Option<&Contract>, delivered: i32, required: i32) -> (r: bool)
    requires
        fresh matches Some(c) ==> required_sums_fit(*c) && fulfilled_sums_fit(*c),
    ensures
        r == match fresh {
            Some(c) => total_fulfilled(*c) >= total_required(*c),
            None => delivered >= required,
        },
{
    match fresh {
        Some(c) => is_complete(c),
        None => delivered >= required,
    }
}

} // verus!
