//! A ship's actor: the actions it takes, the status it reports, and how it reads the game's
//! error texts (cooldowns, transit, docking refusals) and decides where to refuel.
use vstd::prelude::*;
use vstd::string::*;
use crate::model::{Ship, Waypoint, Registration, Nav, Route, RouteWaypoint, Frame, Cargo, Fuel, waypoint_has_trait,
    has_trait};
use crate::text::{text_eq, has_text, contains_text, find_text, first_occurrence, occurs_at, chars_of, debug_quoted, quote_text,
    join_text, int_text, int_decimal};
use crate::task_planner::TaskPlan;

verus! {

/// An action failed; the text says why.
#[derive(Clone, Debug)]
pub struct ShipActorError(pub String);

impl ShipActorError {
    /// The text of the failure.
    pub fn message(&self) -> (r: &str)
        ensures
            r@ == self.0@,
    {
        self.0.as_str()
    }
}

/// What a ship is told to do.
#[derive(Clone, Debug)]
pub enum ShipAction {
    Mine { target: String, needed_materials: Vec<String>, contract_id: String },
    Navigate { destination: String },
    Explore { systems: Vec<String> },
    Trade { items: Vec<String>, marketplace: String },
    Refuel { station: String },
    SellCargo { marketplace: String },
    Dock,
    Orbit,
    Survey { target: String },
    DeliverCargo { contract_id: String, destination: String, trade_symbol: String, units: i32 },
    SmartSellOrJettison { marketplace: String, contract_materials: Vec<String> },
    JettisonCargo { contract_materials: Vec<String> },
}

/// A copy of the strings in `v`, equal to them.
pub fn copy_strings(v: &Vec<String>) -> (r: Vec<String>)
    ensures
        r@ == v@,
{
    let r = v.clone();
    assert forall|i: int| 0 <= i < v.len() implies r@[i] == v@[i] by {
        assert(cloned::<String>(v[i], r[i]));
    }
    assert(r@ =~= v@);
    r
}

/// The two actions are the same order with the same arguments.
pub open spec fn same_action(a: ShipAction, b: ShipAction) -> bool {
    match (a, b) {
        (ShipAction::Mine { target: t1, needed_materials: n1, contract_id: c1 },
         ShipAction::Mine { target: t2, needed_materials: n2, contract_id: c2 }) => t1@ == t2@ && n1@ == n2@ && c1@ == c2@,
        (ShipAction::Navigate { destination: d1 }, ShipAction::Navigate { destination: d2 }) => d1@ == d2@,
        (ShipAction::Explore { systems: s1 }, ShipAction::Explore { systems: s2 }) => s1@ == s2@,
        (ShipAction::Trade { items: i1, marketplace: m1 }, ShipAction::Trade { items: i2, marketplace: m2 }) => i1@ == i2@ && m1@ == m2@,
        (ShipAction::Refuel { station: s1 }, ShipAction::Refuel { station: s2 }) => s1@ == s2@,
        (ShipAction::SellCargo { marketplace: m1 }, ShipAction::SellCargo { marketplace: m2 }) => m1@ == m2@,
        (ShipAction::Dock, ShipAction::Dock) => true,
        (ShipAction::Orbit, ShipAction::Orbit) => true,
        (ShipAction::Survey { target: t1 }, ShipAction::Survey { target: t2 }) => t1@ == t2@,
        (ShipAction::DeliverCargo { contract_id: c1, destination: d1, trade_symbol: s1, units: u1 },
         ShipAction::DeliverCargo { contract_id: c2, destination: d2, trade_symbol: s2, units: u2 }) =>
            c1@ == c2@ && d1@ == d2@ && s1@ == s2@ && u1 == u2,
        (ShipAction::SmartSellOrJettison { marketplace: m1, contract_materials: c1 },
         ShipAction::SmartSellOrJettison { marketplace: m2, contract_materials: c2 }) => m1@ == m2@ && c1@ == c2@,
        (ShipAction::JettisonCargo { contract_materials: c1 }, ShipAction::JettisonCargo { contract_materials: c2 }) => c1@ == c2@,
        _ => false,
    }
}

impl ShipAction {
    /// A copy of this action: the same order with the same arguments.
    pub fn duplicate(&self) -> (r: ShipAction)
        ensures
            same_action(r, *self),
    {
        match self {
            ShipAction::Mine { target, needed_materials, contract_id } => ShipAction::Mine {
                target: target.clone(),
                needed_materials: copy_strings(needed_materials),
                contract_id: contract_id.clone(),
            },
            ShipAction::Navigate { destination } => ShipAction::Navigate { destination: destination.clone() },
            ShipAction::Explore { systems } => ShipAction::Explore { systems: copy_strings(systems) },
            ShipAction::Trade { items, marketplace } => ShipAction::Trade {
                items: copy_strings(items),
                marketplace: marketplace.clone(),
            },
            ShipAction::Refuel { station } => ShipAction::Refuel { station: station.clone() },
            ShipAction::SellCargo { marketplace } => ShipAction::SellCargo { marketplace: marketplace.clone() },
            ShipAction::Dock => ShipAction::Dock,
            ShipAction::Orbit => ShipAction::Orbit,
            ShipAction::Survey { target } => ShipAction::Survey { target: target.clone() },
            ShipAction::DeliverCargo { contract_id, destination, trade_symbol, units } => ShipAction::DeliverCargo {
                contract_id: contract_id.clone(),
                destination: destination.clone(),
                trade_symbol: trade_symbol.clone(),
                units: *units,
            },
            ShipAction::SmartSellOrJettison { marketplace, contract_materials } => ShipAction::SmartSellOrJettison {
                marketplace: marketplace.clone(),
                contract_materials: copy_strings(contract_materials),
            },
            ShipAction::JettisonCargo { contract_materials } => ShipAction::JettisonCargo {
                contract_materials: copy_strings(contract_materials),
            },
        }
    }
}

/// The items of a list as `Debug` writes them, separated by ", ": the first `n` of them.
pub open spec fn debug_items(items: Seq<String>, n: int) -> Seq<char>
    decreases n,
{
    if n <= 0 || n > items.len() {
        Seq::empty()
    } else if n == 1 {
        debug_quoted(items[0]@)
    } else {
        debug_items(items, n - 1) + ", "@ + debug_quoted(items[n - 1]@)
    }
}

/// A list of strings as `Debug` writes it: its items in brackets.
pub open spec fn debug_list(items: Seq<String>) -> Seq<char> {
    "["@ + debug_items(items, items.len() as int) + "]"@
}

/// An action as the `Debug` derived on [`ShipAction`] writes it: the variant's name, then its
/// fields by name in braces (strings quoted, lists in brackets, numbers in decimal).
pub open spec fn action_debug(a: ShipAction) -> Seq<char> {
    match a {
        ShipAction::Mine { target, needed_materials, contract_id } => "Mine { target: "@ + debug_quoted(target@)
            + ", needed_materials: "@ + debug_list(needed_materials@) + ", contract_id: "@ + debug_quoted(contract_id@)
            + " }"@,
        ShipAction::Navigate { destination } => "Navigate { destination: "@ + debug_quoted(destination@) + " }"@,
        ShipAction::Explore { systems } => "Explore { systems: "@ + debug_list(systems@) + " }"@,
        ShipAction::Trade { items, marketplace } => "Trade { items: "@ + debug_list(items@) + ", marketplace: "@
            + debug_quoted(marketplace@) + " }"@,
        ShipAction::Refuel { station } => "Refuel { station: "@ + debug_quoted(station@) + " }"@,
        ShipAction::SellCargo { marketplace } => "SellCargo { marketplace: "@ + debug_quoted(marketplace@) + " }"@,
        ShipAction::Dock => "Dock"@,
        ShipAction::Orbit => "Orbit"@,
        ShipAction::Survey { target } => "Survey { target: "@ + debug_quoted(target@) + " }"@,
        ShipAction::DeliverCargo { contract_id, destination, trade_symbol, units } => "DeliverCargo { contract_id: "@
            + debug_quoted(contract_id@) + ", destination: "@ + debug_quoted(destination@) + ", trade_symbol: "@
            + debug_quoted(trade_symbol@) + ", units: "@ + int_decimal(units as int) + " }"@,
        ShipAction::SmartSellOrJettison { marketplace, contract_materials } => "SmartSellOrJettison { marketplace: "@
            + debug_quoted(marketplace@) + ", contract_materials: "@ + debug_list(contract_materials@) + " }"@,
        ShipAction::JettisonCargo { contract_materials } => "JettisonCargo { contract_materials: "@ + debug_list(
            contract_materials@,
        ) + " }"@,
    }
}

/// A list of strings as `Debug` writes it (see [`debug_list`]).
pub fn list_text(items: &Vec<String>) -> (r: String)
    ensures
        r@ == debug_list(items@),
{
    let mut s = String::from_str("[");
    let mut i: usize = 0;
    while i < items.len()
        invariant
            i <= items@.len(),
            s@ == "["@ + debug_items(items@, i as int),
        decreases items@.len() - i,
    {
        let q = quote_text(items[i].as_str());
        if i == 0 {
            s = join_text(s.as_str(), q.as_str());
        } else {
            let t = join_text(s.as_str(), ", ");
            s = join_text(t.as_str(), q.as_str());
        }
        i = i + 1;
    }
    join_text(s.as_str(), "]")
}

fn cat3(a: &str, b: &str, c: &str) -> (r: String)
    ensures
        r@ == a@ + b@ + c@,
{
    let x = join_text(a, b);
    join_text(x.as_str(), c)
}

/// The action as the `Debug` derived on [`ShipAction`] writes it (see [`action_debug`]).
pub fn action_text(a: &ShipAction) -> (r: String)
    ensures
        r@ == action_debug(*a),
{
    match a {
        ShipAction::Mine { target, needed_materials, contract_id } => {
            let t = quote_text(target.as_str());
            let l = list_text(needed_materials);
            let c = quote_text(contract_id.as_str());
            let x = cat3("Mine { target: ", t.as_str(), ", needed_materials: ");
            let y = cat3(x.as_str(), l.as_str(), ", contract_id: ");
            cat3(y.as_str(), c.as_str(), " }")
        },
        ShipAction::Navigate { destination } => {
            let d = quote_text(destination.as_str());
            cat3("Navigate { destination: ", d.as_str(), " }")
        },
        ShipAction::Explore { systems } => {
            let l = list_text(systems);
            cat3("Explore { systems: ", l.as_str(), " }")
        },
        ShipAction::Trade { items, marketplace } => {
            let l = list_text(items);
            let m = quote_text(marketplace.as_str());
            let x = cat3("Trade { items: ", l.as_str(), ", marketplace: ");
            cat3(x.as_str(), m.as_str(), " }")
        },
        ShipAction::Refuel { station } => {
            let q = quote_text(station.as_str());
            cat3("Refuel { station: ", q.as_str(), " }")
        },
        ShipAction::SellCargo { marketplace } => {
            let q = quote_text(marketplace.as_str());
            cat3("SellCargo { marketplace: ", q.as_str(), " }")
        },
        ShipAction::Dock => String::from_str("Dock"),
        ShipAction::Orbit => String::from_str("Orbit"),
        ShipAction::Survey { target } => {
            let q = quote_text(target.as_str());
            cat3("Survey { target: ", q.as_str(), " }")
        },
        ShipAction::DeliverCargo { contract_id, destination, trade_symbol, units } => {
            let c = quote_text(contract_id.as_str());
            let d = quote_text(destination.as_str());
            let t = quote_text(trade_symbol.as_str());
            let u = int_text(*units as i64);
            let x = cat3("DeliverCargo { contract_id: ", c.as_str(), ", destination: ");
            let y = cat3(x.as_str(), d.as_str(), ", trade_symbol: ");
            let z = cat3(y.as_str(), t.as_str(), ", units: ");
            cat3(z.as_str(), u.as_str(), " }")
        },
        ShipAction::SmartSellOrJettison { marketplace, contract_materials } => {
            let m = quote_text(marketplace.as_str());
            let l = list_text(contract_materials);
            let x = cat3("SmartSellOrJettison { marketplace: ", m.as_str(), ", contract_materials: ");
            cat3(x.as_str(), l.as_str(), " }")
        },
        ShipAction::JettisonCargo { contract_materials } => {
            let l = list_text(contract_materials);
            cat3("JettisonCargo { contract_materials: ", l.as_str(), " }")
        },
    }
}

/// What a ship's actor reports.
#[derive(Clone, Debug)]
pub enum ShipActorStatus {
    Idle,
    Working,
    OnCooldown,
    Navigating,
    Error(String),
}

/// The status after an action: idle when it succeeded, else the error with its text.
pub fn status_after(result: &Result<(), ShipActorError>) -> (r: ShipActorStatus)
    ensures
        match result {
            Ok(()) => r is Idle,
            Err(e) => r matches ShipActorStatus::Error(m) && m@ == e.0@,
        },
{
    match result {
        Ok(()) => ShipActorStatus::Idle,
        Err(e) => ShipActorStatus::Error(e.0.clone()),
    }
}

/// The status reported when the ship's own data could not be read.
pub fn lookup_failure_status() -> (r: ShipActorStatus)
    ensures
        r matches ShipActorStatus::Error(m) && m@ == "Failed to get current ship data"@,
{
    ShipActorStatus::Error(String::from_str("Failed to get current ship data"))
}

/// `s` stands in for the ship `symbol` whose data could not be read: its symbol, and UNKNOWN
/// or nothing everywhere else.
pub open spec fn stand_in(s: Ship, symbol: Seq<char>) -> bool {
    &&& s.symbol@ == symbol
    &&& s.registration.role@ == "UNKNOWN"@
    &&& s.nav.system_symbol@ == "UNKNOWN"@
    &&& s.nav.waypoint_symbol@ == "UNKNOWN"@
    &&& s.nav.status@ == "UNKNOWN"@
    &&& s.nav.route.destination.symbol@ == "UNKNOWN"@
    &&& s.nav.route.destination.x == 0 && s.nav.route.destination.y == 0
    &&& s.nav.route.arrival@ == "UNKNOWN"@
    &&& s.frame.symbol@ == "UNKNOWN"@
    &&& s.frame.module_slots == 0 && s.frame.mounting_points == 0
    &&& s.mounts@.len() == 0 && s.modules@.len() == 0
    &&& s.cargo.capacity == 0 && s.cargo.units == 0 && s.cargo.inventory@.len() == 0
    &&& s.fuel.current == 0 && s.fuel.capacity == 0
}

/// Stands in for a ship whose data could not be read (see [`stand_in`]).
pub fn placeholder_ship(symbol: &str) -> (r: Ship)
    ensures
        stand_in(r, symbol@),
{
    let unknown = "UNKNOWN";
    Ship {
        symbol: String::from_str(symbol),
        registration: Registration { role: String::from_str(unknown) },
        nav: Nav {
            system_symbol: String::from_str(unknown),
            waypoint_symbol: String::from_str(unknown),
            status: String::from_str(unknown),
            route: Route {
                destination: RouteWaypoint { symbol: String::from_str(unknown), x: 0, y: 0 },
                arrival: String::from_str(unknown),
            },
        },
        frame: Frame { symbol: String::from_str(unknown), module_slots: 0, mounting_points: 0 },
        mounts: Vec::new(),
        modules: Vec::new(),
        cargo: Cargo { capacity: 0, units: 0, inventory: Vec::new() },
        fuel: Fuel { current: 0, capacity: 0 },
    }
}

/// What an actor reports about its ship: the ship as last read, until when (in milliseconds
/// since the Unix epoch) it is on cooldown, its action and plan, and its status.
#[derive(Clone, Debug)]
pub struct ShipState {
    pub ship: Ship,
    pub cooldown_until: Option<i64>,
    pub current_action: Option<ShipAction>,
    pub current_plan: Option<TaskPlan>,
    pub status: ShipActorStatus,
}

/// The report an actor sends: with the ship's data when it could be read (`fetched`), the
/// status given; without it, a stand-in ship (see [`placeholder_ship`]) and the status saying
/// the data could not be read. No action or plan is reported.
pub fn status_report(symbol: &str, fetched: Option<Ship>, cooldown_until: Option<i64>, status: ShipActorStatus) -> (r: ShipState)
    ensures
        r.cooldown_until == cooldown_until,
        r.current_action is None,
        r.current_plan is None,
        match fetched {
            Some(s) => r.ship == s && r.status == status,
            None => {
                &&& stand_in(r.ship, symbol@)
                &&& r.status matches ShipActorStatus::Error(m) && m@ == "Failed to get current ship data"@
            },
        },
{
    match fetched {
        Some(ship) => ShipState { ship, cooldown_until, current_action: None, current_plan: None, status },
        None => ShipState {
            ship: placeholder_ship(symbol),
            cooldown_until,
            current_action: None,
            current_plan: None,
            status: lookup_failure_status(),
        },
    }
}

/// The text between the first "cooldown for " and the next " second" after it, where the game
/// writes a cooldown's length; `None` when there is none.
pub open spec fn cooldown_text(msg: Seq<char>) -> Option<Seq<char>> {
    let k = choose|k: int| first_occurrence(msg, "cooldown for "@, k);
    let rest = msg.skip(k + 13);
    let e = choose|e: int| first_occurrence(rest, " second"@, e);
    if !contains_text(msg, "cooldown for "@) || !contains_text(rest, " second"@) {
        None
    } else {
        Some(rest.take(e))
    }
}

/// The text of a cooldown's length in an error text (see [`cooldown_text`]).
pub fn cooldown_text_in(message: &str) -> (r: Option<String>)
    ensures
        match r {
            Some(t) => cooldown_text(message@) == Some(t@),
            None => cooldown_text(message@) is None,
        },
{
    proof {
        reveal_strlit("cooldown for ");
    }
    match find_text(message, "cooldown for ") {
        None => None,
        Some(k) => {
            let cs = chars_of(message);
            let ghost rest = message@.skip(k + 13);
            proof {
                let k2 = choose|k2: int| first_occurrence(message@, "cooldown for "@, k2);
                if k2 < k {
                    assert(!occurs_at(message@, "cooldown for "@, k2));
                } else if k < k2 {
                    assert(!occurs_at(message@, "cooldown for "@, k as int));
                }
                assert(k2 == k);
            }
            let n = cs.len();
            assert(k + 13 <= n);
            let tail = message.substring_char(k + 13, n);
            assert(tail@ =~= rest);
            match find_text(tail, " second") {
                None => None,
                Some(e) => {
                    proof {
                        let e2 = choose|e2: int| first_occurrence(rest, " second"@, e2);
                        if e2 < e {
                            assert(!occurs_at(rest, " second"@, e2));
                        } else if e < e2 {
                            assert(!occurs_at(rest, " second"@, e as int));
                        }
                        assert(e2 == e);
                    }
                    let t = tail.substring_char(0, e);
                    assert(t@ =~= rest.take(e as int));
                    Some(String::from_str(t))
                },
            }
        },
    }
}

/// The error text says the ship is travelling: error 4214, "in-transit", "arrives in" or
/// "secondsToArrival".
pub open spec fn transit_error(msg: Seq<char>) -> bool {
    contains_text(msg, "4214"@) || contains_text(msg, "in-transit"@) || contains_text(msg, "arrives in"@) || contains_text(
        msg,
        "secondsToArrival"@,
    )
}

/// Whether the error text says the ship is travelling (see [`transit_error`]).
pub fn is_transit_error(message: &str) -> (r: bool)
    ensures
        r == transit_error(message@),
{
    has_text(message, "4214") || has_text(message, "in-transit") || has_text(message, "arrives in") || has_text(
        message,
        "secondsToArrival",
    )
}

/// Whether a navigation failure was for lack of fuel.
pub fn is_fuel_error(message: &str) -> (r: bool)
    ensures
        r == contains_text(message@, "Insufficient fuel"@),
{
    has_text(message, "Insufficient fuel")
}

/// Why docking failed.
#[derive(Clone, Copy, Debug, PartialEq, Eq)]
pub enum DockFailure {
    /// The ship is docked already: no failure.
    AlreadyDocked,
    /// Too many requests; the text may say when to retry.
    RateLimited,
    /// The ship is not at the waypoint.
    NotThere,
    /// The waypoint does not allow docking.
    NotAllowed,
    /// Anything else.
    Other,
}

/// What a docking error text says, tested in this order: "already docked"; "429 Too Many
/// Requests"; a "400 Bad Request" that says the ship is not there ("not at waypoint", "must be
/// at") or that docking is not allowed ("cannot dock", "docking not allowed"); else another
/// failure.
pub open spec fn dock_failure(msg: Seq<char>) -> DockFailure {
    if contains_text(msg, "already docked"@) {
        DockFailure::AlreadyDocked
    } else if contains_text(msg, "429 Too Many Requests"@) {
        DockFailure::RateLimited
    } else if contains_text(msg, "400 Bad Request"@) && (contains_text(msg, "not at waypoint"@) || contains_text(
        msg,
        "must be at"@,
    )) {
        DockFailure::NotThere
    } else if contains_text(msg, "400 Bad Request"@) && (contains_text(msg, "cannot dock"@) || contains_text(
        msg,
        "docking not allowed"@,
    )) {
        DockFailure::NotAllowed
    } else {
        DockFailure::Other
    }
}

/// What a docking error text says (see [`dock_failure`]).
pub fn classify_dock_error(message: &str) -> (r: DockFailure)
    ensures
        r == dock_failure(message@),
{
    if has_text(message, "already docked") {
        DockFailure::AlreadyDocked
    } else if has_text(message, "429 Too Many Requests") {
        DockFailure::RateLimited
    } else if has_text(message, "400 Bad Request") {
        if has_text(message, "not at waypoint") || has_text(message, "must be at") {
            DockFailure::NotThere
        } else if has_text(message, "cannot dock") || has_text(message, "docking not allowed") {
            DockFailure::NotAllowed
        } else {
            DockFailure::Other
        }
    } else {
        DockFailure::Other
    }
}

/// How long to sleep before looking at a travelling ship again, given the seconds left until
/// its arrival (`None` when the arrival could not be read): at most `cap` seconds while time
/// is left; `None` (stop waiting) when none is left or it is unknown.
pub fn transit_poll(seconds_left: Option<i64>, cap: i64) -> (r: Option<u64>)
    requires
        cap > 0,
    ensures
        match seconds_left {
            Some(s) => if s > 0 {
                r == Some((if s < cap { s } else { cap }) as u64)
            } else {
                r is None
            },
            None => r is None,
        },
{
    match seconds_left {
        Some(s) => if s > 0 {
            let w = if s < cap {
                s
            } else {
                cap
            };
            Some(w as u64)
        } else {
            None
        },
        None => None,
    }
}

/// The fuel a trip between two waypoints is reckoned to take: none to stay, else 150.
pub open spec fn trip_fuel(from: Seq<char>, to: Seq<char>) -> int {
    if from == to {
        0
    } else {
        150
    }
}

/// The fuel a trip between two waypoints is reckoned to take (see [`trip_fuel`]).
pub fn estimate_fuel_needed(from_waypoint: &str, to_waypoint: &str) -> (r: i32)
    ensures
        r == trip_fuel(from_waypoint@, to_waypoint@),
{
    if text_eq(from_waypoint, to_waypoint) {
        0
    } else {
        150
    }
}

/// Where a ship short of fuel refuels in its system.
#[derive(Clone, Copy, Debug, PartialEq, Eq)]
pub enum LocalFuel {
    /// No waypoint of the system has a marketplace.
    NoStation,
    /// The ship's own waypoint has one: refuel here.
    Here,
    /// Go to the marketplace waypoint at this position.
    Go(usize),
}

/// Where to refuel: here when the ship's waypoint is a marketplace, else the first marketplace
/// of the system; none when the system has none.
pub fn local_fuel_stop(waypoints: &[Waypoint], current: &str) -> (r: LocalFuel)
    ensures
        (forall|j: int| 0 <= j < waypoints@.len() ==> !waypoint_has_trait(#[trigger] waypoints@[j], "MARKETPLACE"@)) ==> r
            == LocalFuel::NoStation,
        r == LocalFuel::Here <==> exists|j: int|
            0 <= j < waypoints@.len() && waypoint_has_trait(waypoints@[j], "MARKETPLACE"@) && waypoints@[j].symbol@ == current@,
        r matches LocalFuel::Go(i) ==> i < waypoints@.len() && waypoint_has_trait(waypoints@[i as int], "MARKETPLACE"@)
            && forall|j: int| 0 <= j < i ==> !waypoint_has_trait(#[trigger] waypoints@[j], "MARKETPLACE"@),
{
    let mut first: Option<usize> = None;
    let mut i: usize = 0;
    while i < waypoints.len()
        invariant
            i <= waypoints@.len(),
            forall|j: int| 0 <= j < i ==> !(waypoint_has_trait(waypoints@[j], "MARKETPLACE"@) && waypoints@[j].symbol@ == current@),
            match first {
                Some(f) => f < i && waypoint_has_trait(waypoints@[f as int], "MARKETPLACE"@) && forall|j: int|
                    0 <= j < f ==> !waypoint_has_trait(#[trigger] waypoints@[j], "MARKETPLACE"@),
                None => forall|j: int| 0 <= j < i ==> !waypoint_has_trait(#[trigger] waypoints@[j], "MARKETPLACE"@),
            },
        decreases waypoints@.len() - i,
    {
        if has_trait(&waypoints[i], "MARKETPLACE") {
            if text_eq(waypoints[i].symbol.as_str(), current) {
                return LocalFuel::Here;
            }
            if first.is_none() {
                first = Some(i);
            }
        }
        i = i + 1;
    }
    match first {
        Some(f) => LocalFuel::Go(f),
        None => LocalFuel::NoStation,
    }
}

/// A marketplace the fuel left reaches: the first marketplace of the system whose trip (from a
/// waypoint reckoned as "current") takes no more fuel than is left.
pub fn closer_marketplace(waypoints: &[Waypoint], available_fuel: i32) -> (r: Option<usize>)
    ensures
        r matches Some(i) ==> i < waypoints@.len() && waypoint_has_trait(waypoints@[i as int], "MARKETPLACE"@) && trip_fuel("current"@, waypoints@[i as int].symbol@) <= available_fuel && forall|j: int|
            0 <= j < i ==> !(waypoint_has_trait(#[trigger] waypoints@[j], "MARKETPLACE"@) && trip_fuel("current"@, waypoints@[j].symbol@) <= available_fuel),
        r is None ==> forall|j: int|
            0 <= j < waypoints@.len() ==> !(waypoint_has_trait(#[trigger] waypoints@[j], "MARKETPLACE"@) && trip_fuel("current"@, waypoints@[j].symbol@) <= available_fuel),
{
    let mut i: usize = 0;
    while i < waypoints.len()
        invariant
            i <= waypoints@.len(),
            forall|j: int|
                0 <= j < i ==> !(waypoint_has_trait(#[trigger] waypoints@[j], "MARKETPLACE"@) && trip_fuel("current"@, waypoints@[j].symbol@) <= available_fuel),
        decreases waypoints@.len() - i,
    {
        if has_trait(&waypoints[i], "MARKETPLACE") {
            let fuel = estimate_fuel_needed("current", waypoints[i].symbol.as_str());
            proof {
                reveal_strlit("current");
            }
            if fuel <= available_fuel {
                return Some(i);
            }
        }
        i = i + 1;
    }
    None
}

} // verus!
