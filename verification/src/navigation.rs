//! Distances and fuel: how far apart two points are, the fuel a trip is reckoned to take, and
//! whether a ship reaches a destination on the fuel it has.
//!
//! Distances are Euclidean. They are kept as exact squared integers; a trip's fuel is the
//! distance rounded up plus 2, and a distance is shown with one decimal. For points less than
//! 2^15 apart on each axis these agree with the same computation in `f64`.
use vstd::prelude::*;
use vstd::string::*;
use crate::model::{Ship, Waypoint, RouteWaypoint, waypoint_has_trait, has_trait};
use crate::storage::survey_cache::{nearest_in, nearest_waypoint, distance_squared, waypoint_distance_squared};
use crate::seqs::lemma_filter_step;
use crate::text::{text_eq, decimal, decimal_text_u64, int_decimal, int_text, join_text};

verus! {

/// The squared distance between (`ax`, `ay`) and (`bx`, `by`).
pub open spec fn square_distance(ax: int, ay: int, bx: int, by: int) -> int {
    (bx - ax) * (bx - ax) + (by - ay) * (by - ay)
}

/// `r` is the square root of `n` rounded down.
pub open spec fn is_floor_sqrt(n: int, r: int) -> bool {
    0 <= r && r * r <= n && n < (r + 1) * (r + 1)
}

/// The square root of `n` rounded down.
pub open spec fn floor_sqrt(n: int) -> int {
    choose|r: int| is_floor_sqrt(n, r)
}

/// The square root of `n` rounded up.
pub open spec fn ceil_sqrt(n: int) -> int {
    if floor_sqrt(n) * floor_sqrt(n) == n {
        floor_sqrt(n)
    } else {
        floor_sqrt(n) + 1
    }
}

/// The fuel a trip of squared length `d2` is reckoned to take: the length rounded up (at most
/// `i32::MAX`), plus 2 without going past `i32::MAX`.
pub open spec fn fuel_for(d2: int) -> int {
    let c = if ceil_sqrt(d2) > i32::MAX {
        i32::MAX as int
    } else {
        ceil_sqrt(d2)
    };
    if c > i32::MAX - 2 {
        i32::MAX as int
    } else {
        c + 2
    }
}

/// The length of squared length `d2` in tenths, rounded to the nearest tenth.
pub open spec fn tenths(d2: int) -> int {
    let r = floor_sqrt(100 * d2);
    if 100 * d2 > r * r + r {
        r + 1
    } else {
        r
    }
}

/// A length given in tenths, written with one decimal.
pub open spec fn one_decimal(t: int) -> Seq<char> {
    decimal((t / 10) as nat) + seq!['.'] + decimal((t % 10) as nat)
}

proof fn lemma_floor_sqrt_unique(n: int, a: int, b: int)
    requires
        is_floor_sqrt(n, a),
        is_floor_sqrt(n, b),
    ensures
        a == b,
{
    if a < b {
        assert((a + 1) * (a + 1) <= b * b) by (nonlinear_arith)
            requires
                0 <= a,
                a + 1 <= b,
        ;
    } else if b < a {
        assert((b + 1) * (b + 1) <= a * a) by (nonlinear_arith)
            requires
                0 <= b,
                b + 1 <= a,
        ;
    }
}

proof fn lemma_floor_sqrt_exists(n: int)
    requires
        n >= 0,
    ensures
        exists|r: int| is_floor_sqrt(n, r),
    decreases n,
{
    if n == 0 {
        assert(is_floor_sqrt(0, 0));
    } else {
        let m = n - 1;
        lemma_floor_sqrt_exists(m);
        let r = choose|r: int| #[trigger] is_floor_sqrt(m, r);
        if (r + 1) * (r + 1) <= n {
            assert(n < (r + 2) * (r + 2)) by (nonlinear_arith)
                requires
                    n - 1 < (r + 1) * (r + 1),
                    0 <= r,
            ;
            assert(is_floor_sqrt(n, r + 1));
        } else {
            assert(is_floor_sqrt(n, r));
        }
    }
}

proof fn lemma_floor_sqrt_monotone(a: int, b: int)
    requires
        0 <= a <= b,
    ensures
        is_floor_sqrt(a, floor_sqrt(a)),
        is_floor_sqrt(b, floor_sqrt(b)),
        floor_sqrt(a) <= floor_sqrt(b),
{
    lemma_floor_sqrt_exists(a);
    lemma_floor_sqrt_exists(b);
    let x = floor_sqrt(a);
    let y = floor_sqrt(b);
    if y < x {
        assert((y + 1) * (y + 1) <= x * x) by (nonlinear_arith)
            requires
                0 <= y,
                y + 1 <= x,
        ;
    }
}

/// A longer trip never takes less fuel: the fuel reckoned for a trip grows with its length.
pub proof fn law_fuel_grows_with_distance(a: int, b: int)
    requires
        0 <= a <= b,
    ensures
        fuel_for(a) <= fuel_for(b),
{
    lemma_floor_sqrt_monotone(a, b);
    let x = floor_sqrt(a);
    let y = floor_sqrt(b);
    if x == y && x * x == b {
        assert(x * x == a);
    }
}

/// The square root of `n` rounded down.
pub fn floor_sqrt_u128(n: u128) -> (r: u128)
    requires
        n < 0x1_0000_0000_0000_0000_00,
    ensures
        r == floor_sqrt(n as int),
        is_floor_sqrt(n as int, r as int),
{
    let mut lo: u128 = 0;
    let mut hi: u128 = 0x10_0000_0000;
    assert(hi * hi == 0x1_0000_0000_0000_0000_00) by (nonlinear_arith)
        requires
            hi == 0x10_0000_0000,
    ;
    while hi - lo > 1
        invariant
            lo < hi <= 0x10_0000_0000,
            lo * lo <= n,
            n < hi * hi,
        decreases hi - lo,
    {
        let mid = lo + (hi - lo) / 2;
        assert(mid * mid <= 0x1_0000_0000_0000_0000_00) by (nonlinear_arith)
            requires
                mid <= 0x10_0000_0000,
        ;
        if mid * mid <= n {
            lo = mid;
        } else {
            hi = mid;
        }
    }
    proof {
        assert(hi == lo + 1);
        assert(is_floor_sqrt(n as int, lo as int));
        lemma_floor_sqrt_unique(n as int, lo as int, floor_sqrt(n as int));
    }
    lo
}

/// The squared distance between two points; the differences of the coordinates are taken in
/// `i32`.
pub fn square_distance_of(ax: i32, ay: i32, bx: i32, by: i32) -> (r: u128)
    requires
        i32::MIN <= bx - ax <= i32::MAX,
        i32::MIN <= by - ay <= i32::MAX,
    ensures
        r == square_distance(ax as int, ay as int, bx as int, by as int),
{
    let dx: i32 = bx - ax;
    let dy: i32 = by - ay;
    let ux: u128 = if dx < 0 {
        (-(dx as i64)) as u128
    } else {
        dx as u128
    };
    let uy: u128 = if dy < 0 {
        (-(dy as i64)) as u128
    } else {
        dy as u128
    };
    assert(ux * ux == dx * dx && ux * ux <= 0x4000_0000_0000_0000) by (nonlinear_arith)
        requires
            ux == (if dx < 0 { -dx } else { dx as int }),
            -0x8000_0000 <= dx < 0x8000_0000,
    ;
    assert(uy * uy == dy * dy && uy * uy <= 0x4000_0000_0000_0000) by (nonlinear_arith)
        requires
            uy == (if dy < 0 { -dy } else { dy as int }),
            -0x8000_0000 <= dy < 0x8000_0000,
    ;
    ux * ux + uy * uy
}

/// The fuel a trip of squared length `d2` is reckoned to take (see [`fuel_for`]).
pub fn estimate_fuel_cost(d2: u128) -> (r: i32)
    requires
        d2 < 0x1_0000_0000_0000_0000_00,
    ensures
        r == fuel_for(d2 as int),
        r >= 2,
{
    let f = floor_sqrt_u128(d2);
    assert(f <= 0x10_0000_0000 && f * f <= 0x1_0000_0000_0000_0000_00) by (nonlinear_arith)
        requires
            f * f <= d2,
            d2 < 0x1_0000_0000_0000_0000_00,
            0 <= f,
    ;
    let c: u128 = if f * f == d2 {
        f
    } else {
        f + 1
    };
    let c32: i32 = if c > 0x7fff_ffff {
        i32::MAX
    } else {
        c as i32
    };
    if c32 > i32::MAX - 2 {
        i32::MAX
    } else {
        c32 + 2
    }
}

/// A length of squared length `d2`, written with one decimal (see [`tenths`]).
pub fn distance_text(d2: u128) -> (r: String)
    requires
        d2 <= 0x8000_0000_0000_0000,
    ensures
        r@ == one_decimal(tenths(d2 as int)),
{
    let n: u128 = 100 * d2;
    let f = floor_sqrt_u128(n);
    assert(f <= 0x10_0000_0000 && f * f <= 0x1_0000_0000_0000_0000_00) by (nonlinear_arith)
        requires
            f * f <= n,
            n < 0x1_0000_0000_0000_0000_00,
            0 <= f,
    ;
    let t: u128 = if n > f * f + f {
        f + 1
    } else {
        f
    };
    assert(t <= 0x1_0000_0000_0000) by (nonlinear_arith)
        requires
            f * f <= n,
            n <= 100 * 0x8000_0000_0000_0000,
            t <= f + 1,
            0 <= f,
    ;
    let whole = decimal_text_u64((t / 10) as u64);
    let frac = decimal_text_u64((t % 10) as u64);
    proof {
        reveal_strlit(".");
    }
    let a = join_text(whole.as_str(), ".");
    join_text(a.as_str(), frac.as_str())
}

/// The ship's position: where its route ends.
pub open spec fn ship_x(s: Ship) -> int {
    s.nav.route.destination.x as int
}

pub open spec fn ship_y(s: Ship) -> int {
    s.nav.route.destination.y as int
}

/// The squared distance from the ship to the waypoint.
pub open spec fn ship_to(s: Ship, w: Waypoint) -> int {
    square_distance(ship_x(s), ship_y(s), w.x as int, w.y as int)
}

/// The squared distance between two waypoints.
pub open spec fn between(a: Waypoint, b: Waypoint) -> int {
    square_distance(a.x as int, a.y as int, b.x as int, b.y as int)
}

/// The coordinates of the ship and the waypoint differ by amounts that fit in an `i32`.
pub open spec fn reachable_math(s: Ship, w: Waypoint) -> bool {
    i32::MIN <= w.x - ship_x(s) <= i32::MAX && i32::MIN <= w.y - ship_y(s) <= i32::MAX
}

/// The coordinates of two waypoints differ by amounts that fit in an `i32`.
pub open spec fn pair_math(a: Waypoint, b: Waypoint) -> bool {
    i32::MIN <= b.x - a.x <= i32::MAX && i32::MIN <= b.y - a.y <= i32::MAX
}

/// The fuel the ship has for a trip: one less when docked (leaving dock costs one).
pub open spec fn fuel_on_hand(s: Ship) -> int {
    if s.nav.status@ == "DOCKED"@ {
        s.fuel.current - 1
    } else {
        s.fuel.current as int
    }
}

/// What a route check found.
#[derive(Clone, Debug)]
pub struct NavigationSafetyCheck {
    /// The ship reaches the destination directly.
    pub is_safe: bool,
    /// Fuel for the direct trip.
    pub fuel_needed: i32,
    pub current_fuel: i32,
    pub reason: String,
    /// Where the ship can refuel on the way, or the nearest station when none is in reach.
    pub nearest_fuel_source: Option<String>,
}

/// The marketplaces of a system, in order.
pub open spec fn marketplaces(ws: Seq<Waypoint>) -> Seq<Waypoint> {
    ws.filter(|w: Waypoint| waypoint_has_trait(w, "MARKETPLACE"@))
}

/// The route check of a ship for a destination, given the system's waypoints: safe when the
/// fuel on hand covers the direct trip; else, with no marketplace in the system, unsafe with
/// no fuel source; else unsafe with the nearest marketplace (the first among equally near
/// ones) as fuel source, whether or not the ship reaches it with 10 units to spare.
pub open spec fn route_check(s: Ship, dest: Waypoint, ws: Seq<Waypoint>, r: NavigationSafetyCheck) -> bool {
    let need = fuel_for(ship_to(s, dest));
    let avail = fuel_on_hand(s);
    &&& r.fuel_needed == need
    &&& r.current_fuel == s.fuel.current
    &&& if avail >= need {
        &&& r.is_safe
        &&& r.nearest_fuel_source is None
        &&& r.reason@ == "Direct navigation possible: "@ + int_decimal(avail) + " fuel available, "@ + int_decimal(need)
            + " needed"@
    } else if marketplaces(ws).len() == 0 {
        &&& !r.is_safe
        &&& r.nearest_fuel_source is None
        &&& r.reason@ == "No fuel stations found in system for refueling"@
    } else {
        &&& !r.is_safe
        &&& exists|m: Waypoint| {
            &&& nearest_in(marketplaces(ws), ship_x(s), ship_y(s), Some(m))
            &&& r.nearest_fuel_source matches Some(src) && src@ == m.symbol@
            &&& r.reason@ == if avail >= fuel_for(ship_to(s, m)) + 10 {
                "Multi-hop route needed: "@ + int_decimal(avail) + " fuel available, "@ + int_decimal(need)
                    + " needed for direct route. Can refuel at "@ + m.symbol@
            } else {
                "No reachable fuel stations: "@ + int_decimal(avail) + " fuel available, need "@ + int_decimal(
                    fuel_for(ship_to(s, m)),
                ) + " to reach nearest station at "@ + m.symbol@
            }
        }
    }
}

fn concat3(a: &str, b: &str, c: &str) -> (r: String)
    ensures
        r@ == a@ + b@ + c@,
{
    let x = join_text(a, b);
    join_text(x.as_str(), c)
}

/// The waypoints of `ws` having trait `t`, in order.
pub open spec fn with_trait_symbol(ws: Seq<Waypoint>, t: Seq<char>) -> Seq<Waypoint> {
    ws.filter(|w: Waypoint| waypoint_has_trait(w, t))
}

/// Ranking by distance from (`x`, `y`), position `i` of `c` comes before position `j`: it is
/// nearer, or as near and earlier in `c`.
pub open spec fn ranks_before(c: Seq<Waypoint>, x: int, y: int, i: int, j: int) -> bool {
    let di = distance_squared(c[i], x, y);
    let dj = distance_squared(c[j], x, y);
    di < dj || (di == dj && i < j)
}

/// `order` lists every position of `c` once, nearest to (`x`, `y`) first, equally near ones in
/// their order in `c`.
pub open spec fn ranking(c: Seq<Waypoint>, x: int, y: int, order: Seq<int>) -> bool {
    &&& order.len() == c.len()
    &&& forall|k: int| 0 <= k < order.len() ==> 0 <= #[trigger] order[k] < c.len()
    &&& forall|a: int, b: int| 0 <= a < b < order.len() ==> ranks_before(c, x, y, #[trigger] order[a], #[trigger] order[b])
}

/// `r` holds the waypoints of `c`, each with its squared distance from (`x`, `y`), nearest
/// first and equally near ones in their order in `c`.
pub open spec fn ranked_by_distance(c: Seq<Waypoint>, x: int, y: int, r: Seq<(&Waypoint, i128)>) -> bool {
    exists|order: Seq<int>|
        #[trigger] ranking(c, x, y, order) && r.len() == c.len() && forall|k: int|
            0 <= k < r.len() ==> *r[k].0 == c[order[k]] && r[k].1 == distance_squared(c[order[k]], x, y)
}

/// Plans trips and checks fuel.
pub struct NavigationPlanner {}

impl NavigationPlanner {
    pub fn new() -> (r: Self) {
        NavigationPlanner {}
    }

    /// The waypoints with trait `trait_name`, each with its squared distance from
    /// `from_position`, nearest first; equally near ones keep their order.
    pub fn find_nearest_waypoints_with_trait<'a>(&self, waypoints: &'a [Waypoint], from_position: &RouteWaypoint, trait_name: &str) -> (r:
        Vec<(&'a Waypoint, i128)>)
        ensures
            ranked_by_distance(
                with_trait_symbol(waypoints@, trait_name@),
                from_position.x as int,
                from_position.y as int,
                r@,
            ),
    {
        let x = from_position.x;
        let y = from_position.y;
        let mut cands: Vec<&'a Waypoint> = Vec::new();
        let mut i: usize = 0;
        while i < waypoints.len()
            invariant
                i <= waypoints@.len(),
                cands@.map_values(|w: &Waypoint| *w) == waypoints@.take(i as int).filter(|w: Waypoint| waypoint_has_trait(w, trait_name@)),
            decreases waypoints@.len() - i,
        {
            proof {
                lemma_filter_step(waypoints@, |w: Waypoint| waypoint_has_trait(w, trait_name@), i as int);
            }
            if has_trait(&waypoints[i], trait_name) {
                cands.push(&waypoints[i]);
            }
            assert(cands@.map_values(|w: &Waypoint| *w) =~= waypoints@.take(i + 1).filter(|w: Waypoint| waypoint_has_trait(w, trait_name@)));
            i = i + 1;
        }
        assert(waypoints@.take(i as int) =~= waypoints@);
        let ghost c = cands@.map_values(|w: &Waypoint| *w);
        let mut out: Vec<(&'a Waypoint, i128)> = Vec::new();
        let ghost mut order: Seq<int> = Seq::empty();
        let mut i: usize = 0;
        while i < cands.len()
            invariant
                c == cands@.map_values(|w: &Waypoint| *w),
                i <= cands@.len(),
                out@.len() == i,
                order.len() == i,
                forall|k: int| 0 <= k < i ==> 0 <= #[trigger] order[k] < i,
                forall|a: int, b: int| 0 <= a < b < i ==> ranks_before(c, x as int, y as int, #[trigger] order[a], #[trigger] order[b]),
                forall|k: int| 0 <= k < i ==> *(#[trigger] out@[k]).0 == c[order[k]] && out@[k].1 == distance_squared(c[order[k]], x as int, y as int),
            decreases cands@.len() - i,
        {
            let d = waypoint_distance_squared(cands[i], x, y);
            let mut p: usize = 0;
            while p < out.len() && out[p].1 <= d
                invariant
                    p <= out@.len(),
                    forall|k: int| 0 <= k < p ==> (#[trigger] out@[k]).1 <= d,
                decreases out@.len() - p,
            {
                p = p + 1;
            }
            proof {
                assert forall|k: int| p <= k < out@.len() implies (#[trigger] out@[k]).1 > d by {
                    if k > p {
                        assert(ranks_before(c, x as int, y as int, order[p as int], order[k]));
                    }
                }
            }
            let ghost old_out = out@;
            let ghost old_order = order;
            out.insert(p, (cands[i], d));
            proof {
                order = order.insert(p as int, i as int);
                old_out.insert_ensures(p as int, (cands@[i as int], d));
                old_order.insert_ensures(p as int, i as int);
                assert(c[i as int] == *cands@[i as int]);
                assert forall|k: int| 0 <= k < i + 1 implies 0 <= #[trigger] order[k] < i + 1 by {
                    if k < p {
                        assert(order[k] == old_order[k]);
                    } else if k > p {
                        assert(order[k] == old_order[k - 1]);
                    }
                }
                assert forall|k: int| 0 <= k < i + 1 implies *(#[trigger] out@[k]).0 == c[order[k]] && out@[k].1
                    == distance_squared(c[order[k]], x as int, y as int) by {
                    if k < p {
                        assert(out@[k] == old_out[k] && order[k] == old_order[k]);
                    } else if k > p {
                        assert(out@[k] == old_out[k - 1] && order[k] == old_order[k - 1]);
                    }
                }
                assert forall|a: int, b: int| 0 <= a < b < i + 1 implies ranks_before(c, x as int, y as int, #[trigger] order[a], #[trigger] order[b]) by {
                    if b < p {
                        assert(order[a] == old_order[a] && order[b] == old_order[b]);
                    } else if a > p {
                        assert(order[a] == old_order[a - 1] && order[b] == old_order[b - 1]);
                    } else if a < p && b > p {
                        assert(order[a] == old_order[a] && order[b] == old_order[b - 1]);
                    } else if a == p {
                        assert(order[b] == old_order[b - 1]);
                        assert(old_out[b - 1].1 > d);
                    } else {
                        assert(order[a] == old_order[a]);
                        assert(old_out[a].1 <= d);
                    }
                }
            }
            i = i + 1;
        }
        assert(ranking(c, x as int, y as int, order));
        out
    }

    /// Whether the ship reaches the destination on its fuel, and where it can refuel when it
    /// does not (see [`route_check`]).
    pub fn can_navigate_safely(&self, ship: &Ship, destination: &Waypoint, system_waypoints: &[Waypoint]) -> (r:
        NavigationSafetyCheck)
        requires
            ship.fuel.current > i32::MIN,
            reachable_math(*ship, *destination),
            forall|k: int| 0 <= k < system_waypoints@.len() ==> reachable_math(*ship, #[trigger] system_waypoints@[k]),
            forall|k: int|
                0 <= k < system_waypoints@.len() ==> fuel_for(ship_to(*ship, #[trigger] system_waypoints@[k])) <= i32::MAX - 10,
        ensures
            route_check(*ship, *destination, system_waypoints@, r),
    {
        let x = ship.nav.route.destination.x;
        let y = ship.nav.route.destination.y;
        let d2 = square_distance_of(x, y, destination.x, destination.y);
        proof {
            assert(d2 <= 0x8000_0000_0000_0000) by (nonlinear_arith)
                requires
                    d2 == square_distance(x as int, y as int, destination.x as int, destination.y as int),
                    -0x8000_0000 <= destination.x - x < 0x8000_0000,
                    -0x8000_0000 <= destination.y - y < 0x8000_0000,
            ;
        }
        let need = estimate_fuel_cost(d2);
        let avail: i32 = if text_eq(ship.nav.status.as_str(), "DOCKED") {
            ship.fuel.current - 1
        } else {
            ship.fuel.current
        };
        let avail_text = int_text(avail as i64);
        let need_text = int_text(need as i64);
        if avail >= need {
            let a = concat3("Direct navigation possible: ", avail_text.as_str(), " fuel available, ");
            let reason = concat3(a.as_str(), need_text.as_str(), " needed");
            return NavigationSafetyCheck {
                is_safe: true,
                fuel_needed: need,
                current_fuel: ship.fuel.current,
                reason,
                nearest_fuel_source: None,
            };
        }
        let mut cands: Vec<&Waypoint> = Vec::new();
        let mut i: usize = 0;
        while i < system_waypoints.len()
            invariant
                i <= system_waypoints@.len(),
                cands@.map_values(|w: &Waypoint| *w) == marketplaces(system_waypoints@.take(i as int)),
            decreases system_waypoints@.len() - i,
        {
            proof {
                lemma_filter_step(system_waypoints@, |w: Waypoint| waypoint_has_trait(w, "MARKETPLACE"@), i as int);
            }
            if has_trait(&system_waypoints[i], "MARKETPLACE") {
                cands.push(&system_waypoints[i]);
            }
            assert(cands@.map_values(|w: &Waypoint| *w) =~= marketplaces(system_waypoints@.take(i + 1)));
            i = i + 1;
        }
        assert(system_waypoints@.take(i as int) =~= system_waypoints@);
        match nearest_waypoint(&cands, x, y) {
            None => NavigationSafetyCheck {
                is_safe: false,
                fuel_needed: need,
                current_fuel: ship.fuel.current,
                reason: String::from_str("No fuel stations found in system for refueling"),
                nearest_fuel_source: None,
            },
            Some(m) => {
                let ghost mk = *m;
                proof {
                    let c = cands@.map_values(|w: &Waypoint| *w);
                    assert(exists|k: int| 0 <= k < c.len() && c[k] == mk);
                    let k = choose|k: int| 0 <= k < c.len() && c[k] == mk;
                    assert(marketplaces(system_waypoints@)[k] == mk);
                    assert(marketplaces(system_waypoints@).contains(mk));
                    system_waypoints@.lemma_filter_contains_rev(|w: Waypoint| waypoint_has_trait(w, "MARKETPLACE"@), mk);
                }
                let ghost j = choose|j: int| 0 <= j < system_waypoints@.len() && system_waypoints@[j] == mk;
                assert(reachable_math(*ship, system_waypoints@[j]));
                assert(fuel_for(ship_to(*ship, system_waypoints@[j])) <= i32::MAX - 10);
                let md2 = square_distance_of(x, y, m.x, m.y);
                proof {
                    assert(md2 <= 0x8000_0000_0000_0000) by (nonlinear_arith)
                        requires
                            md2 == square_distance(x as int, y as int, m.x as int, m.y as int),
                            -0x8000_0000 <= m.x - x < 0x8000_0000,
                            -0x8000_0000 <= m.y - y < 0x8000_0000,
                    ;
                }
                let to_station = estimate_fuel_cost(md2);
                let reason = if avail >= to_station + 10 {
                    let a = concat3("Multi-hop route needed: ", avail_text.as_str(), " fuel available, ");
                    let b = concat3(a.as_str(), need_text.as_str(), " needed for direct route. Can refuel at ");
                    join_text(b.as_str(), m.symbol.as_str())
                } else {
                    let c_text = int_text(to_station as i64);
                    let a = concat3("No reachable fuel stations: ", avail_text.as_str(), " fuel available, need ");
                    let b = concat3(a.as_str(), c_text.as_str(), " to reach nearest station at ");
                    join_text(b.as_str(), m.symbol.as_str())
                };
                proof {
                    reveal_strlit("Multi-hop route needed: ");
                    reveal_strlit(" fuel available, ");
                    reveal_strlit(" needed for direct route. Can refuel at ");
                    reveal_strlit("No reachable fuel stations: ");
                    reveal_strlit(" fuel available, need ");
                    reveal_strlit(" to reach nearest station at ");
                }
                NavigationSafetyCheck {
                    is_safe: false,
                    fuel_needed: need,
                    current_fuel: ship.fuel.current,
                    reason,
                    nearest_fuel_source: Some(m.symbol.clone()),
                }
            },
        }
    }
}

} // verus!
