//! Shipyards: where they are, which listed ship suits mining, and what a new ship is outfitted
//! with.
use vstd::prelude::*;
use crate::model::{Ship, Waypoint, Trait, Mount, Module, copy_traits};
use crate::seqs::lemma_filter_step;
use crate::text::{text_eq, has_text, contains_text};

verus! {

/// A shipyard waypoint.
#[derive(Clone, Debug)]
pub struct ShipyardLocation {
    pub system_symbol: String,
    pub waypoint_symbol: String,
    pub waypoint_type: String,
    pub traits: Vec<Trait>,
}

/// A ship a shipyard offers.
#[derive(Clone, Debug)]
pub struct ShipListing {
    pub ship_type: String,
    pub frame_symbol: String,
    pub mounts: Vec<Mount>,
    pub purchase_price: i32,
}

/// The system searched first, and the only one trusted to be charted.
pub open spec fn home_system() -> Seq<char> {
    "X1-N5"@
}

/// The waypoint has no UNCHARTED trait.
pub open spec fn is_charted(w: Waypoint) -> bool {
    forall|i: int| 0 <= i < w.traits@.len() ==> w.traits@[i].symbol@ != "UNCHARTED"@
}

/// The shipyard locations a system's shipyard waypoints give: all of them in the home system,
/// only the charted ones elsewhere.
pub open spec fn listed_shipyard(system: Seq<char>, w: Waypoint) -> bool {
    system == home_system() || is_charted(w)
}

/// `l` is the location of waypoint `w` in `system`.
pub open spec fn location_of(l: ShipyardLocation, system: Seq<char>, w: Waypoint) -> bool {
    &&& l.system_symbol@ == system
    &&& l.waypoint_symbol@ == w.symbol@
    &&& l.waypoint_type@ == w.waypoint_type@
    &&& l.traits@ == w.traits@
}

/// The listing suits mining: same frame as the reference ship, a mining mount, or a mining or
/// frigate ship type.
pub open spec fn suits_mining(l: ShipListing, reference: Ship) -> bool {
    ||| l.frame_symbol@ == reference.frame.symbol@
    ||| (exists|i: int| 0 <= i < l.mounts@.len() && contains_text(l.mounts@[i].symbol@, "MINING"@))
    ||| contains_text(l.ship_type@, "MINING"@)
    ||| contains_text(l.ship_type@, "FRIGATE"@)
}

/// The reference ship's mount is one a new mining ship is fitted with: mining or surveying.
pub open spec fn outfit_mount(m: Mount) -> bool {
    contains_text(m.symbol@, "MINING"@) || contains_text(m.symbol@, "SURVEYOR"@)
}

/// The reference ship's module is one a new mining ship is fitted with: cargo or processing.
pub open spec fn outfit_module(m: Module) -> bool {
    contains_text(m.symbol@, "CARGO"@) || contains_text(m.symbol@, "PROCESSOR"@)
}

fn charted(w: &Waypoint) -> (r: bool)
    ensures
        r == is_charted(*w),
{
    let mut i: usize = 0;
    while i < w.traits.len()
        invariant
            i <= w.traits@.len(),
            forall|j: int| 0 <= j < i ==> w.traits@[j].symbol@ != "UNCHARTED"@,
        decreases w.traits@.len() - i,
    {
        if text_eq(w.traits[i].symbol.as_str(), "UNCHARTED") {
            return false;
        }
        i = i + 1;
    }
    true
}

/// Shipyard operations.
pub struct ShipyardOperations {}

impl ShipyardOperations {
    pub fn new() -> (r: Self) {
        ShipyardOperations {}
    }

    /// The shipyard locations of a system's shipyard waypoints, in order: all of them in the
    /// home system, only the charted ones elsewhere.
    pub fn shipyard_locations(&self, system: &str, waypoints: &[Waypoint]) -> (r: Vec<ShipyardLocation>)
        ensures
            r@.len() == waypoints@.filter(|w: Waypoint| listed_shipyard(system@, w)).len(),
            forall|k: int| 0 <= k < r@.len() ==> location_of(
                #[trigger] r@[k],
                system@,
                waypoints@.filter(|w: Waypoint| listed_shipyard(system@, w))[k],
            ),
    {
        let home = text_eq(system, "X1-N5");
        let mut r: Vec<ShipyardLocation> = Vec::new();
        let mut i: usize = 0;
        while i < waypoints.len()
            invariant
                i <= waypoints@.len(),
                home == (system@ == home_system()),
                r@.len() == waypoints@.take(i as int).filter(|w: Waypoint| listed_shipyard(system@, w)).len(),
                forall|k: int| 0 <= k < r@.len() ==> location_of(
                    #[trigger] r@[k],
                    system@,
                    waypoints@.take(i as int).filter(|w: Waypoint| listed_shipyard(system@, w))[k],
                ),
            decreases waypoints@.len() - i,
        {
            proof {
                lemma_filter_step(waypoints@, |w: Waypoint| listed_shipyard(system@, w), i as int);
            }
            let w = &waypoints[i];
            if home || charted(w) {
                let traits = copy_traits(&w.traits);
                r.push(
                    ShipyardLocation {
                        system_symbol: String::from_str(system),
                        waypoint_symbol: w.symbol.clone(),
                        waypoint_type: w.waypoint_type.clone(),
                        traits,
                    },
                );
            }
            i = i + 1;
        }
        assert(waypoints@.take(i as int) =~= waypoints@);
        r
    }

    /// The first listed ship that suits mining (see [`suits_mining`]).
    pub fn suitable_mining_ship(&self, listings: &[ShipListing], reference: &Ship) -> (r: Option<usize>)
        ensures
            r matches Some(i) ==> i < listings@.len() && suits_mining(listings@[i as int], *reference)
                && forall|j: int| 0 <= j < i ==> !suits_mining(#[trigger] listings@[j], *reference),
            r is None ==> forall|j: int| 0 <= j < listings@.len() ==> !suits_mining(#[trigger] listings@[j], *reference),
    {
        let mut i: usize = 0;
        while i < listings.len()
            invariant
                i <= listings@.len(),
                forall|j: int| 0 <= j < i ==> !suits_mining(#[trigger] listings@[j], *reference),
            decreases listings@.len() - i,
        {
            let l = &listings[i];
            let mut mining_mount = false;
            let mut k: usize = 0;
            while k < l.mounts.len()
                invariant
                    k <= l.mounts@.len(),
                    mining_mount == exists|j: int| 0 <= j < k && contains_text(l.mounts@[j].symbol@, "MINING"@),
                decreases l.mounts@.len() - k,
            {
                if has_text(l.mounts[k].symbol.as_str(), "MINING") {
                    mining_mount = true;
                }
                k = k + 1;
            }
            if text_eq(l.frame_symbol.as_str(), reference.frame.symbol.as_str()) || mining_mount || has_text(
                l.ship_type.as_str(),
                "MINING",
            ) || has_text(l.ship_type.as_str(), "FRIGATE") {
                return Some(i);
            }
            i = i + 1;
        }
        None
    }

    /// Whether the credits pay for the ship: `Ok` when they do, else the credits still
    /// missing.
    pub fn check_funds(&self, credits: i64, price: i32) -> (r: Result<(), i64>)
        requires
            price - credits <= i64::MAX,
        ensures
            r is Ok <==> credits >= price,
            r matches Err(missing) ==> missing == price - credits,
    {
        if credits >= price as i64 {
            Ok(())
        } else {
            Err(price as i64 - credits)
        }
    }

    /// What a new mining ship is fitted with, after the reference ship: its mining and
    /// surveying mounts and its cargo and processing modules, in order.
    pub fn outfit_plan<'b>(&self, reference: &'b Ship) -> (r: (Vec<&'b Mount>, Vec<&'b Module>))
        ensures
            r.0@.map_values(|m: &Mount| *m) == reference.mounts@.filter(|m: Mount| outfit_mount(m)),
            r.1@.map_values(|m: &Module| *m) == reference.modules@.filter(|m: Module| outfit_module(m)),
    {
        let mut mounts: Vec<&'b Mount> = Vec::new();
        let mut i: usize = 0;
        while i < reference.mounts.len()
            invariant
                i <= reference.mounts@.len(),
                mounts@.map_values(|m: &Mount| *m) == reference.mounts@.take(i as int).filter(|m: Mount| outfit_mount(m)),
            decreases reference.mounts@.len() - i,
        {
            proof {
                lemma_filter_step(reference.mounts@, |m: Mount| outfit_mount(m), i as int);
            }
            let m = &reference.mounts[i];
            if has_text(m.symbol.as_str(), "MINING") || has_text(m.symbol.as_str(), "SURVEYOR") {
                mounts.push(m);
            }
            assert(mounts@.map_values(|m: &Mount| *m) =~= reference.mounts@.take(i + 1).filter(|m: Mount| outfit_mount(m)));
            i = i + 1;
        }
        assert(reference.mounts@.take(i as int) =~= reference.mounts@);
        let mut modules: Vec<&'b Module> = Vec::new();
        let mut k: usize = 0;
        while k < reference.modules.len()
            invariant
                k <= reference.modules@.len(),
                modules@.map_values(|m: &Module| *m) == reference.modules@.take(k as int).filter(|m: Module| outfit_module(m)),
            decreases reference.modules@.len() - k,
        {
            proof {
                lemma_filter_step(reference.modules@, |m: Module| outfit_module(m), k as int);
            }
            let m = &reference.modules[k];
            if has_text(m.symbol.as_str(), "CARGO") || has_text(m.symbol.as_str(), "PROCESSOR") {
                modules.push(m);
            }
            assert(modules@.map_values(|m: &Module| *m) =~= reference.modules@.take(k + 1).filter(
                |m: Module| outfit_module(m),
            ));
            k = k + 1;
        }
        assert(reference.modules@.take(k as int) =~= reference.modules@);
        (mounts, modules)
    }
}

/// The shipyard to head for: the first one in `system`, else the first of all.
pub fn choose_shipyard(shipyards: &[ShipyardLocation], system: &str) -> (r: Option<usize>)
    ensures
        r matches Some(i) ==> i < shipyards@.len() && (shipyards@[i as int].system_symbol@ == system@ && forall|j: int|
            0 <= j < i ==> shipyards@[j].system_symbol@ != system@) || (i == 0 && forall|j: int|
            0 <= j < shipyards@.len() ==> shipyards@[j].system_symbol@ != system@),
        r is None <==> shipyards@.len() == 0,
{
    let mut i: usize = 0;
    while i < shipyards.len()
        invariant
            i <= shipyards@.len(),
            forall|j: int| 0 <= j < i ==> shipyards@[j].system_symbol@ != system@,
        decreases shipyards@.len() - i,
    {
        if text_eq(shipyards[i].system_symbol.as_str(), system) {
            return Some(i);
        }
        i = i + 1;
    }
    if shipyards.len() > 0 {
        Some(0)
    } else {
        None
    }
}

} // verus!
