//! What each ship can do, for ranking the fleet: mining, trading, hauling, exploring.
use vstd::prelude::*;
use crate::model::{Ship, Mount};
use crate::exploration::is_probe;
use crate::coordination::{ship_is_probe, mentions_any};
use crate::text::{has_text, contains_text, contains_any_of};
use crate::ship_actor::ShipActorStatus;
use crate::seqs::lemma_filter_step;

verus! {

/// What a ship can do.
#[derive(Clone, Copy, Debug)]
pub struct ShipCapabilities {
    pub can_mine: bool,
    pub can_trade: bool,
    pub can_explore: bool,
    pub can_haul: bool,
    /// The summed strength of the mining mounts (0 for probes).
    pub mining_power: i32,
    pub cargo_capacity: i32,
    pub fuel_capacity: i32,
}

/// The mount mines or extracts.
pub open spec fn mining_mount(m: Mount) -> bool {
    contains_text(m.symbol@, "MINING"@) || contains_text(m.symbol@, "EXTRACTOR"@)
}

/// The strength the mount adds to mining: its strength when it mines (0 when unknown).
pub open spec fn mount_power(m: Mount) -> int {
    if mining_mount(m) {
        match m.strength {
            Some(s) => s as int,
            None => 0,
        }
    } else {
        0
    }
}

/// The mining strength of the first `n` mounts.
pub open spec fn power_prefix(ms: Seq<Mount>, n: int) -> int
    decreases n,
{
    if n <= 0 || n > ms.len() {
        0
    } else {
        power_prefix(ms, n - 1) + mount_power(ms[n - 1])
    }
}

/// Every running sum of the mining strength fits in an `i32`.
pub open spec fn power_fits(ms: Seq<Mount>) -> bool {
    forall|n: int| 0 <= n <= ms.len() ==> i32::MIN <= #[trigger] power_prefix(ms, n) <= i32::MAX
}

/// What the ship can do: a ship that is no probe mines when it has a mining mount; it trades
/// with a hold of 10 or more and hauls with 20 or more when it does not mine; probes explore.
pub open spec fn capabilities_of(s: Ship) -> ShipCapabilities {
    let probe = is_probe(s);
    let can_mine = !probe && exists|i: int| 0 <= i < s.mounts@.len() && mining_mount(s.mounts@[i]);
    ShipCapabilities {
        can_mine,
        can_trade: s.cargo.capacity >= 10,
        can_explore: probe,
        can_haul: s.cargo.capacity >= 20 && !can_mine,
        mining_power: if probe {
            0
        } else {
            power_prefix(s.mounts@, s.mounts@.len() as int) as i32
        },
        cargo_capacity: s.cargo.capacity,
        fuel_capacity: s.fuel.capacity,
    }
}

/// What the ship can do (see [`capabilities_of`]).
pub fn analyze_ship_capabilities(ship: &Ship) -> (r: ShipCapabilities)
    requires
        power_fits(ship.mounts@),
    ensures
        r == capabilities_of(*ship),
{
    let probe = ship_is_probe(ship);
    let mut mines = false;
    let mut power: i32 = 0;
    let mut i: usize = 0;
    while i < ship.mounts.len()
        invariant
            i <= ship.mounts@.len(),
            power_fits(ship.mounts@),
            mines == exists|j: int| 0 <= j < i && mining_mount(ship.mounts@[j]),
            power == power_prefix(ship.mounts@, i as int),
        decreases ship.mounts@.len() - i,
    {
        let m = &ship.mounts[i];
        assert(i32::MIN <= power_prefix(ship.mounts@, i + 1) <= i32::MAX);
        if has_text(m.symbol.as_str(), "MINING") || has_text(m.symbol.as_str(), "EXTRACTOR") {
            mines = true;
            let s = match m.strength {
                Some(v) => v,
                None => 0,
            };
            power = power + s;
        }
        i = i + 1;
    }
    let can_mine = !probe && mines;
    ShipCapabilities {
        can_mine,
        can_trade: ship.cargo.capacity >= 10,
        can_explore: probe,
        can_haul: ship.cargo.capacity >= 20 && !can_mine,
        mining_power: if probe {
            0
        } else {
            power
        },
        cargo_capacity: ship.cargo.capacity,
        fuel_capacity: ship.fuel.capacity,
    }
}

/// The materials commonly mined.
pub open spec fn mineable_materials() -> Seq<Seq<char>> {
    seq![
        "IRON_ORE"@,
        "COPPER_ORE"@,
        "ALUMINUM_ORE"@,
        "GOLD_ORE"@,
        "PLATINUM_ORE"@,
        "SILVER_ORE"@,
        "URANIUM_ORE"@,
        "PRECIOUS_STONES"@,
        "QUARTZ_SAND"@,
        "SILICON_CRYSTALS"@,
        "DIAMONDS"@,
        "HYDROCARBON"@,
        "LIQUID_HYDROGEN"@,
    ]
}

/// Whether the contract is a mining contract: some needed material mentions a commonly mined
/// one.
pub fn contract_requires_mining(needed_materials: &[String]) -> (r: bool)
    ensures
        r == exists|i: int| 0 <= i < needed_materials@.len() && mentions_any(needed_materials@[i]@, mineable_materials()),
{
    let names: [&str; 13] = [
        "IRON_ORE",
        "COPPER_ORE",
        "ALUMINUM_ORE",
        "GOLD_ORE",
        "PLATINUM_ORE",
        "SILVER_ORE",
        "URANIUM_ORE",
        "PRECIOUS_STONES",
        "QUARTZ_SAND",
        "SILICON_CRYSTALS",
        "DIAMONDS",
        "HYDROCARBON",
        "LIQUID_HYDROGEN",
    ];
    assert(names@.map_values(|g: &str| g@) =~= mineable_materials());
    let mut i: usize = 0;
    while i < needed_materials.len()
        invariant
            i <= needed_materials@.len(),
            names@.map_values(|g: &str| g@) == mineable_materials(),
            forall|j: int| 0 <= j < i ==> !mentions_any(#[trigger] needed_materials@[j]@, mineable_materials()),
        decreases needed_materials@.len() - i,
    {
        let m = needed_materials[i].as_str();
        let found = contains_any_of(m, &names);
        proof {
            if found {
                let j = choose|j: int| 0 <= j < names@.len() && contains_text(m@, names@[j]@);
                assert(mineable_materials()[j] == names@[j]@);
            }
            if mentions_any(m@, mineable_materials()) {
                let j = choose|j: int| 0 <= j < mineable_materials().len() && contains_text(m@, mineable_materials()[j]);
                assert(names@[j]@ == mineable_materials()[j]);
            }
        }
        if found {
            return true;
        }
        i = i + 1;
    }
    false
}

/// The role a ship is best at, by its capabilities: a miner with mining power first, then a
/// hauler, a trader, an explorer, else utility.
pub fn get_primary_role(capabilities: &ShipCapabilities) -> (r: &'static str)
    ensures
        r@ == (if capabilities.can_mine && capabilities.mining_power > 0 {
            "Primary Miner"@
        } else if capabilities.can_haul {
            "Hauler"@
        } else if capabilities.can_trade {
            "Trader"@
        } else if capabilities.can_explore {
            "Explorer"@
        } else {
            "Utility"@
        }),
{
    if capabilities.can_mine && capabilities.mining_power > 0 {
        "Primary Miner"
    } else if capabilities.can_haul {
        "Hauler"
    } else if capabilities.can_trade {
        "Trader"
    } else if capabilities.can_explore {
        "Explorer"
    } else {
        "Utility"
    }
}

/// The task recommended for a ship: high-priority mining when it mines and `contributes` (its
/// share of the contract is 0.05 or more), cargo transport for a hauler with a hold over 30,
/// exploration for an explorer, else support operations.
pub fn recommend_task(capabilities: &ShipCapabilities, contributes: bool) -> (r: &'static str)
    ensures
        r@ == (if capabilities.can_mine && contributes {
            "High-priority mining"@
        } else if capabilities.can_haul && capabilities.cargo_capacity > 30 {
            "Cargo transport"@
        } else if capabilities.can_explore {
            "System exploration"@
        } else {
            "Support operations"@
        }),
{
    if capabilities.can_mine && contributes {
        "High-priority mining"
    } else if capabilities.can_haul && capabilities.cargo_capacity > 30 {
        "Cargo transport"
    } else if capabilities.can_explore {
        "System exploration"
    } else {
        "Support operations"
    }
}

/// The entry's ship is idle.
pub open spec fn idle_entry(e: (String, ShipActorStatus)) -> bool {
    e.1 is Idle
}

/// The symbols of the idle ships of `fleet` (ship symbol and status), in order.
pub fn idle_ships(fleet: &[(String, ShipActorStatus)]) -> (r: Vec<String>)
    ensures
        r@ == fleet@.filter(|e: (String, ShipActorStatus)| idle_entry(e)).map_values(|e: (String, ShipActorStatus)| e.0),
{
    let mut r: Vec<String> = Vec::new();
    let mut i: usize = 0;
    while i < fleet.len()
        invariant
            i <= fleet@.len(),
            r@ == fleet@.take(i as int).filter(|e: (String, ShipActorStatus)| idle_entry(e)).map_values(
                |e: (String, ShipActorStatus)| e.0,
            ),
        decreases fleet@.len() - i,
    {
        proof {
            lemma_filter_step(fleet@, |e: (String, ShipActorStatus)| idle_entry(e), i as int);
        }
        if matches!(fleet[i].1, ShipActorStatus::Idle) {
            r.push(fleet[i].0.clone());
        }
        assert(r@ =~= fleet@.take(i + 1).filter(|e: (String, ShipActorStatus)| idle_entry(e)).map_values(
            |e: (String, ShipActorStatus)| e.0,
        ));
        i = i + 1;
    }
    assert(fleet@.take(i as int) =~= fleet@);
    r
}

} // verus!
