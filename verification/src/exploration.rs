//! Probe exploration: which ships probe, which waypoints are shipyards or jump gates, and the
//! record of an exploration mission.
use vstd::prelude::*;
use crate::model::{Ship, Waypoint, Trait};
use crate::seqs::lemma_filter_step;
use crate::text::{text_eq, has_text, contains_text, lowercase, to_lowercase, system_prefix, system_symbol_of, texts,
    holds_text};

verus! {

/// The ship is a probe: a satellite, or its frame is a probe frame.
pub open spec fn is_probe(s: Ship) -> bool {
    s.registration.role@ == "SATELLITE"@ || contains_text(s.frame.symbol@, "PROBE"@)
}

/// The trait's name or description, lowercased, mentions a shipyard.
pub open spec fn mentions_shipyard(t: Trait) -> bool {
    contains_text(lowercase(t.name@), "shipyard"@) || contains_text(lowercase(t.description@), "shipyard"@)
}

/// Some trait of the waypoint mentions a shipyard.
pub open spec fn is_shipyard_waypoint(w: Waypoint) -> bool {
    exists|i: int| 0 <= i < w.traits@.len() && mentions_shipyard(w.traits@[i])
}

/// The trait marks a jump gate: its symbol is JUMP_GATE, its lowercased name mentions a jump,
/// or the waypoint itself is a jump gate.
pub open spec fn marks_jump_gate(w: Waypoint, t: Trait) -> bool {
    t.symbol@ == "JUMP_GATE"@ || contains_text(lowercase(t.name@), "jump"@) || w.waypoint_type@ == "JUMP_GATE"@
}

/// Some trait of the waypoint marks a jump gate.
pub open spec fn is_jump_gate_waypoint(w: Waypoint) -> bool {
    exists|i: int| 0 <= i < w.traits@.len() && marks_jump_gate(w, w.traits@[i])
}

/// The symbols of the waypoints that pass `p`, in order.
pub open spec fn symbols_where(ws: Seq<Waypoint>, p: spec_fn(Waypoint) -> bool) -> Seq<Seq<char>> {
    ws.filter(p).map_values(|w: Waypoint| w.symbol@)
}

/// No text occurs twice.
pub open spec fn distinct(s: Seq<Seq<char>>) -> bool {
    forall|i: int, j: int| 0 <= i < j < s.len() ==> s[i] != s[j]
}

fn trait_mentions_shipyard(t: &Trait) -> (r: bool)
    ensures
        r == mentions_shipyard(*t),
{
    let name = to_lowercase(t.name.as_str());
    if has_text(name.as_str(), "shipyard") {
        return true;
    }
    let description = to_lowercase(t.description.as_str());
    has_text(description.as_str(), "shipyard")
}

/// Whether some trait of the waypoint mentions a shipyard.
pub fn has_shipyard_trait(w: &Waypoint) -> (r: bool)
    ensures
        r == is_shipyard_waypoint(*w),
{
    let mut i: usize = 0;
    while i < w.traits.len()
        invariant
            i <= w.traits@.len(),
            forall|j: int| 0 <= j < i ==> !mentions_shipyard(#[trigger] w.traits@[j]),
        decreases w.traits@.len() - i,
    {
        if trait_mentions_shipyard(&w.traits[i]) {
            return true;
        }
        i = i + 1;
    }
    false
}

/// Whether some trait of the waypoint marks a jump gate.
pub fn has_jump_gate_trait(w: &Waypoint) -> (r: bool)
    ensures
        r == is_jump_gate_waypoint(*w),
{
    let mut i: usize = 0;
    while i < w.traits.len()
        invariant
            i <= w.traits@.len(),
            forall|j: int| 0 <= j < i ==> !marks_jump_gate(*w, #[trigger] w.traits@[j]),
        decreases w.traits@.len() - i,
    {
        let t = &w.traits[i];
        if text_eq(t.symbol.as_str(), "JUMP_GATE") {
            return true;
        }
        let name = to_lowercase(t.name.as_str());
        if has_text(name.as_str(), "jump") || text_eq(w.waypoint_type.as_str(), "JUMP_GATE") {
            return true;
        }
        i = i + 1;
    }
    false
}

/// The system a probe is in, read from its waypoint symbol; `None` when the symbol has no '-'.
pub fn probe_system(probe: &Ship) -> (r: Option<String>)
    ensures
        r matches Some(s) ==> contains_text(probe.nav.waypoint_symbol@, "-"@) && s@ == system_prefix(probe.nav.waypoint_symbol@),
        r is None ==> !contains_text(probe.nav.waypoint_symbol@, "-"@),
{
    if has_text(probe.nav.waypoint_symbol.as_str(), "-") {
        Some(system_symbol_of(probe.nav.waypoint_symbol.as_str()))
    } else {
        None
    }
}

/// What an exploration mission has seen: the systems taken up so far, each once, and the
/// shipyards found, in the order found.
#[derive(Clone, Debug)]
pub struct ExplorationLog {
    explored: Vec<String>,
    found: Vec<String>,
}

impl ExplorationLog {
    /// The systems taken up, in order.
    pub closed spec fn explored_view(&self) -> Seq<Seq<char>> {
        texts(self.explored@)
    }

    /// The shipyards found, in order.
    pub closed spec fn found_view(&self) -> Seq<Seq<char>> {
        texts(self.found@)
    }

    /// No system is taken up twice.
    pub open spec fn wf(&self) -> bool {
        distinct(self.explored_view())
    }

    /// A mission that has seen nothing.
    pub fn new() -> (r: Self)
        ensures
            r.wf(),
            r.explored_view() == Seq::<Seq<char>>::empty(),
            r.found_view() == Seq::<Seq<char>>::empty(),
    {
        let r = ExplorationLog { explored: Vec::new(), found: Vec::new() };
        assert(r.explored_view() =~= Seq::<Seq<char>>::empty());
        assert(r.found_view() =~= Seq::<Seq<char>>::empty());
        r
    }

    /// Whether the system was taken up already.
    pub fn was_explored(&self, system: &str) -> (r: bool)
        ensures
            r == self.explored_view().contains(system@),
    {
        holds_text(&self.explored, system)
    }

    /// Takes the system up unless it was taken up already; says whether it was new.
    pub fn begin_system(&mut self, system: &str) -> (r: bool)
        requires
            old(self).wf(),
        ensures
            final(self).wf(),
            r == !old(self).explored_view().contains(system@),
            final(self).explored_view() == (if r {
                old(self).explored_view().push(system@)
            } else {
                old(self).explored_view()
            }),
            final(self).found_view() == old(self).found_view(),
    {
        if holds_text(&self.explored, system) {
            false
        } else {
            let ghost before = self.explored_view();
            self.explored.push(system.to_string());
            assert(self.explored_view() =~= before.push(system@));
            true
        }
    }

    /// Adds the shipyards found in a system, in order.
    pub fn record_shipyards(&mut self, yards: &[String])
        requires
            old(self).wf(),
        ensures
            final(self).wf(),
            final(self).explored_view() == old(self).explored_view(),
            final(self).found_view() == old(self).found_view() + texts(yards@),
    {
        let ghost before = self.found_view();
        let mut i: usize = 0;
        while i < yards.len()
            invariant
                i <= yards@.len(),
                self.wf(),
                self.explored_view() == old(self).explored_view(),
                self.found_view() == before + texts(yards@.take(i as int)),
            decreases yards@.len() - i,
        {
            let ghost prev = self.found_view();
            self.found.push(yards[i].clone());
            assert(texts(yards@.take(i + 1)) =~= texts(yards@.take(i as int)).push(yards@[i as int]@));
            assert(self.found_view() =~= prev.push(yards@[i as int]@));
            i = i + 1;
        }
        assert(yards@.take(i as int) =~= yards@);
    }

    /// Whether the mission has found enough shipyards (five) to stop widening the search.
    pub fn limit_reached(&self) -> (r: bool)
        ensures
            r == (self.found_view().len() >= 5),
    {
        self.found.len() >= 5
    }

    /// The shipyards found, in order.
    pub fn shipyards(&self) -> (r: Vec<String>)
        ensures
            texts(r@) == self.found_view(),
    {
        let mut r: Vec<String> = Vec::new();
        let mut i: usize = 0;
        while i < self.found.len()
            invariant
                i <= self.found@.len(),
                texts(r@) == texts(self.found@.take(i as int)),
            decreases self.found@.len() - i,
        {
            r.push(self.found[i].clone());
            assert(texts(self.found@.take(i + 1)) =~= texts(self.found@.take(i as int)).push(self.found@[i as int]@));
            assert(texts(r@) =~= texts(self.found@.take(i + 1)));
            i = i + 1;
        }
        assert(self.found@.take(i as int) =~= self.found@);
        r
    }
}

/// Exploration operations.
pub struct ExplorationOperations {}

impl ExplorationOperations {
    pub fn new() -> (r: Self) {
        ExplorationOperations {}
    }

    /// The probes of the fleet, in order: satellites and ships with a probe frame.
    pub fn get_probe_ships<'b>(&self, ships: &'b [Ship]) -> (r: Vec<&'b Ship>)
        ensures
            r@.map_values(|s: &Ship| *s) == ships@.filter(|s: Ship| is_probe(s)),
    {
        let mut r: Vec<&'b Ship> = Vec::new();
        let mut i: usize = 0;
        while i < ships.len()
            invariant
                i <= ships@.len(),
                r@.map_values(|s: &Ship| *s) == ships@.take(i as int).filter(|s: Ship| is_probe(s)),
            decreases ships@.len() - i,
        {
            proof {
                lemma_filter_step(ships@, |s: Ship| is_probe(s), i as int);
            }
            if text_eq(ships[i].registration.role.as_str(), "SATELLITE") || has_text(ships[i].frame.symbol.as_str(), "PROBE") {
                r.push(&ships[i]);
            }
            assert(r@.map_values(|s: &Ship| *s) =~= ships@.take(i + 1).filter(|s: Ship| is_probe(s)));
            i = i + 1;
        }
        assert(ships@.take(i as int) =~= ships@);
        r
    }

    /// The symbols of the waypoints of a system that have a shipyard trait, in order.
    pub fn shipyard_candidates(&self, waypoints: &[Waypoint]) -> (r: Vec<String>)
        ensures
            texts(r@) == symbols_where(waypoints@, |w: Waypoint| is_shipyard_waypoint(w)),
    {
        let mut r: Vec<String> = Vec::new();
        let mut i: usize = 0;
        while i < waypoints.len()
            invariant
                i <= waypoints@.len(),
                texts(r@) == symbols_where(waypoints@.take(i as int), |w: Waypoint| is_shipyard_waypoint(w)),
            decreases waypoints@.len() - i,
        {
            let ghost before = r@;
            let ghost f = waypoints@.take(i as int).filter(|w: Waypoint| is_shipyard_waypoint(w));
            proof {
                lemma_filter_step(waypoints@, |w: Waypoint| is_shipyard_waypoint(w), i as int);
            }
            if has_shipyard_trait(&waypoints[i]) {
                r.push(waypoints[i].symbol.clone());
                assert(texts(r@) =~= texts(before).push(waypoints@[i as int].symbol@));
                assert(f.push(waypoints@[i as int]).map_values(|w: Waypoint| w.symbol@) =~= f.map_values(
                    |w: Waypoint| w.symbol@,
                ).push(waypoints@[i as int].symbol@));
            }
            i = i + 1;
        }
        assert(waypoints@.take(i as int) =~= waypoints@);
        r
    }

    /// The symbols of the waypoints of a system that have a jump gate trait, in order.
    pub fn find_jump_gates(&self, waypoints: &[Waypoint]) -> (r: Vec<String>)
        ensures
            texts(r@) == symbols_where(waypoints@, |w: Waypoint| is_jump_gate_waypoint(w)),
    {
        let mut r: Vec<String> = Vec::new();
        let mut i: usize = 0;
        while i < waypoints.len()
            invariant
                i <= waypoints@.len(),
                texts(r@) == symbols_where(waypoints@.take(i as int), |w: Waypoint| is_jump_gate_waypoint(w)),
            decreases waypoints@.len() - i,
        {
            let ghost before = r@;
            let ghost f = waypoints@.take(i as int).filter(|w: Waypoint| is_jump_gate_waypoint(w));
            proof {
                lemma_filter_step(waypoints@, |w: Waypoint| is_jump_gate_waypoint(w), i as int);
            }
            if has_jump_gate_trait(&waypoints[i]) {
                r.push(waypoints[i].symbol.clone());
                assert(texts(r@) =~= texts(before).push(waypoints@[i as int].symbol@));
                assert(f.push(waypoints@[i as int]).map_values(|w: Waypoint| w.symbol@) =~= f.map_values(
                    |w: Waypoint| w.symbol@,
                ).push(waypoints@[i as int].symbol@));
            }
            i = i + 1;
        }
        assert(waypoints@.take(i as int) =~= waypoints@);
        r
    }

    /// Adds to `systems` each system that a jump gate of `current` connects to, other than
    /// `current` itself and those already listed, keeping every system once.
    pub fn add_connected_systems(&self, systems: &mut Vec<String>, connected: &[String], current: &str)
        requires
            distinct(texts(old(systems)@)),
        ensures
            distinct(texts(final(systems)@)),
            forall|s: Seq<char>| #[trigger] texts(final(systems)@).contains(s) <==> (texts(old(systems)@).contains(s) || (
            texts(connected@).contains(s) && s != current@)),
            texts(old(systems)@).is_prefix_of(texts(final(systems)@)),
    {
        let ghost start = texts(systems@);
        let mut i: usize = 0;
        while i < connected.len()
            invariant
                i <= connected@.len(),
                distinct(texts(systems@)),
                start.is_prefix_of(texts(systems@)),
                start == texts(old(systems)@),
                forall|s: Seq<char>| #[trigger] texts(systems@).contains(s) <==> (start.contains(s) || (
                texts(connected@.take(i as int)).contains(s) && s != current@)),
            decreases connected@.len() - i,
        {
            let ghost prev = texts(systems@);
            let c = &connected[i];
            assert(texts(connected@.take(i + 1)) =~= texts(connected@.take(i as int)).push(c@));
            if !text_eq(c.as_str(), current) && !holds_text(systems, c.as_str()) {
                systems.push(c.clone());
                assert(texts(systems@) =~= prev.push(c@));
                assert forall|x: Seq<char>| #[trigger] prev.push(c@).contains(x) <==> (prev.contains(x) || x == c@) by {
                    if x == c@ {
                        assert(prev.push(c@)[prev.len() as int] == c@);
                    }
                    if prev.push(c@).contains(x) && x != c@ {
                        let k = choose|k: int| 0 <= k < prev.push(c@).len() && prev.push(c@)[k] == x;
                        assert(prev[k] == x);
                    }
                    if prev.contains(x) {
                        let k = choose|k: int| 0 <= k < prev.len() && prev[k] == x;
                        assert(prev.push(c@)[k] == x);
                    }
                }
            }
            assert forall|x: Seq<char>| #[trigger] texts(connected@.take(i + 1)).contains(x) <==> (texts(connected@.take(i as int)).contains(x)
                || x == c@) by {
                let t = texts(connected@.take(i as int));
                if x == c@ {
                    assert(t.push(c@)[t.len() as int] == c@);
                }
                if t.push(c@).contains(x) && x != c@ {
                    let k = choose|k: int| 0 <= k < t.push(c@).len() && t.push(c@)[k] == x;
                    assert(t[k] == x);
                }
                if t.contains(x) {
                    let k = choose|k: int| 0 <= k < t.len() && t[k] == x;
                    assert(t.push(c@)[k] == x);
                }
            }
            i = i + 1;
        }
        assert(connected@.take(i as int) =~= connected@);
    }
}

} // verus!
