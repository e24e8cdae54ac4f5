//! Ship cooldowns, kept across restarts: until when each ship is busy.
use vstd::prelude::*;
use vstd::string::*;
use crate::clock::{now_millis, whole_seconds_between, latest_clock_millis};
use crate::keyed::KeyedVec;

verus! {

/// A ship's stored cooldown; instants in milliseconds since the Unix epoch.
#[derive(Clone, Debug)]
pub struct CooldownEntry {
    pub ship_symbol: String,
    pub cooldown_until: i64,
    pub last_updated: i64,
}

/// When a cooldown ends and when it was recorded.
pub struct CooldownTimes {
    pub until: int,
    pub updated: int,
}

/// Ship cooldowns by ship symbol.
pub struct CooldownStore {
    storage_path: String,
    cooldowns: KeyedVec<CooldownEntry>,
}

/// Whole seconds of cooldown left at `now` for a cooldown ending at `until`, when any.
pub open spec fn remaining_of(m: Map<Seq<char>, CooldownTimes>, ship: Seq<char>, now: int) -> Option<int> {
    if m.contains_key(ship) && whole_seconds_between(now, m[ship].until) > 0 {
        Some(whole_seconds_between(now, m[ship].until))
    } else {
        None
    }
}

/// The cooldowns after `ship` was set busy for `seconds` at `now`.
pub open spec fn with_cooldown(m: Map<Seq<char>, CooldownTimes>, ship: Seq<char>, seconds: int, now: i64) -> Map<Seq<char>, CooldownTimes> {
    m.insert(ship, CooldownTimes { until: now + seconds * 1000, updated: now as int })
}

/// Setting `ship` busy for `seconds` at the clock value `now` turns the cooldowns `m0` into `m1`:
/// they are set when the end instant, in milliseconds, fits an `i64`, and unchanged otherwise.
pub open spec fn set_at_clock(m0: Map<Seq<char>, CooldownTimes>, m1: Map<Seq<char>, CooldownTimes>, ship: Seq<char>, seconds: i64, now: i64) -> bool {
    if i64::MIN <= seconds * 1000 <= i64::MAX && i64::MIN <= now + seconds * 1000 <= i64::MAX {
        m1 == with_cooldown(m0, ship, seconds as int, now)
    } else {
        m1 == m0
    }
}

/// Whole seconds of cooldown left, read at the clock value `now`.
pub open spec fn remaining_at_clock(m: Map<Seq<char>, CooldownTimes>, ship: Seq<char>, now: i64) -> Option<int> {
    remaining_of(m, ship, now as int)
}

/// The cooldowns still running at the clock value `now`.
pub open spec fn unexpired_at_clock(m: Map<Seq<char>, CooldownTimes>, now: i64) -> Map<Seq<char>, CooldownTimes> {
    unexpired(m, now as int)
}

/// The cooldowns that the first `n` loaded entries make up, a later entry for a ship replacing
/// an earlier one.
pub open spec fn loaded_cooldowns(entries: Seq<CooldownEntry>, n: int) -> Map<Seq<char>, CooldownTimes>
    decreases n,
{
    if n <= 0 || n > entries.len() {
        Map::empty()
    } else {
        loaded_cooldowns(entries, n - 1).insert(
            entries[n - 1].ship_symbol@,
            CooldownTimes { until: entries[n - 1].cooldown_until as int, updated: entries[n - 1].last_updated as int },
        )
    }
}

/// The cooldowns that are still running at `now`.
pub open spec fn unexpired(m: Map<Seq<char>, CooldownTimes>, now: int) -> Map<Seq<char>, CooldownTimes> {
    m.restrict(Set::new(|k: Seq<char>| m.contains_key(k) && m[k].until > now))
}

impl CooldownStore {
    /// The stored cooldowns.
    pub closed spec fn view(&self) -> Map<Seq<char>, CooldownTimes> {
        Map::new(
            |k: Seq<char>| self.cooldowns@.contains_key(k),
            |k: Seq<char>| CooldownTimes {
                until: self.cooldowns@[k].cooldown_until as int,
                updated: self.cooldowns@[k].last_updated as int,
            },
        )
    }

    /// The table is consistent: distinct ships, each entry stored under its own ship symbol.
    pub closed spec fn wf(&self) -> bool {
        &&& self.cooldowns.wf()
        &&& forall|k: Seq<char>| #[trigger] self.cooldowns@.contains_key(k) ==> self.cooldowns@[k].ship_symbol@ == k
    }

    /// Where the store is saved.
    pub closed spec fn path(&self) -> Seq<char> {
        self.storage_path@
    }

    /// An empty store saved at `storage_path`.
    pub fn new(storage_path: &str) -> (r: Self)
        ensures
            r.wf(),
            r@ == Map::<Seq<char>, CooldownTimes>::empty(),
            r.path() == storage_path@,
    {
        let r = CooldownStore { storage_path: String::from_str(storage_path), cooldowns: KeyedVec::new() };
        assert(r@ =~= Map::<Seq<char>, CooldownTimes>::empty());
        r
    }

    /// Where the store is saved.
    pub fn storage_path(&self) -> (r: &str)
        ensures
            r@ == self.path(),
    {
        self.storage_path.as_str()
    }

    /// Number of stored cooldowns.
    pub fn len(&self) -> (r: usize)
        requires
            self.wf(),
        ensures
            r == self.len_spec(),
            r == self@.len(),
    {
        proof {
            self.cooldowns.lemma_len_is_dom_len();
            assert(self@.dom() =~= self.cooldowns@.dom());
        }
        self.cooldowns.len()
    }

    /// The entries as saved, in table order.
    pub closed spec fn saved(&self) -> Seq<CooldownEntry> {
        self.cooldowns.entries().map_values(|e: (String, CooldownEntry)| e.1)
    }

    /// The `i`-th stored cooldown, for saving.
    pub fn entry_at(&self, i: usize) -> (r: &CooldownEntry)
        requires
            self.wf(),
            i < self.len_spec(),
        ensures
            *r == self.saved()[i as int],
            self.saved().len() == self.len_spec(),
            self@.contains_key(r.ship_symbol@),
            self@[r.ship_symbol@].until == r.cooldown_until,
            self@[r.ship_symbol@].updated == r.last_updated,
    {
        let (k, e) = self.cooldowns.entry_at(i);
        proof {
            self.cooldowns.lemma_entry_in_view(i as int);
        }
        e
    }

    /// Number of stored cooldowns.
    pub closed spec fn len_spec(&self) -> nat {
        self.cooldowns.entries().len()
    }

    fn put(&mut self, ship: &str, until: i64, updated: i64)
        requires
            old(self).wf(),
        ensures
            final(self).wf(),
            final(self)@ == old(self)@.insert(ship@, CooldownTimes { until: until as int, updated: updated as int }),
            final(self).path() == old(self).path(),
    {
        let entry = CooldownEntry { ship_symbol: String::from_str(ship), cooldown_until: until, last_updated: updated };
        self.cooldowns.insert(String::from_str(ship), entry);
        proof {
            assert forall|k: Seq<char>| #[trigger] self.cooldowns@.contains_key(k) implies self.cooldowns@[k].ship_symbol@ == k by {
                if k != ship@ {
                    assert(old(self).cooldowns@.contains_key(k));
                }
            }
            assert(self@ =~= old(self)@.insert(ship@, CooldownTimes { until: until as int, updated: updated as int }));
        }
    }

    /// Loads saved cooldowns as the store's content, a later entry for a ship replacing an
    /// earlier one, then drops those that ended by `now`.
    pub fn restore(&mut self, loaded: Vec<CooldownEntry>, now: i64)
        requires
            old(self).wf(),
        ensures
            final(self).wf(),
            final(self).path() == old(self).path(),
            final(self)@ == unexpired(loaded_cooldowns(loaded@, loaded@.len() as int), now as int),
    {
        self.cooldowns = KeyedVec::new();
        assert(self@ =~= Map::<Seq<char>, CooldownTimes>::empty());
        let mut i: usize = 0;
        while i < loaded.len()
            invariant
                i <= loaded@.len(),
                self.wf(),
                self.path() == old(self).path(),
                self@ == loaded_cooldowns(loaded@, i as int),
            decreases loaded@.len() - i,
        {
            let e = &loaded[i];
            self.put(e.ship_symbol.as_str(), e.cooldown_until, e.last_updated);
            i = i + 1;
        }
        self.cleanup_expired_at(now);
    }

    /// Records that `ship` is busy for `cooldown_seconds` from `now`.
    pub fn set_cooldown_at(&mut self, ship: &str, cooldown_seconds: i64, now: i64)
        requires
            old(self).wf(),
            i64::MIN <= cooldown_seconds * 1000 <= i64::MAX,
            i64::MIN <= now + cooldown_seconds * 1000 <= i64::MAX,
        ensures
            final(self).wf(),
            final(self)@ == with_cooldown(old(self)@, ship@, cooldown_seconds as int, now),
            final(self).path() == old(self).path(),
    {
        let until = now + cooldown_seconds * 1000;
        self.put(ship, until, now);
    }

    /// Records that `ship` is busy for `cooldown_seconds` from the current time. When the end of
    /// the cooldown would not fit the clock's range the store is left unchanged.
    pub fn set_cooldown(&mut self, ship: &str, cooldown_seconds: i64)
        requires
            old(self).wf(),
        ensures
            final(self).wf(),
            final(self).path() == old(self).path(),
            exists|now: i64| 0 <= now <= latest_clock_millis() && #[trigger] set_at_clock(old(self)@, final(self)@, ship@, cooldown_seconds, now),
            i64::MIN <= cooldown_seconds * 1000 && latest_clock_millis() + cooldown_seconds * 1000 <= i64::MAX
                ==> exists|now: i64| 0 <= now <= latest_clock_millis()
                    && final(self)@ == #[trigger] with_cooldown(old(self)@, ship@, cooldown_seconds as int, now),
    {
        let now = now_millis();
        match cooldown_seconds.checked_mul(1000) {
            Some(ms) => match now.checked_add(ms) {
                Some(_) => {
                    self.set_cooldown_at(ship, cooldown_seconds, now);
                },
                None => {},
            },
            None => {},
        }
        assert(set_at_clock(old(self)@, self@, ship@, cooldown_seconds, now));
        assert(i64::MIN <= cooldown_seconds * 1000 && latest_clock_millis() + cooldown_seconds * 1000 <= i64::MAX
            ==> self@ == with_cooldown(old(self)@, ship@, cooldown_seconds as int, now));
    }

    /// Whole seconds of cooldown `ship` has left at `now`, when it has some.
    pub fn get_remaining_cooldown_at(&self, ship: &str, now: i64) -> (r: Option<i64>)
        requires
            self.wf(),
        ensures
            match r {
                Some(s) => remaining_of(self@, ship@, now as int) == Some(s as int),
                None => remaining_of(self@, ship@, now as int) is None,
            },
    {
        match self.cooldowns.get(ship) {
            Some(e) => {
                let d: i128 = e.cooldown_until as i128 - now as i128;
                let s: i128 = if d >= 0 { d / 1000 } else { -((-d) / 1000) };
                if s > 0 {
                    assert(s <= 18_446_744_073_709_551) by (nonlinear_arith)
                        requires
                            d <= 18_446_744_073_709_551_615,
                            s == if d >= 0 { d / 1000 } else { -((-d) / 1000) },
                    ;
                    Some(s as i64)
                } else {
                    None
                }
            },
            None => None,
        }
    }

    /// Whole seconds of cooldown `ship` has left now, when it has some.
    pub fn get_remaining_cooldown(&self, ship: &str) -> (r: Option<i64>)
        requires
            self.wf(),
        ensures
            exists|now: i64| match r {
                Some(s) => #[trigger] remaining_at_clock(self@, ship@, now) == Some(s as int),
                None => remaining_at_clock(self@, ship@, now) is None,
            },
    {
        let now = now_millis();
        let r = self.get_remaining_cooldown_at(ship, now);
        assert(remaining_at_clock(self@, ship@, now) == remaining_of(self@, ship@, now as int));
        r
    }

    /// Whether `ship` still has cooldown at `now`.
    pub fn is_on_cooldown_at(&self, ship: &str, now: i64) -> (r: bool)
        requires
            self.wf(),
        ensures
            r == (remaining_of(self@, ship@, now as int) is Some),
    {
        self.get_remaining_cooldown_at(ship, now).is_some()
    }

    /// Whether `ship` still has cooldown now.
    pub fn is_on_cooldown(&self, ship: &str) -> (r: bool)
        requires
            self.wf(),
        ensures
            exists|now: i64| r == (#[trigger] remaining_at_clock(self@, ship@, now) is Some),
    {
        let now = now_millis();
        let r = self.is_on_cooldown_at(ship, now);
        assert(remaining_at_clock(self@, ship@, now) == remaining_of(self@, ship@, now as int));
        r
    }

    /// Forgets the cooldown of `ship`; returns whether there was one (and the store changed).
    pub fn clear_cooldown(&mut self, ship: &str) -> (r: bool)
        requires
            old(self).wf(),
        ensures
            final(self).wf(),
            final(self)@ == old(self)@.remove(ship@),
            r == old(self)@.contains_key(ship@),
            final(self).path() == old(self).path(),
    {
        let r = self.cooldowns.remove(ship);
        proof {
            assert forall|k: Seq<char>| #[trigger] self.cooldowns@.contains_key(k) implies self.cooldowns@[k].ship_symbol@ == k by {
                assert(old(self).cooldowns@.contains_key(k));
            }
            assert(self@ =~= old(self)@.remove(ship@));
        }
        r
    }

    /// Drops the cooldowns that ended by `now`; returns how many were dropped.
    pub fn cleanup_expired_at(&mut self, now: i64) -> (r: usize)
        requires
            old(self).wf(),
        ensures
            final(self).wf(),
            final(self)@ == unexpired(old(self)@, now as int),
            r == old(self)@.len() - final(self)@.len(),
            final(self).path() == old(self).path(),
    {
        let mut doomed: Vec<String> = Vec::new();
        let n = self.cooldowns.len();
        let mut i: usize = 0;
        assert(doomed@.map_values(|s: String| s@).to_set() =~= Set::new(|k: Seq<char>| exists|j: int|
            0 <= j < 0 && self.cooldowns.entries()[j].0@ == k && self.cooldowns.entries()[j].1.cooldown_until <= now));
        while i < n
            invariant
                i <= n,
                n == self.cooldowns.entries().len(),
                self.wf(),
                doomed@.map_values(|s: String| s@).to_set() == Set::new(|k: Seq<char>| exists|j: int|
                    0 <= j < i && self.cooldowns.entries()[j].0@ == k && self.cooldowns.entries()[j].1.cooldown_until <= now),
            decreases n - i,
        {
            let (k, e) = self.cooldowns.entry_at(i);
            let ghost before = doomed@;
            if e.cooldown_until <= now {
                doomed.push(String::from_str(k.as_str()));
                proof {
                    assert(doomed@.map_values(|s: String| s@) =~= before.map_values(|s: String| s@).push(k@));
                    before.map_values(|s: String| s@).lemma_push_to_set_commute(k@);
                }
            }
            proof {
                assert(doomed@.map_values(|s: String| s@).to_set() =~= Set::new(|key: Seq<char>| exists|j: int|
                    0 <= j < i + 1 && self.cooldowns.entries()[j].0@ == key && self.cooldowns.entries()[j].1.cooldown_until <= now));
            }
            i = i + 1;
        }
        let before = self.cooldowns.len();
        let ghost old_map = self.cooldowns@;
        self.cooldowns.remove_all(&doomed);
        let after = self.cooldowns.len();
        proof {
            let gone = doomed@.map_values(|s: String| s@).to_set();
            assert forall|k: Seq<char>| #[trigger] gone.contains(k) <==> (old_map.contains_key(k) && old_map[k].cooldown_until <= now) by {
                if gone.contains(k) {
                    let j = choose|j: int| 0 <= j < n && old(self).cooldowns.entries()[j].0@ == k
                        && old(self).cooldowns.entries()[j].1.cooldown_until <= now;
                    old(self).cooldowns.lemma_entry_in_view(j);
                }
                if old_map.contains_key(k) && old_map[k].cooldown_until <= now {
                    let j = choose|j: int| 0 <= j < n && old(self).cooldowns.entries()[j].0@ == k;
                    old(self).cooldowns.lemma_entry_in_view(j);
                }
            }
            assert forall|k: Seq<char>| #[trigger] self.cooldowns@.contains_key(k) implies self.cooldowns@[k].ship_symbol@ == k by {
                assert(old_map.contains_key(k));
            }
            assert(self@ =~= unexpired(old(self)@, now as int));
            old(self).cooldowns.lemma_len_is_dom_len();
            self.cooldowns.lemma_len_is_dom_len();
            assert(old(self)@.dom() =~= old_map.dom());
            assert(self@.dom() =~= self.cooldowns@.dom());
            vstd::set_lib::lemma_len_subset(self@.dom(), old(self)@.dom());
        }
        before - after
    }

    /// Drops the cooldowns that have ended by now; returns how many were dropped.
    pub fn cleanup_expired(&mut self) -> (r: usize)
        requires
            old(self).wf(),
        ensures
            final(self).wf(),
            exists|now: i64| final(self)@ == #[trigger] unexpired_at_clock(old(self)@, now),
            r == old(self)@.len() - final(self)@.len(),
            final(self).path() == old(self).path(),
    {
        let now = now_millis();
        let r = self.cleanup_expired_at(now);
        assert(unexpired_at_clock(old(self)@, now) == unexpired(old(self)@, now as int));
        r
    }
}

/// The ships on cooldown at `now` with their whole seconds left, shortest first.
pub open spec fn active_list_ok(m: Map<Seq<char>, CooldownTimes>, now: int, r: Seq<(String, i64)>) -> bool {
    &&& forall|i: int, j: int| 0 <= i < j < r.len() ==> r[i].1 <= r[j].1
    &&& forall|i: int| 0 <= i < r.len() ==> remaining_of(m, #[trigger] r[i].0@, now) == Some(r[i].1 as int)
    &&& forall|k: Seq<char>| remaining_of(m, k, now) is Some ==> exists|i: int| 0 <= i < r.len() && #[trigger] r[i].0@ == k
    &&& forall|i: int, j: int| 0 <= i < j < r.len() ==> r[i].0@ != r[j].0@
}

/// Inserts `item` into `out`, which is ordered by seconds left, after the items with no more
/// seconds; returns the position it took.
fn insert_by_remaining(out: &mut Vec<(String, i64)>, item: (String, i64)) -> (p: usize)
    requires
        forall|a: int, b: int| 0 <= a < b < old(out)@.len() ==> old(out)@[a].1 <= old(out)@[b].1,
    ensures
        p <= old(out)@.len(),
        final(out)@ == old(out)@.insert(p as int, item),
        forall|a: int, b: int| 0 <= a < b < final(out)@.len() ==> final(out)@[a].1 <= final(out)@[b].1,
{
    let left = item.1;
    let mut p: usize = 0;
    while p < out.len() && out[p].1 <= left
        invariant
            p <= out@.len(),
            forall|a: int| 0 <= a < p ==> out@[a].1 <= left,
        decreases out@.len() - p,
    {
        p = p + 1;
    }
    let ghost before = out@;
    proof {
        assert forall|a: int| p <= a < before.len() implies left < before[a].1 by {
            assert(left < before[p as int].1);
        }
    }
    out.insert(p, item);
    proof {
        assert forall|a: int| 0 <= a < out@.len() implies #[trigger] out@[a] == if a < p {
            before[a]
        } else if a == p {
            item
        } else {
            before[a - 1]
        } by {}
    }
    p
}

impl CooldownStore {
    /// The ships on cooldown at `now`, each with its whole seconds left, shortest first (ties in
    /// table order).
    #[verifier::spinoff_prover]
    #[verifier::rlimit(60)]
    pub fn list_active_cooldowns_at(&self, now: i64) -> (r: Vec<(String, i64)>)
        requires
            self.wf(),
        ensures
            active_list_ok(self@, now as int, r@),
    {
        let mut out: Vec<(String, i64)> = Vec::new();
        let n = self.cooldowns.len();
        let mut i: usize = 0;
        while i < n
            invariant
                i <= n,
                n == self.cooldowns.entries().len(),
                self.wf(),
                forall|a: int, b: int| 0 <= a < b < out@.len() ==> out@[a].1 <= out@[b].1,
                forall|a: int| 0 <= a < out@.len() ==> remaining_of(self@, #[trigger] out@[a].0@, now as int) == Some(out@[a].1 as int),
                forall|a: int| #![trigger out@[a]] 0 <= a < out@.len() ==> exists|j: int| 0 <= j < i && #[trigger] self.cooldowns.entries()[j].0@ == out@[a].0@,
                forall|j: int| 0 <= j < i && remaining_of(self@, #[trigger] self.cooldowns.entries()[j].0@, now as int) is Some
                    ==> exists|a: int| 0 <= a < out@.len() && out@[a].0@ == self.cooldowns.entries()[j].0@,
                forall|a: int, b: int| 0 <= a < b < out@.len() ==> out@[a].0@ != out@[b].0@,
            decreases n - i,
        {
            let (k, _e) = self.cooldowns.entry_at(i);
            proof {
                self.cooldowns.lemma_entry_in_view(i as int);
            }
            match self.get_remaining_cooldown_at(k.as_str(), now) {
                Some(left) => {
                    let ghost before = out@;
                    proof {
                        assert forall|a: int| 0 <= a < before.len() implies before[a].0@ != k@ by {
                            let j = choose|j: int| 0 <= j < i && #[trigger] self.cooldowns.entries()[j].0@ == before[a].0@;
                            self.cooldowns.lemma_distinct_keys(j, i as int);
                        }
                    }
                    let p = insert_by_remaining(&mut out, (String::from_str(k.as_str()), left));
                    proof {
                        assert forall|a: int| 0 <= a < out@.len() implies #[trigger] out@[a] == if a < p {
                            before[a]
                        } else if a == p {
                            out@[p as int]
                        } else {
                            before[a - 1]
                        } by {}
                        assert forall|a: int| #![trigger out@[a]] 0 <= a < out@.len() implies exists|j: int| 0 <= j < i + 1 && #[trigger] self.cooldowns.entries()[j].0@ == out@[a].0@ by {
                            if a == p {
                                assert(self.cooldowns.entries()[i as int].0@ == out@[a].0@);
                            } else {
                                let a2 = if a < p { a } else { a - 1 };
                                let j = choose|j: int| 0 <= j < i && #[trigger] self.cooldowns.entries()[j].0@ == before[a2].0@;
                                assert(self.cooldowns.entries()[j].0@ == out@[a].0@);
                            }
                        }
                        assert forall|j: int| 0 <= j < i + 1 && remaining_of(self@, #[trigger] self.cooldowns.entries()[j].0@, now as int) is Some
                            implies exists|a: int| 0 <= a < out@.len() && out@[a].0@ == self.cooldowns.entries()[j].0@ by {
                            if j == i {
                                assert(out@[p as int].0@ == self.cooldowns.entries()[j].0@);
                            } else {
                                let a = choose|a: int| 0 <= a < before.len() && before[a].0@ == self.cooldowns.entries()[j].0@;
                                let a2 = if a < p { a } else { a + 1 };
                                assert(out@[a2].0@ == self.cooldowns.entries()[j].0@);
                            }
                        }
                        assert forall|a: int, b: int| 0 <= a < b < out@.len() implies out@[a].0@ != out@[b].0@ by {
                            if a != p && b != p {
                                let a2 = if a < p { a } else { a - 1 };
                                let b2 = if b < p { b } else { b - 1 };
                                assert(before[a2].0@ != before[b2].0@);
                            }
                        }
                    }
                },
                None => {
                    proof {
                        assert forall|a: int| #![trigger out@[a]] 0 <= a < out@.len() implies exists|j: int| 0 <= j < i + 1 && #[trigger] self.cooldowns.entries()[j].0@ == out@[a].0@ by {
                            let j = choose|j: int| 0 <= j < i && #[trigger] self.cooldowns.entries()[j].0@ == out@[a].0@;
                        }
                    }
                },
            }
            i = i + 1;
        }
        proof {
            assert forall|k: Seq<char>| remaining_of(self@, k, now as int) is Some implies exists|a: int| 0 <= a < out@.len() && #[trigger] out@[a].0@ == k by {
                let j = choose|j: int| 0 <= j < n && self.cooldowns.entries()[j].0@ == k;
                assert(remaining_of(self@, self.cooldowns.entries()[j].0@, now as int) is Some);
            }
        }
        out
    }

    /// The ships on cooldown now, each with its whole seconds left, shortest first.
    pub fn list_active_cooldowns(&self) -> (r: Vec<(String, i64)>)
        requires
            self.wf(),
        ensures
            exists|now: i64| #[trigger] active_list_ok(self@, now as int, r@),
    {
        let now = now_millis();
        self.list_active_cooldowns_at(now)
    }
}

/// A cooldown read right after it was set, at the same instant, gives back the seconds that were
/// set (for a positive number of seconds).
pub proof fn law_set_then_remaining(m: Map<Seq<char>, CooldownTimes>, ship: Seq<char>, seconds: int, now: int)
    requires
        seconds > 0,
    ensures
        remaining_of(m.insert(ship, CooldownTimes { until: now + seconds * 1000, updated: now }), ship, now)
            == Some(seconds),
{
    assert((seconds * 1000) / 1000 == seconds) by (nonlinear_arith)
        requires
            seconds > 0,
    ;
}

/// Setting one ship's cooldown leaves every other ship's cooldown as it was.
pub proof fn law_set_leaves_others(m: Map<Seq<char>, CooldownTimes>, ship: Seq<char>, other: Seq<char>, t: CooldownTimes, now: int)
    requires
        other != ship,
    ensures
        remaining_of(m.insert(ship, t), other, now) == remaining_of(m, other, now),
{
}

/// A cleared ship has no cooldown.
pub proof fn law_clear_then_ready(m: Map<Seq<char>, CooldownTimes>, ship: Seq<char>, now: int)
    ensures
        remaining_of(m.remove(ship), ship, now) is None,
{
}

/// Dropping the cooldowns that ended by `now` changes no ship's remaining cooldown at `now`.
pub proof fn law_cleanup_keeps_remaining(m: Map<Seq<char>, CooldownTimes>, ship: Seq<char>, now: int)
    ensures
        remaining_of(unexpired(m, now), ship, now) == remaining_of(m, ship, now),
{
}

/// The first `n` saved entries make up the store's cooldowns of their ships.
proof fn lemma_saved_prefix(store: CooldownStore, n: int)
    requires
        store.wf(),
        0 <= n <= store.saved().len(),
    ensures
        forall|k: Seq<char>| #[trigger] loaded_cooldowns(store.saved(), n).contains_key(k)
            <==> exists|j: int| 0 <= j < n && store.cooldowns.entries()[j].0@ == k,
        forall|k: Seq<char>| #[trigger] loaded_cooldowns(store.saved(), n).contains_key(k)
            ==> store@.contains_key(k) && loaded_cooldowns(store.saved(), n)[k] == store@[k],
    decreases n,
{
    if n > 0 {
        lemma_saved_prefix(store, n - 1);
        let e = store.cooldowns.entries()[n - 1];
        store.cooldowns.lemma_entry_in_view(n - 1);
        assert(store.saved()[n - 1] == e.1);
        assert(e.1.ship_symbol@ == e.0@);
        let prev = loaded_cooldowns(store.saved(), n - 1);
        let cur = loaded_cooldowns(store.saved(), n);
        assert(cur == prev.insert(e.0@, CooldownTimes { until: e.1.cooldown_until as int, updated: e.1.last_updated as int }));
        assert forall|k: Seq<char>| #[trigger] cur.contains_key(k)
            <==> exists|j: int| 0 <= j < n && store.cooldowns.entries()[j].0@ == k by {
            if k != e.0@ {
                if exists|j: int| 0 <= j < n && store.cooldowns.entries()[j].0@ == k {
                    let j = choose|j: int| 0 <= j < n && store.cooldowns.entries()[j].0@ == k;
                    assert(j != n - 1);
                    assert(prev.contains_key(k));
                }
            } else {
                assert(store.cooldowns.entries()[n - 1].0@ == k);
            }
        }
        assert forall|k: Seq<char>| #[trigger] cur.contains_key(k)
            implies store@.contains_key(k) && cur[k] == store@[k] by {
            if k != e.0@ {
                assert(prev.contains_key(k));
            }
        }
    }
}

/// Restoring what a store saves gives back its cooldowns: the saved entries make up exactly the
/// stored cooldowns, so restoring them at any instant keeps those still running then.
pub proof fn law_save_then_restore(store: CooldownStore, now: int)
    requires
        store.wf(),
    ensures
        loaded_cooldowns(store.saved(), store.saved().len() as int) == store@,
        unexpired(loaded_cooldowns(store.saved(), store.saved().len() as int), now) == unexpired(store@, now),
{
    let n = store.saved().len() as int;
    lemma_saved_prefix(store, n);
    assert forall|k: Seq<char>| store@.contains_key(k) implies #[trigger] loaded_cooldowns(store.saved(), n).contains_key(k) by {
        let j = choose|j: int| 0 <= j < store.cooldowns.entries().len() && store.cooldowns.entries()[j].0@ == k;
        assert(0 <= j < n && store.cooldowns.entries()[j].0@ == k);
    }
    assert(loaded_cooldowns(store.saved(), n) =~= store@);
}

/// A cooldown of two seconds or more, read less than a second after it was set, has the whole
/// seconds set or one fewer left (the ship is still on cooldown); after it is cleared, none.
pub proof fn law_set_then_remaining_soon(m: Map<Seq<char>, CooldownTimes>, ship: Seq<char>, seconds: int, now: i64, later: int)
    requires
        seconds >= 2,
        now <= later < now + 1000,
    ensures
        ({
            let set = with_cooldown(m, ship, seconds, now);
            &&& remaining_of(set, ship, later) is Some
            &&& seconds - 1 <= remaining_of(set, ship, later)->0 <= seconds
            &&& remaining_of(set.remove(ship), ship, later) is None
        }),
{
    let d = now + seconds * 1000 - later;
    assert(seconds * 1000 - 1000 < d <= seconds * 1000);
    assert((seconds - 1) * 1000 < d <= seconds * 1000);
    assert(seconds - 1 <= d / 1000 <= seconds) by (nonlinear_arith)
        requires
            (seconds - 1) * 1000 < d <= seconds * 1000,
            seconds >= 2,
    ;
}


} // verus!
