//! Cached ship states: the last known state of each ship, and when it must be fetched again.
use vstd::prelude::*;
use vstd::string::*;
use crate::clock::now_millis;
use crate::keyed::KeyedVec;
use crate::model::Ship;

verus! {

/// A ship's cached state; instants in milliseconds since the Unix epoch.
#[derive(Clone, Debug)]
pub struct CachedShipState {
    pub ship: Ship,
    pub last_updated: i64,
    pub last_api_refresh: i64,
    pub is_stale: bool,
    /// What the ship was told to do since its last refresh.
    pub pending_actions: Vec<String>,
}

/// The state must be fetched again: it was marked stale, it is older than `threshold_minutes`
/// at `now`, or actions are pending.
pub open spec fn needs_refresh(s: CachedShipState, threshold_minutes: int, now: int) -> bool {
    s.is_stale || now - s.last_api_refresh > threshold_minutes * 60_000 || s.pending_actions@.len() > 0
}

/// A state freshly read at `now`.
pub open spec fn fresh_state(s: CachedShipState, ship: Ship, now: int) -> bool {
    &&& s.ship == ship
    &&& s.last_updated == now
    &&& s.last_api_refresh == now
    &&& !s.is_stale
    &&& s.pending_actions@.len() == 0
}

/// [`fresh_state`] at the clock value `now`.
pub open spec fn fresh_at_clock(s: CachedShipState, ship: Ship, now: i64) -> bool {
    fresh_state(s, ship, now as int)
}

/// `r` lists, each once and in some order, exactly the cached ships whose state must be fetched
/// at the clock value `now`.
pub open spec fn stale_list_at_clock(m: Map<Seq<char>, CachedShipState>, threshold_minutes: int, now: i64, r: Seq<String>) -> bool {
    let ks = r.map_values(|k: String| k@);
    &&& forall|i: int| 0 <= i < ks.len() ==> m.contains_key(#[trigger] ks[i]) && needs_refresh(m[ks[i]], threshold_minutes, now as int)
    &&& forall|k: Seq<char>| m.contains_key(k) && needs_refresh(m[k], threshold_minutes, now as int) ==> ks.contains(k)
    &&& ks.no_duplicates()
}

/// [`needs_refresh`] at the clock value `now`.
pub open spec fn refresh_due_at_clock(s: CachedShipState, threshold_minutes: int, now: i64) -> bool {
    needs_refresh(s, threshold_minutes, now as int)
}

impl CachedShipState {
    /// A state freshly read at `now`.
    pub fn new_at(ship: Ship, now: i64) -> (r: Self)
        ensures
            fresh_state(r, ship, now as int),
    {
        CachedShipState { ship, last_updated: now, last_api_refresh: now, is_stale: false, pending_actions: Vec::new() }
    }

    /// A state freshly read now.
    pub fn new(ship: Ship) -> (r: Self)
        ensures
            exists|now: i64| #[trigger] fresh_at_clock(r, ship, now),
    {
        let now = now_millis();
        let r = Self::new_at(ship, now);
        assert(fresh_at_clock(r, ship, now));
        r
    }

    /// Marks the state stale.
    pub fn mark_stale(&mut self)
        ensures
            *final(self) == (CachedShipState { is_stale: true, ..*old(self) }),
    {
        self.is_stale = true;
    }

    /// Records an action sent to the ship; the state is then stale.
    pub fn add_pending_action(&mut self, action: &str)
        ensures
            final(self).pending_actions@.map_values(|a: String| a@) == old(self).pending_actions@.map_values(|a: String| a@).push(action@),
            final(self).is_stale,
            final(self).ship == old(self).ship,
            final(self).last_updated == old(self).last_updated,
            final(self).last_api_refresh == old(self).last_api_refresh,
    {
        let ghost before = self.pending_actions@;
        self.pending_actions.push(String::from_str(action));
        assert(self.pending_actions@.map_values(|a: String| a@) =~= before.map_values(|a: String| a@).push(action@));
        self.mark_stale();
    }

    /// Forgets the pending actions.
    pub fn clear_pending_actions(&mut self)
        ensures
            final(self).pending_actions@.len() == 0,
            final(self).ship == old(self).ship,
            final(self).is_stale == old(self).is_stale,
            final(self).last_updated == old(self).last_updated,
            final(self).last_api_refresh == old(self).last_api_refresh,
    {
        self.pending_actions.clear();
    }

    /// Whether the state must be fetched again at `now` (see [`needs_refresh`]).
    pub fn should_refresh_at(&self, staleness_threshold_minutes: i64, now: i64) -> (r: bool)
        requires
            i64::MIN <= staleness_threshold_minutes * 60_000 <= i64::MAX,
        ensures
            r == needs_refresh(*self, staleness_threshold_minutes as int, now as int),
    {
        let age: i128 = now as i128 - self.last_api_refresh as i128;
        let threshold: i128 = staleness_threshold_minutes as i128 * 60_000;
        self.is_stale || age > threshold || self.pending_actions.len() > 0
    }

    /// Whether the state must be fetched again now.
    pub fn should_refresh(&self, staleness_threshold_minutes: i64) -> (r: bool)
        requires
            i64::MIN <= staleness_threshold_minutes * 60_000 <= i64::MAX,
        ensures
            exists|now: i64| r == #[trigger] refresh_due_at_clock(*self, staleness_threshold_minutes as int, now),
    {
        let now = now_millis();
        let r = self.should_refresh_at(staleness_threshold_minutes, now);
        assert(refresh_due_at_clock(*self, staleness_threshold_minutes as int, now) == r);
        r
    }
}

/// Cached ship states by ship symbol.
pub struct ShipStateStore {
    storage_path: String,
    ships: KeyedVec<CachedShipState>,
    staleness_threshold_minutes: i64,
}

/// The states whose last update is at most `max_age_hours` old at `now`.
pub open spec fn recent_states(m: Map<Seq<char>, CachedShipState>, max_age_hours: int, now: int) -> Map<Seq<char>, CachedShipState> {
    m.restrict(Set::new(|k: Seq<char>| m.contains_key(k) && now - m[k].last_updated <= max_age_hours * 3_600_000))
}

impl ShipStateStore {
    /// The cached states by ship symbol.
    pub closed spec fn view(&self) -> Map<Seq<char>, CachedShipState> {
        self.ships@
    }

    /// Consistent table: each state is filed under its ship's symbol, and the staleness threshold
    /// in milliseconds fits an `i64`.
    pub closed spec fn wf(&self) -> bool {
        &&& self.ships.wf()
        &&& forall|k: Seq<char>| #[trigger] self.ships@.contains_key(k) ==> self.ships@[k].ship.symbol@ == k
        &&& i64::MIN <= self.staleness_threshold_minutes * 60_000 <= i64::MAX
    }

    /// Minutes after which a state is stale.
    pub closed spec fn threshold(&self) -> int {
        self.staleness_threshold_minutes as int
    }

    /// Where the store is saved.
    pub closed spec fn path(&self) -> Seq<char> {
        self.storage_path@
    }

    /// An empty store saved at `storage_path`.
    pub fn new(storage_path: &str, staleness_threshold_minutes: i64) -> (r: Self)
        requires
            i64::MIN <= staleness_threshold_minutes * 60_000 <= i64::MAX,
        ensures
            r.wf(),
            r@ == Map::<Seq<char>, CachedShipState>::empty(),
            r.threshold() == staleness_threshold_minutes,
            r.path() == storage_path@,
    {
        let r = ShipStateStore {
            storage_path: String::from_str(storage_path),
            ships: KeyedVec::new(),
            staleness_threshold_minutes,
        };
        r
    }

    /// Where the store is saved.
    pub fn storage_path(&self) -> (r: &str)
        ensures
            r@ == self.path(),
    {
        self.storage_path.as_str()
    }

    /// Minutes after which a state is stale.
    pub fn staleness_threshold_minutes(&self) -> (r: i64)
        ensures
            r == self.threshold(),
    {
        self.staleness_threshold_minutes
    }

    /// Number of cached states.
    pub fn len(&self) -> (r: usize)
        requires
            self.wf(),
        ensures
            r == self.len_spec(),
            r == self@.len(),
    {
        proof {
            self.ships.lemma_len_is_dom_len();
        }
        self.ships.len()
    }

    /// The states as saved, in table order.
    pub closed spec fn saved(&self) -> Seq<CachedShipState> {
        self.ships.entries().map_values(|e: (String, CachedShipState)| e.1)
    }

    /// The `i`-th cached state, for saving.
    pub fn state_at(&self, i: usize) -> (r: &CachedShipState)
        requires
            self.wf(),
            i < self.len_spec(),
        ensures
            *r == self.saved()[i as int],
            self.saved().len() == self.len_spec(),
            self@.contains_key(r.ship.symbol@),
            self@[r.ship.symbol@] == *r,
    {
        let (_k, e) = self.ships.entry_at(i);
        proof {
            self.ships.lemma_entry_in_view(i as int);
        }
        e
    }

    /// Number of cached states.
    pub closed spec fn len_spec(&self) -> nat {
        self.ships.entries().len()
    }

    fn put(&mut self, state: CachedShipState)
        requires
            old(self).wf(),
        ensures
            final(self).wf(),
            final(self)@ == old(self)@.insert(state.ship.symbol@, state),
            final(self).threshold() == old(self).threshold(),
            final(self).path() == old(self).path(),
    {
        let key = state.ship.symbol.clone();
        let ghost st = state;
        self.ships.insert(key, state);
        proof {
            assert forall|k: Seq<char>| #[trigger] self.ships@.contains_key(k) implies self.ships@[k].ship.symbol@ == k by {
                if k != st.ship.symbol@ {
                    assert(old(self).ships@.contains_key(k));
                }
            }
        }
    }

    /// Loads saved states as the store's content, a later state for a ship replacing an earlier
    /// one, then drops those older than 24 hours at `now`.
    pub fn restore(&mut self, loaded: Vec<CachedShipState>, now: i64)
        requires
            old(self).wf(),
        ensures
            final(self).wf(),
            final(self).threshold() == old(self).threshold(),
            final(self).path() == old(self).path(),
            final(self)@ == recent_states(loaded_states(loaded@, loaded@.len() as int), 24, now as int),
    {
        self.ships = KeyedVec::new();
        let mut loaded = loaded;
        let ghost all = loaded@;
        let mut stack: Vec<CachedShipState> = Vec::new();
        while loaded.len() > 0
            invariant
                stack@.len() + loaded@.len() == all.len(),
                loaded@ == all.take(loaded@.len() as int),
                forall|t: int| 0 <= t < stack@.len() ==> stack@[t] == all[all.len() - 1 - t],
            decreases loaded@.len(),
        {
            let e = loaded.pop().unwrap();
            stack.push(e);
        }
        let mut i: usize = 0;
        let n = stack.len();
        while stack.len() > 0
            invariant
                n == all.len(),
                stack@.len() + i == n,
                forall|t: int| 0 <= t < stack@.len() ==> stack@[t] == all[all.len() - 1 - t],
                self.wf(),
                self.threshold() == old(self).threshold(),
                self.path() == old(self).path(),
                self@ == loaded_states(all, i as int),
            decreases stack@.len(),
        {
            let e = stack.pop().unwrap();
            assert(e == all[i as int]);
            self.put(e);
            i = i + 1;
        }
        self.cleanup_old_cache_at(24, now);
    }

    /// Caches `ship` as freshly read at `now`.
    pub fn cache_ship_at(&mut self, ship: Ship, now: i64)
        requires
            old(self).wf(),
        ensures
            final(self).wf(),
            final(self)@ == old(self)@.insert(ship.symbol@, final(self)@[ship.symbol@]),
            fresh_state(final(self)@[ship.symbol@], ship, now as int),
            final(self).threshold() == old(self).threshold(),
            final(self).path() == old(self).path(),
    {
        let ghost sh = ship;
        self.put(CachedShipState::new_at(ship, now));
    }

    /// Caches `ship` as freshly read now.
    pub fn cache_ship(&mut self, ship: Ship)
        requires
            old(self).wf(),
        ensures
            final(self).wf(),
            final(self)@ == old(self)@.insert(ship.symbol@, final(self)@[ship.symbol@]),
            exists|now: i64| #[trigger] fresh_at_clock(final(self)@[ship.symbol@], ship, now),
            final(self).threshold() == old(self).threshold(),
            final(self).path() == old(self).path(),
    {
        let now = now_millis();
        let ghost sh = ship;
        self.cache_ship_at(ship, now);
        assert(fresh_at_clock(self@[sh.symbol@], sh, now));
    }

    /// The cached state of `ship_symbol`.
    pub fn get_ship_state(&self, ship_symbol: &str) -> (r: Option<&CachedShipState>)
        requires
            self.wf(),
        ensures
            match r {
                Some(s) => self@.contains_key(ship_symbol@) && self@[ship_symbol@] == *s,
                None => !self@.contains_key(ship_symbol@),
            },
    {
        self.ships.get(ship_symbol)
    }

    /// The state of `ship_symbol`, to change in place. The table stays consistent when the
    /// state keeps its ship's symbol.
    pub fn get_ship_state_mut(&mut self, ship_symbol: &str) -> (r: Option<&mut CachedShipState>)
        requires
            old(self).wf(),
        ensures
            match r {
                Some(s) => {
                    &&& old(self)@.contains_key(ship_symbol@)
                    &&& *s == old(self)@[ship_symbol@]
                    &&& final(self)@ == old(self)@.insert(ship_symbol@, *final(s))
                    &&& final(s).ship.symbol@ == ship_symbol@ ==> final(self).wf()
                },
                None => !old(self)@.contains_key(ship_symbol@) && *final(self) == *old(self),
            },
            final(self).threshold() == old(self).threshold(),
            final(self).path() == old(self).path(),
    {
        match self.ships.get_mut(ship_symbol) {
            Some(s) => {
                proof {
                    lemma_filed_by_symbol(old(self).ships@, ship_symbol@, *final(s));
                }
                Some(s)
            },
            None => None,
        }
    }

    /// Whether the state of `ship_symbol` must be fetched at `now`: always when it is not cached.
    pub fn should_refresh_ship_at(&self, ship_symbol: &str, now: i64) -> (r: bool)
        requires
            self.wf(),
        ensures
            r == (!self@.contains_key(ship_symbol@) || needs_refresh(self@[ship_symbol@], self.threshold(), now as int)),
    {
        match self.ships.get(ship_symbol) {
            Some(s) => s.should_refresh_at(self.staleness_threshold_minutes, now),
            None => true,
        }
    }

    /// Whether the state of `ship_symbol` must be fetched now.
    pub fn should_refresh_ship(&self, ship_symbol: &str) -> (r: bool)
        requires
            self.wf(),
        ensures
            exists|now: i64| r == (!self@.contains_key(ship_symbol@) || #[trigger] refresh_due_at_clock(self@[ship_symbol@], self.threshold(), now)),
    {
        let now = now_millis();
        let r = self.should_refresh_ship_at(ship_symbol, now);
        assert(self@.contains_key(ship_symbol@) ==> refresh_due_at_clock(self@[ship_symbol@], self.threshold(), now)
            == needs_refresh(self@[ship_symbol@], self.threshold(), now as int));
        r
    }

    /// Records that `action` was sent to `ship_symbol`, making its state stale; returns whether
    /// the ship was cached (and the store changed).
    pub fn mark_ship_action(&mut self, ship_symbol: &str, action: &str) -> (r: bool)
        requires
            old(self).wf(),
        ensures
            final(self).wf(),
            r == old(self)@.contains_key(ship_symbol@),
            r ==> final(self)@ == old(self)@.insert(ship_symbol@, final(self)@[ship_symbol@]),
            r ==> final(self)@[ship_symbol@].is_stale,
            r ==> final(self)@[ship_symbol@].pending_actions@.map_values(|a: String| a@)
                == old(self)@[ship_symbol@].pending_actions@.map_values(|a: String| a@).push(action@),
            r ==> final(self)@[ship_symbol@].ship == old(self)@[ship_symbol@].ship,
            r ==> final(self)@[ship_symbol@].last_updated == old(self)@[ship_symbol@].last_updated,
            r ==> final(self)@[ship_symbol@].last_api_refresh == old(self)@[ship_symbol@].last_api_refresh,
            !r ==> final(self)@ == old(self)@,
            final(self).threshold() == old(self).threshold(),
            final(self).path() == old(self).path(),
    {
        match self.ships.take(ship_symbol) {
            Some(mut state) => {
                state.add_pending_action(action);
                self.put(state);
                proof {
                    assert(self@ =~= old(self)@.insert(ship_symbol@, self@[ship_symbol@]));
                }
                true
            },
            None => {
                proof {
                    assert(self.ships@ =~= old(self).ships@);
                }
                false
            },
        }
    }

    /// Replaces the cached state of `ship` with the ship as read at `now`: fresh, not stale, no
    /// pending action.
    pub fn update_ship_from_api_at(&mut self, ship: Ship, now: i64)
        requires
            old(self).wf(),
        ensures
            final(self).wf(),
            final(self)@ == old(self)@.insert(ship.symbol@, final(self)@[ship.symbol@]),
            fresh_state(final(self)@[ship.symbol@], ship, now as int),
            final(self).threshold() == old(self).threshold(),
            final(self).path() == old(self).path(),
    {
        self.cache_ship_at(ship, now);
    }

    /// Replaces the cached state of `ship` with the ship as read now.
    pub fn update_ship_from_api(&mut self, ship: Ship)
        requires
            old(self).wf(),
        ensures
            final(self).wf(),
            final(self)@ == old(self)@.insert(ship.symbol@, final(self)@[ship.symbol@]),
            exists|now: i64| #[trigger] fresh_at_clock(final(self)@[ship.symbol@], ship, now),
            final(self).threshold() == old(self).threshold(),
            final(self).path() == old(self).path(),
    {
        self.cache_ship(ship);
    }

    /// The cached ships, in table order.
    pub fn list_cached_ships(&self) -> (r: Vec<String>)
        requires
            self.wf(),
        ensures
            forall|i: int| 0 <= i < r@.len() ==> self@.contains_key(#[trigger] r@[i]@),
            forall|k: Seq<char>| self@.contains_key(k) ==> exists|i: int| 0 <= i < r@.len() && #[trigger] r@[i]@ == k,
            forall|i: int, j: int| 0 <= i < j < r@.len() ==> r@[i]@ != r@[j]@,
    {
        self.cached_ships_where(None)
    }

    /// The cached ships whose state must be fetched at `now`, in table order.
    pub fn get_stale_ships_at(&self, now: i64) -> (r: Vec<String>)
        requires
            self.wf(),
        ensures
            stale_list_at_clock(self@, self.threshold(), now, r@),
    {
        let r = self.cached_ships_where(Some(now));
        proof {
            let ks = r@.map_values(|k: String| k@);
            assert forall|k: Seq<char>| self@.contains_key(k) && needs_refresh(self@[k], self.threshold(), now as int)
                implies ks.contains(k) by {
                let i = choose|i: int| 0 <= i < r@.len() && #[trigger] r@[i]@ == k;
                assert(ks[i] == k);
            }
        }
        r
    }

    /// The cached ships whose state must be fetched now.
    pub fn get_stale_ships(&self) -> (r: Vec<String>)
        requires
            self.wf(),
        ensures
            exists|now: i64| #[trigger] stale_list_at_clock(self@, self.threshold(), now, r@),
    {
        let now = now_millis();
        self.get_stale_ships_at(now)
    }

    #[verifier::spinoff_prover]
    #[verifier::rlimit(80)]
    fn cached_ships_where(&self, stale_at: Option<i64>) -> (r: Vec<String>)
        requires
            self.wf(),
        ensures
            forall|i: int| 0 <= i < r@.len() ==> self@.contains_key(#[trigger] r@[i]@) && match stale_at {
                Some(now) => needs_refresh(self@[r@[i]@], self.threshold(), now as int),
                None => true,
            },
            forall|k: Seq<char>| self@.contains_key(k) && match stale_at {
                Some(now) => needs_refresh(self@[k], self.threshold(), now as int),
                None => true,
            } ==> exists|i: int| 0 <= i < r@.len() && #[trigger] r@[i]@ == k,
            forall|i: int, j: int| 0 <= i < j < r@.len() ==> r@[i]@ != r@[j]@,
    {
        let mut out: Vec<String> = Vec::new();
        let n = self.ships.len();
        let mut i: usize = 0;
        while i < n
            invariant
                i <= n,
                n == self.ships.entries().len(),
                self.wf(),
                forall|a: int| #![trigger out@[a]] 0 <= a < out@.len() ==> exists|j: int| 0 <= j < i && #[trigger] self.ships.entries()[j].0@ == out@[a]@,
                forall|a: int| 0 <= a < out@.len() ==> self@.contains_key(#[trigger] out@[a]@) && match stale_at {
                    Some(now) => needs_refresh(self@[out@[a]@], self.threshold(), now as int),
                    None => true,
                },
                forall|j: int| 0 <= j < i && match stale_at {
                    Some(now) => needs_refresh(self@[self.ships.entries()[j].0@], self.threshold(), now as int),
                    None => true,
                } ==> exists|a: int| 0 <= a < out@.len() && out@[a]@ == #[trigger] self.ships.entries()[j].0@,
                forall|a: int, b: int| 0 <= a < b < out@.len() ==> out@[a]@ != out@[b]@,
            decreases n - i,
        {
            let (k, st) = self.ships.entry_at(i);
            proof {
                self.ships.lemma_entry_in_view(i as int);
            }
            let keep = match stale_at {
                Some(now) => st.should_refresh_at(self.staleness_threshold_minutes, now),
                None => true,
            };
            let ghost before = out@;
            if keep {
                proof {
                    assert forall|a: int| 0 <= a < before.len() implies before[a]@ != k@ by {
                        let j = choose|j: int| 0 <= j < i && #[trigger] self.ships.entries()[j].0@ == before[a]@;
                        self.ships.lemma_distinct_keys(j, i as int);
                    }
                }
                out.push(k.clone());
                proof {
                    assert(out@[out@.len() - 1]@ == k@);
                }
            }
            proof {
                assert forall|a: int| #![trigger out@[a]] 0 <= a < out@.len() implies exists|j: int| 0 <= j < i + 1 && #[trigger] self.ships.entries()[j].0@ == out@[a]@ by {
                    if a < before.len() {
                        let j = choose|j: int| 0 <= j < i && #[trigger] self.ships.entries()[j].0@ == before[a]@;
                    } else {
                        assert(self.ships.entries()[i as int].0@ == out@[a]@);
                    }
                }
                assert forall|j: int| 0 <= j < i + 1 && match stale_at {
                    Some(now) => needs_refresh(self@[self.ships.entries()[j].0@], self.threshold(), now as int),
                    None => true,
                } implies exists|a: int| 0 <= a < out@.len() && out@[a]@ == #[trigger] self.ships.entries()[j].0@ by {
                    if j < i {
                        let a = choose|a: int| 0 <= a < before.len() && before[a]@ == self.ships.entries()[j].0@;
                        assert(out@[a] == before[a]);
                    } else {
                        assert(out@[out@.len() - 1]@ == self.ships.entries()[j].0@);
                    }
                }
            }
            i = i + 1;
        }
        proof {
            assert forall|key: Seq<char>| self@.contains_key(key) && match stale_at {
                Some(now) => needs_refresh(self@[key], self.threshold(), now as int),
                None => true,
            } implies exists|a: int| 0 <= a < out@.len() && #[trigger] out@[a]@ == key by {
                let j = choose|j: int| 0 <= j < n && self.ships.entries()[j].0@ == key;
                assert(self.ships.entries()[j].0@ == key);
            }
        }
        out
    }

    /// Drops the states last updated more than `max_age_hours` before `now`; returns how many
    /// were dropped.
    pub fn cleanup_old_cache_at(&mut self, max_age_hours: i64, now: i64) -> (r: usize)
        requires
            old(self).wf(),
        ensures
            final(self).wf(),
            final(self)@ == recent_states(old(self)@, max_age_hours as int, now as int),
            r == old(self)@.len() - final(self)@.len(),
            final(self).threshold() == old(self).threshold(),
            final(self).path() == old(self).path(),
    {
        let mut doomed: Vec<String> = Vec::new();
        let n = self.ships.len();
        let max_age: i128 = max_age_hours as i128 * 3_600_000;
        let mut i: usize = 0;
        assert(doomed@.map_values(|s: String| s@).to_set() =~= Set::new(|k: Seq<char>| exists|j: int|
            0 <= j < 0 && self.ships.entries()[j].0@ == k
            && now - self.ships.entries()[j].1.last_updated > max_age_hours * 3_600_000));
        while i < n
            invariant
                i <= n,
                n == self.ships.entries().len(),
                self.wf(),
                max_age == max_age_hours * 3_600_000,
                doomed@.map_values(|s: String| s@).to_set() == Set::new(|k: Seq<char>| exists|j: int|
                    0 <= j < i && self.ships.entries()[j].0@ == k
                    && now - self.ships.entries()[j].1.last_updated > max_age_hours * 3_600_000),
            decreases n - i,
        {
            let (k, e) = self.ships.entry_at(i);
            let ghost before = doomed@;
            if now as i128 - e.last_updated as i128 > max_age {
                doomed.push(k.clone());
                proof {
                    assert(doomed@.map_values(|s: String| s@) =~= before.map_values(|s: String| s@).push(k@));
                    before.map_values(|s: String| s@).lemma_push_to_set_commute(k@);
                }
            }
            proof {
                assert(doomed@.map_values(|s: String| s@).to_set() =~= Set::new(|key: Seq<char>| exists|j: int|
                    0 <= j < i + 1 && self.ships.entries()[j].0@ == key
                    && now - self.ships.entries()[j].1.last_updated > max_age_hours * 3_600_000));
            }
            i = i + 1;
        }
        let before = self.ships.len();
        let ghost old_map = self.ships@;
        self.ships.remove_all(&doomed);
        let after = self.ships.len();
        proof {
            let gone = doomed@.map_values(|s: String| s@).to_set();
            assert forall|k: Seq<char>| #[trigger] gone.contains(k) <==> (old_map.contains_key(k)
                && now - old_map[k].last_updated > max_age_hours * 3_600_000) by {
                if gone.contains(k) {
                    let j = choose|j: int| 0 <= j < n && old(self).ships.entries()[j].0@ == k
                        && now - old(self).ships.entries()[j].1.last_updated > max_age_hours * 3_600_000;
                    old(self).ships.lemma_entry_in_view(j);
                }
                if old_map.contains_key(k) && now - old_map[k].last_updated > max_age_hours * 3_600_000 {
                    let j = choose|j: int| 0 <= j < n && old(self).ships.entries()[j].0@ == k;
                    old(self).ships.lemma_entry_in_view(j);
                }
            }
            assert forall|k: Seq<char>| #[trigger] self.ships@.contains_key(k) implies self.ships@[k].ship.symbol@ == k by {
                assert(old_map.contains_key(k));
            }
            assert(self@ =~= recent_states(old(self)@, max_age_hours as int, now as int));
            old(self).ships.lemma_len_is_dom_len();
            self.ships.lemma_len_is_dom_len();
            vstd::set_lib::lemma_len_subset(self@.dom(), old(self)@.dom());
        }
        before - after
    }

    /// Drops the states last updated more than `max_age_hours` ago; returns how many were
    /// dropped.
    pub fn cleanup_old_cache(&mut self, max_age_hours: i64) -> (r: usize)
        requires
            old(self).wf(),
        ensures
            final(self).wf(),
            exists|now: i64| #[trigger] recent_at_clock(old(self)@, max_age_hours as int, now) == final(self)@,
            r == old(self)@.len() - final(self)@.len(),
            final(self).threshold() == old(self).threshold(),
            final(self).path() == old(self).path(),
    {
        let now = now_millis();
        let ghost before = self@;
        let r = self.cleanup_old_cache_at(max_age_hours, now);
        assert(recent_at_clock(before, max_age_hours as int, now) == self@);
        r
    }
}

/// Filing a state under its own ship's symbol keeps every state filed under its ship's symbol.
proof fn lemma_filed_by_symbol(m: Map<Seq<char>, CachedShipState>, key: Seq<char>, v: CachedShipState)
    requires
        forall|k: Seq<char>| #[trigger] m.contains_key(k) ==> m[k].ship.symbol@ == k,
    ensures
        v.ship.symbol@ == key ==> forall|k: Seq<char>| #[trigger] m.insert(key, v).contains_key(k)
            ==> m.insert(key, v)[k].ship.symbol@ == k,
{
}

/// The states kept by a cleanup at a clock reading.
pub open spec fn recent_at_clock(m: Map<Seq<char>, CachedShipState>, max_age_hours: int, now: i64) -> Map<Seq<char>, CachedShipState> {
    recent_states(m, max_age_hours, now as int)
}

/// The states that the first `n` loaded states make up, a later state for a ship replacing an
/// earlier one.
pub open spec fn loaded_states(states: Seq<CachedShipState>, n: int) -> Map<Seq<char>, CachedShipState>
    decreases n,
{
    if n <= 0 || n > states.len() {
        Map::empty()
    } else {
        loaded_states(states, n - 1).insert(states[n - 1].ship.symbol@, states[n - 1])
    }
}

/// A state just refreshed from the game is not due for a refresh at the same instant, whatever
/// the (non-negative) staleness threshold.
pub proof fn law_refresh_then_fresh(s: CachedShipState, ship: Ship, threshold_minutes: int, now: int)
    requires
        fresh_state(s, ship, now),
        threshold_minutes >= 0,
    ensures
        !needs_refresh(s, threshold_minutes, now),
{
}

/// A state that was told to act is due for a refresh, at any time and threshold.
pub proof fn law_action_then_refresh(s: CachedShipState, threshold_minutes: int, now: int)
    requires
        s.is_stale || s.pending_actions@.len() > 0,
    ensures
        needs_refresh(s, threshold_minutes, now),
{
}

/// The state read back for a ship right after it was cached at `now` holds that ship, and is
/// not due for a refresh at that instant (for a non-negative threshold).
pub proof fn law_cache_then_read(m: Map<Seq<char>, CachedShipState>, ship: Ship, s: CachedShipState, threshold_minutes: int, now: int)
    requires
        fresh_state(s, ship, now),
        threshold_minutes >= 0,
    ensures
        m.insert(ship.symbol@, s).contains_key(ship.symbol@),
        m.insert(ship.symbol@, s)[ship.symbol@].ship == ship,
        !needs_refresh(m.insert(ship.symbol@, s)[ship.symbol@], threshold_minutes, now),
{
}

/// The first `n` saved states make up the store's states of their ships.
proof fn lemma_saved_prefix(store: ShipStateStore, n: int)
    requires
        store.wf(),
        0 <= n <= store.saved().len(),
    ensures
        forall|k: Seq<char>| #[trigger] loaded_states(store.saved(), n).contains_key(k)
            <==> exists|j: int| 0 <= j < n && store.ships.entries()[j].0@ == k,
        forall|k: Seq<char>| #[trigger] loaded_states(store.saved(), n).contains_key(k)
            ==> store@.contains_key(k) && loaded_states(store.saved(), n)[k] == store@[k],
    decreases n,
{
    if n > 0 {
        lemma_saved_prefix(store, n - 1);
        let e = store.ships.entries()[n - 1];
        store.ships.lemma_entry_in_view(n - 1);
        assert(store.saved()[n - 1] == e.1);
        assert(e.1.ship.symbol@ == e.0@);
        let prev = loaded_states(store.saved(), n - 1);
        let cur = loaded_states(store.saved(), n);
        assert(cur == prev.insert(e.0@, e.1));
        assert forall|k: Seq<char>| #[trigger] cur.contains_key(k)
            <==> exists|j: int| 0 <= j < n && store.ships.entries()[j].0@ == k by {
            if k != e.0@ {
                if exists|j: int| 0 <= j < n && store.ships.entries()[j].0@ == k {
                    let j = choose|j: int| 0 <= j < n && store.ships.entries()[j].0@ == k;
                    assert(j != n - 1);
                    assert(prev.contains_key(k));
                }
            } else {
                assert(store.ships.entries()[n - 1].0@ == k);
            }
        }
        assert forall|k: Seq<char>| #[trigger] cur.contains_key(k)
            implies store@.contains_key(k) && cur[k] == store@[k] by {
            if k != e.0@ {
                assert(prev.contains_key(k));
            }
        }
    }
}

/// Restoring what a store saves gives back its states: the saved states make up exactly the
/// cached ones, and those restored at `now` are the cached ones updated within the last day.
pub proof fn law_saved_states_restore(store: ShipStateStore, now: int)
    requires
        store.wf(),
    ensures
        loaded_states(store.saved(), store.saved().len() as int) == store@,
        recent_states(loaded_states(store.saved(), store.saved().len() as int), 24, now) == recent_states(store@, 24, now),
{
    let n = store.saved().len() as int;
    lemma_saved_prefix(store, n);
    assert forall|k: Seq<char>| store@.contains_key(k) implies #[trigger] loaded_states(store.saved(), n).contains_key(k) by {
        let j = choose|j: int| 0 <= j < store.ships.entries().len() && store.ships.entries()[j].0@ == k;
        assert(0 <= j < n && store.ships.entries()[j].0@ == k);
    }
    assert(loaded_states(store.saved(), n) =~= store@);
}

} // verus!
