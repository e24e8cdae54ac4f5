//! Cached system scans and waypoint surveys, with their lifetimes.
use vstd::prelude::*;
use vstd::string::*;
use crate::clock::now_millis;
use crate::keyed::{KeyedVec, pairs_map};
use crate::model::{Waypoint, Survey, waypoint_has_trait, has_trait};

verus! {

/// The waypoints of a system as scanned at `last_scanned` (milliseconds since the Unix epoch).
#[derive(Clone, Debug)]
pub struct CachedWaypointData {
    pub waypoints: Vec<Waypoint>,
    pub last_scanned: i64,
    pub system_symbol: String,
}

/// The surveys of a waypoint, taken at `last_surveyed` and usable until `expires_at`
/// (milliseconds since the Unix epoch).
#[derive(Clone, Debug)]
pub struct CachedSurveyData {
    pub surveys: Vec<Survey>,
    pub last_surveyed: i64,
    pub waypoint_symbol: String,
    pub expires_at: i64,
}

/// Surveys stay usable for 30 minutes.
pub open spec fn survey_lifetime_ms() -> int {
    1_800_000int
}

/// Whole hours from `then` to `now`, rounded toward zero (chrono's `num_hours`).
pub open spec fn whole_hours(then: int, now: int) -> int {
    let d = now - then;
    if d >= 0 {
        d / 3_600_000
    } else {
        -((-d) / 3_600_000)
    }
}

/// Scanned systems and surveyed waypoints.
pub struct SurveyCache {
    storage_path: String,
    waypoint_cache: KeyedVec<CachedWaypointData>,
    survey_cache: KeyedVec<CachedSurveyData>,
    cache_duration_hours: i64,
}

/// The scans of `m` at most `hours` old at `now`, measured exactly.
pub open spec fn recent_scans(m: Map<Seq<char>, CachedWaypointData>, hours: int, now: int) -> Map<Seq<char>, CachedWaypointData> {
    m.restrict(Set::new(|k: Seq<char>| m.contains_key(k) && now - m[k].last_scanned <= hours * 3_600_000))
}

/// The surveys of `m` still usable at `now`.
pub open spec fn live_surveys(m: Map<Seq<char>, CachedSurveyData>, now: int) -> Map<Seq<char>, CachedSurveyData> {
    m.restrict(Set::new(|k: Seq<char>| m.contains_key(k) && now < m[k].expires_at))
}

/// The cached waypoints of `system` that are fresh at `now`: scanned at most `hours` whole hours ago.
pub open spec fn fresh_waypoints(m: Map<Seq<char>, CachedWaypointData>, hours: int, system: Seq<char>, now: int) -> Option<Seq<Waypoint>> {
    if m.contains_key(system) && whole_hours(m[system].last_scanned as int, now) <= hours {
        Some(m[system].waypoints@)
    } else {
        None
    }
}

/// The cached surveys of `waypoint` that are still usable at `now`.
pub open spec fn usable_surveys(m: Map<Seq<char>, CachedSurveyData>, waypoint: Seq<char>, now: int) -> Option<Seq<Survey>> {
    if m.contains_key(waypoint) && now < m[waypoint].expires_at {
        Some(m[waypoint].surveys@)
    } else {
        None
    }
}

/// Squared distance between a waypoint and a point.
pub open spec fn distance_squared(w: Waypoint, x: int, y: int) -> int {
    (w.x - x) * (w.x - x) + (w.y - y) * (w.y - y)
}

/// `r` is the waypoint of `c` closest to (`x`, `y`), the first in order among equally close
/// ones; `None` exactly when `c` is empty.
pub open spec fn nearest_in(c: Seq<Waypoint>, x: int, y: int, r: Option<Waypoint>) -> bool {
    match r {
        None => c.len() == 0,
        Some(w) => exists|i: int| {
            &&& 0 <= i < c.len()
            &&& c[i] == w
            &&& forall|j: int| 0 <= j < c.len() ==> distance_squared(w, x, y) <= distance_squared(#[trigger] c[j], x, y)
            &&& forall|j: int| 0 <= j < i ==> distance_squared(w, x, y) < distance_squared(#[trigger] c[j], x, y)
        },
    }
}

/// The waypoints of a fresh scan having a trait: none when the scan is missing or stale.
pub open spec fn with_trait(scan: Option<Seq<Waypoint>>, t: Seq<char>) -> Seq<Waypoint> {
    match scan {
        Some(ws) => ws.filter(|w: Waypoint| waypoint_has_trait(w, t)),
        None => Seq::<Waypoint>::empty(),
    }
}

/// The fresh scan of a system at a clock reading.
pub open spec fn scan_at_clock(m: Map<Seq<char>, CachedWaypointData>, hours: int, system: Seq<char>, now: i64) -> Option<Seq<Waypoint>> {
    fresh_waypoints(m, hours, system, now as int)
}

/// Cleaning up at a clock reading turns the surveys and scans before into those after.
pub open spec fn cleaned_at_clock(
    surveys0: Map<Seq<char>, CachedSurveyData>,
    scans0: Map<Seq<char>, CachedWaypointData>,
    hours: int,
    surveys1: Map<Seq<char>, CachedSurveyData>,
    scans1: Map<Seq<char>, CachedWaypointData>,
    now: i64,
) -> bool {
    surveys1 == live_surveys(surveys0, now as int) && scans1 == recent_scans(scans0, hours, now as int)
}

/// The usable surveys of a waypoint at a clock reading.
pub open spec fn surveys_at_clock(m: Map<Seq<char>, CachedSurveyData>, waypoint: Seq<char>, now: i64) -> Option<Seq<Survey>> {
    usable_surveys(m, waypoint, now as int)
}

impl SurveyCache {
    /// Scans by system symbol.
    pub closed spec fn scans(&self) -> Map<Seq<char>, CachedWaypointData> {
        self.waypoint_cache@
    }

    /// Surveys by waypoint symbol.
    pub closed spec fn surveys(&self) -> Map<Seq<char>, CachedSurveyData> {
        self.survey_cache@
    }

    /// How many hours a scan stays fresh.
    pub closed spec fn duration_hours(&self) -> int {
        self.cache_duration_hours as int
    }

    /// Where the cache is saved.
    pub closed spec fn path(&self) -> Seq<char> {
        self.storage_path@
    }

    /// Consistent tables.
    pub closed spec fn wf(&self) -> bool {
        &&& self.waypoint_cache.wf()
        &&& self.survey_cache.wf()
        &&& i64::MIN <= self.cache_duration_hours * 3_600_000 <= i64::MAX
    }

    /// An empty cache saved at `storage_path`, whose scans stay fresh for `cache_duration_hours`.
    pub fn new(storage_path: &str, cache_duration_hours: i64) -> (r: Self)
        requires
            i64::MIN <= cache_duration_hours * 3_600_000 <= i64::MAX,
        ensures
            r.wf(),
            r.scans() == Map::<Seq<char>, CachedWaypointData>::empty(),
            r.surveys() == Map::<Seq<char>, CachedSurveyData>::empty(),
            r.duration_hours() == cache_duration_hours,
            r.path() == storage_path@,
    {
        SurveyCache {
            storage_path: String::from_str(storage_path),
            waypoint_cache: KeyedVec::new(),
            survey_cache: KeyedVec::new(),
            cache_duration_hours,
        }
    }

    /// Where the cache is saved.
    pub fn storage_path(&self) -> (r: &str)
        ensures
            r@ == self.path(),
    {
        self.storage_path.as_str()
    }

    /// Number of cached scans.
    pub fn scan_count(&self) -> (r: usize)
        requires
            self.wf(),
        ensures
            r == self.scan_count_spec(),
            r == self.scans().len(),
    {
        proof {
            self.waypoint_cache.lemma_len_is_dom_len();
        }
        self.waypoint_cache.len()
    }

    /// Number of cached scans.
    pub closed spec fn scan_count_spec(&self) -> nat {
        self.waypoint_cache.entries().len()
    }

    /// Number of cached surveys.
    pub fn survey_count(&self) -> (r: usize)
        requires
            self.wf(),
        ensures
            r == self.survey_count_spec(),
            r == self.surveys().len(),
    {
        proof {
            self.survey_cache.lemma_len_is_dom_len();
        }
        self.survey_cache.len()
    }

    /// Number of cached surveys.
    pub closed spec fn survey_count_spec(&self) -> nat {
        self.survey_cache.entries().len()
    }

    /// The scans as saved: system symbol and scan, in table order.
    pub closed spec fn saved_scans(&self) -> Seq<(String, CachedWaypointData)> {
        self.waypoint_cache.entries()
    }

    /// The surveys as saved: waypoint symbol and surveys, in table order.
    pub closed spec fn saved_surveys(&self) -> Seq<(String, CachedSurveyData)> {
        self.survey_cache.entries()
    }

    /// The `i`-th cached scan with its system symbol, for saving.
    pub fn scan_at(&self, i: usize) -> (r: (&String, &CachedWaypointData))
        requires
            self.wf(),
            i < self.scan_count_spec(),
        ensures
            (*r.0, *r.1) == self.saved_scans()[i as int],
            self.saved_scans().len() == self.scan_count_spec(),
            self.scans().contains_key(r.0@),
            self.scans()[r.0@] == *r.1,
    {
        proof {
            self.waypoint_cache.lemma_entry_in_view(i as int);
        }
        self.waypoint_cache.entry_at(i)
    }

    /// The `i`-th cached survey set with its waypoint symbol, for saving.
    pub fn survey_at(&self, i: usize) -> (r: (&String, &CachedSurveyData))
        requires
            self.wf(),
            i < self.survey_count_spec(),
        ensures
            (*r.0, *r.1) == self.saved_surveys()[i as int],
            self.saved_surveys().len() == self.survey_count_spec(),
            self.surveys().contains_key(r.0@),
            self.surveys()[r.0@] == *r.1,
    {
        proof {
            self.survey_cache.lemma_entry_in_view(i as int);
        }
        self.survey_cache.entry_at(i)
    }

    /// Loads saved scans and surveys as the cache's content (a later entry for a system or
    /// waypoint replacing an earlier one), then drops what is out of date at `now`.
    pub fn restore(&mut self, scans: Vec<(String, CachedWaypointData)>, surveys: Vec<(String, CachedSurveyData)>, now: i64)
        requires
            old(self).wf(),
        ensures
            final(self).wf(),
            final(self).scans() == recent_scans(pairs_map(scans@, scans@.len() as int), old(self).duration_hours(), now as int),
            final(self).surveys() == live_surveys(pairs_map(surveys@, surveys@.len() as int), now as int),
            final(self).duration_hours() == old(self).duration_hours(),
            final(self).path() == old(self).path(),
    {
        self.waypoint_cache = KeyedVec::from_pairs(scans);
        self.survey_cache = KeyedVec::from_pairs(surveys);
        self.cleanup_expired_at(now);
    }

    /// Caches the waypoints of `system_symbol` as scanned at `now`.
    pub fn cache_system_waypoints_at(&mut self, system_symbol: &str, waypoints: Vec<Waypoint>, now: i64)
        requires
            old(self).wf(),
        ensures
            final(self).wf(),
            final(self).scans() == old(self).scans().insert(system_symbol@, final(self).scans()[system_symbol@]),
            final(self).scans()[system_symbol@].waypoints@ == waypoints@,
            final(self).scans()[system_symbol@].last_scanned == now,
            final(self).scans()[system_symbol@].system_symbol@ == system_symbol@,
            final(self).surveys() == old(self).surveys(),
            final(self).duration_hours() == old(self).duration_hours(),
            final(self).path() == old(self).path(),
    {
        let data = CachedWaypointData { waypoints, last_scanned: now, system_symbol: String::from_str(system_symbol) };
        self.waypoint_cache.insert(String::from_str(system_symbol), data);
    }

    /// Caches the waypoints of `system_symbol` as scanned now.
    pub fn cache_system_waypoints(&mut self, system_symbol: &str, waypoints: Vec<Waypoint>)
        requires
            old(self).wf(),
        ensures
            final(self).wf(),
            final(self).scans() == old(self).scans().insert(system_symbol@, final(self).scans()[system_symbol@]),
            final(self).scans()[system_symbol@].waypoints@ == waypoints@,
            final(self).surveys() == old(self).surveys(),
            final(self).duration_hours() == old(self).duration_hours(),
            final(self).path() == old(self).path(),
    {
        let now = now_millis();
        self.cache_system_waypoints_at(system_symbol, waypoints, now);
    }

    /// The cached waypoints of `system_symbol` when they are fresh at `now`.
    pub fn get_cached_waypoints_at(&self, system_symbol: &str, now: i64) -> (r: Option<&Vec<Waypoint>>)
        requires
            self.wf(),
        ensures
            match r {
                Some(w) => fresh_waypoints(self.scans(), self.duration_hours(), system_symbol@, now as int) == Some(w@),
                None => fresh_waypoints(self.scans(), self.duration_hours(), system_symbol@, now as int) is None,
            },
    {
        match self.waypoint_cache.get(system_symbol) {
            Some(cached) => {
                let d: i128 = now as i128 - cached.last_scanned as i128;
                let hours: i128 = if d >= 0 { d / 3_600_000 } else { -((-d) / 3_600_000) };
                if hours <= self.cache_duration_hours as i128 {
                    Some(&cached.waypoints)
                } else {
                    None
                }
            },
            None => None,
        }
    }

    /// Whether `system_symbol` must be scanned at `now`: it has no fresh cached scan.
    pub fn should_scan_system_at(&self, system_symbol: &str, now: i64) -> (r: bool)
        requires
            self.wf(),
        ensures
            r == (fresh_waypoints(self.scans(), self.duration_hours(), system_symbol@, now as int) is None),
    {
        self.get_cached_waypoints_at(system_symbol, now).is_none()
    }

    /// Caches the surveys of `waypoint_symbol` taken at `now`; they expire 30 minutes later.
    pub fn cache_survey_data_at(&mut self, waypoint_symbol: &str, surveys: Vec<Survey>, now: i64)
        requires
            old(self).wf(),
            now + survey_lifetime_ms() <= i64::MAX,
        ensures
            final(self).wf(),
            final(self).surveys() == old(self).surveys().insert(waypoint_symbol@, final(self).surveys()[waypoint_symbol@]),
            final(self).surveys()[waypoint_symbol@].surveys@ == surveys@,
            final(self).surveys()[waypoint_symbol@].last_surveyed == now,
            final(self).surveys()[waypoint_symbol@].expires_at == now + survey_lifetime_ms(),
            final(self).scans() == old(self).scans(),
            final(self).duration_hours() == old(self).duration_hours(),
            final(self).path() == old(self).path(),
    {
        let data = CachedSurveyData {
            surveys,
            last_surveyed: now,
            waypoint_symbol: String::from_str(waypoint_symbol),
            expires_at: now + 30 * 60_000,
        };
        self.survey_cache.insert(String::from_str(waypoint_symbol), data);
    }

    /// The cached surveys of `waypoint_symbol` when they are still usable at `now`.
    pub fn get_cached_surveys_at(&self, waypoint_symbol: &str, now: i64) -> (r: Option<&Vec<Survey>>)
        requires
            self.wf(),
        ensures
            match r {
                Some(s) => usable_surveys(self.surveys(), waypoint_symbol@, now as int) == Some(s@),
                None => usable_surveys(self.surveys(), waypoint_symbol@, now as int) is None,
            },
    {
        match self.survey_cache.get(waypoint_symbol) {
            Some(cached) => {
                if now < cached.expires_at {
                    Some(&cached.surveys)
                } else {
                    None
                }
            },
            None => None,
        }
    }

    /// Whether `waypoint_symbol` must be surveyed at `now`: it has no usable cached survey.
    pub fn should_survey_waypoint_at(&self, waypoint_symbol: &str, now: i64) -> (r: bool)
        requires
            self.wf(),
        ensures
            r == (usable_surveys(self.surveys(), waypoint_symbol@, now as int) is None),
    {
        self.get_cached_surveys_at(waypoint_symbol, now).is_none()
    }

    /// Drops the surveys expired at `now` and the scans older than the cache duration at `now`;
    /// returns how many surveys and how many scans were dropped.
    pub fn cleanup_expired_at(&mut self, now: i64) -> (r: (usize, usize))
        requires
            old(self).wf(),
        ensures
            final(self).wf(),
            final(self).surveys() == live_surveys(old(self).surveys(), now as int),
            final(self).scans() == recent_scans(old(self).scans(), old(self).duration_hours(), now as int),
            r.0 == old(self).surveys().len() - final(self).surveys().len(),
            r.1 == old(self).scans().len() - final(self).scans().len(),
            final(self).duration_hours() == old(self).duration_hours(),
            final(self).path() == old(self).path(),
    {
        let removed_surveys = self.drop_expired_surveys(now);
        let removed_scans = self.drop_old_scans(now);
        (removed_surveys, removed_scans)
    }

    fn drop_expired_surveys(&mut self, now: i64) -> (r: usize)
        requires
            old(self).wf(),
        ensures
            final(self).wf(),
            final(self).surveys() == live_surveys(old(self).surveys(), now as int),
            r == old(self).surveys().len() - final(self).surveys().len(),
            final(self).scans() == old(self).scans(),
            final(self).duration_hours() == old(self).duration_hours(),
            final(self).path() == old(self).path(),
    {
        let mut doomed: Vec<String> = Vec::new();
        let n = self.survey_cache.len();
        let mut i: usize = 0;
        assert(doomed@.map_values(|s: String| s@).to_set() =~= Set::new(|k: Seq<char>| exists|j: int|
            0 <= j < 0 && self.survey_cache.entries()[j].0@ == k && !(now < self.survey_cache.entries()[j].1.expires_at)));
        while i < n
            invariant
                i <= n,
                n == self.survey_cache.entries().len(),
                self.wf(),
                doomed@.map_values(|s: String| s@).to_set() == Set::new(|k: Seq<char>| exists|j: int|
                    0 <= j < i && self.survey_cache.entries()[j].0@ == k && !(now < self.survey_cache.entries()[j].1.expires_at)),
            decreases n - i,
        {
            let (k, e) = self.survey_cache.entry_at(i);
            let ghost before = doomed@;
            if !(now < e.expires_at) {
                doomed.push(k.clone());
                proof {
                    assert(doomed@.map_values(|s: String| s@) =~= before.map_values(|s: String| s@).push(k@));
                    before.map_values(|s: String| s@).lemma_push_to_set_commute(k@);
                }
            }
            proof {
                assert(doomed@.map_values(|s: String| s@).to_set() =~= Set::new(|key: Seq<char>| exists|j: int|
                    0 <= j < i + 1 && self.survey_cache.entries()[j].0@ == key && !(now < self.survey_cache.entries()[j].1.expires_at)));
            }
            i = i + 1;
        }
        let before = self.survey_cache.len();
        let ghost old_map = self.survey_cache@;
        self.survey_cache.remove_all(&doomed);
        let after = self.survey_cache.len();
        proof {
            let gone = doomed@.map_values(|s: String| s@).to_set();
            assert forall|k: Seq<char>| #[trigger] gone.contains(k) <==> (old_map.contains_key(k) && !(now < old_map[k].expires_at)) by {
                if gone.contains(k) {
                    let j = choose|j: int| 0 <= j < n && old(self).survey_cache.entries()[j].0@ == k
                        && !(now < old(self).survey_cache.entries()[j].1.expires_at);
                    old(self).survey_cache.lemma_entry_in_view(j);
                }
                if old_map.contains_key(k) && !(now < old_map[k].expires_at) {
                    let j = choose|j: int| 0 <= j < n && old(self).survey_cache.entries()[j].0@ == k;
                    old(self).survey_cache.lemma_entry_in_view(j);
                }
            }
            assert(self.surveys() =~= live_surveys(old(self).surveys(), now as int));
            old(self).survey_cache.lemma_len_is_dom_len();
            self.survey_cache.lemma_len_is_dom_len();
            vstd::set_lib::lemma_len_subset(self.surveys().dom(), old(self).surveys().dom());
        }
        before - after
    }

    fn drop_old_scans(&mut self, now: i64) -> (r: usize)
        requires
            old(self).wf(),
        ensures
            final(self).wf(),
            final(self).scans() == recent_scans(old(self).scans(), old(self).duration_hours(), now as int),
            r == old(self).scans().len() - final(self).scans().len(),
            final(self).surveys() == old(self).surveys(),
            final(self).duration_hours() == old(self).duration_hours(),
            final(self).path() == old(self).path(),
    {
        let hours = self.cache_duration_hours;
        let limit: i128 = hours as i128 * 3_600_000;
        let mut doomed: Vec<String> = Vec::new();
        let n = self.waypoint_cache.len();
        let mut i: usize = 0;
        assert(doomed@.map_values(|s: String| s@).to_set() =~= Set::new(|k: Seq<char>| exists|j: int|
            0 <= j < 0 && self.waypoint_cache.entries()[j].0@ == k && now - self.waypoint_cache.entries()[j].1.last_scanned > hours * 3_600_000));
        while i < n
            invariant
                i <= n,
                n == self.waypoint_cache.entries().len(),
                self.wf(),
                hours == self.cache_duration_hours,
                limit == hours * 3_600_000,
                doomed@.map_values(|s: String| s@).to_set() == Set::new(|k: Seq<char>| exists|j: int|
                    0 <= j < i && self.waypoint_cache.entries()[j].0@ == k && now - self.waypoint_cache.entries()[j].1.last_scanned > hours * 3_600_000),
            decreases n - i,
        {
            let (k, e) = self.waypoint_cache.entry_at(i);
            let ghost before = doomed@;
            if now as i128 - e.last_scanned as i128 > limit {
                doomed.push(k.clone());
                proof {
                    assert(doomed@.map_values(|s: String| s@) =~= before.map_values(|s: String| s@).push(k@));
                    before.map_values(|s: String| s@).lemma_push_to_set_commute(k@);
                }
            }
            proof {
                assert(doomed@.map_values(|s: String| s@).to_set() =~= Set::new(|key: Seq<char>| exists|j: int|
                    0 <= j < i + 1 && self.waypoint_cache.entries()[j].0@ == key && now - self.waypoint_cache.entries()[j].1.last_scanned > hours * 3_600_000));
            }
            i = i + 1;
        }
        let before = self.waypoint_cache.len();
        let ghost old_map = self.waypoint_cache@;
        self.waypoint_cache.remove_all(&doomed);
        let after = self.waypoint_cache.len();
        proof {
            let gone = doomed@.map_values(|s: String| s@).to_set();
            assert forall|k: Seq<char>| #[trigger] gone.contains(k) <==> (old_map.contains_key(k) && now - old_map[k].last_scanned > hours * 3_600_000) by {
                if gone.contains(k) {
                    let j = choose|j: int| 0 <= j < n && old(self).waypoint_cache.entries()[j].0@ == k
                        && now - old(self).waypoint_cache.entries()[j].1.last_scanned > hours * 3_600_000;
                    old(self).waypoint_cache.lemma_entry_in_view(j);
                }
                if old_map.contains_key(k) && now - old_map[k].last_scanned > hours * 3_600_000 {
                    let j = choose|j: int| 0 <= j < n && old(self).waypoint_cache.entries()[j].0@ == k;
                    old(self).waypoint_cache.lemma_entry_in_view(j);
                }
            }
            assert(self.scans() =~= recent_scans(old(self).scans(), old(self).duration_hours(), now as int));
            old(self).waypoint_cache.lemma_len_is_dom_len();
            self.waypoint_cache.lemma_len_is_dom_len();
            vstd::set_lib::lemma_len_subset(self.scans().dom(), old(self).scans().dom());
        }
        before - after
    }

    /// The fresh cached waypoints of `system_symbol` at `now` that have trait `trait_symbol`, in
    /// scan order; none when the system has no fresh scan.
    pub fn find_waypoints_with_trait_at<'a>(&'a self, system_symbol: &str, trait_symbol: &str, now: i64) -> (r: Vec<&'a Waypoint>)
        requires
            self.wf(),
        ensures
            r@.map_values(|w: &Waypoint| *w) == with_trait(
                fresh_waypoints(self.scans(), self.duration_hours(), system_symbol@, now as int),
                trait_symbol@,
            ),
    {
        let mut r: Vec<&'a Waypoint> = Vec::new();
        match self.get_cached_waypoints_at(system_symbol, now) {
            Some(ws) => {
                let mut i: usize = 0;
                while i < ws.len()
                    invariant
                        i <= ws@.len(),
                        r@.map_values(|w: &Waypoint| *w) == ws@.take(i as int).filter(|w: Waypoint| waypoint_has_trait(w, trait_symbol@)),
                    decreases ws@.len() - i,
                {
                    proof {
                        crate::seqs::lemma_filter_step(ws@, |w: Waypoint| waypoint_has_trait(w, trait_symbol@), i as int);
                    }
                    if has_trait(&ws[i], trait_symbol) {
                        r.push(&ws[i]);
                    }
                    assert(r@.map_values(|w: &Waypoint| *w) =~= ws@.take(i + 1).filter(|w: Waypoint| waypoint_has_trait(w, trait_symbol@)));
                    i = i + 1;
                }
                assert(ws@.take(i as int) =~= ws@);
            },
            None => {
                assert(r@.map_values(|w: &Waypoint| *w) =~= Seq::<Waypoint>::empty());
            },
        }
        r
    }

    /// The fresh cached waypoint of `system_symbol` with trait `trait_symbol` closest to
    /// (`from_x`, `from_y`), the first in scan order among equally close ones.
    pub fn find_nearest_waypoint_with_trait_at<'a>(
        &'a self,
        system_symbol: &str,
        trait_symbol: &str,
        from_x: i32,
        from_y: i32,
        now: i64,
    ) -> (r: Option<&'a Waypoint>)
        requires
            self.wf(),
        ensures
            nearest_in(
                with_trait(fresh_waypoints(self.scans(), self.duration_hours(), system_symbol@, now as int), trait_symbol@),
                from_x as int,
                from_y as int,
                match r {
                    Some(w) => Some(*w),
                    None => None,
                },
            ),
    {
        let cands = self.find_waypoints_with_trait_at(system_symbol, trait_symbol, now);
        nearest_waypoint(&cands, from_x, from_y)
    }

    /// The cached waypoints of `system_symbol` when they are fresh now.
    pub fn get_cached_waypoints(&self, system_symbol: &str) -> (r: Option<&Vec<Waypoint>>)
        requires
            self.wf(),
        ensures
            exists|now: i64| match r {
                Some(w) => #[trigger] scan_at_clock(self.scans(), self.duration_hours(), system_symbol@, now) == Some(w@),
                None => scan_at_clock(self.scans(), self.duration_hours(), system_symbol@, now) is None,
            },
    {
        let now = now_millis();
        let r = self.get_cached_waypoints_at(system_symbol, now);
        assert(scan_at_clock(self.scans(), self.duration_hours(), system_symbol@, now) == fresh_waypoints(
            self.scans(),
            self.duration_hours(),
            system_symbol@,
            now as int,
        ));
        r
    }

    /// Whether `system_symbol` must be scanned now: it has no fresh cached scan.
    pub fn should_scan_system(&self, system_symbol: &str) -> (r: bool)
        requires
            self.wf(),
        ensures
            exists|now: i64| r == (#[trigger] scan_at_clock(self.scans(), self.duration_hours(), system_symbol@, now) is None),
    {
        let now = now_millis();
        let r = self.should_scan_system_at(system_symbol, now);
        assert(scan_at_clock(self.scans(), self.duration_hours(), system_symbol@, now) == fresh_waypoints(
            self.scans(),
            self.duration_hours(),
            system_symbol@,
            now as int,
        ));
        r
    }

    /// Caches the surveys of `waypoint_symbol` taken now; they expire 30 minutes later. (A
    /// clock reading within 30 minutes of the end of `i64` time is taken as that limit.)
    pub fn cache_survey_data(&mut self, waypoint_symbol: &str, surveys: Vec<Survey>)
        requires
            old(self).wf(),
        ensures
            final(self).wf(),
            final(self).surveys() == old(self).surveys().insert(waypoint_symbol@, final(self).surveys()[waypoint_symbol@]),
            final(self).surveys()[waypoint_symbol@].surveys@ == surveys@,
            final(self).surveys()[waypoint_symbol@].expires_at == final(self).surveys()[waypoint_symbol@].last_surveyed
                + survey_lifetime_ms(),
            final(self).scans() == old(self).scans(),
            final(self).duration_hours() == old(self).duration_hours(),
            final(self).path() == old(self).path(),
    {
        let clock = now_millis();
        let now = if clock <= i64::MAX - 1_800_000 {
            clock
        } else {
            i64::MAX - 1_800_000
        };
        self.cache_survey_data_at(waypoint_symbol, surveys, now);
    }

    /// The cached surveys of `waypoint_symbol` when they are still usable now.
    pub fn get_cached_surveys(&self, waypoint_symbol: &str) -> (r: Option<&Vec<Survey>>)
        requires
            self.wf(),
        ensures
            exists|now: i64| match r {
                Some(s) => #[trigger] surveys_at_clock(self.surveys(), waypoint_symbol@, now) == Some(s@),
                None => surveys_at_clock(self.surveys(), waypoint_symbol@, now) is None,
            },
    {
        let now = now_millis();
        let r = self.get_cached_surveys_at(waypoint_symbol, now);
        assert(surveys_at_clock(self.surveys(), waypoint_symbol@, now) == usable_surveys(
            self.surveys(),
            waypoint_symbol@,
            now as int,
        ));
        r
    }

    /// Whether `waypoint_symbol` must be surveyed now: it has no usable cached survey.
    pub fn should_survey_waypoint(&self, waypoint_symbol: &str) -> (r: bool)
        requires
            self.wf(),
        ensures
            exists|now: i64| r == (#[trigger] surveys_at_clock(self.surveys(), waypoint_symbol@, now) is None),
    {
        let now = now_millis();
        let r = self.should_survey_waypoint_at(waypoint_symbol, now);
        assert(surveys_at_clock(self.surveys(), waypoint_symbol@, now) == usable_surveys(
            self.surveys(),
            waypoint_symbol@,
            now as int,
        ));
        r
    }

    /// The fresh cached waypoints of `system_symbol` now that have trait `trait_symbol`, in scan
    /// order; none when the system has no fresh scan.
    pub fn find_waypoints_with_trait<'a>(&'a self, system_symbol: &str, trait_symbol: &str) -> (r: Vec<&'a Waypoint>)
        requires
            self.wf(),
        ensures
            exists|now: i64| r@.map_values(|w: &Waypoint| *w) == with_trait(
                #[trigger] scan_at_clock(self.scans(), self.duration_hours(), system_symbol@, now),
                trait_symbol@,
            ),
    {
        let now = now_millis();
        let r = self.find_waypoints_with_trait_at(system_symbol, trait_symbol, now);
        assert(scan_at_clock(self.scans(), self.duration_hours(), system_symbol@, now) == fresh_waypoints(
            self.scans(),
            self.duration_hours(),
            system_symbol@,
            now as int,
        ));
        r
    }

    /// The fresh cached waypoint of `system_symbol` now with trait `trait_symbol` closest to
    /// (`from_x`, `from_y`), the first in scan order among equally close ones.
    pub fn find_nearest_waypoint_with_trait<'a>(&'a self, system_symbol: &str, trait_symbol: &str, from_x: i32, from_y: i32) -> (r:
        Option<&'a Waypoint>)
        requires
            self.wf(),
        ensures
            exists|now: i64| nearest_in(
                with_trait(#[trigger] scan_at_clock(self.scans(), self.duration_hours(), system_symbol@, now), trait_symbol@),
                from_x as int,
                from_y as int,
                match r {
                    Some(w) => Some(*w),
                    None => None,
                },
            ),
    {
        let now = now_millis();
        let r = self.find_nearest_waypoint_with_trait_at(system_symbol, trait_symbol, from_x, from_y, now);
        assert(scan_at_clock(self.scans(), self.duration_hours(), system_symbol@, now) == fresh_waypoints(
            self.scans(),
            self.duration_hours(),
            system_symbol@,
            now as int,
        ));
        r
    }

    /// Drops the surveys expired now and the scans older than the cache duration; returns how
    /// many surveys and how many scans were dropped.
    pub fn cleanup_expired(&mut self) -> (r: (usize, usize))
        requires
            old(self).wf(),
        ensures
            final(self).wf(),
            exists|now: i64| #[trigger] cleaned_at_clock(
                old(self).surveys(),
                old(self).scans(),
                old(self).duration_hours(),
                final(self).surveys(),
                final(self).scans(),
                now,
            ),
            r.0 == old(self).surveys().len() - final(self).surveys().len(),
            r.1 == old(self).scans().len() - final(self).scans().len(),
            final(self).duration_hours() == old(self).duration_hours(),
            final(self).path() == old(self).path(),
    {
        let now = now_millis();
        let ghost surveys0 = self.surveys();
        let ghost scans0 = self.scans();
        let r = self.cleanup_expired_at(now);
        assert(cleaned_at_clock(surveys0, scans0, self.duration_hours(), self.surveys(), self.scans(), now));
        r
    }
}

/// Squared distance from a waypoint to a point.
pub fn waypoint_distance_squared(w: &Waypoint, x: i32, y: i32) -> (r: i128)
    ensures
        r == distance_squared(*w, x as int, y as int),
{
    let dx: i128 = w.x as i128 - x as i128;
    let dy: i128 = w.y as i128 - y as i128;
    assert(dx * dx <= 0x1_0000_0000_0000_0000) by (nonlinear_arith)
        requires
            -0x1_0000_0000 <= dx <= 0x1_0000_0000,
    ;
    assert(dy * dy <= 0x1_0000_0000_0000_0000) by (nonlinear_arith)
        requires
            -0x1_0000_0000 <= dy <= 0x1_0000_0000,
    ;
    assert(0 <= dx * dx && 0 <= dy * dy) by (nonlinear_arith);
    dx * dx + dy * dy
}

/// The waypoint of `cands` closest to (`x`, `y`), the first among equally close ones.
pub fn nearest_waypoint<'a>(cands: &Vec<&'a Waypoint>, x: i32, y: i32) -> (r: Option<&'a Waypoint>)
    ensures
        nearest_in(cands@.map_values(|w: &Waypoint| *w), x as int, y as int, match r {
            Some(w) => Some(*w),
            None => None,
        }),
{
    let ghost c = cands@.map_values(|w: &Waypoint| *w);
    if cands.len() == 0 {
        return None;
    }
    let mut best: usize = 0;
    let mut best_d = waypoint_distance_squared(cands[0], x, y);
    let mut i: usize = 1;
    while i < cands.len()
        invariant
            1 <= i <= cands@.len(),
            c == cands@.map_values(|w: &Waypoint| *w),
            best < i,
            best_d == distance_squared(c[best as int], x as int, y as int),
            forall|j: int| 0 <= j < i ==> best_d <= distance_squared(#[trigger] c[j], x as int, y as int),
            forall|j: int| 0 <= j < best ==> best_d < distance_squared(#[trigger] c[j], x as int, y as int),
        decreases cands@.len() - i,
    {
        let d = waypoint_distance_squared(cands[i], x, y);
        if d < best_d {
            best = i;
            best_d = d;
        }
        i = i + 1;
    }
    Some(cands[best])
}

/// Surveys read back at the instant they were cached are the surveys that were cached.
pub proof fn law_cached_surveys_read_back(m: Map<Seq<char>, CachedSurveyData>, waypoint: Seq<char>, data: CachedSurveyData, now: int)
    requires
        data.expires_at == now + survey_lifetime_ms(),
    ensures
        usable_surveys(m.insert(waypoint, data), waypoint, now) == Some(data.surveys@),
{
}

/// A scan read back at the instant it was cached is the scan that was cached, when the cache
/// duration is not negative.
pub proof fn law_cached_scan_read_back(m: Map<Seq<char>, CachedWaypointData>, hours: int, system: Seq<char>, data: CachedWaypointData, now: int)
    requires
        data.last_scanned == now,
        hours >= 0,
    ensures
        fresh_waypoints(m.insert(system, data), hours, system, now) == Some(data.waypoints@),
{
}

/// Dropping the expired surveys at `now` changes no waypoint's usable surveys at `now`.
pub proof fn law_survey_cleanup_keeps_usable(m: Map<Seq<char>, CachedSurveyData>, waypoint: Seq<char>, now: int)
    ensures
        usable_surveys(live_surveys(m, now), waypoint, now) == usable_surveys(m, waypoint, now),
{
}

/// Restoring what a cache saves gives back its content: the saved scans and surveys make up
/// exactly the cached ones, so restoring them at any instant keeps those still up to date then.
pub proof fn law_saved_cache_restores(cache: SurveyCache, now: int)
    requires
        cache.wf(),
    ensures
        pairs_map(cache.saved_scans(), cache.saved_scans().len() as int) == cache.scans(),
        pairs_map(cache.saved_surveys(), cache.saved_surveys().len() as int) == cache.surveys(),
        recent_scans(pairs_map(cache.saved_scans(), cache.saved_scans().len() as int), cache.duration_hours(), now)
            == recent_scans(cache.scans(), cache.duration_hours(), now),
        live_surveys(pairs_map(cache.saved_surveys(), cache.saved_surveys().len() as int), now) == live_surveys(cache.surveys(), now),
{
    cache.waypoint_cache.lemma_pairs_map_of_entries();
    cache.survey_cache.lemma_pairs_map_of_entries();
}

} // verus!
