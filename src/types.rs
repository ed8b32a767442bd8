//! The health snapshot of the service and the aggregate state of the monitor.

use vstd::prelude::*;
use crate::models::{self, AllMetrics, AllMetricsHistory, SystemMetrics, MAX_CAPACITY, MAX_SAMPLE_VALUE};
use crate::state_model::{AgentState, DisplayState, ModelState, PollingMode, STARTUP_DWELL_MS,
    next_agent_state, next_polling_mode, display_state_of};
use crate::text::str_eq;

verus! {

/// Independent health signals of the service, from the outer layer inward.
#[derive(Debug, Clone, Copy, PartialEq, Eq, Structural)]
pub struct ServiceStatus {
    pub plist_installed: bool,
    pub launchctl_loaded: bool,
    pub process_running: bool,
    pub api_responsive: bool,
}

impl Default for ServiceStatus {
    fn default() -> (r: ServiceStatus)
        ensures
            r == ServiceStatus::none(),
    {
        ServiceStatus::new()
    }
}

impl ServiceStatus {
    /// No signal present.
    pub open spec fn none() -> ServiceStatus {
        ServiceStatus { plist_installed: false, launchctl_loaded: false, process_running: false, api_responsive: false }
    }

    pub open spec fn is_fully_running_spec(self) -> bool {
        self.plist_installed && self.launchctl_loaded && self.process_running && self.api_responsive
    }

    /// A status with every signal absent.
    pub fn new() -> (r: Self)
        ensures
            r == Self::none(),
    {
        ServiceStatus { plist_installed: false, launchctl_loaded: false, process_running: false, api_responsive: false }
    }

    /// Replaces every signal with a fresh reading.
    pub fn update(&mut self, plist_installed: bool, launchctl_loaded: bool, process_running: bool, api_success: bool)
        ensures
            *final(self) == (ServiceStatus {
                plist_installed,
                launchctl_loaded,
                process_running,
                api_responsive: api_success,
            }),
    {
        self.plist_installed = plist_installed;
        self.launchctl_loaded = launchctl_loaded;
        self.process_running = process_running;
        self.api_responsive = api_success;
    }

    /// Every layer works.
    pub fn is_fully_running(&self) -> (r: bool)
        ensures
            r == self.is_fully_running_spec(),
    {
        self.plist_installed && self.launchctl_loaded && self.process_running && self.api_responsive
    }

    pub open spec fn status_description_spec(self) -> &'static str {
        if !self.plist_installed {
            "Not installed"
        } else if self.launchctl_loaded && self.process_running && self.api_responsive {
            "Running"
        } else if self.launchctl_loaded && self.process_running {
            "Process running but API unresponsive"
        } else if self.launchctl_loaded && !self.process_running && !self.api_responsive {
            "Loaded but not running"
        } else if !self.launchctl_loaded && !self.process_running && !self.api_responsive {
            "Stopped"
        } else {
            "Unknown state"
        }
    }

    /// A short description of the signals.
    pub fn status_description(&self) -> (r: &'static str)
        ensures
            r == self.status_description_spec(),
    {
        if !self.plist_installed {
            "Not installed"
        } else if self.launchctl_loaded && self.process_running && self.api_responsive {
            "Running"
        } else if self.launchctl_loaded && self.process_running {
            "Process running but API unresponsive"
        } else if self.launchctl_loaded && !self.process_running && !self.api_responsive {
            "Loaded but not running"
        } else if !self.launchctl_loaded && !self.process_running && !self.api_responsive {
            "Stopped"
        } else {
            "Unknown state"
        }
    }
}


/// A history capacity larger than `MAX_CAPACITY` was asked for.
#[derive(Debug, Clone, Copy, PartialEq, Eq, Structural)]
pub struct CapacityError {
    pub requested: usize,
}

/// A failed probe. Its cause is not inspected.
#[derive(Debug, Clone, Copy, PartialEq, Eq, Structural)]
pub struct ProbeError;

/// The tracked readiness of one model.
#[derive(Debug, Clone)]
pub struct ModelEntry {
    pub name: String,
    pub state: ModelState,
}

/// The readiness tracked for a reported model state.
pub open spec fn tracked_state(s: models::ModelState) -> ModelState {
    match s {
        models::ModelState::Loading => ModelState::Loading,
        models::ModelState::Running => ModelState::Running,
        models::ModelState::Unknown => ModelState::Unknown,
    }
}

/// The readiness of each model a probe listed; a name listed twice keeps its last state.
pub open spec fn reported_states(models: Seq<models::ModelMetrics>) -> Map<Seq<char>, ModelState>
    decreases models.len(),
{
    if models.len() == 0 {
        Map::empty()
    } else {
        reported_states(models.drop_last()).insert(models.last().model_name@, tracked_state(models.last().model_state))
    }
}

/// The map that a list of entries with distinct names stands for.
pub open spec fn entry_map(entries: Seq<ModelEntry>) -> Map<Seq<char>, ModelState>
    decreases entries.len(),
{
    if entries.len() == 0 {
        Map::empty()
    } else {
        entry_map(entries.drop_last()).insert(entries.last().name@, entries.last().state)
    }
}

pub open spec fn distinct_names(entries: Seq<ModelEntry>) -> bool {
    forall|i: int, j: int| 0 <= i < j < entries.len() ==> #[trigger] entries[i].name@ != #[trigger] entries[j].name@
}

/// Some model of the snapshot has requests in progress or waiting.
pub open spec fn queue_active(current: Option<AllMetrics>) -> bool {
    match current {
        Some(all) => exists|i: int| 0 <= i < all.models@.len()
            && ((#[trigger] all.models@[i]).metrics.requests_processing > 0
                || all.models@[i].metrics.requests_deferred > 0),
        None => false,
    }
}

/// Some tracked model is loading.
pub open spec fn any_loading(states: Map<Seq<char>, ModelState>) -> bool {
    exists|k: Seq<char>| states.contains_key(k) && states[k] == ModelState::Loading
}

proof fn lemma_entry_map_keys(entries: Seq<ModelEntry>)
    requires
        distinct_names(entries),
    ensures
        forall|k: Seq<char>| #[trigger] entry_map(entries).contains_key(k)
            <==> exists|i: int| 0 <= i < entries.len() && (#[trigger] entries[i]).name@ == k,
        forall|i: int| 0 <= i < entries.len()
            ==> entry_map(entries)[(#[trigger] entries[i]).name@] == entries[i].state,
    decreases entries.len(),
{
    if entries.len() > 0 {
        let t = entries.drop_last();
        assert(distinct_names(t)) by {
            assert forall|i: int, j: int| 0 <= i < j < t.len() implies #[trigger] t[i].name@ != #[trigger] t[j].name@ by {
                assert(t[i] == entries[i] && t[j] == entries[j]);
            }
        }
        lemma_entry_map_keys(t);
        let last = entries.last();
        assert(last == entries[entries.len() - 1]);
        assert forall|k: Seq<char>| #[trigger] entry_map(entries).contains_key(k)
            <==> exists|i: int| 0 <= i < entries.len() && (#[trigger] entries[i]).name@ == k by {
            if entry_map(entries).contains_key(k) {
                if k != last.name@ {
                    let i = choose|i: int| 0 <= i < t.len() && (#[trigger] t[i]).name@ == k;
                    assert(entries[i] == t[i]);
                }
            }
            if exists|i: int| 0 <= i < entries.len() && (#[trigger] entries[i]).name@ == k {
                let i = choose|i: int| 0 <= i < entries.len() && (#[trigger] entries[i]).name@ == k;
                if i < t.len() {
                    assert(t[i] == entries[i]);
                }
            }
        }
        assert forall|i: int| 0 <= i < entries.len()
            implies entry_map(entries)[(#[trigger] entries[i]).name@] == entries[i].state by {
            if i < t.len() {
                assert(t[i] == entries[i]);
                assert(entries[i].name@ != last.name@);
            }
        }
    }
}

proof fn lemma_entry_map_update(entries: Seq<ModelEntry>, j: int, e: ModelEntry)
    requires
        distinct_names(entries),
        0 <= j < entries.len(),
        entries[j].name@ == e.name@,
    ensures
        entry_map(entries.update(j, e)) == entry_map(entries).insert(e.name@, e.state),
    decreases entries.len(),
{
    let u = entries.update(j, e);
    let t = entries.drop_last();
    assert(distinct_names(t)) by {
        assert forall|a: int, b: int| 0 <= a < b < t.len() implies #[trigger] t[a].name@ != #[trigger] t[b].name@ by {
            assert(t[a] == entries[a] && t[b] == entries[b]);
        }
    }
    if j == entries.len() - 1 {
        assert(u.drop_last() == t);
        assert(entry_map(t).insert(entries.last().name@, entries.last().state).insert(e.name@, e.state)
            == entry_map(t).insert(e.name@, e.state));
    } else {
        lemma_entry_map_update(t, j, e);
        assert(u.drop_last() == t.update(j, e));
        assert(u.last() == entries.last());
        assert(entries.last().name@ != e.name@) by {
            assert(entries[entries.len() - 1] == entries.last());
        }
        assert(entry_map(t).insert(e.name@, e.state).insert(entries.last().name@, entries.last().state)
            == entry_map(t).insert(entries.last().name@, entries.last().state).insert(e.name@, e.state));
    }
}

/// The root aggregate: health signals, derived states, metric history and schedule.
#[derive(Debug)]
pub struct PluginState {
    pub metrics_history: AllMetricsHistory,
    pub current_all_metrics: Option<AllMetrics>,
    pub error_count: usize,
    pub agent_state: AgentState,
    pub polling_mode: PollingMode,
    pub model_states: Vec<ModelEntry>,
    pub service_status: ServiceStatus,
    pub last_state_change_ms: u64,
}

/// Every figure of a probe fits what the histories accept.
pub open spec fn probe_in_range(all: AllMetrics) -> bool {
    forall|i: int| 0 <= i < all.models@.len() ==> (#[trigger] all.models@[i]).metrics.in_range()
}

impl PluginState {
    pub open spec fn wf(&self) -> bool {
        &&& self.metrics_history.wf()
        &&& distinct_names(self.model_states@)
    }

    /// The tracked readiness of each model, by name.
    pub open spec fn model_map(&self) -> Map<Seq<char>, ModelState> {
        entry_map(self.model_states@)
    }

    /// A monitor with no history yet, whose agent state is read from `status`.
    pub fn new(status: ServiceStatus, now_ms: u64) -> (r: Self)
        ensures
            r.wf(),
            r.service_status == status,
            r.agent_state == crate::state_model::raw_agent_state(status),
            r.polling_mode == PollingMode::Idle,
            r.error_count == 0,
            r.current_all_metrics is None,
            r.model_states@.len() == 0,
            r.last_state_change_ms == now_ms,
            r.metrics_history.models@.len() == 0,
    {
        PluginState {
            metrics_history: AllMetricsHistory::new(),
            current_all_metrics: None,
            error_count: 0,
            agent_state: crate::state_model::derive_agent_state(&status, false, true),
            polling_mode: PollingMode::Idle,
            model_states: Vec::new(),
            service_status: status,
            last_state_change_ms: now_ms,
        }
    }

    /// A monitor whose series keep `capacity` samples each, or an error when
    /// `capacity` exceeds `MAX_CAPACITY`.
    pub fn with_capacity(status: ServiceStatus, now_ms: u64, capacity: usize) -> (r: Result<Self, CapacityError>)
        ensures
            capacity <= MAX_CAPACITY <==> r is Ok,
            r matches Ok(p) ==> {
                &&& p.wf()
                &&& p.metrics_history.max_size == capacity
                &&& p.metrics_history.models@.len() == 0
                &&& p.service_status == status
                &&& p.agent_state == crate::state_model::raw_agent_state(status)
                &&& p.polling_mode == PollingMode::Idle
                &&& p.error_count == 0
                &&& p.current_all_metrics is None
                &&& p.model_states@.len() == 0
                &&& p.last_state_change_ms == now_ms
            },
            r matches Err(e) ==> e.requested == capacity,
    {
        if capacity > MAX_CAPACITY {
            return Err(CapacityError { requested: capacity });
        }
        Ok(PluginState {
            metrics_history: AllMetricsHistory::with_capacity(capacity),
            current_all_metrics: None,
            error_count: 0,
            agent_state: crate::state_model::derive_agent_state(&status, false, true),
            polling_mode: PollingMode::Idle,
            model_states: Vec::new(),
            service_status: status,
            last_state_change_ms: now_ms,
        })
    }

    /// Whether some model of the current snapshot has requests in progress or waiting.
    pub fn has_queue_activity(&self) -> (r: bool)
        ensures
            r == queue_active(self.current_all_metrics),
    {
        match &self.current_all_metrics {
            None => false,
            Some(all) => {
                let mut i: usize = 0;
                while i < all.models.len()
                    invariant
                        self.current_all_metrics == Some(*all),
                        i <= all.models@.len(),
                        forall|j: int| 0 <= j < i ==> !((#[trigger] all.models@[j]).metrics.requests_processing > 0
                            || all.models@[j].metrics.requests_deferred > 0),
                    decreases all.models@.len() - i,
                {
                    let m = &all.models[i].metrics;
                    if m.requests_processing > 0 || m.requests_deferred > 0 {
                        assert(all.models@[i as int].metrics.requests_processing > 0
                            || all.models@[i as int].metrics.requests_deferred > 0);
                        return true;
                    }
                    i = i + 1;
                }
                false
            },
        }
    }

    /// Whether some tracked model is loading.
    pub fn has_loading_models(&self) -> (r: bool)
        requires
            self.wf(),
        ensures
            r == any_loading(self.model_map()),
    {
        proof {
            lemma_entry_map_keys(self.model_states@);
        }
        let mut i: usize = 0;
        while i < self.model_states.len()
            invariant
                self.wf(),
                i <= self.model_states@.len(),
                forall|j: int| 0 <= j < i ==> (#[trigger] self.model_states@[j]).state != ModelState::Loading,
            decreases self.model_states@.len() - i,
        {
            if self.model_states[i].state.is_loading() {
                proof {
                    lemma_entry_map_keys(self.model_states@);
                    let k = self.model_states@[i as int].name@;
                    assert(self.model_map().contains_key(k));
                    assert(self.model_map()[k] == ModelState::Loading);
                }
                return true;
            }
            i = i + 1;
        }
        proof {
            lemma_entry_map_keys(self.model_states@);
            assert forall|k: Seq<char>| self.model_map().contains_key(k) implies self.model_map()[k] != ModelState::Loading by {
                let j = choose|j: int| 0 <= j < self.model_states@.len() && (#[trigger] self.model_states@[j]).name@ == k;
                assert(self.model_map()[self.model_states@[j].name@] == self.model_states@[j].state);
            }
        }
        false
    }

    /// The combined state shown to the user.
    pub fn get_display_state(&self) -> (r: DisplayState)
        requires
            self.wf(),
        ensures
            r == display_state_of(self.agent_state, self.model_map().dom().len() > 0,
                any_loading(self.model_map()), queue_active(self.current_all_metrics)),
    {
        proof {
            lemma_entry_map_keys(self.model_states@);
            lemma_entry_map_finite(self.model_states@);
            if self.model_states@.len() > 0 {
                assert(self.model_map().contains_key(self.model_states@[0].name@));
                assert(self.model_map().dom().contains(self.model_states@[0].name@));
            } else {
                assert(self.model_map().dom() =~= Set::empty());
            }
        }
        let has_models = self.model_states.len() > 0;
        let loading = self.has_loading_models();
        let active = self.has_queue_activity();
        DisplayState::derive(self.agent_state, has_models, loading, active)
    }

    /// The position of the entry named `name` in `entries`, if any.
    fn entry_position(entries: &Vec<ModelEntry>, name: &str) -> (r: Option<usize>)
        ensures
            match r {
                Some(j) => j < entries@.len() && entries@[j as int].name@ == name@,
                None => forall|j: int| 0 <= j < entries@.len() ==> (#[trigger] entries@[j]).name@ != name@,
            },
    {
        let mut j: usize = 0;
        while j < entries.len()
            invariant
                j <= entries@.len(),
                forall|i: int| 0 <= i < j ==> (#[trigger] entries@[i]).name@ != name@,
            decreases entries@.len() - j,
        {
            if str_eq(entries[j].name.as_str(), name) {
                return Some(j);
            }
            j = j + 1;
        }
        None
    }

    /// Tracks exactly the models of `all_metrics`, each with its reported readiness.
    pub fn update_model_states(&mut self, all_metrics: &AllMetrics)
        ensures
            distinct_names(final(self).model_states@),
            final(self).model_map() == reported_states(all_metrics.models@),
            final(self).metrics_history == old(self).metrics_history,
            final(self).current_all_metrics == old(self).current_all_metrics,
            final(self).error_count == old(self).error_count,
            final(self).agent_state == old(self).agent_state,
            final(self).polling_mode == old(self).polling_mode,
            final(self).service_status == old(self).service_status,
            final(self).last_state_change_ms == old(self).last_state_change_ms,
    {
        let mut entries: Vec<ModelEntry> = Vec::new();
        let mut i: usize = 0;
        while i < all_metrics.models.len()
            invariant
                i <= all_metrics.models@.len(),
                distinct_names(entries@),
                entry_map(entries@) == reported_states(all_metrics.models@.take(i as int)),
            decreases all_metrics.models@.len() - i,
        {
            let m = &all_metrics.models[i];
            let state = match m.model_state {
                models::ModelState::Loading => ModelState::Loading,
                models::ModelState::Running => ModelState::Running,
                models::ModelState::Unknown => ModelState::Unknown,
            };
            let entry = ModelEntry { name: m.model_name.clone(), state };
            assert(all_metrics.models@.take(i as int + 1).drop_last() == all_metrics.models@.take(i as int));
            assert(all_metrics.models@.take(i as int + 1).last() == all_metrics.models@[i as int]);
            match Self::entry_position(&entries, m.model_name.as_str()) {
                Some(j) => {
                    proof {
                        lemma_entry_map_update(entries@, j as int, entry);
                    }
                    let ghost before = entries@;
                    entries.set(j, entry);
                    assert(entries@ == before.update(j as int, entry));
                    assert(distinct_names(entries@)) by {
                        assert forall|a: int, b: int| 0 <= a < b < entries@.len()
                            implies #[trigger] entries@[a].name@ != #[trigger] entries@[b].name@ by {
                            assert(entries@[a].name@ == before[a].name@);
                            assert(entries@[b].name@ == before[b].name@);
                        }
                    }
                },
                None => {
                    let ghost before = entries@;
                    entries.push(entry);
                    assert(entries@.drop_last() == before);
                    assert(distinct_names(entries@)) by {
                        assert forall|a: int, b: int| 0 <= a < b < entries@.len()
                            implies #[trigger] entries@[a].name@ != #[trigger] entries@[b].name@ by {
                            if b == before.len() {
                                assert(before[a].name@ != entry.name@);
                                assert(entries@[a] == before[a]);
                            } else {
                                assert(entries@[a] == before[a] && entries@[b] == before[b]);
                            }
                        }
                    }
                },
            }
            i = i + 1;
        }
        assert(all_metrics.models@.take(i as int) == all_metrics.models@);
        self.model_states = entries;
    }
}

proof fn lemma_entry_map_finite(entries: Seq<ModelEntry>)
    ensures
        entry_map(entries).dom().finite(),
    decreases entries.len(),
{
    if entries.len() > 0 {
        lemma_entry_map_finite(entries.drop_last());
    }
}


/// Milliseconds from `since` to `now`; zero if `now` is earlier.
pub open spec fn elapsed_ms(now: u64, since: u64) -> u64 {
    if now >= since { (now - since) as u64 } else { 0 }
}

impl PluginState {
    /// Takes in a successful probe at `now_ms`: records each model's figures,
    /// trims the histories, keeps the snapshot, clears the error count and
    /// tracks the listed models.
    pub fn handle_metrics_success(&mut self, all_metrics: AllMetrics, now_ms: u64)
        requires
            old(self).wf(),
            probe_in_range(all_metrics),
        ensures
            final(self).wf(),
            final(self).current_all_metrics == Some(all_metrics),
            final(self).error_count == 0,
            final(self).model_map() == reported_states(all_metrics.models@),
            exists|mid: AllMetricsHistory| #[trigger] mid.is_record_all_of(old(self).metrics_history, all_metrics.models@,
                now_ms / 1000) && final(self).metrics_history.is_trim_at(mid, now_ms / 1000),
            final(self).agent_state == old(self).agent_state,
            final(self).polling_mode == old(self).polling_mode,
            final(self).service_status == old(self).service_status,
            final(self).last_state_change_ms == old(self).last_state_change_ms,
    {
        let now = now_ms / 1000;
        self.metrics_history.record_models(&all_metrics.models, now);
        let ghost mid = self.metrics_history;
        self.metrics_history.trim_old_data_at(now);
        self.error_count = 0;
        self.update_model_states(&all_metrics);
        self.current_all_metrics = Some(all_metrics);
        assert(mid.is_record_all_of(old(self).metrics_history, all_metrics.models@, now));
    }

    /// Takes in a failed probe: counts it (saturating), forgets the tracked
    /// models and the snapshot, and keeps all history.
    pub fn handle_metrics_error(&mut self)
        ensures
            final(self).error_count == if old(self).error_count < usize::MAX {
                (old(self).error_count + 1) as usize
            } else {
                old(self).error_count
            },
            final(self).model_states@.len() == 0,
            final(self).model_map() == Map::<Seq<char>, ModelState>::empty(),
            final(self).current_all_metrics is None,
            final(self).metrics_history == old(self).metrics_history,
            final(self).agent_state == old(self).agent_state,
            final(self).polling_mode == old(self).polling_mode,
            final(self).service_status == old(self).service_status,
            final(self).last_state_change_ms == old(self).last_state_change_ms,
    {
        if self.error_count < usize::MAX {
            self.error_count = self.error_count + 1;
        }
        self.model_states = Vec::new();
        self.current_all_metrics = None;
    }

    /// Moves the agent state on from the current signals; a change restarts
    /// the dwell clock at `now_ms`. Returns whether the state changed.
    pub fn update_agent_state(&mut self, now_ms: u64) -> (changed: bool)
        ensures
            final(self).agent_state == next_agent_state(old(self).agent_state, old(self).service_status,
                elapsed_ms(now_ms, old(self).last_state_change_ms) >= STARTUP_DWELL_MS),
            changed == (final(self).agent_state != old(self).agent_state),
            final(self).last_state_change_ms == if changed { now_ms } else { old(self).last_state_change_ms },
            final(self).metrics_history == old(self).metrics_history,
            final(self).model_states == old(self).model_states,
            final(self).current_all_metrics == old(self).current_all_metrics,
            final(self).error_count == old(self).error_count,
            final(self).polling_mode == old(self).polling_mode,
            final(self).service_status == old(self).service_status,
    {
        let elapsed = if now_ms >= self.last_state_change_ms { now_ms - self.last_state_change_ms } else { 0 };
        let previous = self.agent_state;
        let next = AgentState::next(previous, &self.service_status, elapsed >= STARTUP_DWELL_MS);
        self.agent_state = next;
        if next != previous {
            self.last_state_change_ms = now_ms;
            true
        } else {
            false
        }
    }

    /// Chooses the polling mode for the next cycle.
    pub fn update_polling_mode(&mut self, state_changed: bool, now_ms: u64)
        ensures
            final(self).polling_mode == next_polling_mode(old(self).polling_mode, state_changed,
                queue_active(old(self).current_all_metrics), elapsed_ms(now_ms, old(self).last_state_change_ms)),
            final(self).metrics_history == old(self).metrics_history,
            final(self).model_states == old(self).model_states,
            final(self).current_all_metrics == old(self).current_all_metrics,
            final(self).error_count == old(self).error_count,
            final(self).agent_state == old(self).agent_state,
            final(self).service_status == old(self).service_status,
            final(self).last_state_change_ms == old(self).last_state_change_ms,
    {
        let elapsed = if now_ms >= self.last_state_change_ms { now_ms - self.last_state_change_ms } else { 0 };
        let active = self.has_queue_activity();
        self.polling_mode = PollingMode::compute(self.polling_mode, state_changed, active, elapsed);
    }

    /// One iteration at `now_ms`: records the host figures, takes in the probe
    /// outcome (a failed probe keeps the history, which is still aged out by
    /// the retention windows), refreshes the health signals (the API counts as responsive when
    /// the probe succeeded), moves the agent state on and picks the polling mode.
    pub fn update_state(
        &mut self,
        system: &SystemMetrics,
        llama_memory_mb: u64,
        probe: Result<AllMetrics, ProbeError>,
        plist_installed: bool,
        launchctl_loaded: bool,
        process_running: bool,
        now_ms: u64,
    )
        requires
            old(self).wf(),
            system.in_range(),
            llama_memory_mb <= MAX_SAMPLE_VALUE,
            probe matches Ok(all) ==> probe_in_range(all),
        ensures
            final(self).wf(),
            ({
                let status = ServiceStatus { plist_installed, launchctl_loaded, process_running,
                    api_responsive: probe is Ok };
                let agent = next_agent_state(old(self).agent_state, status,
                    elapsed_ms(now_ms, old(self).last_state_change_ms) >= STARTUP_DWELL_MS);
                let changed = agent != old(self).agent_state;
                let since = if changed { now_ms } else { old(self).last_state_change_ms };
                &&& final(self).service_status == status
                &&& final(self).agent_state == agent
                &&& final(self).last_state_change_ms == since
                &&& final(self).polling_mode == next_polling_mode(old(self).polling_mode, changed,
                    queue_active(final(self).current_all_metrics), elapsed_ms(now_ms, since))
            }),
            match probe {
                Ok(all) => {
                    &&& final(self).current_all_metrics == Some(all)
                    &&& final(self).error_count == 0
                    &&& final(self).model_map() == reported_states(all.models@)
                    &&& exists|sys: AllMetricsHistory, mid: AllMetricsHistory|
                        #[trigger] sys.is_system_record_of(old(self).metrics_history, *system, llama_memory_mb, now_ms / 1000)
                        && #[trigger] mid.is_record_all_of(sys, all.models@, now_ms / 1000)
                        && final(self).metrics_history.is_trim_at(mid, now_ms / 1000)
                },
                Err(_) => {
                    &&& exists|sys: AllMetricsHistory|
                        #[trigger] sys.is_system_record_of(old(self).metrics_history, *system, llama_memory_mb, now_ms / 1000)
                        && final(self).metrics_history.is_trim_at(sys, now_ms / 1000)
                    &&& final(self).current_all_metrics is None
                    &&& final(self).error_count == if old(self).error_count < usize::MAX {
                        (old(self).error_count + 1) as usize
                    } else {
                        old(self).error_count
                    }
                    &&& final(self).model_map() == Map::<Seq<char>, ModelState>::empty()
                },
            },
    {
        self.metrics_history.record_system(system, llama_memory_mb, now_ms / 1000);
        let ghost sys = self.metrics_history;
        let api_success = match probe {
            Ok(all) => {
                self.handle_metrics_success(all, now_ms);
                assert(sys.is_system_record_of(old(self).metrics_history, *system, llama_memory_mb, now_ms / 1000));
                true
            },
            Err(_) => {
                self.handle_metrics_error();
                self.metrics_history.trim_old_data_at(now_ms / 1000);
                assert(sys.is_system_record_of(old(self).metrics_history, *system, llama_memory_mb, now_ms / 1000));
                false
            },
        };
        self.service_status.update(plist_installed, launchctl_loaded, process_running, api_success);
        let changed = self.update_agent_state(now_ms);
        self.update_polling_mode(changed, now_ms);
    }

    /// The combined state shown to the user.
    pub fn display_state(&self) -> (r: DisplayState)
        requires
            self.wf(),
        ensures
            r == display_state_of(self.agent_state, self.model_map().dom().len() > 0,
                any_loading(self.model_map()), queue_active(self.current_all_metrics)),
    {
        self.get_display_state()
    }

    /// Seconds until the next probe.
    pub fn next_interval(&self) -> (r: u64)
        ensures
            r == self.polling_mode.interval_spec(),
    {
        self.polling_mode.interval()
    }

    /// Consecutive failed probes.
    pub fn error_count(&self) -> (r: usize)
        ensures
            r == self.error_count,
    {
        self.error_count
    }
}


/// Why the polling mode is what it is.
#[derive(Debug, Clone, Copy, PartialEq, Eq, Structural)]
pub enum ModeReason {
    /// Requests are being processed, this many over all models.
    Processing(u128),
    /// None are processed but this many wait.
    Queued(u128),
    NoActivity,
}

/// Requests in progress over all models of a snapshot.
pub open spec fn total_processing(models: Seq<models::ModelMetrics>) -> int
    decreases models.len(),
{
    if models.len() == 0 { 0 } else { total_processing(models.drop_last()) + models.last().metrics.requests_processing }
}

/// Requests waiting over all models of a snapshot.
pub open spec fn total_deferred(models: Seq<models::ModelMetrics>) -> int
    decreases models.len(),
{
    if models.len() == 0 { 0 } else { total_deferred(models.drop_last()) + models.last().metrics.requests_deferred }
}

pub open spec fn mode_reason_of(current: Option<AllMetrics>) -> ModeReason {
    match current {
        Some(all) => {
            if total_processing(all.models@) > 0 {
                ModeReason::Processing(total_processing(all.models@) as u128)
            } else if total_deferred(all.models@) > 0 {
                ModeReason::Queued(total_deferred(all.models@) as u128)
            } else {
                ModeReason::NoActivity
            }
        },
        None => ModeReason::NoActivity,
    }
}

proof fn lemma_totals_bounded(models: Seq<models::ModelMetrics>)
    ensures
        0 <= total_processing(models) <= models.len() * 0xFFFF_FFFF,
        0 <= total_deferred(models) <= models.len() * 0xFFFF_FFFF,
    decreases models.len(),
{
    if models.len() > 0 {
        lemma_totals_bounded(models.drop_last());
    }
}

impl PluginState {
    /// The totals of requests behind the current polling mode.
    pub fn get_mode_reason(&self) -> (r: ModeReason)
        ensures
            r == mode_reason_of(self.current_all_metrics),
    {
        match &self.current_all_metrics {
            None => ModeReason::NoActivity,
            Some(all) => {
                let mut processing: u128 = 0;
                let mut deferred: u128 = 0;
                let mut i: usize = 0;
                while i < all.models.len()
                    invariant
                        i <= all.models@.len(),
                        processing == total_processing(all.models@.take(i as int)),
                        deferred == total_deferred(all.models@.take(i as int)),
                    decreases all.models@.len() - i,
                {
                    proof {
                        let t = all.models@.take(i as int + 1);
                        assert(t.drop_last() == all.models@.take(i as int));
                        lemma_totals_bounded(t);
                        assert(t.len() * 0xFFFF_FFFF <= 0xFFFF_FFFF_FFFF_FFFFu64 as int * 0xFFFF_FFFF) by (nonlinear_arith)
                            requires t.len() <= 0xFFFF_FFFF_FFFF_FFFFu64;
                    }
                    processing = processing + all.models[i].metrics.requests_processing as u128;
                    deferred = deferred + all.models[i].metrics.requests_deferred as u128;
                    i = i + 1;
                }
                assert(all.models@.take(i as int) == all.models@);
                if processing > 0 {
                    ModeReason::Processing(processing)
                } else if deferred > 0 {
                    ModeReason::Queued(deferred)
                } else {
                    ModeReason::NoActivity
                }
            },
        }
    }
}

} // verus!
