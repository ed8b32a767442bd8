//! The coarse operating states derived from health signals, and the polling
//! mode chosen from them.

use vstd::prelude::*;
use crate::types::ServiceStatus;

verus! {

/// Why the agent cannot be started.
#[derive(Debug, Clone, Copy, PartialEq, Eq, Structural)]
pub enum NotReadyReason {
    BinaryNotFound,
    PlistMissing,
}

/// Readiness of the service agent.
#[derive(Debug, Clone, Copy, PartialEq, Eq, Structural)]
pub enum AgentState {
    NotReady { reason: NotReadyReason },
    Stopped,
    Starting,
    Running,
}

/// How long a newly started agent must stay alive before it counts as running.
pub const STARTUP_DWELL_MS: u64 = 5_000;

/// The state that the health signals alone stand for: liveness overrides
/// everything, registration means stopped, and otherwise the install marker
/// tells which requirement is missing.
pub open spec fn raw_agent_state(status: ServiceStatus) -> AgentState {
    if status.process_running {
        AgentState::Running
    } else if status.launchctl_loaded {
        AgentState::Stopped
    } else if !status.plist_installed {
        AgentState::NotReady { reason: NotReadyReason::BinaryNotFound }
    } else {
        AgentState::NotReady { reason: NotReadyReason::PlistMissing }
    }
}

/// The derived state: a live process seen while starting stays `Starting`
/// until the dwell time has elapsed.
pub open spec fn derived_agent_state(status: ServiceStatus, was_starting: bool, dwell_elapsed: bool) -> AgentState {
    if status.process_running && was_starting && !dwell_elapsed {
        AgentState::Starting
    } else {
        raw_agent_state(status)
    }
}

/// The state after `previous`, given fresh signals: a stopped agent whose
/// process appears enters `Starting` rather than `Running`, and a starting
/// agent whose process is gone falls back to `Stopped`.
pub open spec fn next_agent_state(previous: AgentState, status: ServiceStatus, dwell_elapsed: bool) -> AgentState {
    if previous == AgentState::Stopped && status.process_running {
        AgentState::Starting
    } else if previous == AgentState::Starting && !status.process_running {
        AgentState::Stopped
    } else {
        derived_agent_state(status, previous == AgentState::Starting, dwell_elapsed)
    }
}

/// The state from an install check, a binary lookup and a liveness check:
/// liveness first, then both requirements present means stopped, then the
/// missing binary is reported before the missing plist.
pub open spec fn system_check_state(plist_installed: bool, binary_available: bool, service_running: bool) -> AgentState {
    if service_running {
        AgentState::Running
    } else if plist_installed && binary_available {
        AgentState::Stopped
    } else if !binary_available {
        AgentState::NotReady { reason: NotReadyReason::BinaryNotFound }
    } else {
        AgentState::NotReady { reason: NotReadyReason::PlistMissing }
    }
}

impl AgentState {
    /// The state from an install check, a binary lookup and a liveness check.
    pub fn from_system_check(plist_installed: bool, binary_available: bool, service_running: bool) -> (r: AgentState)
        ensures
            r == system_check_state(plist_installed, binary_available, service_running),
    {
        if service_running {
            AgentState::Running
        } else if plist_installed && binary_available {
            AgentState::Stopped
        } else if !binary_available {
            AgentState::NotReady { reason: NotReadyReason::BinaryNotFound }
        } else {
            AgentState::NotReady { reason: NotReadyReason::PlistMissing }
        }
    }

    /// The state after `previous` given fresh signals (see `next_agent_state`).
    pub fn next(previous: AgentState, status: &ServiceStatus, dwell_elapsed: bool) -> (r: AgentState)
        ensures
            r == next_agent_state(previous, *status, dwell_elapsed),
    {
        if previous == AgentState::Stopped && status.process_running {
            AgentState::Starting
        } else if previous == AgentState::Starting && !status.process_running {
            AgentState::Stopped
        } else {
            derive_agent_state(status, previous == AgentState::Starting, dwell_elapsed)
        }
    }
}

/// The agent state for a set of health signals (see `derived_agent_state`).
pub fn derive_agent_state(status: &ServiceStatus, was_starting: bool, dwell_elapsed: bool) -> (r: AgentState)
    ensures
        r == derived_agent_state(*status, was_starting, dwell_elapsed),
{
    if status.process_running && was_starting && !dwell_elapsed {
        AgentState::Starting
    } else if status.process_running {
        AgentState::Running
    } else if status.launchctl_loaded {
        AgentState::Stopped
    } else if !status.plist_installed {
        AgentState::NotReady { reason: NotReadyReason::BinaryNotFound }
    } else {
        AgentState::NotReady { reason: NotReadyReason::PlistMissing }
    }
}

/// Every combination of signals gives exactly one state, by this table.
pub proof fn lemma_derivation_total(status: ServiceStatus, was_starting: bool, dwell_elapsed: bool)
    ensures
        ({
            let r = derived_agent_state(status, was_starting, dwell_elapsed);
            &&& status.process_running ==> (r == AgentState::Running || r == AgentState::Starting)
            &&& r == AgentState::Starting <==> (status.process_running && was_starting && !dwell_elapsed)
            &&& (!status.process_running && status.launchctl_loaded) ==> r == AgentState::Stopped
            &&& (!status.process_running && !status.launchctl_loaded && !status.plist_installed)
                ==> r == (AgentState::NotReady { reason: NotReadyReason::BinaryNotFound })
            &&& (!status.process_running && !status.launchctl_loaded && status.plist_installed)
                ==> r == (AgentState::NotReady { reason: NotReadyReason::PlistMissing })
        }),
{
}

/// A stopped agent never becomes `Running` in one step: when its process
/// appears it is `Starting`, and from `Starting` it reaches `Running` only once
/// the dwell time has elapsed with the process still alive; losing the process
/// while starting falls back to `Stopped`.
pub proof fn lemma_no_direct_start(status: ServiceStatus, dwell_elapsed: bool)
    ensures
        next_agent_state(AgentState::Stopped, status, dwell_elapsed) != AgentState::Running,
        status.is_fully_running_spec()
            ==> next_agent_state(AgentState::Stopped, status, dwell_elapsed) == AgentState::Starting,
        next_agent_state(AgentState::Starting, status, dwell_elapsed) == AgentState::Running
            <==> (status.process_running && dwell_elapsed),
        !status.process_running ==> next_agent_state(AgentState::Starting, status, dwell_elapsed) == AgentState::Stopped,
{
}

/// The combined state shown to the user.
#[derive(Debug, Clone, Copy, PartialEq, Eq, Structural)]
pub enum DisplayState {
    AgentNotLoaded,
    AgentStarting,
    ServiceStopped,
    ServiceLoadedNoModel,
    ModelLoading,
    ModelProcessingQueue,
    ModelReady,
}

/// The display state for an agent state, whether any model is known, whether
/// any is loading, and whether requests are in flight. Loading outranks activity.
pub open spec fn display_state_of(agent: AgentState, has_models: bool, any_loading: bool, has_activity: bool) -> DisplayState {
    match agent {
        AgentState::NotReady { .. } => DisplayState::AgentNotLoaded,
        AgentState::Starting => DisplayState::AgentStarting,
        AgentState::Stopped => DisplayState::ServiceStopped,
        AgentState::Running => {
            if !has_models {
                DisplayState::ServiceLoadedNoModel
            } else if any_loading {
                DisplayState::ModelLoading
            } else if has_activity {
                DisplayState::ModelProcessingQueue
            } else {
                DisplayState::ModelReady
            }
        },
    }
}

impl DisplayState {
    /// See `display_state_of`.
    pub fn derive(agent: AgentState, has_models: bool, any_loading: bool, has_activity: bool) -> (r: DisplayState)
        ensures
            r == display_state_of(agent, has_models, any_loading, has_activity),
    {
        match agent {
            AgentState::NotReady { .. } => DisplayState::AgentNotLoaded,
            AgentState::Starting => DisplayState::AgentStarting,
            AgentState::Stopped => DisplayState::ServiceStopped,
            AgentState::Running => {
                if !has_models {
                    DisplayState::ServiceLoadedNoModel
                } else if any_loading {
                    DisplayState::ModelLoading
                } else if has_activity {
                    DisplayState::ModelProcessingQueue
                } else {
                    DisplayState::ModelReady
                }
            },
        }
    }

    pub open spec fn status_message_spec(self) -> &'static str {
        match self {
            DisplayState::AgentNotLoaded => "Missing requirements",
            DisplayState::AgentStarting => "Starting agent...",
            DisplayState::ServiceStopped => "Service stopped",
            DisplayState::ServiceLoadedNoModel => "No models loaded",
            DisplayState::ModelLoading => "Loading model...",
            DisplayState::ModelProcessingQueue => "Processing queue...",
            DisplayState::ModelReady => "Model ready",
        }
    }

    /// A one-line description of the state.
    pub fn status_message(&self) -> (r: &'static str)
        ensures
            r == self.status_message_spec(),
    {
        match self {
            DisplayState::AgentNotLoaded => "Missing requirements",
            DisplayState::AgentStarting => "Starting agent...",
            DisplayState::ServiceStopped => "Service stopped",
            DisplayState::ServiceLoadedNoModel => "No models loaded",
            DisplayState::ModelLoading => "Loading model...",
            DisplayState::ModelProcessingQueue => "Processing queue...",
            DisplayState::ModelReady => "Model ready",
        }
    }

    pub open spec fn icon_color_spec(self) -> &'static str {
        match self {
            DisplayState::AgentNotLoaded | DisplayState::ServiceStopped => "red",
            DisplayState::ServiceLoadedNoModel => "grey",
            DisplayState::AgentStarting | DisplayState::ModelLoading => "yellow",
            DisplayState::ModelReady => "green",
            DisplayState::ModelProcessingQueue => "blue",
        }
    }

    /// The colour of the status icon: red for problems, yellow for transitions,
    /// grey for idle, green for ready, blue for busy.
    pub fn icon_color(&self) -> (r: &'static str)
        ensures
            r == self.icon_color_spec(),
    {
        match self {
            DisplayState::AgentNotLoaded | DisplayState::ServiceStopped => "red",
            DisplayState::ServiceLoadedNoModel => "grey",
            DisplayState::AgentStarting | DisplayState::ModelLoading => "yellow",
            DisplayState::ModelReady => "green",
            DisplayState::ModelProcessingQueue => "blue",
        }
    }
}

/// How often the service is probed.
#[derive(Debug, Clone, Copy, PartialEq, Eq, Structural)]
pub enum PollingMode {
    Idle,
    Active,
    Starting,
}

/// How long the polling mode stays `Starting` after a state change.
pub const STARTING_DWELL_MS: u64 = 5_000;

/// The next polling mode: a state change (re)enters `Starting`; `Starting`
/// holds until its dwell time has elapsed; then activity decides.
pub open spec fn next_polling_mode(current: PollingMode, state_changed: bool, has_activity: bool, elapsed_ms: u64) -> PollingMode {
    if state_changed {
        PollingMode::Starting
    } else if current == PollingMode::Starting && elapsed_ms < STARTING_DWELL_MS {
        PollingMode::Starting
    } else if has_activity {
        PollingMode::Active
    } else {
        PollingMode::Idle
    }
}

impl PollingMode {
    pub open spec fn interval_spec(self) -> u64 {
        match self {
            PollingMode::Idle => 3,
            PollingMode::Active => 1,
            PollingMode::Starting => 2,
        }
    }

    /// Seconds to wait before the next probe.
    pub fn interval(&self) -> (r: u64)
        ensures
            r == self.interval_spec(),
    {
        match self {
            PollingMode::Idle => 3,
            PollingMode::Active => 1,
            PollingMode::Starting => 2,
        }
    }

    pub open spec fn description_spec(self) -> &'static str {
        match self {
            PollingMode::Idle => "Idle",
            PollingMode::Active => "Active",
            PollingMode::Starting => "Starting",
        }
    }

    /// The mode's name.
    pub fn description(&self) -> (r: &'static str)
        ensures
            r == self.description_spec(),
    {
        match self {
            PollingMode::Idle => "Idle",
            PollingMode::Active => "Active",
            PollingMode::Starting => "Starting",
        }
    }

    /// The mode for the next cycle (see `next_polling_mode`); `last_change_elapsed_ms`
    /// is the time since the last state change.
    pub fn compute(current: PollingMode, state_changed: bool, has_activity: bool, last_change_elapsed_ms: u64) -> (r: PollingMode)
        ensures
            r == next_polling_mode(current, state_changed, has_activity, last_change_elapsed_ms),
    {
        if state_changed {
            PollingMode::Starting
        } else if current == PollingMode::Starting && last_change_elapsed_ms < STARTING_DWELL_MS {
            PollingMode::Starting
        } else if has_activity {
            PollingMode::Active
        } else {
            PollingMode::Idle
        }
    }
}

/// Readiness of one model, as tracked between probes.
#[derive(Debug, Clone, Copy, PartialEq, Eq, Structural)]
pub enum ModelState {
    Unknown,
    Loading,
    Running,
}

impl ModelState {
    pub fn is_loading(&self) -> (r: bool)
        ensures
            r == (*self == ModelState::Loading),
    {
        match self {
            ModelState::Loading => true,
            _ => false,
        }
    }
}


/// Why the wait between two iterations ended.
#[derive(Debug, Clone, Copy, PartialEq, Eq, Structural)]
pub enum WakeReason {
    /// A shutdown was requested.
    Signalled,
    /// The interval passed.
    TimedOut,
    /// The shutdown channel was closed.
    Disconnected,
}

/// The loop stops on a shutdown request, and also when the channel that
/// carries such requests has closed.
pub fn should_shut_down(reason: WakeReason) -> (r: bool)
    ensures
        r == (reason != WakeReason::TimedOut),
{
    match reason {
        WakeReason::TimedOut => false,
        _ => true,
    }
}

} // verus!
