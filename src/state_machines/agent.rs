//! The agent's lifecycle: not installed, stopped, starting, running.

use vstd::prelude::*;

verus! {

/// Whether a liveness check found the service running.
#[derive(Debug, Clone, Copy, PartialEq, Eq, Structural)]
pub struct ServiceRunning(pub bool);

/// The startup dwell time has passed.
#[derive(Debug, Clone, Copy, PartialEq, Eq, Structural)]
pub struct StartupTimeout;

#[derive(Debug, Clone, Copy, PartialEq, Eq, Structural)]
pub enum AgentStates {
    NotInstalled,
    Stopped,
    Starting,
    Running,
}

#[derive(Debug, Clone, Copy, PartialEq, Eq, Structural)]
pub enum AgentEvents {
    ServiceDetected(ServiceRunning),
    StartupComplete(StartupTimeout),
}

/// Why an event was refused.
#[derive(Debug, Clone, Copy, PartialEq, Eq, Structural)]
pub enum AgentError {
    /// The event has no transition from the current state.
    InvalidEvent,
    /// No guarded transition for the event passed.
    TransitionsFailed,
}

/// Default startup dwell time, in milliseconds.
pub const STARTUP_TIMEOUT_MS: u64 = 5_000;

/// The timer of a start in progress.
#[derive(Debug, Clone, Copy, PartialEq, Eq, Structural)]
pub struct AgentContext {
    pub transition_start_time: Option<u64>,
    pub startup_timeout: u64,
}

impl AgentContext {
    /// No start in progress, with the default dwell time.
    pub fn new() -> (r: Self)
        ensures
            r.transition_start_time is None,
            r.startup_timeout == STARTUP_TIMEOUT_MS,
    {
        AgentContext { transition_start_time: None, startup_timeout: STARTUP_TIMEOUT_MS }
    }

    /// Whether a start began at least the dwell time before `now_ms`.
    pub fn should_complete_startup(&self, now_ms: u64) -> (r: bool)
        ensures
            r == match self.transition_start_time {
                Some(start) => now_ms >= start && now_ms - start >= self.startup_timeout,
                None => false,
            },
    {
        match self.transition_start_time {
            Some(start) => now_ms >= start && now_ms - start >= self.startup_timeout,
            None => false,
        }
    }
}

/// The state an event leads to, and whether the start timer is (re)started;
/// `None` when the event has no transition from `state`.
pub open spec fn agent_step(state: AgentStates, event: AgentEvents, timer_running: bool) -> Option<(AgentStates, bool)> {
    match (state, event) {
        (AgentStates::NotInstalled, AgentEvents::ServiceDetected(ServiceRunning(up))) =>
            Some(if up { (AgentStates::Starting, true) } else { (AgentStates::NotInstalled, false) }),
        (AgentStates::Stopped, AgentEvents::ServiceDetected(ServiceRunning(up))) =>
            Some(if up { (AgentStates::Starting, true) } else { (AgentStates::Stopped, false) }),
        (AgentStates::Starting, AgentEvents::ServiceDetected(ServiceRunning(up))) =>
            Some(if up { (AgentStates::Starting, false) } else { (AgentStates::Stopped, false) }),
        (AgentStates::Starting, AgentEvents::StartupComplete(_)) =>
            Some(if timer_running { (AgentStates::Running, false) } else { (AgentStates::Stopped, false) }),
        (AgentStates::Running, AgentEvents::ServiceDetected(ServiceRunning(up))) =>
            Some(if up { (AgentStates::Running, false) } else { (AgentStates::Stopped, false) }),
        _ => None,
    }
}

/// The agent state machine with its timer.
#[derive(Debug, Clone, Copy, PartialEq, Eq, Structural)]
pub struct AgentStateMachine {
    pub state: AgentStates,
    pub context: AgentContext,
}

impl AgentStateMachine {
    /// Starts in `NotInstalled`.
    pub fn new(context: AgentContext) -> (r: Self)
        ensures
            r.state == AgentStates::NotInstalled,
            r.context == context,
    {
        AgentStateMachine { state: AgentStates::NotInstalled, context }
    }

    pub fn state(&self) -> (r: AgentStates)
        ensures
            r == self.state,
    {
        self.state
    }

    pub fn context(&self) -> (r: &AgentContext)
        ensures
            *r == self.context,
    {
        &self.context
    }

    /// Applies `event` at `now_ms`. A transition that starts the timer records `now_ms`.
    pub fn process_event(&mut self, event: AgentEvents, now_ms: u64) -> (r: Result<AgentStates, AgentError>)
        ensures
            match agent_step(old(self).state, event, old(self).context.transition_start_time is Some) {
                Some((next, starts_timer)) => {
                    &&& r == Ok::<AgentStates, AgentError>(next)
                    &&& final(self).state == next
                    &&& final(self).context.startup_timeout == old(self).context.startup_timeout
                    &&& final(self).context.transition_start_time == if starts_timer {
                        Some(now_ms)
                    } else {
                        old(self).context.transition_start_time
                    }
                },
                None => r == Err::<AgentStates, AgentError>(AgentError::InvalidEvent) && *final(self) == *old(self),
            },
    {
        let timer_running = self.context.transition_start_time.is_some();
        let step = match (self.state, event) {
            (AgentStates::NotInstalled, AgentEvents::ServiceDetected(ServiceRunning(up))) =>
                if up { Some((AgentStates::Starting, true)) } else { Some((AgentStates::NotInstalled, false)) },
            (AgentStates::Stopped, AgentEvents::ServiceDetected(ServiceRunning(up))) =>
                if up { Some((AgentStates::Starting, true)) } else { Some((AgentStates::Stopped, false)) },
            (AgentStates::Starting, AgentEvents::ServiceDetected(ServiceRunning(up))) =>
                if up { Some((AgentStates::Starting, false)) } else { Some((AgentStates::Stopped, false)) },
            (AgentStates::Starting, AgentEvents::StartupComplete(_)) =>
                if timer_running { Some((AgentStates::Running, false)) } else { Some((AgentStates::Stopped, false)) },
            (AgentStates::Running, AgentEvents::ServiceDetected(ServiceRunning(up))) =>
                if up { Some((AgentStates::Running, false)) } else { Some((AgentStates::Stopped, false)) },
            _ => None,
        };
        match step {
            Some((next, starts_timer)) => {
                if starts_timer {
                    self.context.transition_start_time = Some(now_ms);
                }
                self.state = next;
                Ok(next)
            },
            None => Err(AgentError::InvalidEvent),
        }
    }
}

impl AgentStates {
    pub open spec fn icon_color_spec(self) -> &'static str {
        match self {
            AgentStates::NotInstalled | AgentStates::Stopped => "red",
            AgentStates::Starting => "yellow",
            AgentStates::Running => "green",
        }
    }

    pub fn icon_color(&self) -> (r: &'static str)
        ensures
            r == self.icon_color_spec(),
    {
        match self {
            AgentStates::NotInstalled | AgentStates::Stopped => "red",
            AgentStates::Starting => "yellow",
            AgentStates::Running => "green",
        }
    }

    pub open spec fn description_spec(self) -> &'static str {
        match self {
            AgentStates::NotInstalled => "Agent not installed",
            AgentStates::Stopped => "Agent stopped",
            AgentStates::Starting => "Agent starting",
            AgentStates::Running => "Agent running",
        }
    }

    pub fn description(&self) -> (r: &'static str)
        ensures
            r == self.description_spec(),
    {
        match self {
            AgentStates::NotInstalled => "Agent not installed",
            AgentStates::Stopped => "Agent stopped",
            AgentStates::Starting => "Agent starting",
            AgentStates::Running => "Agent running",
        }
    }
}

} // verus!
