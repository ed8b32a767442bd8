//! The polling mode as an event-driven machine: idle, active, starting.

use vstd::prelude::*;

verus! {

/// A state change was seen.
#[derive(Debug, Clone, Copy, PartialEq, Eq, Structural)]
pub struct StateChange;

/// Whether requests are in flight.
#[derive(Debug, Clone, Copy, PartialEq, Eq, Structural)]
pub struct QueueActivity(pub bool);

/// The minimum time in `Starting` may have passed.
#[derive(Debug, Clone, Copy, PartialEq, Eq, Structural)]
pub struct MinimumDurationElapsed;

#[derive(Debug, Clone, Copy, PartialEq, Eq, Structural)]
pub enum PollingModeStates {
    Idle,
    Active,
    Starting,
}

#[derive(Debug, Clone, Copy, PartialEq, Eq, Structural)]
pub enum PollingModeEvents {
    StateChangeDetected(StateChange),
    ActivityCheck(QueueActivity),
    MinimumDurationComplete(MinimumDurationElapsed),
}

/// Why an event was refused.
#[derive(Debug, Clone, Copy, PartialEq, Eq, Structural)]
pub enum PollingModeError {
    /// The event has no transition from the current state.
    InvalidEvent,
    /// No guarded transition for the event passed.
    TransitionsFailed,
}

/// Seconds between probes in each mode.
pub const UPDATE_INTERVAL_SECS: u64 = 3;
pub const ACTIVE_INTERVAL_SECS: u64 = 1;
pub const STARTING_INTERVAL_SECS: u64 = 2;

/// Least time spent in `Starting`, in milliseconds.
pub const MIN_STARTING_DURATION_MS: u64 = 5_000;

/// The timer of the `Starting` mode and the latest activity reading.
#[derive(Debug, Clone, Copy, PartialEq, Eq, Structural)]
pub struct PollingModeContext {
    pub transition_start_time: Option<u64>,
    pub minimum_duration: u64,
    pub current_activity: bool,
}

impl PollingModeContext {
    pub open spec fn duration_done(self, now_ms: u64) -> bool {
        match self.transition_start_time {
            Some(start) => now_ms >= start && now_ms - start >= self.minimum_duration,
            None => true,
        }
    }

    /// No timer, the default minimum duration, no activity.
    pub fn new() -> (r: Self)
        ensures
            r.transition_start_time is None,
            r.minimum_duration == MIN_STARTING_DURATION_MS,
            !r.current_activity,
    {
        PollingModeContext {
            transition_start_time: None,
            minimum_duration: MIN_STARTING_DURATION_MS,
            current_activity: false,
        }
    }

    pub fn update_activity(&mut self, has_activity: bool)
        ensures
            final(self).current_activity == has_activity,
            final(self).transition_start_time == old(self).transition_start_time,
            final(self).minimum_duration == old(self).minimum_duration,
    {
        self.current_activity = has_activity;
    }

    /// Whether the minimum duration has passed at `now_ms`; true when no timer runs.
    pub fn should_complete_minimum_duration(&self, now_ms: u64) -> (r: bool)
        ensures
            r == self.duration_done(now_ms),
    {
        match self.transition_start_time {
            Some(start) => now_ms >= start && now_ms - start >= self.minimum_duration,
            None => true,
        }
    }
}

/// The state an event leads to and whether the timer is (re)started; `None`
/// when no transition applies.
pub open spec fn polling_step(state: PollingModeStates, event: PollingModeEvents, done: bool, activity: bool)
    -> Option<(PollingModeStates, bool)> {
    match event {
        PollingModeEvents::StateChangeDetected(_) => Some((PollingModeStates::Starting, true)),
        PollingModeEvents::ActivityCheck(QueueActivity(a)) => {
            if state == PollingModeStates::Starting && !done {
                Some((PollingModeStates::Starting, false))
            } else if a {
                Some((PollingModeStates::Active, false))
            } else {
                Some((PollingModeStates::Idle, false))
            }
        },
        PollingModeEvents::MinimumDurationComplete(_) => {
            if state == PollingModeStates::Starting && done {
                Some((if activity { PollingModeStates::Active } else { PollingModeStates::Idle }, false))
            } else {
                None
            }
        },
    }
}

/// The polling-mode machine with its timer.
#[derive(Debug, Clone, Copy, PartialEq, Eq, Structural)]
pub struct PollingModeStateMachine {
    pub state: PollingModeStates,
    pub context: PollingModeContext,
}

impl PollingModeStateMachine {
    /// Starts in `Idle`.
    pub fn new(context: PollingModeContext) -> (r: Self)
        ensures
            r.state == PollingModeStates::Idle,
            r.context == context,
    {
        PollingModeStateMachine { state: PollingModeStates::Idle, context }
    }

    pub fn state(&self) -> (r: PollingModeStates)
        ensures
            r == self.state,
    {
        self.state
    }

    /// Applies `event` at `now_ms`. A duration event outside `Starting` is
    /// invalid; inside `Starting` before the minimum duration it fails.
    pub fn process_event(&mut self, event: PollingModeEvents, now_ms: u64)
        -> (r: Result<PollingModeStates, PollingModeError>)
        ensures
            match polling_step(old(self).state, event, old(self).context.duration_done(now_ms),
                old(self).context.current_activity) {
                Some((next, starts_timer)) => {
                    &&& r == Ok::<PollingModeStates, PollingModeError>(next)
                    &&& final(self).state == next
                    &&& final(self).context.minimum_duration == old(self).context.minimum_duration
                    &&& final(self).context.current_activity == old(self).context.current_activity
                    &&& final(self).context.transition_start_time == if starts_timer {
                        Some(now_ms)
                    } else {
                        old(self).context.transition_start_time
                    }
                },
                None => {
                    &&& *final(self) == *old(self)
                    &&& r == Err::<PollingModeStates, PollingModeError>(
                        if old(self).state == PollingModeStates::Starting {
                            PollingModeError::TransitionsFailed
                        } else {
                            PollingModeError::InvalidEvent
                        })
                },
            },
    {
        let done = self.context.should_complete_minimum_duration(now_ms);
        match event {
            PollingModeEvents::StateChangeDetected(_) => {
                self.context.transition_start_time = Some(now_ms);
                self.state = PollingModeStates::Starting;
                Ok(PollingModeStates::Starting)
            },
            PollingModeEvents::ActivityCheck(QueueActivity(a)) => {
                let next = if self.state == PollingModeStates::Starting && !done {
                    PollingModeStates::Starting
                } else if a {
                    PollingModeStates::Active
                } else {
                    PollingModeStates::Idle
                };
                self.state = next;
                Ok(next)
            },
            PollingModeEvents::MinimumDurationComplete(_) => {
                if self.state != PollingModeStates::Starting {
                    Err(PollingModeError::InvalidEvent)
                } else if !done {
                    Err(PollingModeError::TransitionsFailed)
                } else {
                    let next = if self.context.current_activity {
                        PollingModeStates::Active
                    } else {
                        PollingModeStates::Idle
                    };
                    self.state = next;
                    Ok(next)
                }
            },
        }
    }
}

impl PollingModeStates {
    pub open spec fn interval_secs_spec(self) -> u64 {
        match self {
            PollingModeStates::Idle => UPDATE_INTERVAL_SECS,
            PollingModeStates::Active => ACTIVE_INTERVAL_SECS,
            PollingModeStates::Starting => STARTING_INTERVAL_SECS,
        }
    }

    pub fn interval_secs(&self) -> (r: u64)
        ensures
            r == self.interval_secs_spec(),
    {
        match self {
            PollingModeStates::Idle => UPDATE_INTERVAL_SECS,
            PollingModeStates::Active => ACTIVE_INTERVAL_SECS,
            PollingModeStates::Starting => STARTING_INTERVAL_SECS,
        }
    }

    pub open spec fn description_spec(self) -> &'static str {
        match self {
            PollingModeStates::Idle => "idle polling",
            PollingModeStates::Active => "active polling",
            PollingModeStates::Starting => "transition polling",
        }
    }

    pub fn description(&self) -> (r: &'static str)
        ensures
            r == self.description_spec(),
    {
        match self {
            PollingModeStates::Idle => "idle polling",
            PollingModeStates::Active => "active polling",
            PollingModeStates::Starting => "transition polling",
        }
    }
}

} // verus!
