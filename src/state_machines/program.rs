//! The program's combined state, driven by agent and model updates.

use vstd::prelude::*;
use crate::state_machines::agent::AgentStates;

verus! {

/// The agent moved to a new state.
#[derive(Debug, Clone, Copy, PartialEq, Eq, Structural)]
pub struct AgentUpdate(pub AgentStates);

/// A summary of the models after a probe.
#[derive(Debug, Clone, Copy, PartialEq, Eq, Structural)]
pub struct ModelUpdate {
    pub has_models: bool,
    pub has_loading: bool,
    pub has_activity: bool,
}

#[derive(Debug, Clone, Copy, PartialEq, Eq, Structural)]
pub enum ProgramStates {
    AgentNotLoaded,
    AgentStarting,
    ServiceLoadedNoModel,
    ModelLoading,
    ModelProcessingQueue,
    ModelReady,
}

#[derive(Debug, Clone, Copy, PartialEq, Eq, Structural)]
pub enum ProgramEvents {
    AgentStateChanged(AgentUpdate),
    ModelStateChanged(ModelUpdate),
}

/// Why an event was refused.
#[derive(Debug, Clone, Copy, PartialEq, Eq, Structural)]
pub enum ProgramError {
    /// The event has no transition from the current state.
    InvalidEvent,
    /// No guarded transition for the event passed.
    TransitionsFailed,
}

/// The program machine needs no data of its own.
#[derive(Debug, Clone, Copy, PartialEq, Eq, Structural)]
pub struct ProgramContext;

impl ProgramContext {
    pub fn new() -> (r: Self)
        ensures
            r == ProgramContext,
    {
        ProgramContext
    }
}

/// Whether `state` is one in which a model summary is taken in.
pub open spec fn serving(state: ProgramStates) -> bool {
    state != ProgramStates::AgentNotLoaded && state != ProgramStates::AgentStarting
}

/// The state a model summary leads to.
pub open spec fn models_state(u: ModelUpdate) -> ProgramStates {
    if !u.has_models {
        ProgramStates::ServiceLoadedNoModel
    } else if u.has_loading {
        ProgramStates::ModelLoading
    } else if u.has_activity {
        ProgramStates::ModelProcessingQueue
    } else {
        ProgramStates::ModelReady
    }
}

/// The result of an event: a stopped or missing agent unloads the program, a
/// starting one shows it starting, a running one loads the service (and is
/// refused once the service is loaded); a model summary is taken in only while
/// serving.
pub open spec fn program_step(state: ProgramStates, event: ProgramEvents) -> Result<ProgramStates, ProgramError> {
    match event {
        ProgramEvents::AgentStateChanged(AgentUpdate(agent)) => match agent {
            AgentStates::NotInstalled | AgentStates::Stopped => Ok(ProgramStates::AgentNotLoaded),
            AgentStates::Starting => Ok(ProgramStates::AgentStarting),
            AgentStates::Running => {
                if serving(state) {
                    Err(ProgramError::TransitionsFailed)
                } else {
                    Ok(ProgramStates::ServiceLoadedNoModel)
                }
            },
        },
        ProgramEvents::ModelStateChanged(u) => {
            if serving(state) { Ok(models_state(u)) } else { Err(ProgramError::InvalidEvent) }
        },
    }
}

#[derive(Debug, Clone, Copy, PartialEq, Eq, Structural)]
pub struct ProgramStateMachine {
    pub state: ProgramStates,
    pub context: ProgramContext,
}

impl ProgramStateMachine {
    /// Starts in `AgentNotLoaded`.
    pub fn new(context: ProgramContext) -> (r: Self)
        ensures
            r.state == ProgramStates::AgentNotLoaded,
    {
        ProgramStateMachine { state: ProgramStates::AgentNotLoaded, context }
    }

    pub fn state(&self) -> (r: ProgramStates)
        ensures
            r == self.state,
    {
        self.state
    }

    /// Applies `event`; on a refusal the state stays.
    pub fn process_event(&mut self, event: ProgramEvents) -> (r: Result<ProgramStates, ProgramError>)
        ensures
            r == program_step(old(self).state, event),
            final(self).state == match r {
                Ok(next) => next,
                Err(_) => old(self).state,
            },
            final(self).context == old(self).context,
    {
        let serving_now = self.state != ProgramStates::AgentNotLoaded && self.state != ProgramStates::AgentStarting;
        let r = match event {
            ProgramEvents::AgentStateChanged(AgentUpdate(agent)) => match agent {
                AgentStates::NotInstalled | AgentStates::Stopped => Ok(ProgramStates::AgentNotLoaded),
                AgentStates::Starting => Ok(ProgramStates::AgentStarting),
                AgentStates::Running => {
                    if serving_now {
                        Err(ProgramError::TransitionsFailed)
                    } else {
                        Ok(ProgramStates::ServiceLoadedNoModel)
                    }
                },
            },
            ProgramEvents::ModelStateChanged(u) => {
                if !serving_now {
                    Err(ProgramError::InvalidEvent)
                } else if !u.has_models {
                    Ok(ProgramStates::ServiceLoadedNoModel)
                } else if u.has_loading {
                    Ok(ProgramStates::ModelLoading)
                } else if u.has_activity {
                    Ok(ProgramStates::ModelProcessingQueue)
                } else {
                    Ok(ProgramStates::ModelReady)
                }
            },
        };
        if let Ok(next) = r {
            self.state = next;
        }
        r
    }
}

impl ProgramStates {
    pub open spec fn icon_color_spec(self) -> &'static str {
        match self {
            ProgramStates::ModelProcessingQueue => "blue",
            ProgramStates::ModelReady => "green",
            ProgramStates::ModelLoading => "yellow",
            ProgramStates::ServiceLoadedNoModel => "grey",
            ProgramStates::AgentStarting => "yellow",
            ProgramStates::AgentNotLoaded => "red",
        }
    }

    pub fn icon_color(&self) -> (r: &'static str)
        ensures
            r == self.icon_color_spec(),
    {
        match self {
            ProgramStates::ModelProcessingQueue => "blue",
            ProgramStates::ModelReady => "green",
            ProgramStates::ModelLoading => "yellow",
            ProgramStates::ServiceLoadedNoModel => "grey",
            ProgramStates::AgentStarting => "yellow",
            ProgramStates::AgentNotLoaded => "red",
        }
    }

    pub open spec fn status_message_spec(self) -> &'static str {
        match self {
            ProgramStates::ModelProcessingQueue => "Model actively processing queue",
            ProgramStates::ModelReady => "Model ready, queue empty",
            ProgramStates::ModelLoading => "Model loading",
            ProgramStates::ServiceLoadedNoModel => "Service loaded, no model loaded",
            ProgramStates::AgentStarting => "Agent starting",
            ProgramStates::AgentNotLoaded => "Agent not loaded",
        }
    }

    pub fn status_message(&self) -> (r: &'static str)
        ensures
            r == self.status_message_spec(),
    {
        match self {
            ProgramStates::ModelProcessingQueue => "Model actively processing queue",
            ProgramStates::ModelReady => "Model ready, queue empty",
            ProgramStates::ModelLoading => "Model loading",
            ProgramStates::ServiceLoadedNoModel => "Service loaded, no model loaded",
            ProgramStates::AgentStarting => "Agent starting",
            ProgramStates::AgentNotLoaded => "Agent not loaded",
        }
    }
}

} // verus!
