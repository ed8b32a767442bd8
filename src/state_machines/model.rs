//! One model's readiness: unknown, loading, running.

use vstd::prelude::*;

verus! {

/// Whether the model reports that it is loading.
#[derive(Debug, Clone, Copy, PartialEq, Eq, Structural)]
pub struct ModelLoading(pub bool);

/// Whether the model reports that it is serving.
#[derive(Debug, Clone, Copy, PartialEq, Eq, Structural)]
pub struct ModelActive(pub bool);

#[derive(Debug, Clone, Copy, PartialEq, Eq, Structural)]
pub enum ModelStates {
    Unknown,
    Loading,
    Running,
}

#[derive(Debug, Clone, Copy, PartialEq, Eq, Structural)]
pub enum ModelEvents {
    LoadingUpdate(ModelLoading),
    ActiveUpdate(ModelActive),
}

/// The model machine needs no data of its own.
#[derive(Debug, Clone, Copy, PartialEq, Eq, Structural)]
pub struct ModelContext;

impl Default for ModelContext {
    fn default() -> (r: Self)
        ensures
            r == ModelContext,
    {
        Self::new()
    }
}

impl ModelContext {
    pub fn new() -> (r: Self)
        ensures
            r == ModelContext,
    {
        ModelContext
    }
}

/// The state an event leads to; every event is accepted in every state.
pub open spec fn model_step(state: ModelStates, event: ModelEvents) -> ModelStates {
    match event {
        ModelEvents::LoadingUpdate(ModelLoading(loading)) => {
            if loading {
                ModelStates::Loading
            } else if state == ModelStates::Running {
                ModelStates::Running
            } else {
                ModelStates::Unknown
            }
        },
        ModelEvents::ActiveUpdate(ModelActive(active)) => {
            if active { ModelStates::Running } else { ModelStates::Unknown }
        },
    }
}

#[derive(Debug, Clone, Copy, PartialEq, Eq, Structural)]
pub struct ModelStateMachine {
    pub state: ModelStates,
    pub context: ModelContext,
}

impl ModelStateMachine {
    /// Starts in `Unknown`.
    pub fn new(context: ModelContext) -> (r: Self)
        ensures
            r.state == ModelStates::Unknown,
    {
        ModelStateMachine { state: ModelStates::Unknown, context }
    }

    pub fn state(&self) -> (r: ModelStates)
        ensures
            r == self.state,
    {
        self.state
    }

    /// Applies `event` and returns the new state.
    pub fn process_event(&mut self, event: ModelEvents) -> (r: ModelStates)
        ensures
            r == model_step(old(self).state, event),
            final(self).state == r,
            final(self).context == old(self).context,
    {
        let next = match event {
            ModelEvents::LoadingUpdate(ModelLoading(loading)) => {
                if loading {
                    ModelStates::Loading
                } else if self.state == ModelStates::Running {
                    ModelStates::Running
                } else {
                    ModelStates::Unknown
                }
            },
            ModelEvents::ActiveUpdate(ModelActive(active)) => {
                if active { ModelStates::Running } else { ModelStates::Unknown }
            },
        };
        self.state = next;
        next
    }
}

impl ModelStates {
    pub fn is_loading(&self) -> (r: bool)
        ensures
            r == (*self == ModelStates::Loading),
    {
        *self == ModelStates::Loading
    }

    pub fn is_running(&self) -> (r: bool)
        ensures
            r == (*self == ModelStates::Running),
    {
        *self == ModelStates::Running
    }

    pub fn is_unknown(&self) -> (r: bool)
        ensures
            r == (*self == ModelStates::Unknown),
    {
        *self == ModelStates::Unknown
    }
}

} // verus!
