//! Event-driven state machines for the agent, each model, the polling mode
//! and the whole program. Each machine's transitions are a total table: an
//! event either moves the machine or is refused with an error, and the state
//! stays as it was on a refusal.

pub mod agent;
pub mod model;
pub mod polling_mode;
pub mod program;
