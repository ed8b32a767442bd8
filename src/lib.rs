//! Monitoring core for a local model-serving service: bounded metric
//! histories with exact statistics, trend and anomaly signals, the derivation
//! of operating states from health signals, and the adaptive polling schedule.

pub mod queue;
pub mod models;
pub mod text;
pub mod trend;
pub mod state_model;
pub mod types;
pub mod state_machines;
pub mod constants;
pub mod charts;
pub mod commands;
pub mod menu;
pub mod metrics;
