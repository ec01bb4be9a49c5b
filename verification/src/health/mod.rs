//! What muninn reports about itself, and how its health endpoints behave.

pub mod metrics;
pub mod serve;
pub mod server;
pub mod state;

pub use crate::health::state::{Details, HealthState, ModuleCheck, State};
