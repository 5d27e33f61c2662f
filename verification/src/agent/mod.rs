//! The background agent.

pub mod launch_agent;
pub mod orchestrator;
pub mod self_restart;
