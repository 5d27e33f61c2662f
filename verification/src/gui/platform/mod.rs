//! Platform integration of the desktop window.

pub mod launch_agent;
pub mod permissions;
pub mod single_instance;
pub mod updater;
