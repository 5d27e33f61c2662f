//! The desktop window.

pub mod app_assets;
pub mod asset;
pub mod drain;
pub mod hook_runtime;
pub mod platform;
pub mod state;
pub mod watchers;
