//! The state behind the desktop window.

pub mod bindings;
pub mod devices;
pub mod dpi;
