//! OpenLogi: the verified core of a Logitech mouse configurator.

pub mod agent;
pub mod binding;
pub mod config;
pub mod device;
pub mod guarded;
pub mod gui;
pub mod hid;
pub mod hook;
pub mod path;
pub mod paths;
pub mod platform;
pub mod plist;
pub mod search;
pub mod text;
