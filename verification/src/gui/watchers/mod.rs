//! Background watchers of the window.

pub mod inventory;
