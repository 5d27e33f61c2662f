//! HID++ receivers and devices.

pub mod inventory;
pub mod transport;
