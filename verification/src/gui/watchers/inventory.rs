//! Polling HID inventory watcher.
//!
//! Devices are enumerated once per period and the result is handed to the
//! window. Polling beats hot-plug registration on simplicity.

use crate::device::DeviceInventory;
use vstd::prelude::*;

verus! {

/// The snapshot one tick hands on: what was enumerated, or nothing where that
/// failed.
pub fn snapshot(enumerated: Option<Vec<DeviceInventory>>) -> (inventories: Vec<DeviceInventory>)
    ensures
        match enumerated {
            Some(list) => inventories == list,
            None => inventories@ == Seq::<DeviceInventory>::empty(),
        },
{
    match enumerated {
        Some(list) => list,
        None => Vec::new(),
    }
}

/// What the watcher does after handing a snapshot on.
#[derive(Clone, Copy, Debug, PartialEq, Eq, Structural)]
pub enum Next {
    /// Wait for the period and enumerate again.
    Sleep,
    /// The receiver is gone: end.
    Exit,
}

/// Decide what follows, by whether the snapshot was taken.
pub fn after_send(sent: bool) -> (next: Next)
    ensures
        next == (if sent {
            Next::Sleep
        } else {
            Next::Exit
        }),
{
    if sent {
        Next::Sleep
    } else {
        Next::Exit
    }
}

/// What was enumerated is handed on whole, a failure as an empty list; and the
/// watcher goes on exactly as long as its snapshots are taken.
pub proof fn law_snapshots_are_handed_on_whole(
    list: Vec<DeviceInventory>,
    inventories: Vec<DeviceInventory>,
    failed: Vec<DeviceInventory>,
    sent: bool,
    next: Next,
)
    requires
        call_ensures(snapshot, (Some(list),), inventories),
        call_ensures(snapshot, (None,), failed),
        call_ensures(after_send, (sent,), next),
    ensures
        inventories@ == list@,
        failed@.len() == 0,
        next is Sleep <==> sent,
        next is Exit <==> !sent,
{
}

} // verus!
