//! macOS privacy-permission status.
//!
//! Two real permissions are needed on macOS: Accessibility (for the event tap)
//! and Input Monitoring (to open HID devices). The Bluetooth authorization is
//! surfaced for completeness. Accessibility is watched elsewhere; this module
//! covers the other two plus the System Settings deep links.

use crate::platform::Platform;
use vstd::prelude::*;

verus! {

/// Tri-state result of a permission query.
#[derive(Clone, Copy, Debug, PartialEq, Eq, Structural)]
pub enum PermissionStatus {
    /// The app may use the capability.
    Granted,
    /// The user denied it (or it's restricted).
    Denied,
    /// Not yet determined, or the platform can't report a definite state.
    Unknown,
}

/// A privacy permission with a System Settings pane.
#[derive(Clone, Copy, Debug, PartialEq, Eq, Structural)]
pub enum Permission {
    Accessibility,
    InputMonitoring,
    Bluetooth,
}

/// Current Input Monitoring status, out of the HID access type the system
/// reports: 0 is granted, 1 denied, anything else undetermined. Platforms other
/// than macOS cannot report one.
pub fn input_monitoring(platform: Platform, access_type: u32) -> (status: PermissionStatus)
    ensures
        status == (if platform != Platform::MacOs {
            PermissionStatus::Unknown
        } else if access_type == 0 {
            PermissionStatus::Granted
        } else if access_type == 1 {
            PermissionStatus::Denied
        } else {
            PermissionStatus::Unknown
        }),
{
    match platform {
        Platform::MacOs => match access_type {
            0 => PermissionStatus::Granted,
            1 => PermissionStatus::Denied,
            _ => PermissionStatus::Unknown,
        },
        Platform::Linux | Platform::Other => PermissionStatus::Unknown,
    }
}

/// Current Bluetooth authorization status, out of the authorization the system
/// reports: 3 is allowed, 1 restricted, 2 denied, anything else undetermined.
/// `None` where the system's Bluetooth class is missing.
pub fn bluetooth(platform: Platform, authorization: Option<isize>) -> (status: PermissionStatus)
    ensures
        status == (if platform != Platform::MacOs {
            PermissionStatus::Unknown
        } else if authorization == Some(3isize) {
            PermissionStatus::Granted
        } else if authorization == Some(1isize) || authorization == Some(2isize) {
            PermissionStatus::Denied
        } else {
            PermissionStatus::Unknown
        }),
{
    match platform {
        Platform::MacOs => match authorization {
            Some(a) => if a == 3 {
                PermissionStatus::Granted
            } else if a == 1 || a == 2 {
                PermissionStatus::Denied
            } else {
                PermissionStatus::Unknown
            },
            None => PermissionStatus::Unknown,
        },
        Platform::Linux | Platform::Other => PermissionStatus::Unknown,
    }
}

/// The anchor of a permission's pane.
pub open spec fn anchor(permission: Permission) -> Seq<char> {
    match permission {
        Permission::Accessibility => "Privacy_Accessibility"@,
        Permission::InputMonitoring => "Privacy_ListenEvent"@,
        Permission::Bluetooth => "Privacy_Bluetooth"@,
    }
}

/// The deep link that opens the System Settings privacy pane for `permission`;
/// there is none on other platforms.
///
/// Opening it does not fire the Accessibility prompt: that has to run in the
/// process that owns the event tap.
pub fn open_pane(platform: Platform, permission: Permission) -> (url: Option<String>)
    ensures
        match url {
            Some(u) => platform == Platform::MacOs && u@
                == "x-apple.systempreferences:com.apple.preference.security?"@ + anchor(permission),
            None => platform != Platform::MacOs,
        },
{
    match platform {
        Platform::MacOs => {
            let anchor: &str = match permission {
                Permission::Accessibility => "Privacy_Accessibility",
                Permission::InputMonitoring => "Privacy_ListenEvent",
                Permission::Bluetooth => "Privacy_Bluetooth",
            };
            let mut url: String = "x-apple.systempreferences:com.apple.preference.security?".to_owned();
            url.append(anchor);
            Some(url)
        },
        Platform::Linux | Platform::Other => None,
    }
}

/// Each permission has the pane of its own name.
pub proof fn law_each_permission_has_its_own_pane()
    ensures
        anchor(Permission::Accessibility) == "Privacy_Accessibility"@,
        anchor(Permission::InputMonitoring) == "Privacy_ListenEvent"@,
        anchor(Permission::Bluetooth) == "Privacy_Bluetooth"@,
{
}

/// On macOS and nowhere else a status is definite: granted and denied by the
/// numbers the system reports, and unknown for every other number.
pub proof fn law_statuses_go_by_number(
    platform: Platform,
    access_type: u32,
    input: PermissionStatus,
    authorization: Option<isize>,
    radio: PermissionStatus,
)
    requires
        call_ensures(input_monitoring, (platform, access_type), input),
        call_ensures(bluetooth, (platform, authorization), radio),
    ensures
        input is Granted <==> platform is MacOs && access_type == 0,
        input is Denied <==> platform is MacOs && access_type == 1,
        radio is Granted <==> platform is MacOs && (authorization matches Some(a) && a == 3),
        radio is Denied <==> platform is MacOs && (authorization matches Some(a) && (a == 1 || a
            == 2)),
{
}

/// Every permission's pane can be opened on macOS, under its own anchor, and none
/// elsewhere.
pub proof fn law_panes_are_opened_by_anchor(
    platform: Platform,
    permission: Permission,
    url: Option<String>,
)
    requires
        call_ensures(open_pane, (platform, permission), url),
    ensures
        url is Some <==> platform is MacOs,
        url matches Some(u) ==> u@ == "x-apple.systempreferences:com.apple.preference.security?"@
            + (match permission {
            Permission::Accessibility => "Privacy_Accessibility"@,
            Permission::InputMonitoring => "Privacy_ListenEvent"@,
            Permission::Bluetooth => "Privacy_Bluetooth"@,
        }),
{
}

} // verus!
