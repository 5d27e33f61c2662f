//! macOS `LaunchAgent` reconciliation for launch-at-login.
//!
//! With launch-at-login on, the property list is kept in sync with the running
//! executable so the next login session relaunches the window. Off, it is
//! removed at the next startup. Other platforms have no autostart backend.

use crate::platform::Platform;
use crate::plist::change;
use crate::plist::law_the_file_is_touched_only_where_needed;
use crate::plist::location;
use crate::plist::path;
use crate::plist::plist;
use crate::plist::reconciles;
use crate::plist::render;
use crate::plist::Change;
use crate::plist::HomeNotSet;
use vstd::prelude::*;

verus! {

/// Stable launch-agent identifier; matches the application's bundle id.
pub const LABEL: &'static str = "org.openlogi.openlogi";

/// Reconcile the property list with `enabled`, where `exe` is the running
/// executable and `current` what the property list holds. `None` on a platform
/// without an autostart backend.
pub fn reconcile(platform: Platform, enabled: bool, exe: &str, current: Option<&str>) -> (r: Option<
    Change,
>)
    ensures
        platform != Platform::MacOs ==> r is None,
        platform == Platform::MacOs ==> (r matches Some(change) && reconciles(
            change,
            enabled,
            plist(LABEL@, exe@, false),
            crate::config::text(current),
        )),
{
    match platform {
        Platform::MacOs => {
            let desired: Option<String> = if enabled {
                Some(render_plist(exe))
            } else {
                None
            };
            Some(change(desired, current))
        },
        Platform::Linux | Platform::Other => None,
    }
}

/// Where the property list lives.
pub fn plist_path(home: &Option<Vec<u8>>) -> (r: Result<Vec<u8>, HomeNotSet>)
    ensures
        match r {
            Ok(p) => home is Some && p@ == location(home->0@, LABEL@),
            Err(_) => home is None,
        },
{
    path(home, LABEL)
}

/// The property list of the window. The system does not keep it alive: a window
/// the user closed stays closed.
pub fn render_plist(exe: &str) -> (body: String)
    ensures
        body@ == plist(LABEL@, exe@, false),
{
    render(LABEL, exe, false)
}

/// Autostart concerns macOS alone. There the file ends up as the property list of
/// the window's label and program, which the system does not keep alive, where
/// autostart is on, and ends up absent where it is off.
pub proof fn law_autostart_is_made_so(
    platform: Platform,
    enabled: bool,
    exe: &str,
    current: Option<&str>,
    r: Option<Change>,
)
    requires
        call_ensures(reconcile, (platform, enabled, exe, current), r),
    ensures
        r is Some <==> platform is MacOs,
        r matches Some(change) ==> change.applied(crate::config::text(current)) == (if enabled {
            Some(plist("org.openlogi.openlogi"@, exe@, false))
        } else {
            None
        }),
        r matches Some(change) ==> (change.idle() <==> crate::config::text(current) == (if enabled {
            Some(plist("org.openlogi.openlogi"@, exe@, false))
        } else {
            None
        })),
{
    if let Some(change) = r {
        law_the_file_is_touched_only_where_needed(
            change,
            enabled,
            plist(LABEL@, exe@, false),
            crate::config::text(current),
        );
    }
}

/// The window's property list bears its label, in its place and in its text.
pub proof fn law_the_windows_property_list_bears_its_label(
    home: Vec<u8>,
    exe: &str,
    place: Result<Vec<u8>, HomeNotSet>,
    homeless: Result<Vec<u8>, HomeNotSet>,
    body: String,
)
    requires
        call_ensures(plist_path, (&Some(home),), place),
        call_ensures(plist_path, (&None,), homeless),
        call_ensures(render_plist, (exe,), body),
    ensures
        homeless is Err,
        place matches Ok(p) && p@ == location(home@, "org.openlogi.openlogi"@),
        body@ == plist("org.openlogi.openlogi"@, exe@, false),
{
}

} // verus!
