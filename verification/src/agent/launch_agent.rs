//! macOS `LaunchAgent` reconciliation for the background agent's autostart.
//!
//! With autostart on, the property list is kept in sync with the running agent
//! executable so the next login relaunches it. The always-on agent is kept
//! alive by the system: it must survive a crash. It is always headless.
//!
//! The property list of the GUI's own autostart is removed on every
//! reconciliation, so that the GUI no longer launches itself.

use crate::platform::Platform;
use crate::plist::change;
use crate::plist::law_the_file_is_touched_only_where_needed;
use crate::plist::location;
use crate::plist::path;
use crate::plist::plist;
use crate::plist::reconciles;
use crate::plist::render;
use crate::plist::Change;
use crate::plist::HomeNotSet;
use vstd::prelude::*;

verus! {

/// Stable launch-agent identifier for the background agent.
pub const LABEL: &'static str = "org.openlogi.agent";

/// The label of the GUI's own autostart, which the agent replaces.
pub const LEGACY_LABEL: &'static str = "org.openlogi.openlogi";

/// Reconcile the agent's autostart with `enabled`, where `exe` is the running
/// executable and `current` what the property list holds. `None` on a platform
/// without an autostart backend.
pub fn reconcile(platform: Platform, enabled: bool, exe: &str, current: Option<&str>) -> (r: Option<
    Change,
>)
    ensures
        platform != Platform::MacOs ==> r is None,
        platform == Platform::MacOs ==> (r matches Some(change) && reconciles(
            change,
            enabled,
            plist(LABEL@, exe@, true),
            crate::config::text(current),
        )),
{
    match platform {
        Platform::MacOs => {
            let desired: Option<String> = if enabled {
                Some(render_plist(exe))
            } else {
                None
            };
            Some(change(desired, current))
        },
        Platform::Linux | Platform::Other => None,
    }
}

/// Whether the property list of the GUI's own autostart is to be removed, given
/// whether it exists (which it cannot where its path is unknown).
pub fn remove_legacy(path_known: bool, exists: bool) -> (remove: bool)
    ensures
        remove == (path_known && exists),
{
    if !path_known {
        return false;
    }
    exists
}

/// Where the property list of a label lives.
pub fn plist_path(home: &Option<Vec<u8>>, label: &str) -> (r: Result<Vec<u8>, HomeNotSet>)
    ensures
        match r {
            Ok(p) => home is Some && p@ == location(home->0@, label@),
            Err(_) => home is None,
        },
{
    path(home, label)
}

/// The property list of the agent.
pub fn render_plist(exe: &str) -> (body: String)
    ensures
        body@ == plist(LABEL@, exe@, true),
{
    render(LABEL, exe, true)
}

/// Autostart concerns macOS alone. There the file ends up as the property list of
/// the agent's label and program, which the system keeps alive, where autostart
/// is on, and ends up absent where it is off.
pub proof fn law_autostart_is_made_so(
    platform: Platform,
    enabled: bool,
    exe: &str,
    current: Option<&str>,
    r: Option<Change>,
)
    requires
        call_ensures(reconcile, (platform, enabled, exe, current), r),
    ensures
        r is Some <==> platform is MacOs,
        r matches Some(change) ==> change.applied(crate::config::text(current)) == (if enabled {
            Some(plist("org.openlogi.agent"@, exe@, true))
        } else {
            None
        }),
        r matches Some(change) ==> (change.idle() <==> crate::config::text(current) == (if enabled {
            Some(plist("org.openlogi.agent"@, exe@, true))
        } else {
            None
        })),
{
    if let Some(change) = r {
        law_the_file_is_touched_only_where_needed(
            change,
            enabled,
            plist(LABEL@, exe@, true),
            crate::config::text(current),
        );
    }
}

/// The agent's property list bears its label in its text; the place of one goes
/// by the label that is given; and what the agent replaces is removed wherever it
/// exists.
pub proof fn law_the_agents_property_list_bears_its_label(
    home: Vec<u8>,
    label: &str,
    exe: &str,
    place: Result<Vec<u8>, HomeNotSet>,
    homeless: Result<Vec<u8>, HomeNotSet>,
    body: String,
    path_known: bool,
    exists: bool,
    remove: bool,
)
    requires
        call_ensures(plist_path, (&Some(home), label), place),
        call_ensures(plist_path, (&None, label), homeless),
        call_ensures(render_plist, (exe,), body),
        call_ensures(remove_legacy, (path_known, exists), remove),
    ensures
        homeless is Err,
        place matches Ok(p) && p@ == location(home@, label@),
        body@ == plist("org.openlogi.agent"@, exe@, true),
        remove <==> path_known && exists,
        LEGACY_LABEL@ == "org.openlogi.openlogi"@,
{
}

} // verus!
