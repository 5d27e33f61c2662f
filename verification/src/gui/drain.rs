//! The loop that applies what the watchers report, for the lifetime of the
//! window.

use crate::hook::Hook;
use crate::platform::Platform;
use vstd::prelude::*;

verus! {

/// Whether the native Accessibility dialog is raised at launch: on the one
/// platform that has it, while access is missing.
pub fn prompt_at_launch(platform: Platform, trusted: bool) -> (raise: bool)
    ensures
        raise == (platform == Platform::MacOs && !trusted),
{
    !Hook::has_accessibility(platform, trusted) && Hook::prompt_accessibility(platform)
}

/// What the watchers report.
#[derive(Clone, Copy, Debug, PartialEq, Eq, Structural)]
pub enum Update {
    /// The devices were enumerated anew.
    Inventory,
    /// Another application came to the front.
    Foreground,
    /// Accessibility access was granted or revoked.
    Accessibility { granted: bool },
    /// Every watcher is gone.
    Closed,
}

/// What the window does about it.
#[derive(Clone, Copy, Debug, PartialEq, Eq, Structural)]
pub enum Step {
    /// Rebuild the device list.
    RefreshInventories,
    /// Overlay the bindings of the application.
    SetCurrentApp,
    /// Show or dismiss the permission gate, and install the hook if told to.
    SetAccessibility { granted: bool, install_hook: bool },
    /// End the loop.
    End,
}

/// The loop's own state: whether the OS hook is installed.
#[derive(Clone, Copy, Debug)]
pub struct Drain {
    hook_installed: bool,
}

impl Drain {
    /// Whether the OS hook is installed.
    pub closed spec fn hook_installed(&self) -> bool {
        self.hook_installed
    }

    /// No hook yet: it is installed the moment access is granted.
    pub fn new() -> (drain: Drain)
        ensures
            !drain.hook_installed(),
    {
        Drain { hook_installed: false }
    }

    /// What to do about an update. The hook is to be installed whenever access
    /// is granted and no hook runs.
    pub fn on(&self, update: Update) -> (step: Step)
        ensures
            step == match update {
                Update::Inventory => Step::RefreshInventories,
                Update::Foreground => Step::SetCurrentApp,
                Update::Accessibility { granted } => Step::SetAccessibility {
                    granted,
                    install_hook: granted && !self.hook_installed(),
                },
                Update::Closed => Step::End,
            },
    {
        match update {
            Update::Inventory => Step::RefreshInventories,
            Update::Foreground => Step::SetCurrentApp,
            Update::Accessibility { granted } => Step::SetAccessibility {
                granted,
                install_hook: granted && !self.hook_installed,
            },
            Update::Closed => Step::End,
        }
    }

    /// The hook was tried: where that failed, the next grant tries again.
    pub fn hook_tried(&mut self, installed: bool)
        ensures
            final(self).hook_installed() == (old(self).hook_installed() || installed),
    {
        self.hook_installed = self.hook_installed || installed;
    }
}

/// The hook is installed with the first grant and with each one after a failed
/// attempt, and never again once it is installed.
pub proof fn law_the_hook_is_installed_once(
    before: &mut Drain,
    fresh: Drain,
    granted: bool,
    installed: bool,
    first: Step,
    step: Step,
)
    requires
        call_ensures(Drain::new, (), fresh),
        call_ensures(Drain::on, (&fresh, Update::Accessibility { granted }), first),
        call_ensures(Drain::hook_tried, (before, installed), ()),
        call_ensures(Drain::on, (&*final(before), Update::Accessibility { granted }), step),
    ensures
        first == (Step::SetAccessibility { granted, install_hook: granted }),
        installed ==> step == (Step::SetAccessibility { granted, install_hook: false }),
        !installed && !old(before).hook_installed() ==> step == (Step::SetAccessibility {
            granted,
            install_hook: granted,
        }),
        old(before).hook_installed() ==> step == (Step::SetAccessibility {
            granted,
            install_hook: false,
        }),
{
}

/// Each report has its own answer, and the loop ends exactly where every watcher
/// is gone.
pub proof fn law_each_update_has_its_step(drain: Drain, update: Update, step: Step)
    requires
        call_ensures(Drain::on, (&drain, update), step),
    ensures
        update is Inventory <==> step is RefreshInventories,
        update is Foreground <==> step is SetCurrentApp,
        update is Closed <==> step is End,
        update is Accessibility <==> step is SetAccessibility,
{
}

/// The dialog is raised at launch on macOS alone, and only while access is
/// missing.
pub proof fn law_the_dialog_is_raised_while_access_is_missing(
    platform: Platform,
    trusted: bool,
    raise: bool,
)
    requires
        call_ensures(prompt_at_launch, (platform, trusted), raise),
    ensures
        raise <==> platform is MacOs && !trusted,
{
}

} // verus!
