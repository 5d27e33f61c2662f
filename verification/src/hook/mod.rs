//! OS-level mouse-event hook.
//!
//! | Platform | Implementation |
//! |----------|---------------|
//! | macOS    | `CGEventTap` |
//! | Linux    | `evdev` grab + `uinput` re-injection |
//! | other    | none: starting gives [`HookError::Unsupported`] |
//!
//! This crate decides what happens to each event; the threads, device nodes and
//! system calls belong to the program around it.

pub mod linux;
pub mod macos;

use crate::binding::ButtonId;
use crate::platform::Platform;
use vstd::prelude::*;

verus! {

/// A scroll distance in wheel ticks, kept as the device or the system
/// reported it.
#[derive(Clone, Copy, Debug, PartialEq, Eq, Structural)]
pub enum ScrollDelta {
    /// `units` parts of a tick that is made of `per_tick` such parts.
    Units { units: i32, per_tick: u16 },
    /// The bits of a double-precision number of ticks.
    Double { bits: u64 },
}

impl ScrollDelta {
    /// No movement on this axis.
    pub open spec fn none() -> ScrollDelta {
        ScrollDelta::Units { units: 0, per_tick: 1 }
    }
}

/// An event captured at the OS layer.
#[allow(inconsistent_fields)]
#[derive(Clone, Copy, Debug, PartialEq, Eq, Structural)]
pub enum MouseEvent {
    /// A mouse button was pressed or released.
    Button {
        /// Which button.
        id: ButtonId,
        /// `true` = button down; `false` = button up.
        pressed: bool,
    },
    /// A scroll-wheel tick (or continuous momentum scroll).
    Scroll {
        /// Positive = right, negative = left.
        delta_x: ScrollDelta,
        /// Positive = down, negative = up.
        delta_y: ScrollDelta,
    },
    /// Pointer movement, in device units. Emitted so a held gesture button can
    /// accumulate a swipe; the callback passes these through (the cursor keeps
    /// moving) and only reads them while a gesture button is down.
    Moved {
        /// Positive = right, negative = left.
        delta_x: i32,
        /// Positive = down, negative = up.
        delta_y: i32,
    },
    /// The OS interrupted event capture (on macOS, the tap was disabled by a
    /// timeout or by competing user input). Any in-progress gesture hold must be
    /// cancelled. Carries no data and is always passed through.
    CaptureInterrupted,
}

/// What the hook callback wants the OS to do with the captured event.
#[derive(Clone, Copy, Debug, PartialEq, Eq, Structural)]
pub enum EventDisposition {
    /// Let the event reach its original target unchanged.
    PassThrough,
    /// Drop the event; the target application never sees it.
    Suppress,
}

/// Errors that installing the hook can produce.
#[derive(Debug)]
pub enum HookError {
    /// This platform has no hook implementation.
    Unsupported,
    /// macOS Accessibility permission has not been granted to this process.
    AccessibilityDenied,
    /// The event tap or its run loop could not be set up; the string carries
    /// the context.
    MacOsTap(String),
    /// No mouse device was found under `/dev/input`. Either no pointing device
    /// is connected, or the process lacks read permission on the device nodes.
    NoDeviceFound,
    /// An input/output error occurred while setting up the hook; the string is
    /// the system's description of it.
    Linux(String),
}

impl HookError {
    /// The text shown to the user.
    pub open spec fn text(&self) -> Seq<char> {
        match self {
            HookError::Unsupported => "mouse event hook is not supported on this platform"@,
            HookError::AccessibilityDenied =>
                "macOS Accessibility permission is required to capture mouse events; grant it in System Settings → Privacy & Security → Accessibility"@,
            HookError::MacOsTap(context) => "CGEventTap setup failed: "@ + context@,
            HookError::NoDeviceFound =>
                "no mouse device found under /dev/input; ensure a pointing device is connected and the process has read permission (add user to the `input` group or add a udev rule)"@,
            HookError::Linux(error) => "Linux input error: "@ + error@,
        }
    }

    /// The text shown to the user.
    pub fn message(&self) -> (text: String)
        ensures
            text@ == self.text(),
    {
        match self {
            HookError::Unsupported => "mouse event hook is not supported on this platform".to_owned(),
            HookError::AccessibilityDenied =>
                "macOS Accessibility permission is required to capture mouse events; grant it in System Settings → Privacy & Security → Accessibility".to_owned(),
            HookError::MacOsTap(context) => "CGEventTap setup failed: ".to_owned().concat(context.as_str()),
            HookError::NoDeviceFound =>
                "no mouse device found under /dev/input; ensure a pointing device is connected and the process has read permission (add user to the `input` group or add a udev rule)".to_owned(),
            HookError::Linux(error) => "Linux input error: ".to_owned().concat(error.as_str()),
        }
    }
}

/// A running OS-level mouse hook around the platform's own handle `I`, which
/// holds the threads and devices. [`Hook::stop`] hands the handle out once, to
/// be torn down.
pub struct Hook<I> {
    inner: Option<I>,
}

impl<I> Hook<I> {
    /// The handle, while the hook runs.
    pub closed spec fn handle(&self) -> Option<I> {
        self.inner
    }

    /// Install the hook with the platform's `install`, which reports why it
    /// could not.
    ///
    /// On a platform without an implementation `install` is not called and the
    /// result is [`HookError::Unsupported`].
    pub fn start<F: FnOnce() -> Result<I, HookError>>(platform: Platform, install: F) -> (r: Result<
        Self,
        HookError,
    >)
        requires
            platform != Platform::Other ==> call_requires(install, ()),
        ensures
            platform == Platform::Other ==> (r matches Err(e) && e == HookError::Unsupported),
            platform != Platform::Other ==> match r {
                Ok(hook) => hook.handle() is Some && call_ensures(
                    install,
                    (),
                    Ok(hook.handle()->0),
                ),
                Err(e) => call_ensures(install, (), Err(e)),
            },
    {
        match platform {
            Platform::MacOs | Platform::Linux => match install() {
                Ok(inner) => Ok(Hook { inner: Some(inner) }),
                Err(e) => Err(e),
            },
            Platform::Other => Err(HookError::Unsupported),
        }
    }

    /// Stop the hook: hand out what has to be torn down, if the hook still
    /// runs.
    pub fn stop(&mut self) -> (inner: Option<I>)
        ensures
            inner == old(self).handle(),
            final(self).handle() is None,
    {
        self.inner.take()
    }

}

/// What can be asked of the hook before one exists.
impl Hook<()> {
    /// Whether the process has the permissions required to install the hook.
    ///
    /// On macOS that is the Accessibility trust the system reported; elsewhere
    /// it is always the case, since those platforms enforce permissions at a
    /// lower layer.
    pub fn has_accessibility(platform: Platform, trusted: bool) -> (r: bool)
        ensures
            r == (platform == Platform::MacOs ==> trusted),
    {
        match platform {
            Platform::MacOs => trusted,
            Platform::Linux | Platform::Other => true,
        }
    }

    /// Whether the Accessibility permission dialog is to be raised: it exists on
    /// macOS alone.
    pub fn prompt_accessibility(platform: Platform) -> (raise: bool)
        ensures
            raise == (platform == Platform::MacOs),
    {
        match platform {
            Platform::MacOs => true,
            Platform::Linux | Platform::Other => false,
        }
    }
}

/// The identifier of the frontmost application, out of what the platform's own
/// reader gave: the bundle identifier on macOS, the window class or `app_id` on
/// Linux, and nothing elsewhere.
pub fn frontmost_bundle_id(platform: Platform, reported: Option<String>) -> (id: Option<String>)
    ensures
        id == (if platform == Platform::Other {
            None
        } else {
            reported
        }),
{
    match platform {
        Platform::MacOs | Platform::Linux => reported,
        Platform::Other => None,
    }
}

/// Every error says what went wrong, and the two that carry a description end in
/// it.
pub proof fn law_errors_say_what_went_wrong(context: String)
    ensures
        HookError::Unsupported.text() == "mouse event hook is not supported on this platform"@,
        HookError::AccessibilityDenied.text()
            == "macOS Accessibility permission is required to capture mouse events; grant it in System Settings → Privacy & Security → Accessibility"@,
        HookError::NoDeviceFound.text()
            == "no mouse device found under /dev/input; ensure a pointing device is connected and the process has read permission (add user to the `input` group or add a udev rule)"@,
        HookError::MacOsTap(context).text() == "CGEventTap setup failed: "@ + context@,
        HookError::Linux(context).text() == "Linux input error: "@ + context@,
{
}

/// No movement is no part of a tick.
pub proof fn law_no_movement_is_zero_ticks()
    ensures
        ScrollDelta::none() matches ScrollDelta::Units { units, per_tick } && units == 0
            && per_tick == 1,
{
}

/// Access is a matter of macOS alone: there it is what the system says, and there
/// alone the dialog is raised.
pub proof fn law_access_is_a_matter_of_macos(
    platform: Platform,
    trusted: bool,
    has: bool,
    raise: bool,
)
    requires
        call_ensures(Hook::<()>::has_accessibility, (platform, trusted), has),
        call_ensures(Hook::<()>::prompt_accessibility, (platform,), raise),
    ensures
        platform is MacOs ==> has == trusted,
        !(platform is MacOs) ==> has,
        raise <==> platform is MacOs,
{
}

/// The frontmost application is what the platform reported, and nothing where
/// there is no hook.
pub proof fn law_the_report_is_passed_on(
    platform: Platform,
    reported: Option<String>,
    id: Option<String>,
)
    requires
        call_ensures(frontmost_bundle_id, (platform, reported), id),
    ensures
        platform is MacOs || platform is Linux ==> id == reported,
        platform is Other ==> id is None,
{
}

/// A hook is there exactly where the platform has one and installing it gave a
/// handle, which stopping hands out once; the text of an error says which it is.
pub proof fn law_a_hook_is_stopped_once<I, F: FnOnce() -> Result<I, HookError>>(
    platform: Platform,
    install: F,
    r: Result<Hook<I>, HookError>,
    hook: &mut Hook<I>,
    again: &mut Hook<I>,
    first: Option<I>,
    second: Option<I>,
    text: String,
)
    requires
        call_ensures(Hook::<I>::start::<F>, (platform, install), r),
        r matches Ok(h) ==> *old(hook) == h,
        call_ensures(Hook::<I>::stop, (hook,), first),
        *old(again) == *final(hook),
        call_ensures(Hook::<I>::stop, (again,), second),
        r matches Err(e) ==> call_ensures(HookError::message, (&e,), text),
    ensures
        platform is Other ==> r is Err && text@
            == "mouse event hook is not supported on this platform"@,
        !(platform is Other) ==> (r matches Err(e) ==> call_ensures(install, (), Err(e))),
        r is Ok ==> (first matches Some(i) && call_ensures(install, (), Ok(i))),
        second is None,
{
}

/// The text of an error is shown as it is worded.
pub proof fn law_messages_are_shown_as_worded(e: HookError, text: String)
    requires
        call_ensures(HookError::message, (&e,), text),
    ensures
        e is AccessibilityDenied ==> text@
            == "macOS Accessibility permission is required to capture mouse events; grant it in System Settings → Privacy & Security → Accessibility"@,
        e is NoDeviceFound ==> text@
            == "no mouse device found under /dev/input; ensure a pointing device is connected and the process has read permission (add user to the `input` group or add a udev rule)"@,
        e matches HookError::MacOsTap(c) ==> text@ == "CGEventTap setup failed: "@ + c@,
        e matches HookError::Linux(c) ==> text@ == "Linux input error: "@ + c@,
        e is Unsupported ==> text@ == "mouse event hook is not supported on this platform"@,
{
}

} // verus!
