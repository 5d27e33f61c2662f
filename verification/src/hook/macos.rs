//! macOS `CGEventTap` implementation of the OS-level mouse hook.

use crate::binding::ButtonId;
use crate::hook::EventDisposition;
use crate::hook::HookError;
use crate::hook::MouseEvent;
use crate::hook::ScrollDelta;
use vstd::prelude::*;

verus! {

/// The kinds of system event the hook tells apart.
#[derive(Clone, Copy, Debug, PartialEq, Eq, Structural)]
pub enum EventType {
    LeftMouseDown,
    LeftMouseUp,
    RightMouseDown,
    RightMouseUp,
    OtherMouseDown,
    OtherMouseUp,
    ScrollWheel,
    MouseMoved,
    LeftMouseDragged,
    RightMouseDragged,
    OtherMouseDragged,
    TapDisabledByTimeout,
    TapDisabledByUserInput,
    /// Any other kind.
    Other,
}

/// The fields of a system event the hook reads.
#[derive(Clone, Copy, Debug, PartialEq, Eq, Structural)]
pub struct TapEvent {
    pub event_type: EventType,
    /// What the poster of the event stamped on it.
    pub source_user_data: i64,
    /// Which button, on the "other" button events.
    pub button_number: i64,
    /// Pointer movement.
    pub delta_x: i64,
    pub delta_y: i64,
    /// The bits of the double-precision scroll on axis 1, the vertical one.
    pub scroll_axis_1: u64,
    /// The bits of the double-precision scroll on axis 2, the horizontal one.
    pub scroll_axis_2: u64,
}

/// The button a system button number stands for: 0 = left, 1 = right,
/// 2 = middle, 3 = back, 4 = forward; others are not tracked.
pub open spec fn button_of(n: i64) -> Option<ButtonId> {
    if n == 0 {
        Some(ButtonId::LeftClick)
    } else if n == 1 {
        Some(ButtonId::RightClick)
    } else if n == 2 {
        Some(ButtonId::MiddleClick)
    } else if n == 3 {
        Some(ButtonId::Back)
    } else if n == 4 {
        Some(ButtonId::Forward)
    } else {
        None
    }
}

impl EventType {
    /// Whether a button goes down or up.
    pub open spec fn is_button(self) -> bool {
        ||| self is LeftMouseDown
        ||| self is LeftMouseUp
        ||| self is RightMouseDown
        ||| self is RightMouseUp
        ||| self is OtherMouseDown
        ||| self is OtherMouseUp
    }

    /// Whether the pointer moves; while a button is held the system reports
    /// drags instead of moves.
    pub open spec fn is_motion(self) -> bool {
        ||| self is MouseMoved
        ||| self is LeftMouseDragged
        ||| self is RightMouseDragged
        ||| self is OtherMouseDragged
    }

    /// Whether the system disabled the tap.
    pub open spec fn is_interruption(self) -> bool {
        self is TapDisabledByTimeout || self is TapDisabledByUserInput
    }
}

impl TapEvent {
    /// The button of a button event, where it is tracked.
    pub open spec fn button(self) -> Option<ButtonId> {
        match self.event_type {
            EventType::LeftMouseDown | EventType::LeftMouseUp => Some(ButtonId::LeftClick),
            EventType::RightMouseDown | EventType::RightMouseUp => Some(ButtonId::RightClick),
            _ => button_of(self.button_number),
        }
    }

    /// Whether a button event reports a press.
    pub open spec fn pressed(self) -> bool {
        ||| self.event_type is LeftMouseDown
        ||| self.event_type is RightMouseDown
        ||| self.event_type is OtherMouseDown
    }
}

/// The mouse event a system event stands for; `synthetic` is the mark on the
/// button events that the application itself posts.
pub open spec fn translated(event: TapEvent, synthetic: i64) -> Option<MouseEvent> {
    if event.event_type.is_button() {
        match event.button() {
            Some(id) if event.source_user_data != synthetic => Some(
                MouseEvent::Button { id, pressed: event.pressed() },
            ),
            _ => None,
        }
    } else if event.event_type is ScrollWheel {
        Some(
            MouseEvent::Scroll {
                delta_x: ScrollDelta::Double { bits: event.scroll_axis_2 },
                delta_y: ScrollDelta::Double { bits: event.scroll_axis_1 },
            },
        )
    } else if event.event_type.is_motion() {
        Some(
            MouseEvent::Moved { delta_x: event.delta_x as i32, delta_y: event.delta_y as i32 },
        )
    } else if event.event_type.is_interruption() {
        Some(MouseEvent::CaptureInterrupted)
    } else {
        None
    }
}

/// Translate a raw OS button number to a [`ButtonId`].
pub fn button_number_to_id(n: i64) -> (id: Option<ButtonId>)
    ensures
        id == button_of(n),
{
    match n {
        0 => Some(ButtonId::LeftClick),
        1 => Some(ButtonId::RightClick),
        2 => Some(ButtonId::MiddleClick),
        3 => Some(ButtonId::Back),
        4 => Some(ButtonId::Forward),
        _ => None,
    }
}

/// Convert a system event to the [`MouseEvent`] vocabulary. `None` for event
/// types that are not translated and for unknown buttons.
pub fn translate(event: &TapEvent, synthetic: i64) -> (translation: Option<MouseEvent>)
    ensures
        translation == translated(*event, synthetic),
{
    // Skip events the application itself posted, so a remapped click does not
    // re-enter the hook as real input and, for a gesture button, get misread as
    // a fresh hold. Only button events are ever posted.
    let is_button: bool = match event.event_type {
        EventType::LeftMouseDown
        | EventType::LeftMouseUp
        | EventType::RightMouseDown
        | EventType::RightMouseUp
        | EventType::OtherMouseDown
        | EventType::OtherMouseUp => true,
        _ => false,
    };
    if is_button && event.source_user_data == synthetic {
        return None;
    }
    match event.event_type {
        EventType::LeftMouseDown => Some(
            MouseEvent::Button { id: ButtonId::LeftClick, pressed: true },
        ),
        EventType::LeftMouseUp => Some(
            MouseEvent::Button { id: ButtonId::LeftClick, pressed: false },
        ),
        EventType::RightMouseDown => Some(
            MouseEvent::Button { id: ButtonId::RightClick, pressed: true },
        ),
        EventType::RightMouseUp => Some(
            MouseEvent::Button { id: ButtonId::RightClick, pressed: false },
        ),
        EventType::OtherMouseDown => match button_number_to_id(event.button_number) {
            Some(id) => Some(MouseEvent::Button { id, pressed: true }),
            None => None,
        },
        EventType::OtherMouseUp => match button_number_to_id(event.button_number) {
            Some(id) => Some(MouseEvent::Button { id, pressed: false }),
            None => None,
        },
        // axis 1 = vertical scroll; axis 2 = horizontal scroll.
        EventType::ScrollWheel => Some(
            MouseEvent::Scroll {
                delta_x: ScrollDelta::Double { bits: event.scroll_axis_2 },
                delta_y: ScrollDelta::Double { bits: event.scroll_axis_1 },
            },
        ),
        // Pointer movement feeds gesture-button swipe detection. Per-event
        // deltas are small integers, far within 32 bits.
        EventType::MouseMoved
        | EventType::LeftMouseDragged
        | EventType::RightMouseDragged
        | EventType::OtherMouseDragged => Some(
            MouseEvent::Moved {
                delta_x: #[verifier::truncate] (event.delta_x as i32),
                delta_y: #[verifier::truncate] (event.delta_y as i32),
            },
        ),
        // Surface the interruption so that any in-progress hold is cancelled: a
        // button-up dropped during the gap must not later fire a phantom swipe.
        EventType::TapDisabledByTimeout | EventType::TapDisabledByUserInput => Some(
            MouseEvent::CaptureInterrupted,
        ),
        EventType::Other => None,
    }
}

/// What the tap does with an event.
#[derive(Clone, Copy, Debug, PartialEq, Eq, Structural)]
pub enum CallbackResult {
    Keep,
    Drop,
}

/// Handle an event of the tap: ask `cb` about what it translates to, and about
/// nothing else, and keep every event that translates to nothing.
pub fn tap_callback<F: Fn(MouseEvent) -> EventDisposition>(
    event: &TapEvent,
    synthetic: i64,
    cb: &F,
) -> (result: CallbackResult)
    requires
        translated(*event, synthetic) matches Some(m) ==> call_requires(*cb, (m,)),
    ensures
        match translated(*event, synthetic) {
            Some(m) => match result {
                CallbackResult::Keep => call_ensures(*cb, (m,), EventDisposition::PassThrough),
                CallbackResult::Drop => call_ensures(*cb, (m,), EventDisposition::Suppress),
            },
            None => result == CallbackResult::Keep,
        },
{
    let mouse_event: MouseEvent = match translate(event, synthetic) {
        Some(m) => m,
        None => return CallbackResult::Keep,
    };
    match cb(mouse_event) {
        EventDisposition::PassThrough => CallbackResult::Keep,
        EventDisposition::Suppress => CallbackResult::Drop,
    }
}

/// The event types the tap listens to. A held button makes the system emit
/// drags rather than moves, so all four kinds of motion are needed.
pub open spec fn tapped_types() -> Seq<EventType> {
    seq![
        EventType::LeftMouseDown,
        EventType::LeftMouseUp,
        EventType::RightMouseDown,
        EventType::RightMouseUp,
        EventType::OtherMouseDown,
        EventType::OtherMouseUp,
        EventType::ScrollWheel,
        EventType::MouseMoved,
        EventType::LeftMouseDragged,
        EventType::RightMouseDragged,
        EventType::OtherMouseDragged,
    ]
}

/// The event types the tap listens to.
pub fn event_types() -> (types: Vec<EventType>)
    ensures
        types@ == tapped_types(),
{
    vec![
        EventType::LeftMouseDown,
        EventType::LeftMouseUp,
        EventType::RightMouseDown,
        EventType::RightMouseUp,
        EventType::OtherMouseDown,
        EventType::OtherMouseUp,
        EventType::ScrollWheel,
        EventType::MouseMoved,
        EventType::LeftMouseDragged,
        EventType::RightMouseDragged,
        EventType::OtherMouseDragged,
    ]
}

/// What the hook thread reported to the thread that started it.
#[derive(Debug)]
pub enum ThreadReport {
    /// The thread could not be spawned; the string is the system's reason.
    NotSpawned(String),
    /// The thread ended before its run loop was live.
    Exited,
    /// The run loop is live.
    Live,
}

/// Whether the hook thread may be spawned: that takes Accessibility access.
pub fn may_start(accessible: bool) -> (r: Result<(), HookError>)
    ensures
        match r {
            Ok(()) => accessible,
            Err(e) => !accessible && e == HookError::AccessibilityDenied,
        },
{
    if !accessible {
        return Err(HookError::AccessibilityDenied);
    }
    Ok(())
}

/// The outcome of starting the hook, by what became of its thread.
pub fn started(report: ThreadReport) -> (r: Result<(), HookError>)
    ensures
        match report {
            ThreadReport::Live => r is Ok,
            ThreadReport::NotSpawned(reason) => r == Err::<(), _>(HookError::MacOsTap(reason)),
            ThreadReport::Exited => r matches Err(HookError::MacOsTap(context)) && context@
                == "background thread exited before the run loop started; CGEventTapCreate likely returned null"@,
        },
{
    match report {
        ThreadReport::Live => Ok(()),
        ThreadReport::NotSpawned(reason) => Err(HookError::MacOsTap(reason)),
        ThreadReport::Exited => Err(
            HookError::MacOsTap(
                "background thread exited before the run loop started; CGEventTapCreate likely returned null".to_owned(),
            ),
        ),
    }
}

/// Why a slice of the run loop ended.
#[derive(Clone, Copy, Debug, PartialEq, Eq, Structural)]
pub enum SliceEnd {
    Finished,
    Stopped,
    TimedOut,
    HandledSource,
}

/// What the hook thread does after a slice of its run loop.
#[derive(Clone, Copy, Debug, PartialEq, Eq, Structural)]
pub enum AfterSlice {
    /// Re-enable the tap, which recovers it from a disable by the system, and
    /// run another slice.
    Reenable,
    /// Disable the tap and end.
    TearDown,
}

/// Decide what follows a slice of the run loop, given whether the process still
/// has Accessibility access.
///
/// An active tap that outlives its permission wedges the entire system input
/// stream, so a revoked permission tears the tap down on its own thread.
pub fn after_slice(end: SliceEnd, accessible: bool) -> (next: AfterSlice)
    ensures
        next == AfterSlice::Reenable <==> accessible && (end == SliceEnd::TimedOut || end
            == SliceEnd::HandledSource),
{
    match end {
        SliceEnd::Stopped | SliceEnd::Finished => AfterSlice::TearDown,
        SliceEnd::TimedOut | SliceEnd::HandledSource => if !accessible {
            AfterSlice::TearDown
        } else {
            AfterSlice::Reenable
        },
    }
}

/// Events the application posted itself never reach the callback, so that a
/// remapped click is not taken for real input.
pub proof fn law_own_clicks_are_never_translated(event: TapEvent, synthetic: i64)
    requires
        event.event_type.is_button(),
        event.source_user_data == synthetic,
    ensures
        translated(event, synthetic) is None,
{
}

/// The mark concerns button events alone: no other event depends on it.
pub proof fn law_the_mark_concerns_buttons_alone(event: TapEvent, a: i64, b: i64)
    requires
        !event.event_type.is_button(),
    ensures
        translated(event, a) == translated(event, b),
{
}

/// The buttons of a system event that another program posted, by the type of
/// the event: the left and the right one have types of their own, and the others
/// go by number. A release is told from a press by the type alone.
pub proof fn law_clicks_are_reported_by_type_and_number(event: TapEvent, synthetic: i64)
    requires
        event.source_user_data != synthetic,
    ensures
        ({
            let seen = translated(event, synthetic);
            let down = event.event_type is OtherMouseDown;
            let other = down || event.event_type is OtherMouseUp;
            &&& event.event_type is LeftMouseDown ==> seen == Some(
                MouseEvent::Button { id: ButtonId::LeftClick, pressed: true },
            )
            &&& event.event_type is LeftMouseUp ==> seen == Some(
                MouseEvent::Button { id: ButtonId::LeftClick, pressed: false },
            )
            &&& event.event_type is RightMouseDown ==> seen == Some(
                MouseEvent::Button { id: ButtonId::RightClick, pressed: true },
            )
            &&& event.event_type is RightMouseUp ==> seen == Some(
                MouseEvent::Button { id: ButtonId::RightClick, pressed: false },
            )
            &&& other && event.button_number == 0 ==> seen == Some(
                MouseEvent::Button { id: ButtonId::LeftClick, pressed: down },
            )
            &&& other && event.button_number == 1 ==> seen == Some(
                MouseEvent::Button { id: ButtonId::RightClick, pressed: down },
            )
            &&& other && event.button_number == 2 ==> seen == Some(
                MouseEvent::Button { id: ButtonId::MiddleClick, pressed: down },
            )
            &&& other && event.button_number == 3 ==> seen == Some(
                MouseEvent::Button { id: ButtonId::Back, pressed: down },
            )
            &&& other && event.button_number == 4 ==> seen == Some(
                MouseEvent::Button { id: ButtonId::Forward, pressed: down },
            )
            &&& other && !(0 <= event.button_number <= 4) ==> seen is None
            &&& other ==> button_of(event.button_number) == (match seen {
                Some(MouseEvent::Button { id, .. }) => Some(id),
                _ => None,
            })
        }),
{
}

/// The clicks the application posted itself are never reported, whichever
/// button they are of.
pub proof fn law_own_clicks_of_every_type_are_skipped(event: TapEvent)
    requires
        event.event_type is LeftMouseDown || event.event_type is LeftMouseUp
            || event.event_type is RightMouseDown || event.event_type is RightMouseUp
            || event.event_type is OtherMouseDown || event.event_type is OtherMouseUp,
    ensures
        translated(event, event.source_user_data) is None,
{
}

/// Scrolling, movement and interruptions are always reported, whoever posted
/// them: axis 1 scrolls vertically and axis 2 horizontally, a drag moves like a
/// move does, and either way of disabling the tap is an interruption. No other
/// type is reported.
pub proof fn law_scrolls_moves_and_interruptions_are_always_reported(
    event: TapEvent,
    synthetic: i64,
)
    ensures
        ({
            let seen = translated(event, synthetic);
            &&& event.event_type is ScrollWheel ==> seen == Some(
                MouseEvent::Scroll {
                    delta_x: ScrollDelta::Double { bits: event.scroll_axis_2 },
                    delta_y: ScrollDelta::Double { bits: event.scroll_axis_1 },
                },
            )
            &&& event.event_type is MouseMoved || event.event_type is LeftMouseDragged
                || event.event_type is RightMouseDragged || event.event_type is OtherMouseDragged
                ==> seen == Some(
                MouseEvent::Moved { delta_x: event.delta_x as i32, delta_y: event.delta_y as i32 },
            )
            &&& event.event_type is TapDisabledByTimeout
                || event.event_type is TapDisabledByUserInput ==> seen == Some(
                MouseEvent::CaptureInterrupted,
            )
            &&& event.event_type is Other ==> seen is None
        }),
{
}

/// The tap listens to every type of event that can be reported, each once. The
/// system sends the two notices of a disabled tap unasked.
pub proof fn law_the_tap_listens_to_all_that_is_reported(event_type: EventType)
    ensures
        tapped_types().contains(event_type) <==> !(event_type is TapDisabledByTimeout
            || event_type is TapDisabledByUserInput || event_type is Other),
        tapped_types().no_duplicates(),
{
    let types = tapped_types();
    assert(types[0] is LeftMouseDown && types[1] is LeftMouseUp && types[2] is RightMouseDown
        && types[3] is RightMouseUp && types[4] is OtherMouseDown && types[5] is OtherMouseUp
        && types[6] is ScrollWheel && types[7] is MouseMoved && types[8] is LeftMouseDragged
        && types[9] is RightMouseDragged && types[10] is OtherMouseDragged);
}

/// What translating a system event gives, by its type.
pub proof fn law_translating_goes_by_the_type(
    event: TapEvent,
    synthetic: i64,
    seen: Option<MouseEvent>,
)
    requires
        call_ensures(translate, (&event, synthetic), seen),
    ensures
        event.event_type is MouseMoved || event.event_type is LeftMouseDragged || event.event_type
            is RightMouseDragged || event.event_type is OtherMouseDragged ==> seen == Some(
            MouseEvent::Moved { delta_x: event.delta_x as i32, delta_y: event.delta_y as i32 },
        ),
        event.event_type is ScrollWheel ==> (seen matches Some(
            MouseEvent::Scroll { delta_x, delta_y },
        ) && delta_x == (ScrollDelta::Double { bits: event.scroll_axis_2 }) && delta_y == (
        ScrollDelta::Double { bits: event.scroll_axis_1 })),
        event.event_type is TapDisabledByTimeout || event.event_type is TapDisabledByUserInput
            ==> seen == Some(MouseEvent::CaptureInterrupted),
        event.event_type is LeftMouseDown ==> seen == (if event.source_user_data == synthetic {
            None
        } else {
            Some(MouseEvent::Button { id: ButtonId::LeftClick, pressed: true })
        }),
        event.event_type is RightMouseUp ==> seen == (if event.source_user_data == synthetic {
            None
        } else {
            Some(MouseEvent::Button { id: ButtonId::RightClick, pressed: false })
        }),
        event.event_type is OtherMouseDown || event.event_type is OtherMouseUp ==> (seen is Some
            <==> event.source_user_data != synthetic && 0 <= event.button_number <= 4),
        event.event_type is Other ==> seen is None,
{
}

/// The button of a system button number.
pub proof fn law_numbers_stand_for_buttons(n: i64, id: Option<ButtonId>)
    requires
        call_ensures(button_number_to_id, (n,), id),
    ensures
        id is Some <==> 0 <= n <= 4,
        id matches Some(ButtonId::LeftClick) <==> n == 0,
        id matches Some(ButtonId::RightClick) <==> n == 1,
        id matches Some(ButtonId::MiddleClick) <==> n == 2,
        id matches Some(ButtonId::Back) <==> n == 3,
        id matches Some(ButtonId::Forward) <==> n == 4,
{
}

/// An event is dropped only where the callback said so of what it translates to;
/// one that translates to nothing is kept.
pub proof fn law_only_the_callback_drops_events<F: Fn(MouseEvent) -> EventDisposition>(
    event: TapEvent,
    synthetic: i64,
    cb: F,
    result: CallbackResult,
)
    requires
        call_ensures(tap_callback::<F>, (&event, synthetic, &cb), result),
    ensures
        result is Drop ==> (translated(event, synthetic) matches Some(m) && call_ensures(
            cb,
            (m,),
            EventDisposition::Suppress,
        )),
        result is Keep ==> (translated(event, synthetic) matches Some(m) ==> call_ensures(
            cb,
            (m,),
            EventDisposition::PassThrough,
        )),
{
}

/// The hook thread is spawned with access alone, its tap lives on with access
/// alone, and a loop that was stopped or finished is torn down.
pub proof fn law_the_tap_lives_with_access_alone(
    accessible: bool,
    may: Result<(), HookError>,
    end: SliceEnd,
    next: AfterSlice,
)
    requires
        call_ensures(may_start, (accessible,), may),
        call_ensures(after_slice, (end, accessible), next),
    ensures
        may is Ok <==> accessible,
        may matches Err(e) ==> e is AccessibilityDenied,
        !accessible ==> next is TearDown,
        end is Stopped || end is Finished ==> next is TearDown,
        accessible && (end is TimedOut || end is HandledSource) ==> next is Reenable,
{
}

/// Starting succeeds exactly where the run loop came to life.
pub proof fn law_starting_takes_a_live_run_loop(
    report: ThreadReport,
    outcome: Result<(), HookError>,
)
    requires
        call_ensures(started, (report,), outcome),
    ensures
        outcome is Ok <==> report is Live,
        outcome matches Err(e) ==> e is MacOsTap,
        report matches ThreadReport::NotSpawned(reason) ==> (outcome matches Err(
            HookError::MacOsTap(context),
        ) && context == reason),
        report is Exited ==> (outcome matches Err(HookError::MacOsTap(context)) && context@
            == "background thread exited before the run loop started; CGEventTapCreate likely returned null"@),
{
}

/// The types handed to the system are all but the notices of a disabled tap and
/// those the hook does not know, each once.
pub proof fn law_every_type_but_the_notices_is_asked_for(
    types: Vec<EventType>,
    event_type: EventType,
)
    requires
        call_ensures(event_types, (), types),
    ensures
        types@.contains(event_type) <==> !(event_type is TapDisabledByTimeout || event_type
            is TapDisabledByUserInput || event_type is Other),
        types@.len() == 11,
        types@.no_duplicates(),
{
    law_the_tap_listens_to_all_that_is_reported(event_type);
}

} // verus!
