use openlogi::binding::ButtonId;
use openlogi::hook::frontmost_bundle_id;
use openlogi::hook::macos::after_slice;
use openlogi::hook::macos::button_number_to_id;
use openlogi::hook::macos::event_types;
use openlogi::hook::macos::may_start;
use openlogi::hook::macos::started;
use openlogi::hook::macos::tap_callback;
use openlogi::hook::macos::translate;
use openlogi::hook::macos::AfterSlice;
use openlogi::hook::macos::CallbackResult;
use openlogi::hook::macos::EventType;
use openlogi::hook::macos::SliceEnd;
use openlogi::hook::macos::TapEvent;
use openlogi::hook::macos::ThreadReport;
use openlogi::hook::EventDisposition;
use openlogi::hook::Hook;
use openlogi::hook::HookError;
use openlogi::hook::MouseEvent;
use openlogi::hook::ScrollDelta;
use openlogi::platform::Platform;

const MARK: i64 = 0x4f4c;

fn tap(event_type: EventType) -> TapEvent {
    TapEvent {
        event_type,
        source_user_data: 0,
        button_number: 0,
        delta_x: 0,
        delta_y: 0,
        scroll_axis_1: 0,
        scroll_axis_2: 0,
    }
}

#[test]
fn buttons_are_numbered_from_the_left() {
    assert_eq!(button_number_to_id(0), Some(ButtonId::LeftClick));
    assert_eq!(button_number_to_id(1), Some(ButtonId::RightClick));
    assert_eq!(button_number_to_id(2), Some(ButtonId::MiddleClick));
    assert_eq!(button_number_to_id(3), Some(ButtonId::Back));
    assert_eq!(button_number_to_id(4), Some(ButtonId::Forward));
    assert_eq!(button_number_to_id(5), None);
    assert_eq!(button_number_to_id(-1), None);
}

#[test]
fn clicks_are_translated() {
    assert_eq!(
        translate(&tap(EventType::LeftMouseDown), MARK),
        Some(MouseEvent::Button { id: ButtonId::LeftClick, pressed: true })
    );
    assert_eq!(
        translate(&tap(EventType::RightMouseUp), MARK),
        Some(MouseEvent::Button { id: ButtonId::RightClick, pressed: false })
    );
    let mut other = tap(EventType::OtherMouseDown);
    other.button_number = 4;
    assert_eq!(
        translate(&other, MARK),
        Some(MouseEvent::Button { id: ButtonId::Forward, pressed: true })
    );
    other.button_number = 9;
    assert_eq!(translate(&other, MARK), None);
}

#[test]
fn own_clicks_are_skipped_and_nothing_else_is() {
    let mut click = tap(EventType::LeftMouseDown);
    click.source_user_data = MARK;
    assert_eq!(translate(&click, MARK), None);
    let mut moved = tap(EventType::OtherMouseDragged);
    moved.source_user_data = MARK;
    moved.delta_x = -3;
    moved.delta_y = 8;
    assert_eq!(
        translate(&moved, MARK),
        Some(MouseEvent::Moved { delta_x: -3, delta_y: 8 })
    );
}

#[test]
fn the_vertical_scroll_is_axis_one() {
    let mut scroll = tap(EventType::ScrollWheel);
    scroll.scroll_axis_1 = 1.5f64.to_bits();
    scroll.scroll_axis_2 = (-2.0f64).to_bits();
    assert_eq!(
        translate(&scroll, MARK),
        Some(MouseEvent::Scroll {
            delta_x: ScrollDelta::Double { bits: (-2.0f64).to_bits() },
            delta_y: ScrollDelta::Double { bits: 1.5f64.to_bits() },
        })
    );
}

#[test]
fn wide_deltas_keep_their_low_half() {
    let mut moved = tap(EventType::MouseMoved);
    moved.delta_x = 0x1_0000_0005;
    assert_eq!(translate(&moved, MARK), Some(MouseEvent::Moved { delta_x: 5, delta_y: 0 }));
}

#[test]
fn interruptions_are_surfaced_and_other_events_are_not() {
    for t in [EventType::TapDisabledByTimeout, EventType::TapDisabledByUserInput] {
        assert_eq!(translate(&tap(t), MARK), Some(MouseEvent::CaptureInterrupted));
    }
    assert_eq!(translate(&tap(EventType::Other), MARK), None);
}

#[test]
fn the_tap_drops_what_the_callback_suppresses() {
    let suppress = |_: MouseEvent| EventDisposition::Suppress;
    let pass = |_: MouseEvent| EventDisposition::PassThrough;
    let click = tap(EventType::LeftMouseDown);
    assert_eq!(tap_callback(&click, MARK, &suppress), CallbackResult::Drop);
    assert_eq!(tap_callback(&click, MARK, &pass), CallbackResult::Keep);
    assert_eq!(tap_callback(&tap(EventType::Other), MARK, &suppress), CallbackResult::Keep);
}

#[test]
fn the_callback_never_hears_of_own_clicks() {
    let never = |m: MouseEvent| -> EventDisposition { panic!("asked about {m:?}") };
    let mut own = tap(EventType::LeftMouseDown);
    own.source_user_data = MARK;
    assert_eq!(tap_callback(&own, MARK, &never), CallbackResult::Keep);
    assert_eq!(tap_callback(&tap(EventType::Other), MARK, &never), CallbackResult::Keep);
}

#[test]
fn the_tap_listens_to_every_kind_of_motion() {
    let types = event_types();
    assert_eq!(types.len(), 11);
    for t in [
        EventType::MouseMoved,
        EventType::LeftMouseDragged,
        EventType::RightMouseDragged,
        EventType::OtherMouseDragged,
    ] {
        assert!(types.contains(&t));
    }
    assert!(!types.contains(&EventType::Other));
}

#[test]
fn a_start_reports_what_went_wrong() {
    assert!(may_start(true).is_ok());
    assert!(matches!(may_start(false), Err(HookError::AccessibilityDenied)));
    assert!(started(ThreadReport::Live).is_ok());
    let message = |r: Result<(), HookError>| r.expect_err("the start failed").message();
    assert_eq!(
        message(started(ThreadReport::NotSpawned("no threads".to_owned()))),
        "CGEventTap setup failed: no threads"
    );
    assert_eq!(
        message(started(ThreadReport::Exited)),
        "CGEventTap setup failed: background thread exited before the run loop started; CGEventTapCreate likely returned null"
    );
}

#[test]
fn the_tap_outlives_neither_a_stop_nor_its_permission() {
    assert_eq!(after_slice(SliceEnd::TimedOut, true), AfterSlice::Reenable);
    assert_eq!(after_slice(SliceEnd::HandledSource, true), AfterSlice::Reenable);
    assert_eq!(after_slice(SliceEnd::TimedOut, false), AfterSlice::TearDown);
    assert_eq!(after_slice(SliceEnd::Stopped, true), AfterSlice::TearDown);
    assert_eq!(after_slice(SliceEnd::Finished, true), AfterSlice::TearDown);
}

#[test]
fn a_hook_is_torn_down_once() {
    let mut hook = Hook::start(Platform::Linux, || Ok(42u32)).expect("the hook starts");
    assert_eq!(hook.stop(), Some(42));
    assert_eq!(hook.stop(), None);
}

#[test]
fn a_hook_needs_a_platform_that_has_one() {
    let refused = Hook::<u32>::start(Platform::Other, || panic!("not called"));
    assert!(matches!(refused, Err(HookError::Unsupported)));
    let failed = Hook::<u32>::start(Platform::Linux, || Err(HookError::NoDeviceFound));
    assert!(matches!(failed, Err(HookError::NoDeviceFound)));
}

#[test]
fn accessibility_concerns_one_platform() {
    assert!(Hook::has_accessibility(Platform::MacOs, true));
    assert!(!Hook::has_accessibility(Platform::MacOs, false));
    assert!(Hook::has_accessibility(Platform::Linux, false));
    assert!(Hook::has_accessibility(Platform::Other, false));
    assert!(Hook::prompt_accessibility(Platform::MacOs));
    assert!(!Hook::prompt_accessibility(Platform::Linux));
}

#[test]
fn nothing_is_frontmost_on_other_platforms() {
    let app = || Some("com.microsoft.VSCode".to_owned());
    assert_eq!(frontmost_bundle_id(Platform::MacOs, app()), app());
    assert_eq!(frontmost_bundle_id(Platform::Linux, None), None);
    assert_eq!(frontmost_bundle_id(Platform::Other, app()), None);
}

#[test]
fn every_hook_error_has_a_message() {
    assert_eq!(
        HookError::Unsupported.message(),
        "mouse event hook is not supported on this platform"
    );
    assert!(HookError::AccessibilityDenied
        .message()
        .ends_with("System Settings → Privacy & Security → Accessibility"));
    assert!(HookError::NoDeviceFound
        .message()
        .starts_with("no mouse device found under /dev/input; ensure"));
}
