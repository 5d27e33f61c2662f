use evdev::EventType;
use evdev::KeyCode;
use evdev::RelativeAxisCode;
use openlogi::binding::ButtonId;
use openlogi::hook::linux::key_to_button;
use openlogi::hook::linux::lifecycle::build_virtual_device;
use openlogi::hook::linux::lifecycle::find_mouse_devices;
use openlogi::hook::linux::lifecycle::shutdown;
use openlogi::hook::linux::lifecycle::signal_pipe;
use openlogi::hook::linux::lifecycle::wait_readable;
use openlogi::hook::linux::lifecycle::DeviceFacts;
use openlogi::hook::linux::lifecycle::Poll;
use openlogi::hook::linux::lifecycle::ShutdownStep;
use openlogi::hook::linux::lifecycle::SignalOutcome;
use openlogi::hook::linux::lifecycle::Stage;
use openlogi::hook::linux::lifecycle::StartStep;
use openlogi::hook::linux::lifecycle::Startup;
use openlogi::hook::linux::translate;
use openlogi::hook::linux::InputEvent;
use openlogi::hook::linux::Session;
use openlogi::hook::linux::VIRTUAL_DEVICE_NAME;
use openlogi::hook::EventDisposition;
use openlogi::hook::HookError;
use openlogi::hook::MouseEvent;
use openlogi::hook::ScrollDelta;

fn event(event_type: u16, code: u16, value: i32) -> InputEvent {
    InputEvent { event_type, code, value }
}

/// The ticks a scroll distance stands for.
fn ticks(delta: ScrollDelta) -> f32 {
    match delta {
        ScrollDelta::Units { units, per_tick } => units as f32 / f32::from(per_tick),
        ScrollDelta::Double { bits } => f64::from_bits(bits) as f32,
    }
}

/// The distances of a scroll, horizontal then vertical.
fn scrolled(translation: Option<MouseEvent>) -> (f32, f32) {
    match translation {
        Some(MouseEvent::Scroll { delta_x, delta_y }) => (ticks(delta_x), ticks(delta_y)),
        other => panic!("expected a scroll, got {other:?}"),
    }
}

// ── key_to_button ────────────────────────────────────────────────────────────

#[test]
fn key_to_button_maps_standard_mouse_buttons() {
    let cases = [
        (KeyCode::BTN_LEFT, ButtonId::LeftClick),
        (KeyCode::BTN_RIGHT, ButtonId::RightClick),
        (KeyCode::BTN_MIDDLE, ButtonId::MiddleClick),
        (KeyCode::BTN_BACK, ButtonId::Back),
        (KeyCode::BTN_SIDE, ButtonId::Back),
        (KeyCode::BTN_FORWARD, ButtonId::Forward),
        (KeyCode::BTN_EXTRA, ButtonId::Forward),
        (KeyCode::BTN_TASK, ButtonId::DpiToggle),
    ];
    for (key, expected) in cases {
        assert_eq!(
            key_to_button(key.0),
            Some(expected),
            "key_to_button({key:?}) should be {expected:?}"
        );
    }
}

#[test]
fn key_to_button_returns_none_for_non_mouse_keys() {
    assert_eq!(key_to_button(KeyCode::KEY_A.0), None);
    assert_eq!(key_to_button(KeyCode::KEY_LEFTSHIFT.0), None);
}

// ── translate ────────────────────────────────────────────────────────────────

#[test]
fn translate_btn_left_down_returns_button_pressed() {
    let event = event(EventType::KEY.0, KeyCode::BTN_LEFT.0, 1);
    assert!(matches!(
        translate(&event, false),
        Some(MouseEvent::Button {
            id: ButtonId::LeftClick,
            pressed: true
        })
    ));
}

#[test]
fn translate_btn_left_up_returns_button_released() {
    let event = event(EventType::KEY.0, KeyCode::BTN_LEFT.0, 0);
    assert!(matches!(
        translate(&event, false),
        Some(MouseEvent::Button {
            id: ButtonId::LeftClick,
            pressed: false
        })
    ));
}

#[test]
fn translate_btn_back_returns_back() {
    let event = event(EventType::KEY.0, KeyCode::BTN_BACK.0, 1);
    assert!(matches!(
        translate(&event, false),
        Some(MouseEvent::Button {
            id: ButtonId::Back,
            pressed: true
        })
    ));
}

#[test]
fn translate_btn_side_returns_back() {
    let event = event(EventType::KEY.0, KeyCode::BTN_SIDE.0, 1);
    assert!(matches!(
        translate(&event, false),
        Some(MouseEvent::Button {
            id: ButtonId::Back,
            pressed: true
        })
    ));
}

#[test]
fn translate_btn_forward_returns_forward() {
    let event = event(EventType::KEY.0, KeyCode::BTN_FORWARD.0, 1);
    assert!(matches!(
        translate(&event, false),
        Some(MouseEvent::Button {
            id: ButtonId::Forward,
            pressed: true
        })
    ));
}

// ── movement ─────────────────────────────────────────────────────────────────

#[test]
fn translate_rel_x_returns_horizontal_move() {
    let event = event(EventType::RELATIVE.0, RelativeAxisCode::REL_X.0, 7);
    assert!(matches!(
        translate(&event, false),
        Some(MouseEvent::Moved {
            delta_x: 7,
            delta_y: 0
        })
    ));
}

#[test]
fn translate_rel_y_returns_vertical_move() {
    let event = event(EventType::RELATIVE.0, RelativeAxisCode::REL_Y.0, -4);
    assert!(matches!(
        translate(&event, false),
        Some(MouseEvent::Moved {
            delta_x: 0,
            delta_y: -4
        })
    ));
}

// ── scroll — standard ────────────────────────────────────────────────────────

#[test]
fn translate_rel_wheel_returns_scroll_y() {
    let event = event(EventType::RELATIVE.0, RelativeAxisCode::REL_WHEEL.0, 3);
    let (delta_x, delta_y) = scrolled(translate(&event, false));
    assert!(
        delta_x.abs() < f32::EPSILON && (delta_y - 3.0).abs() < f32::EPSILON,
        "expected Scroll {{ delta_x: 0.0, delta_y: 3.0 }}, got {delta_x}, {delta_y}"
    );
}

#[test]
fn translate_rel_hwheel_returns_scroll_x() {
    let event = event(EventType::RELATIVE.0, RelativeAxisCode::REL_HWHEEL.0, -2);
    let (delta_x, delta_y) = scrolled(translate(&event, false));
    assert!(
        (delta_x - -2.0).abs() < f32::EPSILON && delta_y.abs() < f32::EPSILON,
        "expected Scroll {{ delta_x: -2.0, delta_y: 0.0 }}, got {delta_x}, {delta_y}"
    );
}

// ── scroll — hi-res ──────────────────────────────────────────────────────────

#[test]
fn translate_hires_wheel_returns_fractional_scroll_y() {
    // 60 hi-res units = 0.5 standard ticks
    let event = event(
        EventType::RELATIVE.0,
        RelativeAxisCode::REL_WHEEL_HI_RES.0,
        60,
    );
    let (delta_x, delta_y) = scrolled(translate(&event, true));
    assert!(
        delta_x.abs() < f32::EPSILON && (delta_y - 0.5).abs() < f32::EPSILON,
        "expected Scroll {{ delta_x: 0.0, delta_y: 0.5 }}, got {delta_x}, {delta_y}"
    );
}

#[test]
fn translate_hires_hwheel_returns_fractional_scroll_x() {
    let event = event(
        EventType::RELATIVE.0,
        RelativeAxisCode::REL_HWHEEL_HI_RES.0,
        -120,
    );
    let (delta_x, delta_y) = scrolled(translate(&event, true));
    assert!(
        (delta_x - -1.0).abs() < f32::EPSILON && delta_y.abs() < f32::EPSILON,
        "expected Scroll {{ delta_x: -1.0, delta_y: 0.0 }}, got {delta_x}, {delta_y}"
    );
}

#[test]
fn translate_low_res_wheel_skipped_when_hires_active() {
    let event = event(EventType::RELATIVE.0, RelativeAxisCode::REL_WHEEL.0, 1);
    assert!(translate(&event, true).is_none());
}

#[test]
fn translate_low_res_hwheel_skipped_when_hires_active() {
    let event = event(EventType::RELATIVE.0, RelativeAxisCode::REL_HWHEEL.0, 1);
    assert!(translate(&event, true).is_none());
}

#[test]
fn translate_non_mouse_key_returns_none() {
    let event = event(EventType::KEY.0, KeyCode::KEY_A.0, 1);
    assert!(translate(&event, false).is_none());
}

#[test]
fn translate_sync_event_returns_none() {
    let event = event(EventType::SYNCHRONIZATION.0, 0, 0);
    assert!(translate(&event, false).is_none());
}

#[test]
fn translate_hires_axes_are_unknown_to_a_plain_wheel() {
    let wheel = event(
        EventType::RELATIVE.0,
        RelativeAxisCode::REL_WHEEL_HI_RES.0,
        60,
    );
    assert!(translate(&wheel, false).is_none());
    let absolute = event(EventType::ABSOLUTE.0, RelativeAxisCode::REL_X.0, 7);
    assert!(translate(&absolute, false).is_none());
}

// ── device session ───────────────────────────────────────────────────────────

fn hires_session() -> Session {
    Session::open(true, &Some(vec![0, 1, 8, RelativeAxisCode::REL_WHEEL_HI_RES.0]))
        .expect("the grab succeeded")
}

#[test]
fn session_is_skipped_without_the_grab() {
    assert!(Session::open(false, &None).is_none());
}

#[test]
fn session_reinjects_what_passes_at_the_end_of_the_report() {
    let mut session = hires_session();
    let pass = |_: MouseEvent| EventDisposition::PassThrough;
    let drop = |_: MouseEvent| EventDisposition::Suppress;
    let sync = event(EventType::SYNCHRONIZATION.0, 0, 0);
    let left = event(EventType::KEY.0, KeyCode::BTN_LEFT.0, 1);
    let back = event(EventType::KEY.0, KeyCode::BTN_BACK.0, 1);
    let key = event(EventType::KEY.0, KeyCode::KEY_A.0, 1);
    let low = event(EventType::RELATIVE.0, RelativeAxisCode::REL_WHEEL.0, 1);
    let high = event(
        EventType::RELATIVE.0,
        RelativeAxisCode::REL_WHEEL_HI_RES.0,
        120,
    );

    // An empty report needs no re-injection.
    assert!(!session.handle(sync, &pass));
    assert!(!session.handle(left, &pass));
    assert!(!session.handle(back, &drop));
    // The callback is not asked about keys, and low-res ticks are redundant.
    assert!(!session.handle(key, &drop));
    assert!(!session.handle(low, &pass));
    assert!(!session.handle(high, &pass));
    assert!(session.handle(sync, &pass));
    assert_eq!(*session.pending(), vec![left, key, high]);
    assert!(session.flushed(true));
    assert!(session.pending().is_empty());
    assert!(!session.handle(sync, &pass));
}

#[test]
fn session_without_a_hires_wheel_passes_low_res_ticks() {
    let mut session = Session::open(true, &Some(vec![0, 1, 8])).expect("the grab succeeded");
    let pass = |_: MouseEvent| EventDisposition::PassThrough;
    let low = event(EventType::RELATIVE.0, RelativeAxisCode::REL_WHEEL.0, 1);
    assert!(!session.handle(low, &pass));
    assert_eq!(*session.pending(), vec![low]);
    // A broken virtual device ends the session and keeps what was pending.
    assert!(!session.flushed(false));
    assert_eq!(*session.pending(), vec![low]);
}

#[test]
fn a_whole_read_is_processed_report_by_report() {
    let mut session = hires_session();
    let sync = event(EventType::SYNCHRONIZATION.0, 0, 0);
    let left = event(EventType::KEY.0, KeyCode::BTN_LEFT.0, 1);
    let back = event(EventType::KEY.0, KeyCode::BTN_BACK.0, 1);
    let key = event(EventType::KEY.0, KeyCode::KEY_A.0, 1);
    let cb = |m: MouseEvent| match m {
        MouseEvent::Button { id: ButtonId::Back, .. } => EventDisposition::Suppress,
        _ => EventDisposition::PassThrough,
    };
    let reports = std::cell::RefCell::new(Vec::new());
    let accept = |report: &Vec<InputEvent>| {
        reports.borrow_mut().push(report.clone());
        true
    };
    assert!(session.process(&vec![left, back, sync, sync, key, left, sync, key], &cb, &accept));
    assert_eq!(*reports.borrow(), vec![vec![left], vec![key, left]]);
    assert_eq!(*session.pending(), vec![key]);
    let refuse = |_: &Vec<InputEvent>| false;
    // A report that is not accepted ends the session where it stands.
    assert!(!session.process(&vec![left, sync, key], &cb, &refuse));
    assert_eq!(*session.pending(), vec![key, left]);
}

#[test]
fn the_callback_is_asked_once_and_about_mouse_events_alone() {
    let mut session = hires_session();
    let sync = event(EventType::SYNCHRONIZATION.0, 0, 0);
    let left = event(EventType::KEY.0, KeyCode::BTN_LEFT.0, 1);
    let back = event(EventType::KEY.0, KeyCode::BTN_BACK.0, 1);
    let key = event(EventType::KEY.0, KeyCode::KEY_A.0, 1);
    let low = event(EventType::RELATIVE.0, RelativeAxisCode::REL_WHEEL.0, 1);
    let asked = std::cell::RefCell::new(Vec::new());
    let cb = |m: MouseEvent| {
        asked.borrow_mut().push(m);
        EventDisposition::Suppress
    };
    let emitted = std::cell::RefCell::new(Vec::new());
    let emit = |report: &Vec<InputEvent>| {
        emitted.borrow_mut().push(report.clone());
        false
    };
    // Nothing but the key passes, and nothing behind a refused report counts.
    assert!(!session.process(&vec![left, back, low, sync, key, sync, left], &cb, &emit));
    assert_eq!(
        asked.into_inner(),
        vec![
            MouseEvent::Button { id: ButtonId::LeftClick, pressed: true },
            MouseEvent::Button { id: ButtonId::Back, pressed: true },
        ]
    );
    assert_eq!(emitted.into_inner(), vec![vec![key]]);
}

// ── starting and stopping ────────────────────────────────────────────────────

fn device(name: Option<&str>, keys: Option<Vec<u16>>) -> DeviceFacts {
    DeviceFacts { name: name.map(str::to_owned), keys, relative_axes: Some(vec![0, 1]) }
}

#[test]
fn only_real_mice_are_hooked() {
    let left = Some(vec![KeyCode::BTN_LEFT.0, KeyCode::BTN_RIGHT.0]);
    let devices = vec![
        device(Some("keyboard"), Some(vec![KeyCode::KEY_A.0])),
        device(Some("mouse"), left.clone()),
        device(Some(VIRTUAL_DEVICE_NAME), left.clone()),
        device(Some("lid switch"), None),
        device(None, left),
    ];
    assert_eq!(find_mouse_devices(&devices), vec![1, 4]);
}

#[test]
fn the_virtual_device_has_the_capabilities_of_the_real_one() {
    let mouse = device(Some("mouse"), Some(vec![KeyCode::BTN_LEFT.0]));
    let virtual_device = build_virtual_device(&mouse);
    assert_eq!(virtual_device.name, "OpenLogi virtual mouse");
    assert_eq!(*virtual_device.keys, Some(vec![KeyCode::BTN_LEFT.0]));
    assert_eq!(*virtual_device.relative_axes, Some(vec![0, 1]));
}

#[test]
fn starting_goes_device_by_device() {
    let mut startup = Startup::begin(2).expect("there are devices");
    let mut steps = Vec::new();
    loop {
        let step = startup.next();
        steps.push(step);
        if step == StartStep::Running {
            break;
        }
        startup.succeeded();
    }
    assert_eq!(
        steps,
        vec![
            StartStep::Make { device: 0, stage: Stage::VirtualDevice },
            StartStep::Make { device: 0, stage: Stage::Pipe },
            StartStep::Make { device: 0, stage: Stage::Thread },
            StartStep::Make { device: 1, stage: Stage::VirtualDevice },
            StartStep::Make { device: 1, stage: Stage::Pipe },
            StartStep::Make { device: 1, stage: Stage::Thread },
            StartStep::Running,
        ]
    );
}

#[test]
fn starting_without_a_device_is_an_error() {
    assert!(matches!(Startup::begin(0), Err(HookError::NoDeviceFound)));
}

#[test]
fn a_failed_start_shuts_down_what_runs() {
    let mut startup = Startup::begin(3).expect("there are devices");
    for _ in 0..4 {
        startup.succeeded();
    }
    let (steps, error) = startup.failed("no uinput".to_owned());
    assert_eq!(
        steps,
        vec![
            ShutdownStep::RaiseStop,
            ShutdownStep::Signal { pipe: 0 },
            ShutdownStep::Join { thread: 0 },
        ]
    );
    assert_eq!(error.message(), "Linux input error: no uinput");
}

#[test]
fn shutting_down_wakes_every_thread_before_waiting() {
    assert_eq!(
        shutdown(2, 2),
        vec![
            ShutdownStep::RaiseStop,
            ShutdownStep::Signal { pipe: 0 },
            ShutdownStep::Signal { pipe: 1 },
            ShutdownStep::Join { thread: 0 },
            ShutdownStep::Join { thread: 1 },
        ]
    );
}

#[test]
fn a_wake_up_is_retried_only_when_interrupted() {
    assert_eq!(signal_pipe(1, false), SignalOutcome::Sent);
    assert_eq!(signal_pipe(0, true), SignalOutcome::Sent);
    assert_eq!(signal_pipe(-1, true), SignalOutcome::Retry);
    assert_eq!(signal_pipe(-1, false), SignalOutcome::Failed);
}

#[test]
fn polling_tells_data_from_stops() {
    let poll = |returned: i32, interrupted: bool, device: i16, stop: i16| {
        wait_readable(&Poll { returned, interrupted, device, stop })
    };
    assert_eq!(poll(1, false, libc::POLLIN, 0), Some(true));
    assert_eq!(poll(1, false, 0, libc::POLLIN), Some(false));
    assert_eq!(poll(2, false, libc::POLLIN, libc::POLLIN), Some(false));
    assert_eq!(poll(1, false, libc::POLLIN | libc::POLLHUP, 0), Some(false));
    assert_eq!(poll(1, false, libc::POLLERR, 0), Some(false));
    assert_eq!(poll(1, false, libc::POLLIN, libc::POLLNVAL), Some(false));
    assert_eq!(poll(0, false, 0, 0), None);
    assert_eq!(poll(-1, true, libc::POLLIN, 0), None);
    assert_eq!(poll(-1, false, libc::POLLIN, 0), Some(false));
}
