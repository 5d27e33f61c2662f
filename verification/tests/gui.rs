use openlogi::guarded::Guarded;
use openlogi::agent::orchestrator::build_devices;
use openlogi::agent::orchestrator::pick_current;
use openlogi::binding::Action;
use openlogi::binding::ActionMap;
use openlogi::binding::ButtonId;
use openlogi::binding::Defaults;
use openlogi::binding::GestureDirection;
use openlogi::config::AppSettings;
use openlogi::config::Config;
use openlogi::config::DeviceConfig;
use openlogi::device::collect_models;
use openlogi::device::DeviceInventory;
use openlogi::device::DeviceKind;
use openlogi::device::DeviceModelInfo;
use openlogi::device::DeviceTransports;
use openlogi::device::PairedDevice;
use openlogi::device::ReceiverInfo;
use openlogi::gui::app_assets::action_icon_paths;
use openlogi::gui::app_assets::AppAssets;
use openlogi::gui::app_assets::Served;
use openlogi::gui::app_assets::LOGO;
use openlogi::gui::drain::prompt_at_launch;
use openlogi::gui::drain::Drain;
use openlogi::gui::drain::Step;
use openlogi::gui::drain::Update;
use openlogi::gui::hook_runtime::dispatch_action;
use openlogi::gui::hook_runtime::load_config_and_bindings;
use openlogi::gui::hook_runtime::on_event;
use openlogi::gui::hook_runtime::start_hook;
use openlogi::gui::hook_runtime::Effect;
use openlogi::gui::hook_runtime::Reaction;
use openlogi::gui::platform::launch_agent;
use openlogi::gui::platform::permissions::bluetooth;
use openlogi::gui::platform::permissions::input_monitoring;
use openlogi::gui::platform::permissions::open_pane;
use openlogi::gui::platform::permissions::Permission;
use openlogi::gui::platform::permissions::PermissionStatus;
use openlogi::gui::platform::single_instance::acquire;
use openlogi::gui::platform::single_instance::startup;
use openlogi::gui::platform::single_instance::InstanceError;
use openlogi::gui::platform::single_instance::Startup;
use openlogi::gui::platform::single_instance::TryLock;
use openlogi::gui::platform::updater::latest_tag;
use openlogi::gui::platform::updater::maybe_check;
use openlogi::gui::platform::updater::newer_than;
use openlogi::gui::platform::updater::run_check;
use openlogi::gui::platform::updater::CheckOutcome;
use openlogi::gui::state::bindings::bindings_for;
use openlogi::gui::state::bindings::gesture_bindings_for;
use openlogi::gui::state::devices::build_device_list;
use openlogi::gui::state::devices::pick_initial_device;
use openlogi::gui::state::dpi::DpiCycleState;
use openlogi::gui::state::dpi::DpiTarget;
use openlogi::gui::watchers::inventory::after_send;
use openlogi::gui::watchers::inventory::snapshot;
use openlogi::gui::watchers::inventory::Next;
use openlogi::hook::EventDisposition;
use openlogi::hook::HookError;
use openlogi::hook::MouseEvent;
use openlogi::hook::ScrollDelta;
use openlogi::path::PathStyle;
use openlogi::paths::Environment;
use openlogi::platform::Platform;
use openlogi::plist::Change;

// ── launch at login ──────────────────────────────────────────────────────────

#[test]
fn rendered_plist_contains_expected_keys() {
    let body =
        launch_agent::render_plist("/Applications/OpenLogi.app/Contents/MacOS/openlogi-gui");
    assert!(body.contains(launch_agent::LABEL));
    assert!(body.contains("/Applications/OpenLogi.app/Contents/MacOS/openlogi-gui"));
    assert!(body.contains("RunAtLoad"));
}

#[test]
fn the_window_is_not_kept_alive() {
    let body = launch_agent::render_plist("/bin/gui");
    assert!(body.contains("<string>org.openlogi.openlogi</string>"));
    assert!(body.contains("<key>KeepAlive</key>\n  <false/>\n</dict>\n</plist>\n"));
    assert!(matches!(
        launch_agent::reconcile(Platform::MacOs, true, "/bin/gui", Some(body.as_str())),
        Some(Change::Current)
    ));
    assert!(matches!(
        launch_agent::reconcile(Platform::MacOs, true, "/bin/moved", Some(body.as_str())),
        Some(Change::Install(_))
    ));
    assert!(matches!(
        launch_agent::reconcile(Platform::MacOs, false, "/bin/gui", Some(body.as_str())),
        Some(Change::Remove)
    ));
    assert!(matches!(
        launch_agent::reconcile(Platform::MacOs, false, "/bin/gui", None),
        Some(Change::Absent)
    ));
    assert!(launch_agent::reconcile(Platform::Other, false, "/bin/gui", None).is_none());
    assert_eq!(
        launch_agent::plist_path(&Some(b"/Users/me/".to_vec())),
        Ok(b"/Users/me/Library/LaunchAgents/org.openlogi.openlogi.plist".to_vec())
    );
    assert!(launch_agent::plist_path(&None).is_err());
}

// ── updates ──────────────────────────────────────────────────────────────────

#[test]
fn newer_than_compares_numerically() {
    assert!(newer_than("0.0.2", "0.0.1"));
    assert!(newer_than("0.1.0", "0.0.99"));
    assert!(!newer_than("0.0.1", "0.0.2"));
    assert!(!newer_than("0.0.1", "0.0.1"));
}

#[test]
fn newer_than_handles_unparseable() {
    // Neither side holds a number, so the texts themselves are compared.
    assert!(newer_than("abc", "abb"));
}

#[test]
fn newer_than_skips_what_is_no_number() {
    assert!(newer_than("0.10", "0.9"));
    assert!(newer_than("1.0.0", "1.0"));
    assert!(!newer_than("1.0", "1.0.0"));
    // "0.0.0-rc" has the numbers 0 and 0.
    assert!(newer_than("0.0.1", "0.0.0-rc"));
    assert!(!newer_than("0.0.0-rc", "0.0.0"));
    assert!(newer_than("+3", "2"));
    // Too large for a number, so there is none.
    assert!(!newer_than("1.4294967296", "1.0"));
    assert!(newer_than("1.4294967295", "1.0"));
    // One side without numbers: the texts are compared.
    assert!(newer_than("abc", "0.0.1"));
    assert!(!newer_than("0.0.1", "abc"));
    assert!(!newer_than("", ""));
}

#[test]
fn newer_than_orders_numbered_versions() {
    let ascending = ["0.9", "0.10", "1.0", "1.0.0", "1.2.3", "10"];
    for (i, a) in ascending.iter().enumerate() {
        for (j, b) in ascending.iter().enumerate() {
            assert_eq!(newer_than(a, b), i > j, "{a} against {b}");
        }
    }
    // Texts without numbers do not fit in: "1x" > "10" > "2" > "1x".
    assert!(newer_than("1x", "10") && newer_than("10", "2") && newer_than("2", "1x"));
}

fn tag(uri: &str) -> String {
    latest_tag(uri).into_iter().collect()
}

#[test]
fn the_tag_stands_behind_the_last_marker() {
    assert_eq!(tag("https://github.com/AprilNEA/OpenLogi/releases/tag/v0.3.1"), "0.3.1");
    assert_eq!(tag("https://host/tag/tag/vv1"), "1");
    assert_eq!(tag("version"), "ersion");
    assert_eq!(tag("https://host/releases/tag/"), "");
    assert_eq!(tag("/tag"), "/tag");
    assert_eq!(tag(""), "");
}

#[test]
fn an_update_check_tells_newer_releases() {
    let uri = "https://github.com/AprilNEA/OpenLogi/releases/tag/v0.3.1";
    assert_eq!(run_check(Some(uri), "0.3.0"), CheckOutcome::Newer);
    assert_eq!(run_check(Some(uri), "0.3.1"), CheckOutcome::UpToDate);
    assert_eq!(run_check(None, "0.3.1"), CheckOutcome::Failed);
    let mut settings = AppSettings {
        launch_at_login: false,
        check_for_updates: false,
        thumbwheel_sensitivity: 0,
    };
    assert!(!maybe_check(&settings));
    settings.check_for_updates = true;
    assert!(maybe_check(&settings));
}

// ── permissions ──────────────────────────────────────────────────────────────

#[test]
fn permissions_are_read_on_one_platform() {
    assert_eq!(input_monitoring(Platform::MacOs, 0), PermissionStatus::Granted);
    assert_eq!(input_monitoring(Platform::MacOs, 1), PermissionStatus::Denied);
    assert_eq!(input_monitoring(Platform::MacOs, 2), PermissionStatus::Unknown);
    assert_eq!(input_monitoring(Platform::Linux, 0), PermissionStatus::Unknown);
    assert_eq!(bluetooth(Platform::MacOs, Some(3)), PermissionStatus::Granted);
    assert_eq!(bluetooth(Platform::MacOs, Some(1)), PermissionStatus::Denied);
    assert_eq!(bluetooth(Platform::MacOs, Some(2)), PermissionStatus::Denied);
    assert_eq!(bluetooth(Platform::MacOs, Some(0)), PermissionStatus::Unknown);
    assert_eq!(bluetooth(Platform::MacOs, None), PermissionStatus::Unknown);
    assert_eq!(bluetooth(Platform::Other, Some(3)), PermissionStatus::Unknown);
}

#[test]
fn panes_have_deep_links() {
    let url = |p: Permission| open_pane(Platform::MacOs, p).expect("the pane has a link");
    assert_eq!(
        url(Permission::Accessibility),
        "x-apple.systempreferences:com.apple.preference.security?Privacy_Accessibility"
    );
    assert_eq!(
        url(Permission::InputMonitoring),
        "x-apple.systempreferences:com.apple.preference.security?Privacy_ListenEvent"
    );
    assert_eq!(
        url(Permission::Bluetooth),
        "x-apple.systempreferences:com.apple.preference.security?Privacy_Bluetooth"
    );
    assert_eq!(open_pane(Platform::Linux, Permission::Bluetooth), None);
}

// ── single instance ──────────────────────────────────────────────────────────

fn environment(home: Option<&str>) -> Environment {
    Environment {
        style: PathStyle::Unix,
        home: home.map(|h| h.as_bytes().to_vec()),
        userprofile: None,
        xdg_config_home: None,
        xdg_data_home: None,
    }
}

const LOCK: &[u8] = b"/home/me/.local/share/openlogi/openlogi.lock";

fn made(dir: &Vec<u8>) -> Result<(), String> {
    assert_eq!(dir, b"/home/me/.local/share/openlogi");
    Ok(())
}

fn opened(path: &Vec<u8>) -> Result<u8, String> {
    assert_eq!(path, LOCK);
    Ok(9)
}

#[test]
fn the_lock_is_acquired_below_the_data_directory() {
    let env = environment(Some("/home/me"));
    let guard = acquire(&env, &made, &opened, &|_: &u8| TryLock::Locked);
    assert_eq!(startup(&guard), Startup::Proceed);
    assert_eq!(guard.ok().map(|g| g.handle), Some(9));
}

#[test]
fn the_directory_is_made_before_the_lock_file_is_opened() {
    let steps = std::cell::RefCell::new(Vec::new());
    let note = |step: &str, path: &Vec<u8>| {
        let path = String::from_utf8(path.clone()).expect("the path is text");
        steps.borrow_mut().push(format!("{step} {path}"));
    };
    let made = |dir: &Vec<u8>| {
        note("make", dir);
        Ok(())
    };
    let opened = |path: &Vec<u8>| {
        note("open", path);
        Ok(9u8)
    };
    let env = environment(Some("/home/me"));
    assert!(acquire(&env, &made, &opened, &|_: &u8| TryLock::Locked).is_ok());
    assert_eq!(
        steps.into_inner(),
        vec![
            "make /home/me/.local/share/openlogi".to_owned(),
            "open /home/me/.local/share/openlogi/openlogi.lock".to_owned(),
        ]
    );
}

#[test]
fn a_second_instance_exits_quietly() {
    let env = environment(Some("/home/me"));
    let refused = acquire(&env, &made, &opened, &|_: &u8| TryLock::WouldBlock);
    assert_eq!(startup(&refused), Startup::ExitQuietly);
    match refused.err() {
        Some(InstanceError::AlreadyRunning { path }) => assert_eq!(path, LOCK),
        other => panic!("expected another instance, got {other:?}"),
    }
}

#[test]
fn trouble_with_the_lock_is_reported() {
    let env = environment(Some("/home/me"));
    let locked = |_: &u8| TryLock::Locked;
    let no_home = acquire(&environment(None), &made, &opened, &locked);
    assert_eq!(startup(&no_home), Startup::Fail);
    assert!(matches!(no_home.err(), Some(InstanceError::Path(_))));

    let no_dir = acquire(&env, &|_: &Vec<u8>| Err("read-only".to_owned()), &opened, &locked);
    match no_dir.err() {
        Some(InstanceError::Open { path, source }) => {
            assert_eq!(path, LOCK);
            assert_eq!(source, "read-only");
        }
        other => panic!("expected an open error, got {other:?}"),
    }

    let no_file = acquire(&env, &made, &|_: &Vec<u8>| Err::<u8, _>("denied".to_owned()), &locked);
    match no_file.err() {
        Some(InstanceError::Open { path, source }) => {
            assert_eq!(path, LOCK);
            assert_eq!(source, "denied");
        }
        other => panic!("expected an open error, got {other:?}"),
    }

    let failed = acquire(&env, &made, &opened, &|_: &u8| TryLock::Error("io".to_owned()));
    assert_eq!(startup(&failed), Startup::Fail);
    match failed.err() {
        Some(InstanceError::LockFailed { path, source }) => {
            assert_eq!(path, LOCK);
            assert_eq!(source, "io");
        }
        other => panic!("expected a lock error, got {other:?}"),
    }
}

// ── devices ──────────────────────────────────────────────────────────────────

fn model(key: &str) -> DeviceModelInfo {
    DeviceModelInfo {
        entity_count: 1,
        unit_id: [1, 2, 3, 4],
        transports: DeviceTransports { usb: false, equad: false, btle: true, bluetooth: false },
        model_ids: [0xb042, 0, 0],
        extended_model_id: 1,
        key: key.to_owned(),
    }
}

fn paired(slot: u8, codename: Option<&str>, key: Option<&str>) -> PairedDevice {
    PairedDevice {
        slot,
        codename: codename.map(str::to_owned),
        wpid: None,
        kind: DeviceKind::Mouse,
        online: true,
        battery: None,
        model_info: key.map(model),
    }
}

fn inventory(uid: Option<&str>, devices: Vec<PairedDevice>) -> DeviceInventory {
    DeviceInventory {
        receiver: ReceiverInfo {
            name: "receiver".to_owned(),
            vendor_id: 0x046d,
            product_id: 0xc548,
            unique_id: uid.map(str::to_owned),
        },
        paired: devices,
    }
}

fn inventories() -> Vec<DeviceInventory> {
    vec![
        inventory(
            Some("uid"),
            vec![
                paired(1, Some("asleep"), None),
                paired(2, Some("MX"), Some("a")),
                paired(6, None, Some("b")),
            ],
        ),
        inventory(None, vec![paired(255, None, Some("c"))]),
    ]
}

#[test]
fn known_devices_are_listed_with_their_names_and_targets() {
    let list = build_device_list(&inventories(), &|_: &DeviceModelInfo| None);
    let names: Vec<&str> = list.iter().map(|r| r.display_name.as_str()).collect();
    assert_eq!(names, vec!["MX", "Slot 6", "Slot 255"]);
    let target = list[1].dpi_target.as_ref().expect("the receiver is known");
    assert_eq!(target.receiver_uid, "uid");
    assert_eq!(target.slot, 6);
    assert!(list[2].dpi_target.is_none());
    assert_eq!(pick_initial_device(&list, Some("b")), 1);
    assert_eq!(pick_initial_device(&list, Some("x")), 0);
    assert_eq!(pick_initial_device(&list, None), 0);
}

#[test]
fn the_agent_lists_the_devices_of_the_window() {
    let list = build_device_list(&inventories(), &|_: &DeviceModelInfo| None);
    let devices = build_devices(&inventories());
    let keys: Vec<&str> = devices.iter().map(|d| d.config_key.as_str()).collect();
    assert_eq!(keys, list.iter().map(|r| r.config_key.as_str()).collect::<Vec<&str>>());
    for saved in [None, Some("a"), Some("b"), Some("x")] {
        assert_eq!(pick_current(&devices, saved), pick_initial_device(&list, saved));
    }
}

#[test]
fn models_are_collected_in_order() {
    let keys: Vec<String> = collect_models(&inventories()).iter().map(|m| m.config_key()).collect();
    assert_eq!(keys, vec!["a", "b", "c"]);
}

fn defaults() -> Defaults {
    Defaults {
        left_click: Action::Os(1),
        right_click: Action::Os(2),
        middle_click: Action::Os(3),
        back: Action::Os(4),
        forward: Action::Os(5),
        dpi_toggle: Action::CycleDpiPresets,
        gesture_up: Action::Os(10),
        gesture_down: Action::Os(11),
        gesture_left: Action::Os(12),
        gesture_right: Action::Os(13),
        gesture_click: Action::ToggleSmartShift,
    }
}

fn config(selected: Option<&str>) -> Config {
    let mut bindings = ActionMap::new();
    bindings.insert(ButtonId::Back, Action::ToggleSmartShift);
    let mut gestures = ActionMap::new();
    gestures.insert(GestureDirection::Left, Action::Os(77));
    Config {
        app_settings: AppSettings {
            launch_at_login: false,
            check_for_updates: false,
            thumbwheel_sensitivity: 0,
        },
        selected_device: selected.map(str::to_owned),
        devices: vec![DeviceConfig {
            key: "b".to_owned(),
            bindings,
            profiles: Vec::new(),
            gestures,
            dpi_presets: vec![800, 1200, 1600],
        }],
        defaults: defaults(),
    }
}

#[test]
fn bindings_overlay_the_defaults() {
    let config = config(None);
    let list = build_device_list(&inventories(), &|_: &DeviceModelInfo| None);
    let buttons = bindings_for(&config, Some(&list[1]), None);
    assert_eq!(buttons.get(ButtonId::Back), Some(Action::ToggleSmartShift));
    assert_eq!(buttons.get(ButtonId::Forward), Some(Action::Os(5)));
    let gestures = gesture_bindings_for(&config, Some(&list[1]));
    assert_eq!(gestures.get(GestureDirection::Left), Some(Action::Os(77)));
    assert_eq!(gestures.get(GestureDirection::Down), Some(Action::Os(11)));
    assert_eq!(bindings_for(&config, None, None).get(ButtonId::Back), Some(Action::Os(4)));
    assert_eq!(
        gesture_bindings_for(&config, Some(&list[0])).get(GestureDirection::Left),
        Some(Action::Os(12))
    );
}

#[test]
fn the_hook_begins_with_the_saved_device() {
    let none = |_: &DeviceModelInfo| None;
    let (bindings, dpi, loaded) =
        load_config_and_bindings(Some(config(Some("b"))), config(None), &inventories(), &none);
    assert_eq!(loaded.selected_device.as_deref(), Some("b"));
    assert_eq!(bindings.get(ButtonId::Back), Some(Action::ToggleSmartShift));
    assert_eq!(dpi.presets, vec![800, 1200, 1600]);
    assert_eq!(dpi.index, 0);
    assert_eq!(dpi.target.map(|t| t.slot), Some(6));

    let (bindings, dpi, loaded) =
        load_config_and_bindings(None, config(None), &inventories(), &none);
    assert_eq!(loaded.selected_device, None);
    assert_eq!(bindings.get(ButtonId::Back), Some(Action::Os(4)));
    assert!(dpi.presets.is_empty());

    let (_, dpi, _) = load_config_and_bindings(Some(config(Some("b"))), config(None), &[], &none);
    assert!(dpi.presets.is_empty());
    assert!(dpi.target.is_none());
}

// ── events and actions ───────────────────────────────────────────────────────

fn guarded<T>(value: T) -> Guarded<T> {
    Guarded { value, poisoned: false }
}

fn bound() -> Guarded<ActionMap<ButtonId>> {
    let mut map = ActionMap::new();
    map.insert(ButtonId::Back, Action::Os(40));
    map.insert(ButtonId::LeftClick, Action::Os(41));
    guarded(map)
}

#[test]
fn side_buttons_are_owned_and_others_pass() {
    let bindings = bound();
    let react = |id: ButtonId, pressed: bool| {
        on_event(&MouseEvent::Button { id, pressed }, &bindings)
    };
    let suppress = |action: Option<Action>| Reaction {
        disposition: EventDisposition::Suppress,
        action,
    };
    let pass = Reaction { disposition: EventDisposition::PassThrough, action: None };
    assert_eq!(react(ButtonId::Back, true), suppress(Some(Action::Os(40))));
    assert_eq!(react(ButtonId::Back, false), suppress(None));
    assert_eq!(react(ButtonId::Forward, true), suppress(None));
    assert_eq!(react(ButtonId::LeftClick, true), pass);
    assert_eq!(react(ButtonId::DpiToggle, true), pass);
    let still = ScrollDelta::Units { units: 0, per_tick: 1 };
    assert_eq!(on_event(&MouseEvent::Scroll { delta_x: still, delta_y: still }, &bindings), pass);
    assert_eq!(on_event(&MouseEvent::Moved { delta_x: 1, delta_y: 1 }, &bindings), pass);
    assert_eq!(on_event(&MouseEvent::CaptureInterrupted, &bindings), pass);
    let mut poisoned = bound();
    poisoned.poisoned = true;
    assert_eq!(
        on_event(&MouseEvent::Button { id: ButtonId::Back, pressed: true }, &poisoned),
        suppress(None)
    );
}

fn presets(list: Vec<u32>) -> Guarded<DpiCycleState> {
    guarded(DpiCycleState {
        presets: list,
        index: 0,
        target: Some(DpiTarget { receiver_uid: "uid".to_owned(), slot: 3 }),
    })
}

fn written(effect: Effect) -> u32 {
    match effect {
        Effect::WriteDpi { dpi, target } => {
            assert_eq!(target.map(|t| t.slot), Some(3));
            dpi
        }
        other => panic!("expected a DPI write, got {other:?}"),
    }
}

#[test]
fn cycling_goes_round_the_presets() {
    let mut dpi = presets(vec![800, 1200, 1600]);
    assert_eq!(written(dispatch_action(&Action::CycleDpiPresets, &mut dpi)), 1200);
    assert_eq!(written(dispatch_action(&Action::CycleDpiPresets, &mut dpi)), 1600);
    assert_eq!(written(dispatch_action(&Action::CycleDpiPresets, &mut dpi)), 800);
    assert_eq!(dpi.value.index, 0);
    assert_eq!(written(dispatch_action(&Action::SetDpiPreset(2), &mut dpi)), 1600);
    assert_eq!(dpi.value.index, 2);
    assert!(matches!(
        dispatch_action(&Action::SetDpiPreset(3), &mut dpi),
        Effect::Ignored
    ));
    assert_eq!(dpi.value.index, 2);
}

#[test]
fn actions_without_presets_or_state_are_ignored() {
    let mut none = presets(Vec::new());
    assert!(matches!(dispatch_action(&Action::CycleDpiPresets, &mut none), Effect::Ignored));
    assert!(matches!(dispatch_action(&Action::SetDpiPreset(0), &mut none), Effect::Ignored));
    let mut poisoned = presets(vec![800, 1200]);
    poisoned.poisoned = true;
    assert!(matches!(dispatch_action(&Action::CycleDpiPresets, &mut poisoned), Effect::Ignored));
    assert_eq!(poisoned.value.index, 0);
    assert!(matches!(
        dispatch_action(&Action::ToggleSmartShift, &mut poisoned),
        Effect::ToggleSmartShift { target: None }
    ));
}

#[test]
fn other_actions_are_routed() {
    let mut dpi = presets(vec![800]);
    match dispatch_action(&Action::ToggleSmartShift, &mut dpi) {
        Effect::ToggleSmartShift { target } => assert_eq!(target.map(|t| t.slot), Some(3)),
        other => panic!("expected a toggle, got {other:?}"),
    }
    assert!(matches!(
        dispatch_action(&Action::Os(5), &mut dpi),
        Effect::Execute(Action::Os(5))
    ));
}

#[test]
fn the_hook_starts_where_it_may() {
    let ok = || Ok::<u8, HookError>(1);
    assert!(start_hook(Platform::Linux, false, ok).is_some());
    assert!(start_hook(Platform::MacOs, true, ok).is_some());
    assert!(start_hook(Platform::MacOs, false, ok).is_none());
    assert!(start_hook(Platform::Other, true, ok).is_none());
    assert!(start_hook(Platform::Linux, true, || Err::<u8, _>(HookError::NoDeviceFound)).is_none());
}

#[test]
fn the_hook_is_installed_once_access_is_granted() {
    let mut drain = Drain::new();
    let on = |drain: &Drain, granted: bool| drain.on(Update::Accessibility { granted });
    assert_eq!(
        on(&drain, false),
        Step::SetAccessibility { granted: false, install_hook: false }
    );
    assert_eq!(on(&drain, true), Step::SetAccessibility { granted: true, install_hook: true });
    drain.hook_tried(false);
    assert_eq!(on(&drain, true), Step::SetAccessibility { granted: true, install_hook: true });
    drain.hook_tried(true);
    assert_eq!(on(&drain, true), Step::SetAccessibility { granted: true, install_hook: false });
    assert_eq!(drain.on(Update::Inventory), Step::RefreshInventories);
    assert_eq!(drain.on(Update::Foreground), Step::SetCurrentApp);
    assert_eq!(drain.on(Update::Closed), Step::End);
    assert!(prompt_at_launch(Platform::MacOs, false));
    assert!(!prompt_at_launch(Platform::MacOs, true));
    assert!(!prompt_at_launch(Platform::Linux, false));
}

// ── embedded assets and watcher ──────────────────────────────────────────────

#[test]
fn embedded_assets_are_served_first() {
    assert_eq!(AppAssets.load(LOGO), Served::Logo);
    assert_eq!(AppAssets.load("action-icons/arrow-left.svg"), Served::ActionIcon(0));
    assert_eq!(AppAssets.load("action-icons/volume-x.svg"), Served::ActionIcon(42));
    assert_eq!(AppAssets.load("icons/check.svg"), Served::Delegated);
    assert_eq!(action_icon_paths().len(), 43);
    for (i, path) in action_icon_paths().into_iter().enumerate() {
        assert_eq!(AppAssets.load(path), Served::ActionIcon(i));
    }
}

#[test]
fn the_watcher_goes_on_until_nobody_listens() {
    assert_eq!(snapshot(Some(inventories())).len(), 2);
    assert!(snapshot(None).is_empty());
    assert_eq!(after_send(true), Next::Sleep);
    assert_eq!(after_send(false), Next::Exit);
}
