use openlogi::agent::launch_agent;
use openlogi::agent::orchestrator::pick_current;
use openlogi::agent::orchestrator::AgentDevice;
use openlogi::agent::orchestrator::Lock;
use openlogi::agent::orchestrator::Orchestrator;
use openlogi::agent::self_restart::assess;
use openlogi::agent::self_restart::BinaryWatch;
use openlogi::agent::self_restart::Fingerprint;
use openlogi::agent::self_restart::WatchDisabled;
use openlogi::binding::Action;
use openlogi::binding::ActionMap;
use openlogi::binding::ButtonId;
use openlogi::binding::Defaults;
use openlogi::binding::GestureDirection;
use openlogi::config::AppProfile;
use openlogi::config::AppSettings;
use openlogi::config::Config;
use openlogi::config::DeviceConfig;
use openlogi::device::DeviceInventory;
use openlogi::device::DeviceKind;
use openlogi::device::DeviceModelInfo;
use openlogi::device::DeviceRoute;
use openlogi::device::DeviceTransports;
use openlogi::device::PairedDevice;
use openlogi::device::ReceiverInfo;
use openlogi::platform::Platform;
use openlogi::plist::Change;

// ── autostart ────────────────────────────────────────────────────────────────

#[test]
fn rendered_plist_targets_the_agent_and_keeps_alive() {
    let body = launch_agent::render_plist(
        "/Applications/OpenLogi.app/Contents/Library/LoginItems/OpenLogiAgent.app/Contents/MacOS/openlogi-agent",
    );
    assert!(body.contains(launch_agent::LABEL));
    assert!(body.contains("openlogi-agent"));
    assert!(body.contains("RunAtLoad"));
    // KeepAlive must be true (the always-on daemon survives crashes) and
    // there is no --minimized arg (the agent is always headless).
    assert!(body.contains("<key>KeepAlive</key>\n  <true/>"));
    assert!(!body.contains("--minimized"));
}

#[test]
fn the_agent_plist_is_exactly_this() {
    assert_eq!(
        launch_agent::render_plist("/bin/agent"),
        "<?xml version=\"1.0\" encoding=\"UTF-8\"?>\n\
        <!DOCTYPE plist PUBLIC \"-//Apple//DTD PLIST 1.0//EN\" \
        \"http://www.apple.com/DTD/PropertyList-1.0.dtd\">\n\
        <plist version=\"1.0\">\n\
        <dict>\n  \
        <key>Label</key>\n  \
        <string>org.openlogi.agent</string>\n  \
        <key>ProgramArguments</key>\n  \
        <array>\n    \
        <string>/bin/agent</string>\n  \
        </array>\n  \
        <key>RunAtLoad</key>\n  \
        <true/>\n  \
        <key>KeepAlive</key>\n  \
        <true/>\n\
        </dict>\n\
        </plist>\n"
    );
}

#[test]
fn reconciling_the_agent_touches_the_disk_only_where_needed() {
    let body = launch_agent::render_plist("/bin/agent");
    let reconcile = |enabled: bool, current: Option<&str>| {
        launch_agent::reconcile(Platform::MacOs, enabled, "/bin/agent", current)
    };
    match reconcile(true, None) {
        Some(Change::Install(text)) => assert_eq!(text, body),
        other => panic!("expected an install, got {other:?}"),
    }
    assert!(matches!(reconcile(true, Some("stale")), Some(Change::Install(_))));
    assert!(matches!(reconcile(true, Some(body.as_str())), Some(Change::Current)));
    assert!(matches!(reconcile(false, Some("stale")), Some(Change::Remove)));
    assert!(matches!(reconcile(false, None), Some(Change::Absent)));
    assert!(launch_agent::reconcile(Platform::Linux, true, "/bin/agent", None).is_none());
}

#[test]
fn the_agent_plist_lives_below_the_home_directory() {
    assert_eq!(
        launch_agent::plist_path(&Some(b"/Users/me".to_vec()), launch_agent::LEGACY_LABEL),
        Ok(b"/Users/me/Library/LaunchAgents/org.openlogi.openlogi.plist".to_vec())
    );
    assert!(launch_agent::plist_path(&None, launch_agent::LABEL).is_err());
    assert!(launch_agent::remove_legacy(true, true));
    assert!(!launch_agent::remove_legacy(true, false));
    assert!(!launch_agent::remove_legacy(false, true));
}

// ── restart on update ────────────────────────────────────────────────────────

fn fp(len: u64, secs: u64) -> Fingerprint {
    (len, i128::from(secs) * 1_000_000_000)
}

#[test]
fn restarts_only_after_a_change_settles() {
    let baseline = fp(100, 1);
    let new = fp(200, 2);
    // First differing sighting arms but does not restart…
    assert_eq!(assess(baseline, None, Some(new)), (Some(new), false));
    // …the same fingerprint on the next tick restarts.
    assert_eq!(assess(baseline, Some(new), Some(new)), (Some(new), true));
}

#[test]
fn churning_writes_keep_rearming() {
    let baseline = fp(100, 1);
    let half = fp(150, 2);
    let full = fp(200, 3);
    // A still-growing file never matches its previous sighting.
    assert_eq!(
        assess(baseline, Some(half), Some(full)),
        (Some(full), false)
    );
}

#[test]
fn vanished_and_reverted_files_disarm() {
    let baseline = fp(100, 1);
    let new = fp(200, 2);
    // Mid-replace ENOENT: not a change, and any armed candidate is dropped.
    assert_eq!(assess(baseline, Some(new), None), (None, false));
    // Back at the baseline (e.g. a rollback): disarm too.
    assert_eq!(assess(baseline, Some(new), Some(baseline)), (None, false));
}

#[test]
fn a_failed_restart_waits_for_a_fresh_settle() {
    let baseline = fp(100, 1);
    let new = fp(100, 2);
    let mut watch = BinaryWatch::spawn(true, Some(baseline)).expect("the watch runs");
    assert!(!watch.tick(Some(baseline)));
    assert!(!watch.tick(Some(new)));
    assert!(watch.tick(Some(new)));
    watch.restart_failed();
    assert!(!watch.tick(Some(new)));
    assert!(watch.tick(Some(new)));
}

#[test]
fn the_watch_is_disabled_without_a_path_or_a_baseline() {
    assert_eq!(
        BinaryWatch::spawn(false, Some(fp(1, 1))).err(),
        Some(WatchDisabled::NoPath)
    );
    assert_eq!(
        BinaryWatch::spawn(true, None).err(),
        Some(WatchDisabled::NoFingerprint)
    );
}

// ── orchestrator ─────────────────────────────────────────────────────────────

fn defaults() -> Defaults {
    Defaults {
        left_click: Action::Os(1),
        right_click: Action::Os(2),
        middle_click: Action::Os(3),
        back: Action::Os(4),
        forward: Action::Os(5),
        dpi_toggle: Action::CycleDpiPresets,
        gesture_up: Action::Os(10),
        gesture_down: Action::Os(11),
        gesture_left: Action::Os(12),
        gesture_right: Action::Os(13),
        gesture_click: Action::ToggleSmartShift,
    }
}

fn buttons(pairs: &[(ButtonId, Action)]) -> ActionMap<ButtonId> {
    let mut map = ActionMap::new();
    for (id, action) in pairs {
        map.insert(*id, *action);
    }
    map
}

fn config(selected: Option<&str>) -> Config {
    let mut gestures = ActionMap::new();
    gestures.insert(GestureDirection::Up, Action::Os(90));
    Config {
        app_settings: AppSettings {
            launch_at_login: true,
            check_for_updates: false,
            thumbwheel_sensitivity: 7,
        },
        selected_device: selected.map(str::to_owned),
        devices: vec![
            DeviceConfig {
                key: "mouse-a".to_owned(),
                bindings: buttons(&[(ButtonId::Back, Action::Os(40))]),
                profiles: Vec::new(),
                gestures: ActionMap::new(),
                dpi_presets: vec![400],
            },
            DeviceConfig {
                key: "mouse-b".to_owned(),
                bindings: buttons(&[
                    (ButtonId::Back, Action::Os(50)),
                    (ButtonId::Forward, Action::Os(51)),
                ]),
                profiles: vec![AppProfile {
                    app: "Firefox".to_owned(),
                    bindings: buttons(&[(ButtonId::Back, Action::SetDpiPreset(1))]),
                }],
                gestures,
                dpi_presets: vec![800, 1600],
            },
        ],
        defaults: defaults(),
    }
}

fn model(key: &str) -> DeviceModelInfo {
    DeviceModelInfo {
        entity_count: 1,
        unit_id: [1, 2, 3, 4],
        transports: DeviceTransports { usb: false, equad: false, btle: true, bluetooth: false },
        model_ids: [0xb042, 0, 0],
        extended_model_id: 1,
        key: key.to_owned(),
    }
}

fn paired(slot: u8, key: Option<&str>) -> PairedDevice {
    PairedDevice {
        slot,
        codename: None,
        wpid: None,
        kind: DeviceKind::Mouse,
        online: true,
        battery: None,
        model_info: key.map(model),
    }
}

fn inventory(uid: Option<&str>, devices: Vec<PairedDevice>) -> DeviceInventory {
    DeviceInventory {
        receiver: ReceiverInfo {
            name: "receiver".to_owned(),
            vendor_id: 0x046d,
            product_id: 0xc548,
            unique_id: uid.map(str::to_owned),
        },
        paired: devices,
    }
}

fn two_mice() -> Vec<DeviceInventory> {
    vec![
        inventory(
            Some("uid-1"),
            vec![paired(1, None), paired(2, Some("mouse-a"))],
        ),
        inventory(None, vec![paired(0xff, Some("mouse-b"))]),
    ]
}

#[test]
fn without_devices_the_defaults_hold() {
    let orchestrator = Orchestrator::new(config(Some("mouse-b")));
    let shared = orchestrator.shared();
    assert_eq!(shared.hook_bindings.value.get(ButtonId::Back), Some(Action::Os(4)));
    assert_eq!(
        shared.gesture_bindings.value.get(GestureDirection::Click),
        Some(Action::ToggleSmartShift)
    );
    assert!(shared.dpi_cycle.value.presets.is_empty());
    assert!(shared.dpi_cycle.value.target.is_none());
    assert_eq!(shared.thumbwheel_sensitivity, 7);
    assert!(orchestrator.launch_at_login());
    assert!(orchestrator.inventory().is_empty());
}

#[test]
fn the_saved_device_is_selected_and_routed() {
    let mut orchestrator = Orchestrator::new(config(Some("mouse-b")));
    orchestrator.refresh_inventory(&two_mice());
    let shared = orchestrator.shared();
    assert_eq!(shared.hook_bindings.value.get(ButtonId::Back), Some(Action::Os(50)));
    assert_eq!(shared.hook_bindings.value.get(ButtonId::LeftClick), Some(Action::Os(1)));
    assert_eq!(
        shared.gesture_bindings.value.get(GestureDirection::Up),
        Some(Action::Os(90))
    );
    assert_eq!(shared.dpi_cycle.value.presets, vec![800, 1600]);
    assert!(matches!(
        shared.dpi_cycle.value.target,
        Some(DeviceRoute::Direct { vendor_id: 0x046d, product_id: 0xc548 })
    ));
    assert_eq!(orchestrator.inventory().len(), 2);
    assert_eq!(orchestrator.inventory()[0].paired.len(), 2);
}

#[test]
fn without_a_selection_the_first_known_device_is_taken() {
    let mut orchestrator = Orchestrator::new(config(None));
    orchestrator.refresh_inventory(&two_mice());
    let shared = orchestrator.shared();
    assert_eq!(shared.hook_bindings.value.get(ButtonId::Back), Some(Action::Os(40)));
    match shared.dpi_cycle.value.target {
        Some(DeviceRoute::Bolt { receiver_uid, slot }) => {
            assert_eq!(receiver_uid, "uid-1");
            assert_eq!(slot, 2);
        }
        other => panic!("expected a route through the receiver, got {other:?}"),
    }
}

#[test]
fn a_device_behind_an_unknown_receiver_has_no_route() {
    let mut orchestrator = Orchestrator::new(config(None));
    orchestrator.refresh_inventory(&[inventory(None, vec![paired(3, Some("mouse-a"))])]);
    let shared = orchestrator.shared();
    assert!(shared.dpi_cycle.value.target.is_none());
    assert_eq!(shared.dpi_cycle.value.presets, vec![400]);
}

#[test]
fn a_per_app_profile_applies_on_an_exact_match() {
    let mut orchestrator = Orchestrator::new(config(Some("mouse-b")));
    orchestrator.refresh_inventory(&two_mice());
    let back = |o: &Orchestrator| o.shared().hook_bindings.value.get(ButtonId::Back);
    assert!(orchestrator.set_current_app(Some("Firefox".to_owned())));
    assert_eq!(back(&orchestrator), Some(Action::SetDpiPreset(1)));
    assert_eq!(
        orchestrator.shared().hook_bindings.value.get(ButtonId::Forward),
        Some(Action::Os(51))
    );
    assert!(!orchestrator.set_current_app(Some("Firefox".to_owned())));
    assert!(orchestrator.set_current_app(Some("firefox".to_owned())));
    assert_eq!(back(&orchestrator), Some(Action::Os(50)));
    assert!(orchestrator.set_current_app(None));
    assert_eq!(back(&orchestrator), Some(Action::Os(50)));
}

#[test]
fn a_new_config_is_applied_to_the_known_devices() {
    let mut orchestrator = Orchestrator::new(config(Some("mouse-b")));
    orchestrator.refresh_inventory(&two_mice());
    let mut next = config(Some("mouse-a"));
    next.app_settings.thumbwheel_sensitivity = -3;
    next.app_settings.launch_at_login = false;
    orchestrator.reload_config(next);
    let shared = orchestrator.shared();
    assert_eq!(shared.dpi_cycle.value.presets, vec![400]);
    assert_eq!(shared.thumbwheel_sensitivity, -3);
    assert!(!orchestrator.launch_at_login());
}

#[test]
fn applying_the_same_snapshot_again_changes_nothing() {
    let mut orchestrator = Orchestrator::new(config(Some("mouse-b")));
    let mut seen = Vec::new();
    for _ in 0..2 {
        orchestrator.refresh_inventory(&two_mice());
        let shared = orchestrator.shared();
        seen.push((
            shared.hook_bindings.value.get(ButtonId::Back),
            shared.gesture_bindings.value.get(GestureDirection::Up),
            shared.dpi_cycle.value.presets,
            shared.dpi_cycle.value.index,
        ));
    }
    assert_eq!(seen[0], seen[1]);
    orchestrator.reload_config(config(Some("mouse-b")));
    assert_eq!(orchestrator.shared().dpi_cycle.value.presets, seen[0].2);
}

#[test]
fn a_poisoned_lock_keeps_its_stale_value() {
    let mut orchestrator = Orchestrator::new(config(Some("mouse-b")));
    orchestrator.poisoned(Lock::HookBindings);
    orchestrator.refresh_inventory(&two_mice());
    let shared = orchestrator.shared();
    assert_eq!(shared.hook_bindings.value.get(ButtonId::Back), Some(Action::Os(4)));
    assert_eq!(shared.dpi_cycle.value.presets, vec![800, 1600]);
    orchestrator.poisoned(Lock::DpiCycle);
    orchestrator.poisoned(Lock::GestureBindings);
    orchestrator.refresh_inventory(&[]);
    let shared = orchestrator.shared();
    assert_eq!(shared.dpi_cycle.value.presets, vec![800, 1600]);
    assert_eq!(
        shared.gesture_bindings.value.get(GestureDirection::Up),
        Some(Action::Os(90))
    );
}

#[test]
fn an_unknown_selection_falls_back_to_the_first_device() {
    let devices = vec![
        AgentDevice { config_key: "a".to_owned(), route: None },
        AgentDevice { config_key: "b".to_owned(), route: None },
        AgentDevice { config_key: "b".to_owned(), route: None },
    ];
    assert_eq!(pick_current(&devices, Some("b")), 1);
    assert_eq!(pick_current(&devices, Some("c")), 0);
    assert_eq!(pick_current(&devices, None), 0);
    assert_eq!(pick_current(&Vec::new(), Some("a")), 0);
}
