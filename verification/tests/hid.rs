use openlogi::device::BatteryInfo;
use openlogi::device::BatteryLevel;
use openlogi::device::BatteryStatus;
use openlogi::device::DeviceInventory;
use openlogi::device::DeviceKind;
use openlogi::device::DeviceRoute;
use openlogi::device::DIRECT_DEVICE_INDEX;
use openlogi::hid::inventory::codename_request;
use openlogi::hid::inventory::drain_device_arrival;
use openlogi::hid::inventory::enumerate;
use openlogi::hid::inventory::is_candidate;
use openlogi::hid::inventory::map_battery_level;
use openlogi::hid::inventory::map_battery_status;
use openlogi::hid::inventory::map_kind;
use openlogi::hid::inventory::probe_direct;
use openlogi::hid::inventory::probe_features;
use openlogi::hid::inventory::read_codename;
use openlogi::hid::inventory::Arrival;
use openlogi::hid::inventory::BatteryReport;
use openlogi::hid::inventory::BoltDeviceConnection;
use openlogi::hid::inventory::BoltDeviceKind;
use openlogi::hid::inventory::BoltPairing;
use openlogi::hid::inventory::BoltProbe;
use openlogi::hid::inventory::HidInfo;
use openlogi::hid::inventory::HidppBatteryLevel;
use openlogi::hid::inventory::HidppBatteryStatus;
use openlogi::hid::inventory::InventoryError;
use openlogi::hid::inventory::ModelReport;
use openlogi::hid::inventory::Probe;
use openlogi::hid::transport::enumerate_hidpp_devices;
use openlogi::hid::transport::is_hidpp_long_collection;
use openlogi::hid::transport::is_long_only_collection;
use openlogi::hid::transport::open_route_writer;
use openlogi::hid::transport::HidChannel;
use openlogi::hid::transport::Node;
use openlogi::hid::transport::ReadOutcome;
use openlogi::hid::transport::ReadResponse;

#[test]
fn matches_usb_ble_and_keyboard_hidpp_collections() {
    assert!(is_hidpp_long_collection(0xff00, 0x0002)); // USB / receiver / BT-classic
    assert!(is_hidpp_long_collection(0xff43, 0x0202)); // BLE-direct (Lift, Signature)
    assert!(is_hidpp_long_collection(0xff43, 0x0602)); // wired G-series keyboard (G513)
    assert!(!is_hidpp_long_collection(0x0001, 0x0002)); // generic-desktop mouse
    assert!(!is_hidpp_long_collection(0xff43, 0x0002)); // page right, usage wrong
}

#[test]
fn only_ble_collection_is_long_only() {
    assert!(is_long_only_collection(0xff43, 0x0202)); // BLE-direct → short-unsupported
    assert!(!is_long_only_collection(0xff00, 0x0002)); // USB / receiver carries both reports
    assert!(!is_long_only_collection(0xff43, 0x0602)); // wired G-series keyboard carries both
    assert!(!is_long_only_collection(0x0001, 0x0002)); // not a HID++ collection at all
}

fn node(vendor_id: u16, product_id: u16, usage_page: u16, usage_id: u16) -> Node {
    Node { vendor_id, product_id, usage_page, usage_id }
}

#[test]
fn only_logitech_hidpp_nodes_are_listed() {
    let nodes = vec![
        node(0x046d, 1, 0x0001, 0x0002),
        node(0x046d, 2, 0xff00, 0x0002),
        node(0x1234, 3, 0xff00, 0x0002),
        node(0x046d, 4, 0xff43, 0x0602),
    ];
    assert_eq!(enumerate_hidpp_devices(&nodes), vec![1, 3]);
}

#[test]
fn a_direct_route_is_served_by_its_first_hidpp_node() {
    let nodes = vec![
        node(0x046d, 9, 0x0001, 0x0002),
        node(0x046d, 9, 0xff43, 0x0602),
        node(0x046d, 9, 0xff00, 0x0002),
    ];
    let direct = |product_id: u16| DeviceRoute::Direct { vendor_id: 0x046d, product_id };
    assert_eq!(open_route_writer(&direct(9), &nodes), Some(1));
    assert_eq!(open_route_writer(&direct(8), &nodes), None);
    let bolt = DeviceRoute::Bolt { receiver_uid: "uid".to_owned(), slot: 1 };
    assert_eq!(open_route_writer(&bolt, &nodes), None);
}

#[test]
fn a_long_only_channel_does_not_advertise_short_reports() {
    let ble = HidChannel::new(&node(0x046d, 5, 0xff43, 0x0202));
    assert_eq!(ble.supports_short_long_hidpp(), Some((false, true)));
    assert_eq!((ble.vendor_id, ble.product_id), (0x046d, 5));
    let usb = HidChannel::new(&node(0x046d, 5, 0xff00, 0x0002));
    assert_eq!(usb.supports_short_long_hidpp(), Some((true, true)));
}

#[test]
fn a_disconnected_channel_parks_its_reader() {
    let usb = HidChannel::new(&node(0x046d, 5, 0xff00, 0x0002));
    assert_eq!(usb.read_report(ReadOutcome::Report(20)), ReadResponse::Deliver(20));
    assert_eq!(usb.read_report(ReadOutcome::Disconnected), ReadResponse::Park);
    assert_eq!(usb.read_report(ReadOutcome::Failed), ReadResponse::Fail);
}

#[test]
fn candidates_are_logitech_long_report_nodes() {
    assert!(is_candidate(0x046d, 0xff00, 0x0002));
    assert!(!is_candidate(0x046e, 0xff00, 0x0002));
    assert!(!is_candidate(0x046d, 0xff43, 0x0202));
    assert!(!is_candidate(0x046d, 0xff00, 0x0001));
}

#[test]
fn kinds_and_batteries_are_mapped() {
    let kinds = [
        (BoltDeviceKind::Keyboard, DeviceKind::Keyboard),
        (BoltDeviceKind::Mouse, DeviceKind::Mouse),
        (BoltDeviceKind::Numpad, DeviceKind::Numpad),
        (BoltDeviceKind::Presenter, DeviceKind::Presenter),
        (BoltDeviceKind::Remote, DeviceKind::Remote),
        (BoltDeviceKind::Trackball, DeviceKind::Trackball),
        (BoltDeviceKind::Touchpad, DeviceKind::Touchpad),
        (BoltDeviceKind::Tablet, DeviceKind::Tablet),
        (BoltDeviceKind::Gamepad, DeviceKind::Gamepad),
        (BoltDeviceKind::Joystick, DeviceKind::Joystick),
        (BoltDeviceKind::Headset, DeviceKind::Headset),
        (BoltDeviceKind::Unknown, DeviceKind::Unknown),
        (BoltDeviceKind::Other, DeviceKind::Unknown),
    ];
    for (reported, kind) in kinds {
        assert_eq!(map_kind(reported), kind);
    }
    assert_eq!(map_battery_level(HidppBatteryLevel::Critical), BatteryLevel::Critical);
    assert_eq!(map_battery_level(HidppBatteryLevel::Low), BatteryLevel::Low);
    assert_eq!(map_battery_level(HidppBatteryLevel::Good), BatteryLevel::Good);
    assert_eq!(map_battery_level(HidppBatteryLevel::Full), BatteryLevel::Full);
    assert_eq!(map_battery_level(HidppBatteryLevel::Other), BatteryLevel::Unknown);
    let states = [
        (HidppBatteryStatus::Discharging, BatteryStatus::Discharging),
        (HidppBatteryStatus::Charging, BatteryStatus::Charging),
        (HidppBatteryStatus::ChargingSlow, BatteryStatus::ChargingSlow),
        (HidppBatteryStatus::Full, BatteryStatus::Full),
        (HidppBatteryStatus::Error, BatteryStatus::Error),
        (HidppBatteryStatus::Other, BatteryStatus::Unknown),
    ];
    for (reported, status) in states {
        assert_eq!(map_battery_status(reported), status);
    }
}

fn info() -> HidInfo {
    HidInfo { name: "MX Master".to_owned(), vendor_id: 0x046d, product_id: 0xb034 }
}

fn battery() -> BatteryInfo {
    BatteryInfo {
        percentage: 55,
        level: BatteryLevel::Good,
        status: BatteryStatus::Discharging,
    }
}

fn report() -> ModelReport {
    ModelReport {
        entity_count: 2,
        unit_id: [9, 8, 7, 6],
        usb: true,
        e_quad: false,
        btle: true,
        bluetooth: false,
        model_id: [0xb034, 0xc000, 0],
        extended_model_id: 3,
    }
}

#[test]
fn features_are_converted_where_they_answer() {
    assert!(matches!(probe_features(None, None), (None, None)));
    let (bat, model) = probe_features(
        Some(BatteryReport {
            charging_percentage: 55,
            level: HidppBatteryLevel::Good,
            status: HidppBatteryStatus::Discharging,
        }),
        Some((report(), "key".to_owned())),
    );
    assert_eq!(bat, Some(battery()));
    let model = model.expect("the model answered");
    assert_eq!(model.entity_count, 2);
    assert_eq!(model.unit_id, [9, 8, 7, 6]);
    assert_eq!(model.model_ids, [0xb034, 0xc000, 0]);
    assert_eq!(model.extended_model_id, 3);
    assert!(model.transports.usb && model.transports.btle);
    assert!(!model.transports.equad && !model.transports.bluetooth);
    assert_eq!(model.config_key(), "key");
}

#[test]
fn a_direct_device_is_listed_under_its_own_name() {
    let inventory = probe_direct(&info(), Some(battery()), None).expect("the battery answered");
    assert_eq!(inventory.receiver.name, "MX Master");
    assert_eq!(inventory.receiver.unique_id, None);
    assert_eq!(inventory.receiver.product_id, 0xb034);
    assert_eq!(inventory.paired.len(), 1);
    let device = &inventory.paired[0];
    assert_eq!(device.slot, DIRECT_DEVICE_INDEX);
    assert_eq!(device.codename.as_deref(), Some("MX Master"));
    assert_eq!(device.kind, DeviceKind::Unknown);
    assert!(device.online);
    assert_eq!(device.wpid, None);
    assert_eq!(device.battery, Some(battery()));
    assert!(probe_direct(&info(), None, None).is_none());
}

fn connection(index: u8, online: bool, wpid: u16) -> BoltDeviceConnection {
    BoltDeviceConnection { index, kind: BoltDeviceKind::Mouse, online, wpid }
}

#[test]
fn a_receiver_is_walked_slot_by_slot() {
    let mut connections = Vec::new();
    assert!(drain_device_arrival(
        &mut connections,
        Arrival::DeviceConnection(connection(2, false, 0x1111))
    ));
    assert!(drain_device_arrival(&mut connections, Arrival::OtherEvent));
    assert!(drain_device_arrival(
        &mut connections,
        Arrival::DeviceConnection(connection(2, true, 0x2222))
    ));
    assert!(!drain_device_arrival(&mut connections, Arrival::TimedOut));
    assert!(!drain_device_arrival(&mut connections, Arrival::Closed));
    assert_eq!(connections.len(), 2);

    let mut probe = BoltProbe::new(connections);
    let keyboard = BoltPairing { kind: BoltDeviceKind::Keyboard, online: false };
    let mut seen = Vec::new();
    while let Some(slot) = probe.next_slot() {
        seen.push(slot);
        if slot == 2 || slot == 5 {
            assert_eq!(probe.status(&keyboard).online, slot == 2);
            probe.record(&keyboard, Some("name".to_owned()), Some(battery()), None);
        } else {
            probe.skip();
        }
    }
    assert_eq!(seen, vec![1, 2, 3, 4, 5, 6]);
    assert!(probe.count_mismatch(Some(3)));
    assert!(!probe.count_mismatch(Some(2)));
    assert!(!probe.count_mismatch(None));

    let inventory = probe.finish(&info(), Some("uid".to_owned()));
    assert_eq!(inventory.receiver.name, "Logi Bolt Receiver");
    assert_eq!(inventory.receiver.unique_id.as_deref(), Some("uid"));
    assert_eq!(inventory.receiver.vendor_id, 0x046d);
    assert_eq!(inventory.paired.len(), 2);
    // The last arrival event counts over the pairing register.
    let live = &inventory.paired[0];
    assert_eq!(live.slot, 2);
    assert_eq!(live.kind, DeviceKind::Mouse);
    assert_eq!(live.wpid, Some(0x2222));
    assert!(live.online);
    assert_eq!(live.battery, Some(battery()));
    // Without one the register counts, and an offline device has no features.
    let asleep = &inventory.paired[1];
    assert_eq!(asleep.slot, 5);
    assert_eq!(asleep.kind, DeviceKind::Keyboard);
    assert_eq!(asleep.wpid, None);
    assert!(!asleep.online);
    assert_eq!(asleep.battery, None);
}

#[test]
fn a_codename_is_as_long_as_it_says() {
    assert_eq!(codename_request(2), [0x62, 0x01, 0x00]);
    let mut response = [0u8; 16];
    response[2] = 9;
    response[3..12].copy_from_slice(b"MX Master");
    assert_eq!(read_codename(&response), Some("MX Master".to_owned()));
    response[2] = 2;
    assert_eq!(read_codename(&response), Some("MX".to_owned()));
    response[2] = 0;
    assert_eq!(read_codename(&response), Some(String::new()));
    let mut long = [b'x'; 16];
    long[2] = 200;
    assert_eq!(read_codename(&long), Some("xxxxxxxxxxxxx".to_owned()));
    response[2] = 1;
    response[3] = 0xff;
    assert_eq!(read_codename(&response), None);
}

#[test]
fn a_failing_node_hides_no_other_node() {
    let found = |name: &str| {
        let mut info = info();
        info.name = name.to_owned();
        Probe::Found(probe_direct(&info, Some(battery()), None).expect("the battery answered"))
    };
    let list: Vec<DeviceInventory> =
        enumerate(vec![found("a"), Probe::Failed, Probe::Nothing, found("b")]);
    let names: Vec<&str> = list.iter().map(|i| i.receiver.name.as_str()).collect();
    assert_eq!(names, vec!["a", "b"]);
    assert_eq!(
        InventoryError::Hid("unplugged".to_owned()).message(),
        "HID transport error"
    );
}
