//! Enumerate connected HID++ receivers and their paired devices.
//!
//! Two sources are combined per receiver: arrival events, which only online,
//! responsive devices send, and the pairing register polled per slot, which
//! also covers paired-but-offline devices. A device that has been asleep thus
//! still shows up with its codename and kind.

use crate::device::BatteryInfo;
use crate::device::BatteryLevel;
use crate::device::BatteryStatus;
use crate::device::DeviceInventory;
use crate::device::DeviceKind;
use crate::device::DeviceModelInfo;
use crate::device::DeviceTransports;
use crate::device::InventoryView;
use crate::device::PairedDevice;
use crate::device::ReceiverInfo;
use crate::device::DIRECT_DEVICE_INDEX;
use crate::search::last_of;
use crate::search::lemma_last_is;
use crate::text::from_utf8;
use vstd::prelude::*;
use vstd::utf8::decode_utf8;
use vstd::utf8::valid_utf8;

verus! {

/// Logitech HID vendor ID.
pub const LOGITECH_VID: u16 = 0x046d;

/// HID++ long-report usage page.
pub const HIDPP_USAGE_PAGE: u16 = 0xff00;

/// HID++ long-report usage. Together with the page it gives one HID node per
/// physical HID++ device.
pub const HIDPP_LONG_USAGE_ID: u16 = 0x0002;

/// How long to wait for device-arrival event bursts before assuming that the
/// receiver has finished reporting, in milliseconds. Devices that may be asleep
/// need a generous window to wake and respond.
pub const ARRIVAL_DRAIN_MS: u64 = 1500;

/// Maximum number of pairing slots a Bolt receiver supports.
pub const MAX_BOLT_SLOTS: u8 = 6;

/// Name a Bolt receiver is listed under.
pub const BOLT_RECEIVER_NAME: &'static str = "Logi Bolt Receiver";

/// Why devices could not be enumerated.
#[derive(Debug)]
pub enum InventoryError {
    /// The HID transport failed; the string is its own description.
    Hid(String),
}

impl InventoryError {
    /// The text shown to the user.
    pub fn message(&self) -> (text: String)
        ensures
            text@ == "HID transport error"@,
    {
        "HID transport error".to_owned()
    }
}

/// The kinds of device a Bolt receiver tells apart.
#[derive(Clone, Copy, Debug, PartialEq, Eq, Structural)]
pub enum BoltDeviceKind {
    Unknown,
    Keyboard,
    Mouse,
    Numpad,
    Presenter,
    Remote,
    Trackball,
    Touchpad,
    Tablet,
    Gamepad,
    Joystick,
    Headset,
    /// A kind that is not known yet.
    Other,
}

/// The battery levels a device reports.
#[derive(Clone, Copy, Debug, PartialEq, Eq, Structural)]
pub enum HidppBatteryLevel {
    Critical,
    Low,
    Good,
    Full,
    /// A level that is not known yet.
    Other,
}

/// The battery states a device reports.
#[derive(Clone, Copy, Debug, PartialEq, Eq, Structural)]
pub enum HidppBatteryStatus {
    Discharging,
    Charging,
    ChargingSlow,
    Full,
    Error,
    /// A state that is not known yet.
    Other,
}

/// A device announced itself to the receiver.
#[derive(Clone, Copy, Debug, PartialEq, Eq, Structural)]
pub struct BoltDeviceConnection {
    /// Its slot.
    pub index: u8,
    pub kind: BoltDeviceKind,
    pub online: bool,
    pub wpid: u16,
}

/// What the receiver's pairing register says of a slot.
#[derive(Clone, Copy, Debug, PartialEq, Eq, Structural)]
pub struct BoltPairing {
    pub kind: BoltDeviceKind,
    pub online: bool,
}

/// What a HID node says of itself.
#[derive(Debug)]
pub struct HidInfo {
    pub name: String,
    pub vendor_id: u16,
    pub product_id: u16,
}

/// The kind a receiver's kind stands for.
pub open spec fn kind_of(k: BoltDeviceKind) -> DeviceKind {
    match k {
        BoltDeviceKind::Keyboard => DeviceKind::Keyboard,
        BoltDeviceKind::Mouse => DeviceKind::Mouse,
        BoltDeviceKind::Numpad => DeviceKind::Numpad,
        BoltDeviceKind::Presenter => DeviceKind::Presenter,
        BoltDeviceKind::Remote => DeviceKind::Remote,
        BoltDeviceKind::Trackball => DeviceKind::Trackball,
        BoltDeviceKind::Touchpad => DeviceKind::Touchpad,
        BoltDeviceKind::Tablet => DeviceKind::Tablet,
        BoltDeviceKind::Gamepad => DeviceKind::Gamepad,
        BoltDeviceKind::Joystick => DeviceKind::Joystick,
        BoltDeviceKind::Headset => DeviceKind::Headset,
        BoltDeviceKind::Unknown | BoltDeviceKind::Other => DeviceKind::Unknown,
    }
}

/// The kind a receiver's kind stands for.
pub fn map_kind(k: BoltDeviceKind) -> (kind: DeviceKind)
    ensures
        kind == kind_of(k),
{
    match k {
        BoltDeviceKind::Keyboard => DeviceKind::Keyboard,
        BoltDeviceKind::Mouse => DeviceKind::Mouse,
        BoltDeviceKind::Numpad => DeviceKind::Numpad,
        BoltDeviceKind::Presenter => DeviceKind::Presenter,
        BoltDeviceKind::Remote => DeviceKind::Remote,
        BoltDeviceKind::Trackball => DeviceKind::Trackball,
        BoltDeviceKind::Touchpad => DeviceKind::Touchpad,
        BoltDeviceKind::Tablet => DeviceKind::Tablet,
        BoltDeviceKind::Gamepad => DeviceKind::Gamepad,
        BoltDeviceKind::Joystick => DeviceKind::Joystick,
        BoltDeviceKind::Headset => DeviceKind::Headset,
        _ => DeviceKind::Unknown,
    }
}

/// The battery level a reported level stands for.
pub open spec fn level_of(level: HidppBatteryLevel) -> BatteryLevel {
    match level {
        HidppBatteryLevel::Critical => BatteryLevel::Critical,
        HidppBatteryLevel::Low => BatteryLevel::Low,
        HidppBatteryLevel::Good => BatteryLevel::Good,
        HidppBatteryLevel::Full => BatteryLevel::Full,
        HidppBatteryLevel::Other => BatteryLevel::Unknown,
    }
}

/// The battery status a reported status stands for.
pub open spec fn battery_status_of(status: HidppBatteryStatus) -> BatteryStatus {
    match status {
        HidppBatteryStatus::Discharging => BatteryStatus::Discharging,
        HidppBatteryStatus::Charging => BatteryStatus::Charging,
        HidppBatteryStatus::ChargingSlow => BatteryStatus::ChargingSlow,
        HidppBatteryStatus::Full => BatteryStatus::Full,
        HidppBatteryStatus::Error => BatteryStatus::Error,
        HidppBatteryStatus::Other => BatteryStatus::Unknown,
    }
}

/// The battery level a reported level stands for.
pub fn map_battery_level(level: HidppBatteryLevel) -> (r: BatteryLevel)
    ensures
        r == level_of(level),
{
    match level {
        HidppBatteryLevel::Critical => BatteryLevel::Critical,
        HidppBatteryLevel::Low => BatteryLevel::Low,
        HidppBatteryLevel::Good => BatteryLevel::Good,
        HidppBatteryLevel::Full => BatteryLevel::Full,
        _ => BatteryLevel::Unknown,
    }
}

/// The battery status a reported status stands for.
pub fn map_battery_status(status: HidppBatteryStatus) -> (r: BatteryStatus)
    ensures
        r == battery_status_of(status),
{
    match status {
        HidppBatteryStatus::Discharging => BatteryStatus::Discharging,
        HidppBatteryStatus::Charging => BatteryStatus::Charging,
        HidppBatteryStatus::ChargingSlow => BatteryStatus::ChargingSlow,
        HidppBatteryStatus::Full => BatteryStatus::Full,
        HidppBatteryStatus::Error => BatteryStatus::Error,
        _ => BatteryStatus::Unknown,
    }
}

/// Whether a HID node is worth probing.
pub fn is_candidate(vendor_id: u16, usage_page: u16, usage_id: u16) -> (r: bool)
    ensures
        r == (vendor_id == LOGITECH_VID && usage_page == HIDPP_USAGE_PAGE && usage_id
            == HIDPP_LONG_USAGE_ID),
        r <==> vendor_id == 0x046d && usage_page == 0xff00 && usage_id == 2,
{
    vendor_id == LOGITECH_VID && usage_page == HIDPP_USAGE_PAGE && usage_id == HIDPP_LONG_USAGE_ID
}

/// What probing one node came to.
#[derive(Debug)]
pub enum Probe {
    /// A receiver, or a directly attached device.
    Found(DeviceInventory),
    /// Not a HID++ channel, or one that does not answer.
    Nothing,
    /// The transport failed.
    Failed,
}

/// The inventories among the outcomes of a run of probes.
pub open spec fn found(probes: Seq<Probe>) -> Seq<DeviceInventory>
    decreases probes.len(),
{
    if probes.len() == 0 {
        Seq::empty()
    } else {
        match probes.last() {
            Probe::Found(inventory) => found(probes.drop_last()).push(inventory),
            Probe::Nothing | Probe::Failed => found(probes.drop_last()),
        }
    }
}

/// Add the outcome of a probe to the list of inventories. A node that fails to
/// probe is skipped and does not keep the others from being listed.
pub fn add_probe(inventories: &mut Vec<DeviceInventory>, probe: Probe)
    ensures
        final(inventories)@ == old(inventories)@ + found(seq![probe]),
{
    proof {
        reveal_with_fuel(found, 2);
        assert(seq![probe].drop_last() =~= Seq::empty());
    }
    match probe {
        Probe::Found(inventory) => {
            inventories.push(inventory);
        },
        Probe::Nothing | Probe::Failed => {},
    }
    assert(inventories@ =~= old(inventories)@ + found(seq![probe]));
}

/// The list of inventories, out of the outcome of probing each candidate in
/// turn.
pub fn enumerate(probes: Vec<Probe>) -> (inventories: Vec<DeviceInventory>)
    ensures
        inventories@ == found(probes@),
{
    let ghost all = probes@;
    let mut inventories: Vec<DeviceInventory> = Vec::new();
    assert(all.take(0) =~= Seq::empty());
    for probe in it: probes
        invariant
            it.seq() == all,
            inventories@ == found(all.take(it.index() as int)),
    {
        let ghost upto = all.take(it.index() + 1);
        proof {
            assert(upto.drop_last() =~= all.take(it.index() as int));
            assert(upto.last() == probe);
            reveal_with_fuel(found, 2);
            assert(seq![probe].drop_last() =~= Seq::empty());
        }
        add_probe(&mut inventories, probe);
        assert(inventories@ =~= found(upto));
    }
    assert(all.take(all.len() as int) =~= all);
    inventories
}

/// Whether a connection is that of a slot.
pub open spec fn at_slot(slot: u8) -> spec_fn(BoltDeviceConnection) -> bool {
    |c: BoltDeviceConnection| c.index == slot
}

/// What is known of an occupied slot.
#[derive(Clone, Copy, Debug, PartialEq, Eq, Structural)]
pub struct SlotStatus {
    pub online: bool,
    pub kind: BoltDeviceKind,
    pub wpid: Option<u16>,
}

/// The status of a slot: an arrival event counts where there was one, since it
/// is a live response, and the pairing register otherwise.
pub open spec fn status_of(
    pairing: BoltPairing,
    event: Option<BoltDeviceConnection>,
) -> SlotStatus {
    match event {
        Some(c) => SlotStatus { online: c.online, kind: c.kind, wpid: Some(c.wpid) },
        None => SlotStatus { online: pairing.online, kind: pairing.kind, wpid: None },
    }
}

/// What was read of an occupied slot.
pub struct SlotReading {
    pub pairing: BoltPairing,
    pub codename: Option<String>,
    pub battery: Option<BatteryInfo>,
    pub model_info: Option<DeviceModelInfo>,
}

/// A walk over the slots of a receiver.
#[verifier::ext_equal]
pub struct BoltProbeView {
    /// The arrival events.
    pub connections: Seq<BoltDeviceConnection>,
    /// The slot to be read next.
    pub slot: int,
    /// The devices found so far.
    pub paired: Seq<PairedDevice>,
}

impl BoltProbeView {
    /// The arrival event of a slot; a later one replaces an earlier one.
    pub open spec fn event(self, slot: u8) -> Option<BoltDeviceConnection> {
        last_of(self.connections, at_slot(slot))
    }

    /// The walk after the next slot was read; `None` stands for one that is
    /// empty or unreadable.
    pub open spec fn after(self, reading: Option<SlotReading>) -> BoltProbeView {
        let slot = self.slot as u8;
        match reading {
            Some(r) => {
                let status = status_of(r.pairing, self.event(slot));
                BoltProbeView {
                    slot: self.slot + 1,
                    paired: self.paired.push(
                        PairedDevice {
                            slot,
                            codename: r.codename,
                            wpid: status.wpid,
                            kind: kind_of(status.kind),
                            online: status.online,
                            battery: if status.online {
                                r.battery
                            } else {
                                None
                            },
                            model_info: if status.online {
                                r.model_info
                            } else {
                                None
                            },
                        },
                    ),
                    ..self
                }
            },
            None => BoltProbeView { slot: self.slot + 1, ..self },
        }
    }

    /// Slots are numbered from 1, each device found sits in a slot of its own
    /// before the next one to be read, in order, and nothing is said of the
    /// features of a device that is offline.
    pub open spec fn wf(self) -> bool {
        &&& 1 <= self.slot <= MAX_BOLT_SLOTS + 1
        &&& forall|i: int|
            0 <= i < self.paired.len() ==> 1 <= (#[trigger] self.paired[i]).slot < self.slot
        &&& forall|i: int, j: int|
            0 <= i < j < self.paired.len() ==> self.paired[i].slot < self.paired[j].slot
        &&& forall|i: int|
            0 <= i < self.paired.len() && !(#[trigger] self.paired[i]).online
                ==> self.paired[i].battery is None && self.paired[i].model_info is None
    }
}

/// A walk over the slots of a Bolt receiver.
#[derive(Debug)]
pub struct BoltProbe {
    connections: Vec<BoltDeviceConnection>,
    slot: u8,
    paired: Vec<PairedDevice>,
}

impl View for BoltProbe {
    type V = BoltProbeView;

    closed spec fn view(&self) -> BoltProbeView {
        BoltProbeView {
            connections: self.connections@,
            slot: self.slot as int,
            paired: self.paired@,
        }
    }
}

impl BoltProbe {
    /// Begin at the first slot, with the arrival events of the receiver.
    pub fn new(connections: Vec<BoltDeviceConnection>) -> (probe: BoltProbe)
        ensures
            probe@.wf(),
            probe@ == (BoltProbeView {
                connections: connections@,
                slot: 1,
                paired: Seq::empty(),
            }),
    {
        BoltProbe { connections, slot: 1, paired: Vec::new() }
    }

    /// The slot to read next; `None` when all have been read.
    pub fn next_slot(&self) -> (slot: Option<u8>)
        requires
            self@.wf(),
        ensures
            match slot {
                Some(s) => s == self@.slot && s <= MAX_BOLT_SLOTS,
                None => self@.slot > MAX_BOLT_SLOTS,
            },
    {
        if self.slot <= MAX_BOLT_SLOTS {
            Some(self.slot)
        } else {
            None
        }
    }

    /// The slot is empty or unreadable.
    pub fn skip(&mut self)
        requires
            old(self)@.wf(),
            old(self)@.slot <= MAX_BOLT_SLOTS,
        ensures
            final(self)@.wf(),
            final(self)@ == old(self)@.after(None),
    {
        self.slot = self.slot + 1;
    }

    /// The status of the slot, given what the pairing register says of it. The
    /// features of the device are to be read only where it is online.
    pub fn status(&self, pairing: &BoltPairing) -> (status: SlotStatus)
        requires
            self@.wf(),
        ensures
            status == status_of(*pairing, self@.event(self@.slot as u8)),
    {
        let ghost p = at_slot(self.slot);
        let mut i: usize = self.connections.len();
        while i > 0
            invariant
                i <= self.connections@.len(),
                p == at_slot(self.slot),
                forall|j: int| i <= j < self.connections@.len() ==> !p(#[trigger] self.connections@[j]),
            decreases i,
        {
            let c: BoltDeviceConnection = self.connections[i - 1];
            if c.index == self.slot {
                proof {
                    lemma_last_is(self.connections@, p, i - 1);
                }
                return SlotStatus { online: c.online, kind: c.kind, wpid: Some(c.wpid) };
            }
            i -= 1;
        }
        SlotStatus { online: pairing.online, kind: pairing.kind, wpid: None }
    }

    /// Record the device in the slot. Features that were read are dropped where
    /// the device is offline.
    pub fn record(
        &mut self,
        pairing: &BoltPairing,
        codename: Option<String>,
        battery: Option<BatteryInfo>,
        model_info: Option<DeviceModelInfo>,
    )
        requires
            old(self)@.wf(),
            old(self)@.slot <= MAX_BOLT_SLOTS,
        ensures
            final(self)@.wf(),
            final(self)@ == old(self)@.after(
                Some(SlotReading { pairing: *pairing, codename, battery, model_info }),
            ),
    {
        let status: SlotStatus = self.status(pairing);
        let (battery, model_info) = if status.online {
            (battery, model_info)
        } else {
            (None, None)
        };
        self.paired.push(
            PairedDevice {
                slot: self.slot,
                codename,
                wpid: status.wpid,
                kind: map_kind(status.kind),
                online: status.online,
                battery,
                model_info,
            },
        );
        self.slot = self.slot + 1;
    }

    /// Whether the receiver reported another number of pairings than were
    /// found, in which case some slots may be unreadable.
    pub fn count_mismatch(&self, pairing_count: Option<u8>) -> (mismatch: bool)
        ensures
            mismatch == (pairing_count matches Some(count) && count != self@.paired.len()),
    {
        match pairing_count {
            Some(count) => self.paired.len() != count as usize,
            None => false,
        }
    }

    /// The receiver and its devices.
    pub fn finish(self, info: &HidInfo, unique_id: Option<String>) -> (inventory: DeviceInventory)
        ensures
            inventory.paired@ == self@.paired,
            inventory.receiver.name@ == BOLT_RECEIVER_NAME@,
            inventory.receiver.vendor_id == info.vendor_id,
            inventory.receiver.product_id == info.product_id,
            inventory.receiver.unique_id == unique_id,
    {
        DeviceInventory {
            receiver: ReceiverInfo {
                name: BOLT_RECEIVER_NAME.to_owned(),
                vendor_id: info.vendor_id,
                product_id: info.product_id,
                unique_id,
            },
            paired: self.paired,
        }
    }
}

/// The inventory of a node that hosts no receiver, out of what the device's own
/// features answered. `None` when neither did: it is then neither a receiver nor
/// a device that is recognised.
///
/// Without a receiver there is no wireless id, codename or pairing; the node's
/// name stands in for the codename.
pub fn probe_direct(
    info: &HidInfo,
    battery: Option<BatteryInfo>,
    model_info: Option<DeviceModelInfo>,
) -> (inventory: Option<DeviceInventory>)
    ensures
        inventory is None <==> battery is None && model_info is None,
        inventory matches Some(inv) ==> inv@ == (InventoryView {
            receiver: ReceiverInfo {
                name: info.name,
                vendor_id: info.vendor_id,
                product_id: info.product_id,
                unique_id: None,
            },
            paired: seq![
                PairedDevice {
                    slot: DIRECT_DEVICE_INDEX,
                    codename: Some(info.name),
                    wpid: None,
                    kind: DeviceKind::Unknown,
                    online: true,
                    battery,
                    model_info,
                },
            ],
        }),
{
    if battery.is_none() && model_info.is_none() {
        return None;
    }
    let device = PairedDevice {
        slot: DIRECT_DEVICE_INDEX,
        codename: Some(info.name.clone()),
        wpid: None,
        kind: DeviceKind::Unknown,
        online: true,
        battery,
        model_info,
    };
    let mut paired: Vec<PairedDevice> = Vec::new();
    paired.push(device);
    Some(
        DeviceInventory {
            receiver: ReceiverInfo {
                name: info.name.clone(),
                vendor_id: info.vendor_id,
                product_id: info.product_id,
                unique_id: None,
            },
            paired,
        },
    )
}

/// What came while waiting for devices to announce themselves.
#[derive(Clone, Copy, Debug, PartialEq, Eq, Structural)]
pub enum Arrival {
    /// A device announced itself.
    DeviceConnection(BoltDeviceConnection),
    /// Another event of the receiver.
    OtherEvent,
    /// The receiver's event stream ended.
    Closed,
    /// Nothing came in time.
    TimedOut,
}

/// Take one arrival in. Returns whether to wait for another.
pub fn drain_device_arrival(connections: &mut Vec<BoltDeviceConnection>, arrival: Arrival) -> (more:
    bool)
    ensures
        more == (arrival is DeviceConnection || arrival is OtherEvent),
        final(connections)@ == match arrival {
            Arrival::DeviceConnection(c) => old(connections)@.push(c),
            _ => old(connections)@,
        },
{
    match arrival {
        Arrival::DeviceConnection(c) => {
            connections.push(c);
            true
        },
        Arrival::OtherEvent => true,
        Arrival::Closed | Arrival::TimedOut => false,
    }
}

/// The most characters one chunk of a codename holds.
pub const CODENAME_CHUNK: usize = 13;

/// The parameters that read the first chunk of a slot's codename from the
/// receiver-information register.
pub fn codename_request(slot: u8) -> (parameters: [u8; 3])
    requires
        slot <= 0xff - 0x60,
    ensures
        parameters@ == seq![(0x60 + slot) as u8, 0x01u8, 0x00u8],
{
    let parameters: [u8; 3] = [0x60 + slot, 0x01, 0x00];
    assert(parameters@ =~= seq![(0x60 + slot) as u8, 0x01u8, 0x00u8]);
    parameters
}

/// The codename bytes of a register response, which holds a sub-register, a
/// chunk number, the length of the name, and then the name, of which one chunk
/// is there.
pub open spec fn codename_bytes(response: Seq<u8>) -> Seq<u8> {
    response.subrange(
        3,
        3 + (if response[2] < CODENAME_CHUNK {
            response[2] as int
        } else {
            CODENAME_CHUNK as int
        }),
    )
}

/// A paired device's codename out of a register response; `None` where it is
/// not text.
pub fn read_codename(response: &[u8; 16]) -> (codename: Option<String>)
    ensures
        match codename {
            Some(name) => valid_utf8(codename_bytes(response@)) && name@ == decode_utf8(
                codename_bytes(response@),
            ),
            None => !valid_utf8(codename_bytes(response@)),
        },
{
    let reported: usize = response[2] as usize;
    let len: usize = if reported < CODENAME_CHUNK {
        reported
    } else {
        CODENAME_CHUNK
    };
    let bytes: &[u8] = vstd::slice::slice_subrange(response.as_slice(), 3, 3 + len);
    match from_utf8(bytes) {
        Some(text) => Some(text.to_owned()),
        None => None,
    }
}

/// What the battery feature of a device answered.
#[derive(Clone, Copy, Debug, PartialEq, Eq, Structural)]
pub struct BatteryReport {
    pub charging_percentage: u8,
    pub level: HidppBatteryLevel,
    pub status: HidppBatteryStatus,
}

/// What the device-information feature of a device answered.
#[derive(Clone, Copy, Debug)]
pub struct ModelReport {
    pub entity_count: u8,
    pub unit_id: [u8; 4],
    pub usb: bool,
    pub e_quad: bool,
    pub btle: bool,
    pub bluetooth: bool,
    pub model_id: [u16; 3],
    pub extended_model_id: u8,
}

/// The battery and model of a device out of what its features answered, where
/// they did; `key` is the config key of that model.
pub fn probe_features(battery: Option<BatteryReport>, model: Option<(ModelReport, String)>) -> (r: (
    Option<BatteryInfo>,
    Option<DeviceModelInfo>,
))
    ensures
        r.0 == match battery {
            Some(b) => Some(
                BatteryInfo {
                    percentage: b.charging_percentage,
                    level: level_of(b.level),
                    status: battery_status_of(b.status),
                },
            ),
            None => None,
        },
        r.1 == match model {
            Some((m, key)) => Some(
                DeviceModelInfo {
                    entity_count: m.entity_count,
                    unit_id: m.unit_id,
                    transports: DeviceTransports {
                        usb: m.usb,
                        equad: m.e_quad,
                        btle: m.btle,
                        bluetooth: m.bluetooth,
                    },
                    model_ids: m.model_id,
                    extended_model_id: m.extended_model_id,
                    key,
                },
            ),
            None => None,
        },
{
    let battery_info: Option<BatteryInfo> = match battery {
        Some(b) => Some(
            BatteryInfo {
                percentage: b.charging_percentage,
                level: map_battery_level(b.level),
                status: map_battery_status(b.status),
            },
        ),
        None => None,
    };
    let model_info: Option<DeviceModelInfo> = match model {
        Some((m, key)) => Some(
            DeviceModelInfo {
                entity_count: m.entity_count,
                unit_id: m.unit_id,
                transports: DeviceTransports {
                    usb: m.usb,
                    equad: m.e_quad,
                    btle: m.btle,
                    bluetooth: m.bluetooth,
                },
                model_ids: m.model_id,
                extended_model_id: m.extended_model_id,
                key,
            },
        ),
        None => None,
    };
    (battery_info, model_info)
}

/// The walk after the first slots were read.
pub open spec fn walked(
    connections: Seq<BoltDeviceConnection>,
    readings: Seq<Option<SlotReading>>,
) -> BoltProbeView
    decreases readings.len(),
{
    if readings.len() == 0 {
        BoltProbeView { connections, slot: 1, paired: Seq::empty() }
    } else {
        walked(connections, readings.drop_last()).after(readings.last())
    }
}

/// Every slot that could be read is listed, whether its device is online or
/// not, and no other slot is.
pub proof fn law_exactly_the_readable_slots_are_listed(
    connections: Seq<BoltDeviceConnection>,
    readings: Seq<Option<SlotReading>>,
    slot: u8,
)
    requires
        readings.len() <= MAX_BOLT_SLOTS,
    ensures
        (exists|i: int|
            0 <= i < walked(connections, readings).paired.len() && (#[trigger] walked(
                connections,
                readings,
            ).paired[i]).slot == slot) <==> 1 <= slot <= readings.len() && readings[slot
            - 1] is Some,
        walked(connections, readings).slot == readings.len() + 1,
        walked(connections, readings).wf(),
    decreases readings.len(),
{
    if readings.len() > 0 {
        let before = readings.drop_last();
        law_exactly_the_readable_slots_are_listed(connections, before, slot);
        let old_walk = walked(connections, before);
        let new_walk = walked(connections, readings);
        if readings.last() is Some {
            let n = old_walk.paired.len() as int;
            assert(new_walk.paired[n].slot == readings.len());
            assert forall|i: int| 0 <= i < n implies new_walk.paired[i] == #[trigger] old_walk.paired[i] by {}
        }
    }
}

/// A receiver never lists more devices than it has slots, and each in a slot of
/// its own.
pub proof fn law_a_receiver_lists_each_slot_at_most_once(probe: BoltProbeView)
    requires
        probe.wf(),
    ensures
        probe.paired.len() < probe.slot,
        probe.paired.len() <= MAX_BOLT_SLOTS,
        forall|i: int, j: int|
            0 <= i < probe.paired.len() && 0 <= j < probe.paired.len() && i != j
                ==> probe.paired[i].slot != probe.paired[j].slot,
{
    lemma_slots_grow(probe, probe.paired.len() as int);
}

proof fn lemma_slots_grow(probe: BoltProbeView, n: int)
    requires
        probe.wf(),
        0 <= n <= probe.paired.len(),
    ensures
        n < probe.slot,
        n > 0 ==> probe.paired[n - 1].slot >= n,
    decreases n,
{
    if n > 0 {
        lemma_slots_grow(probe, n - 1);
    }
}

/// A failing node hides no other: the inventories are those of the nodes that
/// answered, whatever stands between them.
pub proof fn law_a_failing_node_hides_no_other(before: Seq<Probe>, after: Seq<Probe>, bad: Probe)
    requires
        bad is Nothing || bad is Failed,
    ensures
        found(before.push(bad) + after) == found(before + after),
    decreases after.len(),
{
    if after.len() == 0 {
        assert(before.push(bad) + after =~= before.push(bad));
        assert(before + after =~= before);
        assert(before.push(bad).drop_last() =~= before);
    } else {
        law_a_failing_node_hides_no_other(before, after.drop_last(), bad);
        assert((before.push(bad) + after).drop_last() =~= before.push(bad) + after.drop_last());
        assert((before + after).drop_last() =~= before + after.drop_last());
    }
}

/// A kind the receiver names is listed under that name, and only a kind that is
/// not named is listed as unknown.
pub proof fn law_kinds_keep_their_names(k: BoltDeviceKind)
    ensures
        kind_of(k) is Keyboard <==> k is Keyboard,
        kind_of(k) is Mouse <==> k is Mouse,
        kind_of(k) is Numpad <==> k is Numpad,
        kind_of(k) is Presenter <==> k is Presenter,
        kind_of(k) is Remote <==> k is Remote,
        kind_of(k) is Trackball <==> k is Trackball,
        kind_of(k) is Touchpad <==> k is Touchpad,
        kind_of(k) is Tablet <==> k is Tablet,
        kind_of(k) is Gamepad <==> k is Gamepad,
        kind_of(k) is Joystick <==> k is Joystick,
        kind_of(k) is Headset <==> k is Headset,
        kind_of(k) is Unknown <==> k is Unknown || k is Other,
{
}

/// A battery level or status the device names is shown under that name, and only
/// one that is not named as unknown.
pub proof fn law_battery_reports_keep_their_names(
    level: HidppBatteryLevel,
    status: HidppBatteryStatus,
)
    ensures
        level_of(level) is Critical <==> level is Critical,
        level_of(level) is Low <==> level is Low,
        level_of(level) is Good <==> level is Good,
        level_of(level) is Full <==> level is Full,
        level_of(level) is Unknown <==> level is Other,
        battery_status_of(status) is Discharging <==> status is Discharging,
        battery_status_of(status) is Charging <==> status is Charging,
        battery_status_of(status) is ChargingSlow <==> status is ChargingSlow,
        battery_status_of(status) is Full <==> status is Full,
        battery_status_of(status) is Error <==> status is Error,
        battery_status_of(status) is Unknown <==> status is Other,
{
}

/// Where a device announced itself, the last announcement of its slot counts and
/// the pairing register does not.
pub proof fn law_the_last_announcement_counts(
    probe: BoltProbeView,
    pairing: BoltPairing,
    slot: u8,
    i: int,
)
    requires
        0 <= i < probe.connections.len(),
        probe.connections[i].index == slot,
        forall|j: int|
            i < j < probe.connections.len() ==> (#[trigger] probe.connections[j]).index != slot,
    ensures
        status_of(pairing, probe.event(slot)).online == probe.connections[i].online,
        status_of(pairing, probe.event(slot)).kind == probe.connections[i].kind,
        status_of(pairing, probe.event(slot)).wpid == Some(probe.connections[i].wpid),
{
    let p = at_slot(slot);
    assert forall|j: int| i < j < probe.connections.len() implies !p(
        #[trigger] probe.connections[j],
    ) by {}
    crate::search::law_the_last_match_is_found(probe.connections, p, i);
}

/// Where no device announced itself for a slot, the pairing register counts, and
/// the wireless id is not known.
pub proof fn law_a_silent_slot_goes_by_the_register(
    probe: BoltProbeView,
    pairing: BoltPairing,
    slot: u8,
)
    requires
        forall|j: int|
            0 <= j < probe.connections.len() ==> (#[trigger] probe.connections[j]).index != slot,
    ensures
        status_of(pairing, probe.event(slot)).online == pairing.online,
        status_of(pairing, probe.event(slot)).kind == pairing.kind,
        status_of(pairing, probe.event(slot)).wpid is None,
{
    let p = at_slot(slot);
    assert forall|j: int| 0 <= j < probe.connections.len() implies !p(
        #[trigger] probe.connections[j],
    ) by {}
    crate::search::law_nothing_is_found_where_nothing_matches(probe.connections, p);
}

/// Reading a slot lists one device more, behind the others, which stay as they
/// are: the device of that slot, with the codename that was read, the status of
/// the slot, and, where that is online, exactly the battery and the model that
/// were read. A slot that could not be read adds nothing. Either way the next
/// slot is the one after.
pub proof fn law_a_reading_is_listed_as_it_was_read(probe: BoltProbeView, reading: SlotReading)
    requires
        0 <= probe.slot <= 0xff,
    ensures
        ({
            let status = status_of(reading.pairing, probe.event(probe.slot as u8));
            let after = probe.after(Some(reading));
            let device = after.paired.last();
            &&& after.paired.len() == probe.paired.len() + 1
            &&& after.paired.drop_last() == probe.paired
            &&& device.slot == probe.slot
            &&& device.codename == reading.codename
            &&& device.online == status.online
            &&& device.wpid == status.wpid
            &&& device.kind == kind_of(status.kind)
            &&& device.online ==> device.battery == reading.battery && device.model_info
                == reading.model_info
            &&& !device.online ==> device.battery is None && device.model_info is None
            &&& after.slot == probe.slot + 1
            &&& after.connections == probe.connections
            &&& probe.after(None).paired == probe.paired
            &&& probe.after(None).slot == probe.slot + 1
            &&& probe.after(None).connections == probe.connections
        }),
{
    assert(probe.after(Some(reading)).paired.drop_last() =~= probe.paired);
}

/// After a walk, the device of every slot that was read is listed with exactly
/// what was read of it: always its codename, and, where the slot is online, its
/// battery and its model.
pub proof fn law_every_reading_is_listed_after_the_walk(
    connections: Seq<BoltDeviceConnection>,
    readings: Seq<Option<SlotReading>>,
    k: int,
)
    requires
        readings.len() <= 6,
        0 <= k < readings.len(),
        readings[k] is Some,
    ensures
        ({
            let reading = readings[k]->0;
            let walk = walked(connections, readings);
            let status = status_of(reading.pairing, walk.event((k + 1) as u8));
            exists|i: int|
                {
                    &&& 0 <= i < walk.paired.len()
                    &&& (#[trigger] walk.paired[i]).slot == k + 1
                    &&& walk.paired[i].codename == reading.codename
                    &&& walk.paired[i].online == status.online
                    &&& walk.paired[i].wpid == status.wpid
                    &&& walk.paired[i].kind == kind_of(status.kind)
                    &&& status.online ==> walk.paired[i].battery == reading.battery
                        && walk.paired[i].model_info == reading.model_info
                    &&& !status.online ==> walk.paired[i].battery is None
                        && walk.paired[i].model_info is None
                }
        }),
    decreases readings.len(),
{
    let before = readings.drop_last();
    let reading = readings[k]->0;
    let walk = walked(connections, readings);
    let earlier = walked(connections, before);
    lemma_walk_keeps_the_announcements(connections, readings);
    lemma_walk_keeps_the_announcements(connections, before);
    if k < before.len() {
        law_every_reading_is_listed_after_the_walk(connections, before, k);
        let status = status_of(reading.pairing, earlier.event((k + 1) as u8));
        let i = choose|i: int|
            {
                &&& 0 <= i < earlier.paired.len()
                &&& (#[trigger] earlier.paired[i]).slot == k + 1
                &&& earlier.paired[i].codename == reading.codename
                &&& earlier.paired[i].online == status.online
                &&& earlier.paired[i].wpid == status.wpid
                &&& earlier.paired[i].kind == kind_of(status.kind)
                &&& status.online ==> earlier.paired[i].battery == reading.battery
                    && earlier.paired[i].model_info == reading.model_info
                &&& !status.online ==> earlier.paired[i].battery is None
                    && earlier.paired[i].model_info is None
            };
        assert(walk.paired[i] == earlier.paired[i]);
    } else {
        law_exactly_the_readable_slots_are_listed(connections, before, 0);
        law_a_reading_is_listed_as_it_was_read(earlier, reading);
        let i = earlier.paired.len() as int;
        assert(walk.paired[i].slot == k + 1);
    }
}

proof fn lemma_walk_keeps_the_announcements(
    connections: Seq<BoltDeviceConnection>,
    readings: Seq<Option<SlotReading>>,
)
    ensures
        walked(connections, readings).connections == connections,
    decreases readings.len(),
{
    if readings.len() > 0 {
        lemma_walk_keeps_the_announcements(connections, readings.drop_last());
    }
}

/// A receiver has six slots, numbered from 1, and a walk is over behind the
/// sixth.
pub proof fn law_all_six_slots_are_walked(probe: BoltProbeView)
    requires
        probe.wf(),
    ensures
        1 <= probe.slot <= 7,
        probe.slot <= MAX_BOLT_SLOTS <==> probe.slot <= 6,
{
}

/// Every node that answered is listed, in the order of the nodes, and nothing
/// else is.
pub proof fn law_every_answering_node_is_listed(
    before: Seq<Probe>,
    inventory: DeviceInventory,
    after: Seq<Probe>,
)
    ensures
        found(before + seq![Probe::Found(inventory)] + after) == found(before) + seq![inventory]
            + found(after),
        found(before + after) == found(before) + found(after),
        found(seq![Probe::Nothing]) == Seq::<DeviceInventory>::empty(),
        found(seq![Probe::Failed]) == Seq::<DeviceInventory>::empty(),
{
    let one = seq![Probe::Found(inventory)];
    lemma_found_adds_up(before, after);
    lemma_found_adds_up(before, one);
    lemma_found_adds_up(before + one, after);
    reveal_with_fuel(found, 2);
    assert(one.drop_last() =~= Seq::empty());
    assert(found(one) =~= seq![inventory]);
    assert(seq![Probe::Nothing].drop_last() =~= Seq::empty());
    assert(seq![Probe::Failed].drop_last() =~= Seq::empty());
}

proof fn lemma_found_adds_up(a: Seq<Probe>, b: Seq<Probe>)
    ensures
        found(a + b) == found(a) + found(b),
    decreases b.len(),
{
    if b.len() == 0 {
        assert(a + b =~= a);
        assert(found(a) + found(b) =~= found(a));
    } else {
        lemma_found_adds_up(a, b.drop_last());
        assert((a + b).drop_last() =~= a + b.drop_last());
        assert((a + b).last() == b.last());
        assert(found(a + b) =~= found(a) + found(b));
    }
}

/// The codename is the bytes from the fourth on, as many as the third says and
/// thirteen at most.
pub proof fn law_the_codename_starts_at_the_fourth_byte(response: Seq<u8>, i: int)
    requires
        response.len() == 16,
    ensures
        response[2] <= 13 ==> codename_bytes(response).len() == response[2],
        response[2] > 13 ==> codename_bytes(response).len() == 13,
        0 <= i < codename_bytes(response).len() ==> codename_bytes(response)[i] == response[3 + i],
{
}

/// A receiver is listed under its product name, and its devices have a second and
/// a half to announce themselves.
pub proof fn law_receivers_are_given_time_and_a_name()
    ensures
        BOLT_RECEIVER_NAME@ == "Logi Bolt Receiver"@,
        ARRIVAL_DRAIN_MS == 1500,
{
}

/// Recording a slot adds one device behind the others: with the codename that
/// was read, and, where the slot is online, by its last announcement or else by
/// the register, with exactly the battery and the model that were read.
pub proof fn law_recording_lists_what_was_read(
    probe: &mut BoltProbe,
    pairing: BoltPairing,
    codename: Option<String>,
    battery: Option<BatteryInfo>,
    model_info: Option<DeviceModelInfo>,
    i: int,
)
    requires
        call_ensures(BoltProbe::record, (probe, &pairing, codename, battery, model_info), ()),
        1 <= old(probe)@.slot <= 6,
    ensures
        ({
            let was = old(probe)@;
            let now = final(probe)@;
            let device = now.paired.last();
            let announced = 0 <= i < was.connections.len() && was.connections[i].index == was.slot
                && forall|j: int|
                i < j < was.connections.len() ==> (#[trigger] was.connections[j]).index
                    != was.slot;
            let silent = forall|j: int|
                0 <= j < was.connections.len() ==> (#[trigger] was.connections[j]).index
                    != was.slot;
            &&& now.paired.len() == was.paired.len() + 1
            &&& now.paired.drop_last() == was.paired
            &&& device.slot == was.slot
            &&& device.codename == codename
            &&& device.online ==> device.battery == battery && device.model_info == model_info
            &&& !device.online ==> device.battery is None && device.model_info is None
            &&& announced ==> device.online == was.connections[i].online && device.wpid == Some(
                was.connections[i].wpid,
            ) && (device.kind is Mouse <==> was.connections[i].kind is Mouse)
            &&& silent ==> device.online == pairing.online && device.wpid is None && (device.kind
                is Mouse <==> pairing.kind is Mouse)
            &&& now.slot == was.slot + 1
            &&& now.connections == was.connections
        }),
{
    let was = old(probe)@;
    let reading = SlotReading { pairing, codename, battery, model_info };
    law_a_reading_is_listed_as_it_was_read(was, reading);
    if 0 <= i < was.connections.len() && was.connections[i].index == was.slot && forall|j: int|
        i < j < was.connections.len() ==> (#[trigger] was.connections[j]).index != was.slot {
        law_the_last_announcement_counts(was, pairing, was.slot as u8, i);
    }
    if forall|j: int|
        0 <= j < was.connections.len() ==> (#[trigger] was.connections[j]).index != was.slot {
        law_a_silent_slot_goes_by_the_register(was, pairing, was.slot as u8);
    }
}

/// Skipping a slot adds nothing and goes on to the next.
pub proof fn law_skipping_adds_nothing(probe: &mut BoltProbe)
    requires
        call_ensures(BoltProbe::skip, (probe,), ()),
    ensures
        final(probe)@.paired == old(probe)@.paired,
        final(probe)@.slot == old(probe)@.slot + 1,
        final(probe)@.connections == old(probe)@.connections,
{
}

/// A walk begins at slot 1 with the announcements that came and nothing listed,
/// goes up to slot 6, and ends with the receiver's own ids and all that was
/// listed.
pub proof fn law_a_walk_begins_and_ends(
    connections: Vec<BoltDeviceConnection>,
    begun: BoltProbe,
    probe: BoltProbe,
    slot: Option<u8>,
    info: HidInfo,
    unique_id: Option<String>,
    inventory: DeviceInventory,
    count: Option<u8>,
    mismatch: bool,
)
    requires
        call_ensures(BoltProbe::new, (connections,), begun),
        call_ensures(BoltProbe::next_slot, (&probe,), slot),
        call_ensures(BoltProbe::finish, (probe, &info, unique_id), inventory),
        call_ensures(BoltProbe::count_mismatch, (&probe, count), mismatch),
    ensures
        begun@.slot == 1 && begun@.paired.len() == 0 && begun@.connections == connections@,
        slot matches Some(s) ==> s == probe@.slot && s <= 6,
        slot is None ==> probe@.slot > 6,
        inventory.paired@ == probe@.paired,
        inventory.receiver.unique_id == unique_id,
        inventory.receiver.vendor_id == info.vendor_id,
        inventory.receiver.product_id == info.product_id,
        count is None ==> !mismatch,
        count matches Some(n) ==> (mismatch <==> n != probe@.paired.len()),
{
}

/// A directly attached device is listed as soon as one of its features answered,
/// at index `0xff`, online, under the name of its node, with exactly what was
/// read.
pub proof fn law_a_direct_device_is_listed_with_what_was_read(
    info: HidInfo,
    battery: Option<BatteryInfo>,
    model_info: Option<DeviceModelInfo>,
    inventory: Option<DeviceInventory>,
)
    requires
        call_ensures(probe_direct, (&info, battery, model_info), inventory),
    ensures
        inventory is Some <==> battery is Some || model_info is Some,
        inventory matches Some(inv) ==> {
            &&& inv.paired@.len() == 1
            &&& inv.paired@[0].slot == 0xff
            &&& inv.paired@[0].online
            &&& inv.paired@[0].battery == battery
            &&& inv.paired@[0].model_info == model_info
            &&& inv.paired@[0].codename == Some(info.name)
            &&& inv.paired@[0].kind is Unknown
            &&& inv.paired@[0].wpid is None
            &&& inv.receiver.unique_id is None
            &&& inv.receiver.name == info.name
            &&& inv.receiver.vendor_id == info.vendor_id
            &&& inv.receiver.product_id == info.product_id
        },
{
    if let Some(inv) = inventory {
        assert(inv@.paired == inv.paired@);
    }
}

/// What the features answered is kept field by field, and where a feature did not
/// answer nothing is said of it.
pub proof fn law_feature_answers_are_kept(
    battery: Option<BatteryReport>,
    model: Option<(ModelReport, String)>,
    r: (Option<BatteryInfo>, Option<DeviceModelInfo>),
)
    requires
        call_ensures(probe_features, (battery, model), r),
    ensures
        r.0 is Some <==> battery is Some,
        r.1 is Some <==> model is Some,
        battery matches Some(b) ==> r.0->0.percentage == b.charging_percentage && (r.0->0.level
            is Full <==> b.level is Full) && (r.0->0.level is Good <==> b.level is Good) && (
        r.0->0.level is Low <==> b.level is Low) && (r.0->0.level is Critical <==> b.level
            is Critical) && (r.0->0.status is Charging <==> b.status is Charging) && (
        r.0->0.status is Discharging <==> b.status is Discharging) && (r.0->0.status is Full <==>
            b.status is Full),
        model matches Some((m, key)) ==> r.1->0.key == key && r.1->0.model_ids == m.model_id
            && r.1->0.extended_model_id == m.extended_model_id && r.1->0.unit_id == m.unit_id
            && r.1->0.entity_count == m.entity_count && r.1->0.transports.usb == m.usb
            && r.1->0.transports.equad == m.e_quad && r.1->0.transports.btle == m.btle
            && r.1->0.transports.bluetooth == m.bluetooth,
{
}

/// Announcements are taken in, in order, until the stream ends or falls silent;
/// other events are passed over.
pub proof fn law_announcements_are_taken_in(
    connections: &mut Vec<BoltDeviceConnection>,
    arrival: Arrival,
    more: bool,
)
    requires
        call_ensures(drain_device_arrival, (connections, arrival), more),
    ensures
        more <==> !(arrival is Closed || arrival is TimedOut),
        arrival matches Arrival::DeviceConnection(c) ==> final(connections)@ == old(
            connections,
        )@.push(c),
        !(arrival is DeviceConnection) ==> final(connections)@ == old(connections)@,
{
}

/// The kind, the level and the status that are mapped keep their names, and only
/// Logitech's own HID++ nodes are candidates.
pub proof fn law_mappings_keep_names(
    k: BoltDeviceKind,
    kind: DeviceKind,
    vendor_id: u16,
    usage_page: u16,
    usage_id: u16,
    candidate: bool,
)
    requires
        call_ensures(map_kind, (k,), kind),
        call_ensures(is_candidate, (vendor_id, usage_page, usage_id), candidate),
    ensures
        kind is Mouse <==> k is Mouse,
        kind is Keyboard <==> k is Keyboard,
        kind is Trackball <==> k is Trackball,
        kind is Touchpad <==> k is Touchpad,
        kind is Unknown <==> k is Unknown || k is Other,
        candidate <==> vendor_id == 0x046d && usage_page == 0xff00 && usage_id == 2,
{
}

/// A codename is asked for at `0x60` plus the slot, and is the text of its bytes.
pub proof fn law_codenames_are_asked_for_and_read(
    slot: u8,
    parameters: [u8; 3],
    response: [u8; 16],
    codename: Option<String>,
)
    requires
        slot <= 0x9f,
        call_ensures(codename_request, (slot,), parameters),
        call_ensures(read_codename, (&response,), codename),
    ensures
        parameters@[0] == 0x60 + slot && parameters@[1] == 1 && parameters@[2] == 0,
        codename is Some <==> valid_utf8(codename_bytes(response@)),
        codename matches Some(name) ==> name@ == decode_utf8(codename_bytes(response@)),
{
}

/// Every node that answered is enumerated, those that did not add nothing, and
/// adding one outcome at a time comes to the same.
pub proof fn law_enumerating_lists_every_answer(
    probes: Vec<Probe>,
    inventories: Vec<DeviceInventory>,
    i: int,
    list: &mut Vec<DeviceInventory>,
    probe: Probe,
    e: InventoryError,
    text: String,
)
    requires
        call_ensures(enumerate, (probes,), inventories),
        call_ensures(add_probe, (list, probe), ()),
        call_ensures(InventoryError::message, (&e,), text),
    ensures
        0 <= i < probes@.len() ==> (probes@[i] matches Probe::Found(inventory)
            ==> inventories@.contains(inventory)),
        (forall|j: int| 0 <= j < probes@.len() ==> !((#[trigger] probes@[j]) is Found))
            ==> inventories@.len() == 0,
        (forall|j: int| 0 <= j < probes@.len() ==> (#[trigger] probes@[j]) is Found)
            ==> inventories@.len() == probes@.len(),
        probe matches Probe::Found(inventory) ==> final(list)@ == old(list)@.push(inventory),
        !(probe is Found) ==> final(list)@ == old(list)@,
        text@ == "HID transport error"@,
{
    if 0 <= i < probes@.len() {
        if let Probe::Found(inventory) = probes@[i] {
            let before = probes@.take(i);
            let after = probes@.skip(i + 1);
            law_every_answering_node_is_listed(before, inventory, after);
            assert(probes@ =~= before + seq![Probe::Found(inventory)] + after);
            assert(inventories@[found(before).len() as int] == inventory);
        }
    }
    lemma_found_counts(probes@);
    if let Probe::Found(inventory) = probe {
        law_every_answering_node_is_listed(Seq::empty(), inventory, Seq::empty());
        assert(Seq::empty() + seq![Probe::Found(inventory)] + Seq::empty() =~= seq![probe]);
        assert(found(seq![probe]) =~= seq![inventory]);
        assert(old(list)@ + seq![inventory] =~= old(list)@.push(inventory));
    } else {
        reveal_with_fuel(found, 2);
        assert(seq![probe].drop_last() =~= Seq::empty());
        assert(old(list)@ + found(seq![probe]) =~= old(list)@);
    }
}

proof fn lemma_found_counts(probes: Seq<Probe>)
    ensures
        (forall|j: int| 0 <= j < probes.len() ==> !((#[trigger] probes[j]) is Found)) ==> found(
            probes,
        ).len() == 0,
        (forall|j: int| 0 <= j < probes.len() ==> (#[trigger] probes[j]) is Found) ==> found(
            probes,
        ).len() == probes.len(),
    decreases probes.len(),
{
    if probes.len() > 0 {
        let front = probes.drop_last();
        lemma_found_counts(front);
        assert(probes[probes.len() - 1] == probes.last());
        if forall|j: int| 0 <= j < probes.len() ==> !((#[trigger] probes[j]) is Found) {
            assert forall|j: int| 0 <= j < front.len() implies !((#[trigger] front[j]) is Found) by {
                assert(!(probes[j] is Found));
            }
        }
        if forall|j: int| 0 <= j < probes.len() ==> (#[trigger] probes[j]) is Found {
            assert forall|j: int| 0 <= j < front.len() implies (#[trigger] front[j]) is Found by {
                assert(probes[j] is Found);
            }
        }
    }
}

/// The status of a slot is that of its last announcement, and that of the
/// register only where there was none.
pub proof fn law_a_slots_status_is_its_last_announcement(
    probe: BoltProbe,
    pairing: BoltPairing,
    status: SlotStatus,
    i: int,
)
    requires
        call_ensures(BoltProbe::status, (&probe, &pairing), status),
        1 <= probe@.slot <= 7,
    ensures
        0 <= i < probe@.connections.len() && probe@.connections[i].index == probe@.slot && (forall|
            j: int,
        |
            i < j < probe@.connections.len() ==> (#[trigger] probe@.connections[j]).index
                != probe@.slot) ==> status.online == probe@.connections[i].online && status.kind
            == probe@.connections[i].kind && status.wpid == Some(probe@.connections[i].wpid),
        (forall|j: int|
            0 <= j < probe@.connections.len() ==> (#[trigger] probe@.connections[j]).index
                != probe@.slot) ==> status.online == pairing.online && status.kind == pairing.kind
            && status.wpid is None,
{
    let slot = probe@.slot as u8;
    if 0 <= i < probe@.connections.len() && probe@.connections[i].index == probe@.slot && (forall|
        j: int,
    |
        i < j < probe@.connections.len() ==> (#[trigger] probe@.connections[j]).index
            != probe@.slot) {
        law_the_last_announcement_counts(probe@, pairing, slot, i);
    }
    if forall|j: int|
        0 <= j < probe@.connections.len() ==> (#[trigger] probe@.connections[j]).index
            != probe@.slot {
        law_a_silent_slot_goes_by_the_register(probe@, pairing, slot);
    }
}

/// A battery level and status that are mapped keep their names.
pub proof fn law_battery_mappings_keep_names(
    level: HidppBatteryLevel,
    mapped: BatteryLevel,
    status: HidppBatteryStatus,
    shown: BatteryStatus,
)
    requires
        call_ensures(map_battery_level, (level,), mapped),
        call_ensures(map_battery_status, (status,), shown),
    ensures
        mapped is Critical <==> level is Critical,
        mapped is Low <==> level is Low,
        mapped is Good <==> level is Good,
        mapped is Full <==> level is Full,
        shown is Discharging <==> status is Discharging,
        shown is Charging <==> status is Charging,
        shown is ChargingSlow <==> status is ChargingSlow,
        shown is Full <==> status is Full,
        shown is Error <==> status is Error,
{
}

} // verus!
