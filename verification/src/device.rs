//! What is known of receivers and the devices paired to them.

use vstd::prelude::*;

verus! {

/// What a device is.
#[derive(Clone, Copy, Debug, PartialEq, Eq, Structural)]
pub enum DeviceKind {
    Unknown,
    Keyboard,
    Mouse,
    Numpad,
    Presenter,
    Remote,
    Trackball,
    Touchpad,
    Tablet,
    Gamepad,
    Joystick,
    Headset,
}

/// A rough battery level.
#[derive(Clone, Copy, Debug, PartialEq, Eq, Structural)]
pub enum BatteryLevel {
    Unknown,
    Critical,
    Low,
    Good,
    Full,
}

/// What the battery is doing.
#[derive(Clone, Copy, Debug, PartialEq, Eq, Structural)]
pub enum BatteryStatus {
    Unknown,
    Discharging,
    Charging,
    ChargingSlow,
    Full,
    Error,
}

/// The state of a device's battery.
#[derive(Clone, Copy, Debug, PartialEq, Eq, Structural)]
pub struct BatteryInfo {
    pub percentage: u8,
    pub level: BatteryLevel,
    pub status: BatteryStatus,
}

/// The transports a device can use.
#[derive(Clone, Copy, Debug, PartialEq, Eq, Structural)]
pub struct DeviceTransports {
    pub usb: bool,
    pub equad: bool,
    pub btle: bool,
    pub bluetooth: bool,
}

/// A device's model, as the device itself reports it.
#[derive(Debug)]
pub struct DeviceModelInfo {
    pub entity_count: u8,
    pub unit_id: [u8; 4],
    pub transports: DeviceTransports,
    /// One id per transport.
    pub model_ids: [u16; 3],
    pub extended_model_id: u8,
    /// The key of the device in the user's config.
    pub key: String,
}

impl Clone for DeviceModelInfo {
    fn clone(&self) -> (copy: Self)
        ensures
            copy == *self,
    {
        DeviceModelInfo {
            entity_count: self.entity_count,
            unit_id: self.unit_id,
            transports: self.transports,
            model_ids: self.model_ids,
            extended_model_id: self.extended_model_id,
            key: self.key.clone(),
        }
    }
}

impl DeviceModelInfo {
    /// The key of the device in the user's config.
    pub fn config_key(&self) -> (key: String)
        ensures
            key == self.key,
    {
        self.key.clone()
    }
}

/// The receiver a device is reached through, or the device itself where it is
/// attached directly.
#[derive(Debug)]
pub struct ReceiverInfo {
    pub name: String,
    pub vendor_id: u16,
    pub product_id: u16,
    /// The receiver's own id; a directly attached device has none.
    pub unique_id: Option<String>,
}

impl Clone for ReceiverInfo {
    fn clone(&self) -> (copy: Self)
        ensures
            copy == *self,
    {
        ReceiverInfo {
            name: self.name.clone(),
            vendor_id: self.vendor_id,
            product_id: self.product_id,
            unique_id: self.unique_id.clone(),
        }
    }
}

/// A device paired to a receiver.
#[derive(Debug)]
pub struct PairedDevice {
    /// The receiver's slot for it.
    pub slot: u8,
    pub codename: Option<String>,
    /// Its wireless product id, once it has announced itself.
    pub wpid: Option<u16>,
    pub kind: DeviceKind,
    pub online: bool,
    pub battery: Option<BatteryInfo>,
    pub model_info: Option<DeviceModelInfo>,
}

impl Clone for PairedDevice {
    fn clone(&self) -> (copy: Self)
        ensures
            copy == *self,
    {
        PairedDevice {
            slot: self.slot,
            codename: self.codename.clone(),
            wpid: self.wpid,
            kind: self.kind,
            online: self.online,
            battery: self.battery,
            model_info: self.model_info.clone(),
        }
    }
}

/// A receiver and its devices.
#[verifier::ext_equal]
pub struct InventoryView {
    pub receiver: ReceiverInfo,
    pub paired: Seq<PairedDevice>,
}

/// A receiver and the devices paired to it.
#[derive(Debug)]
pub struct DeviceInventory {
    pub receiver: ReceiverInfo,
    pub paired: Vec<PairedDevice>,
}

impl View for DeviceInventory {
    type V = InventoryView;

    open spec fn view(&self) -> InventoryView {
        InventoryView { receiver: self.receiver, paired: self.paired@ }
    }
}

impl DeepView for DeviceInventory {
    type V = InventoryView;

    open spec fn deep_view(&self) -> InventoryView {
        self@
    }
}

impl Clone for DeviceInventory {
    fn clone(&self) -> (copy: Self)
        ensures
            copy@ == self@,
    {
        let copy = DeviceInventory {
            receiver: self.receiver.clone(),
            paired: self.paired.clone(),
        };
        assert(copy.paired@ =~= self.paired@);
        copy
    }
}

/// A copy of a list of inventories.
pub fn clone_inventories(inventories: &[DeviceInventory]) -> (copy: Vec<DeviceInventory>)
    ensures
        copy.deep_view() == inventories.deep_view(),
{
    let mut copy: Vec<DeviceInventory> = Vec::new();
    let mut i: usize = 0;
    while i < inventories.len()
        invariant
            i <= inventories@.len(),
            copy@.len() == i,
            forall|j: int| 0 <= j < i ==> (#[trigger] copy@[j])@ == inventories@[j]@,
        decreases inventories@.len() - i,
    {
        copy.push(inventories[i].clone());
        i += 1;
    }
    assert(copy.deep_view() =~= inventories.deep_view());
    copy
}

/// The devices of one receiver whose model is known, each with the receiver.
pub open spec fn known_of(receiver: ReceiverInfo, paired: Seq<PairedDevice>) -> Seq<
    (ReceiverInfo, PairedDevice),
>
    decreases paired.len(),
{
    if paired.len() == 0 {
        Seq::empty()
    } else {
        let rest = known_of(receiver, paired.drop_last());
        if paired.last().model_info is Some {
            rest.push((receiver, paired.last()))
        } else {
            rest
        }
    }
}

/// The devices of all receivers whose model is known, in enumeration order, each
/// with its receiver.
pub open spec fn known(inventories: Seq<InventoryView>) -> Seq<(ReceiverInfo, PairedDevice)>
    decreases inventories.len(),
{
    if inventories.len() == 0 {
        Seq::empty()
    } else {
        known(inventories.drop_last()) + known_of(
            inventories.last().receiver,
            inventories.last().paired,
        )
    }
}

/// The model of every device in a list of inventories, as far as it is known.
pub fn collect_models(inventories: &[DeviceInventory]) -> (models: Vec<DeviceModelInfo>)
    ensures
        models@.len() == known(inventories.deep_view()).len(),
        forall|i: int|
            0 <= i < models@.len() ==> Some(#[trigger] models@[i]) == known(
                inventories.deep_view(),
            )[i].1.model_info,
{
    let ghost views = inventories.deep_view();
    let mut models: Vec<DeviceModelInfo> = Vec::new();
    let mut i: usize = 0;
    assert(views.take(0) =~= Seq::empty());
    while i < inventories.len()
        invariant
            i <= inventories@.len(),
            views == inventories.deep_view(),
            models@.len() == known(views.take(i as int)).len(),
            forall|k: int|
                0 <= k < models@.len() ==> Some(#[trigger] models@[k]) == known(
                    views.take(i as int),
                )[k].1.model_info,
        decreases inventories@.len() - i,
    {
        let inv: &DeviceInventory = &inventories[i];
        let ghost before = known(views.take(i as int));
        let mut j: usize = 0;
        assert(inv.paired@.take(0) =~= Seq::empty());
        assert(before + Seq::<(ReceiverInfo, PairedDevice)>::empty() =~= before);
        while j < inv.paired.len()
            invariant
                j <= inv.paired@.len(),
                models@.len() == (before + known_of(inv.receiver, inv.paired@.take(j as int))).len(),
                forall|k: int|
                    0 <= k < models@.len() ==> Some(#[trigger] models@[k]) == (before + known_of(
                        inv.receiver,
                        inv.paired@.take(j as int),
                    ))[k].1.model_info,
            decreases inv.paired@.len() - j,
        {
            let ghost upto = inv.paired@.take(j + 1);
            assert(upto.drop_last() =~= inv.paired@.take(j as int));
            if let Some(model) = &inv.paired[j].model_info {
                models.push(model.clone());
            }
            j += 1;
        }
        assert(inv.paired@.take(j as int) =~= inv.paired@);
        proof {
            let upto = views.take(i + 1);
            assert(upto.drop_last() =~= views.take(i as int));
            assert(upto.last() == inv@);
        }
        i += 1;
    }
    assert(views.take(i as int) =~= views);
    models
}

/// The device index that addresses a directly attached device itself.
pub const DIRECT_DEVICE_INDEX: u8 = 0xff;

/// How HID++ writes reach a device.
#[derive(Debug)]
pub enum DeviceRoute {
    /// Through a receiver, by its id and the device's slot.
    Bolt { receiver_uid: String, slot: u8 },
    /// Directly, by vendor and product id.
    Direct { vendor_id: u16, product_id: u16 },
}

impl Clone for DeviceRoute {
    fn clone(&self) -> (copy: Self)
        ensures
            copy == *self,
    {
        match self {
            DeviceRoute::Bolt { receiver_uid, slot } => DeviceRoute::Bolt {
                receiver_uid: receiver_uid.clone(),
                slot: *slot,
            },
            DeviceRoute::Direct { vendor_id, product_id } => DeviceRoute::Direct {
                vendor_id: *vendor_id,
                product_id: *product_id,
            },
        }
    }
}

/// The known devices of a receiver are those whose model is known, whatever else
/// is said of them, all of them, in order, each with the receiver.
pub proof fn law_a_receivers_known_devices_are_those_with_a_model(
    receiver: ReceiverInfo,
    paired: Seq<PairedDevice>,
)
    ensures
        known_of(receiver, paired) == paired.filter(
            |d: PairedDevice| d.model_info is Some,
        ).map_values(|d: PairedDevice| (receiver, d)),
    decreases paired.len(),
{
    reveal(Seq::filter);
    let has_model = |d: PairedDevice| d.model_info is Some;
    let with_receiver = |d: PairedDevice| (receiver, d);
    if paired.len() > 0 {
        law_a_receivers_known_devices_are_those_with_a_model(receiver, paired.drop_last());
        let rest = paired.drop_last().filter(has_model);
        assert(rest.push(paired.last()).map_values(with_receiver) =~= rest.map_values(
            with_receiver,
        ).push((receiver, paired.last())));
    }
    assert(known_of(receiver, paired) =~= paired.filter(has_model).map_values(with_receiver));
}

/// The known devices of some receivers are those of the one after those of the
/// other.
pub proof fn law_known_devices_keep_the_order_of_the_receivers(
    before: Seq<InventoryView>,
    inventory: InventoryView,
    after: Seq<InventoryView>,
)
    ensures
        known(before + seq![inventory] + after) == known(before) + known_of(
            inventory.receiver,
            inventory.paired,
        ) + known(after),
        known(Seq::empty()) == Seq::<(ReceiverInfo, PairedDevice)>::empty(),
    decreases after.len(),
{
    let all = before + seq![inventory] + after;
    let own = known_of(inventory.receiver, inventory.paired);
    if after.len() == 0 {
        assert(all.drop_last() =~= before);
        assert(known(all) =~= known(before) + own + known(after));
    } else {
        law_known_devices_keep_the_order_of_the_receivers(before, inventory, after.drop_last());
        assert(all.drop_last() =~= before + seq![inventory] + after.drop_last());
        assert(all.last() == after.last());
        assert(known(all) =~= known(before) + own + known(after));
    }
}

/// Every device whose model is known is among the known ones, with its own
/// receiver, whatever its kind, slot or status.
pub proof fn law_every_device_with_a_model_is_known(
    inventories: Seq<InventoryView>,
    i: int,
    j: int,
)
    requires
        0 <= i < inventories.len(),
        0 <= j < inventories[i].paired.len(),
        inventories[i].paired[j].model_info is Some,
    ensures
        known(inventories).contains((inventories[i].receiver, inventories[i].paired[j])),
    decreases inventories.len(),
{
    let last = inventories.last();
    let before = known(inventories.drop_last());
    let own = known_of(last.receiver, last.paired);
    if i < inventories.len() - 1 {
        law_every_device_with_a_model_is_known(inventories.drop_last(), i, j);
        let wanted = (inventories[i].receiver, inventories[i].paired[j]);
        let k = choose|k: int| 0 <= k < before.len() && before[k] == wanted;
        assert(known(inventories)[k] == wanted);
    } else {
        lemma_known_of_contains(last.receiver, last.paired, j);
        let wanted = (last.receiver, last.paired[j]);
        let k = choose|k: int| 0 <= k < own.len() && own[k] == wanted;
        assert(known(inventories)[before.len() + k] == wanted);
    }
}

proof fn lemma_known_of_contains(receiver: ReceiverInfo, paired: Seq<PairedDevice>, j: int)
    requires
        0 <= j < paired.len(),
        paired[j].model_info is Some,
    ensures
        known_of(receiver, paired).contains((receiver, paired[j])),
    decreases paired.len(),
{
    let rest = known_of(receiver, paired.drop_last());
    let wanted = (receiver, paired[j]);
    if j < paired.len() - 1 {
        lemma_known_of_contains(receiver, paired.drop_last(), j);
        let k = choose|k: int| 0 <= k < rest.len() && rest[k] == wanted;
        assert(known_of(receiver, paired)[k] == wanted);
    } else {
        assert(known_of(receiver, paired)[rest.len() as int] == wanted);
    }
}

/// Every device whose model is known has its model collected.
pub proof fn law_every_known_model_is_collected(
    inventories: &[DeviceInventory],
    models: Vec<DeviceModelInfo>,
    i: int,
    j: int,
)
    requires
        call_ensures(collect_models, (inventories,), models),
        0 <= i < inventories@.len(),
        0 <= j < inventories@[i].paired@.len(),
        inventories@[i].paired@[j].model_info is Some,
    ensures
        models@.contains(inventories@[i].paired@[j].model_info->0),
{
    let views = inventories.deep_view();
    assert(views[i] == inventories@[i]@);
    law_every_device_with_a_model_is_known(views, i, j);
    let wanted = (views[i].receiver, views[i].paired[j]);
    let k = choose|k: int| 0 <= k < known(views).len() && known(views)[k] == wanted;
    assert(Some(models@[k]) == known(views)[k].1.model_info);
}

/// A copy of an inventory has the same receivers with the same devices, in the
/// same order.
pub proof fn law_copies_keep_every_receiver_and_device(
    inventories: &[DeviceInventory],
    copy: Vec<DeviceInventory>,
    i: int,
    model: DeviceModelInfo,
    key: String,
)
    requires
        call_ensures(clone_inventories, (inventories,), copy),
        call_ensures(DeviceModelInfo::config_key, (&model,), key),
    ensures
        copy@.len() == inventories@.len(),
        0 <= i < copy@.len() ==> copy@[i].receiver == inventories@[i].receiver && copy@[i].paired@
            == inventories@[i].paired@,
        key@ == model.key@,
{
    assert(copy.deep_view().len() == inventories.deep_view().len());
    if 0 <= i < copy@.len() {
        assert(copy.deep_view()[i] == inventories.deep_view()[i]);
        assert(copy@[i].deep_view() == inventories@[i].deep_view());
    }
}

} // verus!
