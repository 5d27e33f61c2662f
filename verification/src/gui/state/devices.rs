//! Device-list construction and selection.

use crate::agent::orchestrator::devices_of;
use crate::agent::orchestrator::known_devices;
use crate::agent::orchestrator::picked;
use crate::config::text;
use crate::device::known;
use crate::device::known_of;
use crate::device::DeviceInventory;
use crate::device::DeviceModelInfo;
use crate::device::InventoryView;
use crate::device::PairedDevice;
use crate::device::ReceiverInfo;
use crate::gui::asset::ResolvedAsset;
use crate::gui::state::dpi::DpiTarget;
use crate::search::first;
use crate::search::is_first;
use crate::search::lemma_first_exists;
use crate::search::lemma_first_is;
use crate::text::decimal;
use crate::text::push_decimal;
use crate::text::str_eq;
use vstd::prelude::*;

verus! {

/// One paired device with everything needed to switch to it: the config key
/// (for bindings and DPI persistence), a display name, the resolved asset (or
/// `None` for the synthetic fallback), and the target of HID++ DPI writes.
#[derive(Debug)]
pub struct DeviceRecord {
    pub config_key: String,
    pub display_name: String,
    pub asset: Option<ResolvedAsset>,
    pub dpi_target: Option<DpiTarget>,
}

/// The name a device is shown under: that of its asset, else its codename, else
/// its slot.
pub open spec fn shown_name(asset: Option<ResolvedAsset>, paired: PairedDevice) -> Seq<char> {
    match asset {
        Some(a) => a.display_name@,
        None => match paired.codename {
            Some(name) => name@,
            None => "Slot "@ + decimal(paired.slot),
        },
    }
}

/// Whether a record is that of a device, where `resolve` finds its asset.
pub open spec fn record_of<F: Fn(&DeviceModelInfo) -> Option<ResolvedAsset>>(
    record: DeviceRecord,
    receiver: ReceiverInfo,
    paired: PairedDevice,
    resolve: F,
) -> bool {
    &&& paired.model_info matches Some(model)
    &&& record.config_key == model.key
    &&& call_ensures(resolve, (&model,), record.asset)
    &&& record.display_name@ == shown_name(record.asset, paired)
    &&& record.dpi_target == match receiver.unique_id {
        Some(receiver_uid) => Some(DpiTarget { receiver_uid, slot: paired.slot }),
        None => None,
    }
}

/// Whether some records are those of some devices, one for one.
pub open spec fn records_of<F: Fn(&DeviceModelInfo) -> Option<ResolvedAsset>>(
    records: Seq<DeviceRecord>,
    devices: Seq<(ReceiverInfo, PairedDevice)>,
    resolve: F,
) -> bool {
    &&& records.len() == devices.len()
    &&& forall|i: int|
        0 <= i < records.len() ==> record_of(
            #[trigger] records[i],
            devices[i].0,
            devices[i].1,
            resolve,
        )
}

/// The record of a device whose model is known.
fn build_record<F: Fn(&DeviceModelInfo) -> Option<ResolvedAsset>>(
    receiver: &ReceiverInfo,
    paired: &PairedDevice,
    model: &DeviceModelInfo,
    resolve: &F,
) -> (record: DeviceRecord)
    requires
        paired.model_info == Some(*model),
        call_requires(*resolve, (model,)),
    ensures
        record_of(record, *receiver, *paired, *resolve),
{
    let asset: Option<ResolvedAsset> = resolve(model);
    let display_name: String = match &asset {
        Some(a) => a.display_name.clone(),
        None => match &paired.codename {
            Some(name) => name.clone(),
            None => {
                let mut name: String = "Slot ".to_owned();
                push_decimal(&mut name, paired.slot);
                name
            },
        },
    };
    let dpi_target: Option<DpiTarget> = match &receiver.unique_id {
        Some(uid) => Some(DpiTarget { receiver_uid: uid.clone(), slot: paired.slot }),
        None => None,
    };
    DeviceRecord { config_key: model.config_key(), display_name, asset, dpi_target }
}

/// Whether `resolve` can be asked about the models of the devices that have one.
pub open spec fn resolvable<F: Fn(&DeviceModelInfo) -> Option<ResolvedAsset>>(
    inventories: Seq<DeviceInventory>,
    resolve: F,
) -> bool {
    forall|i: int, j: int|
        0 <= i < inventories.len() && 0 <= j < inventories[i].paired@.len() ==> (
        #[trigger] inventories[i].paired@[j].model_info matches Some(m) ==> call_requires(
            resolve,
            (&m,),
        ))
}

/// The records of every device whose model is known, in enumeration order.
/// `resolve` finds the asset of a model.
pub fn build_device_list<F: Fn(&DeviceModelInfo) -> Option<ResolvedAsset>>(
    inventories: &[DeviceInventory],
    resolve: &F,
) -> (list: Vec<DeviceRecord>)
    requires
        resolvable(inventories@, *resolve),
    ensures
        records_of(list@, known(inventories.deep_view()), *resolve),
{
    let ghost views = inventories.deep_view();
    let mut list: Vec<DeviceRecord> = Vec::new();
    let mut i: usize = 0;
    assert(views.take(0) =~= Seq::empty());
    while i < inventories.len()
        invariant
            i <= inventories@.len(),
            views == inventories.deep_view(),
            resolvable(inventories@, *resolve),
            records_of(list@, known(views.take(i as int)), *resolve),
        decreases inventories@.len() - i,
    {
        let inv: &DeviceInventory = &inventories[i];
        let ghost before = known(views.take(i as int));
        let mut j: usize = 0;
        assert(inv.paired@.take(0) =~= Seq::empty());
        assert(before + Seq::<(ReceiverInfo, PairedDevice)>::empty() =~= before);
        while j < inv.paired.len()
            invariant
                j <= inv.paired@.len(),
                i < inventories@.len(),
                inv == inventories@[i as int],
                resolvable(inventories@, *resolve),
                records_of(
                    list@,
                    before + known_of(inv.receiver, inv.paired@.take(j as int)),
                    *resolve,
                ),
            decreases inv.paired@.len() - j,
        {
            let paired: &PairedDevice = &inv.paired[j];
            assert(*paired == inventories@[i as int].paired@[j as int]);
            let ghost upto = inv.paired@.take(j + 1);
            assert(upto.drop_last() =~= inv.paired@.take(j as int));
            if let Some(model) = &paired.model_info {
                list.push(build_record(&inv.receiver, paired, model, resolve));
            }
            j += 1;
        }
        assert(inv.paired@.take(j as int) =~= inv.paired@);
        proof {
            let upto = views.take(i + 1);
            assert(upto.drop_last() =~= views.take(i as int));
            assert(upto.last() == inv@);
        }
        i += 1;
    }
    assert(views.take(i as int) =~= views);
    list
}

/// Whether a record has this config key.
pub open spec fn keyed(key: Seq<char>) -> spec_fn(DeviceRecord) -> bool {
    |r: DeviceRecord| r.config_key@ == key
}

/// The position of the device to begin with: the first whose config key is the
/// saved one, else the first of all.
pub open spec fn initial(list: Seq<DeviceRecord>, saved: Option<Seq<char>>) -> int {
    match saved {
        Some(key) => match first(list, keyed(key)) {
            Some(i) => i,
            None => 0,
        },
        None => 0,
    }
}

/// The position of the device to begin with.
pub fn pick_initial_device(list: &Vec<DeviceRecord>, saved: Option<&str>) -> (index: usize)
    ensures
        index == initial(list@, text(saved)),
{
    let key: &str = match saved {
        Some(key) => key,
        None => return 0,
    };
    let ghost p = keyed(key@);
    let mut i: usize = 0;
    while i < list.len()
        invariant
            i <= list@.len(),
            p == keyed(key@),
            saved == Some(key),
            forall|j: int| 0 <= j < i ==> !p(#[trigger] list@[j]),
        decreases list@.len() - i,
    {
        if str_eq(list[i].config_key.as_str(), key) {
            proof {
                lemma_first_is(list@, p, i as int);
            }
            return i;
        }
        i += 1;
    }
    0
}

/// The device to begin with exists as soon as any does, and it is the saved one
/// wherever that one is listed.
pub proof fn law_the_saved_device_is_picked(list: Seq<DeviceRecord>, saved: Option<Seq<char>>)
    ensures
        list.len() > 0 ==> 0 <= initial(list, saved) < list.len(),
        list.len() == 0 ==> initial(list, saved) == 0,
        saved matches Some(key) ==> (exists|i: int|
            0 <= i < list.len() && (#[trigger] list[i]).config_key@ == key) ==> list[initial(
            list,
            saved,
        )].config_key@ == key,
{
    if let Some(key) = saved {
        if exists|i: int| 0 <= i < list.len() && (#[trigger] list[i]).config_key@ == key {
            let i = choose|i: int| 0 <= i < list.len() && (#[trigger] list[i]).config_key@ == key;
            assert(keyed(key)(list[i]));
            lemma_first_exists(list, keyed(key), i);
        }
    }
}

/// The agent and the window list the same devices in the same order, and begin
/// with the same one.
pub proof fn law_the_agent_and_the_window_agree<
    F: Fn(&DeviceModelInfo) -> Option<ResolvedAsset>,
>(
    inventories: Seq<InventoryView>,
    records: Seq<DeviceRecord>,
    resolve: F,
    saved: Option<Seq<char>>,
)
    requires
        records_of(records, known(inventories), resolve),
    ensures
        known_devices(inventories).len() == records.len(),
        forall|i: int|
            0 <= i < records.len() ==> (#[trigger] records[i]).config_key == known_devices(
                inventories,
            )[i].config_key,
        picked(known_devices(inventories), saved) == initial(records, saved),
{
    let devices = known_devices(inventories);
    lemma_same_devices(inventories);
    assert forall|i: int| 0 <= i < records.len() implies (#[trigger] records[i]).config_key
        == devices[i].config_key by {
        assert(record_of(records[i], known(inventories)[i].0, known(inventories)[i].1, resolve));
    }
    if let Some(key) = saved {
        let p = crate::agent::orchestrator::keyed(key);
        let q = keyed(key);
        assert forall|i: int|
            #![trigger is_first(devices, p, i)]
            #![trigger is_first(records, q, i)]
            is_first(devices, p, i) <==> is_first(records, q, i) by {
            assert forall|j: int| 0 <= j < records.len() implies (p(#[trigger] devices[j]) <==> q(
                records[j],
            )) by {
                assert(records[j].config_key == devices[j].config_key);
            }
            if is_first(devices, p, i) {
                assert forall|j: int| 0 <= j < i implies !q(#[trigger] records[j]) by {
                    assert(!p(devices[j]));
                }
            }
            if is_first(records, q, i) {
                assert forall|j: int| 0 <= j < i implies !p(#[trigger] devices[j]) by {
                    assert(!q(records[j]));
                }
            }
        }
        if exists|i: int| is_first(devices, p, i) {
            let i = choose|i: int| is_first(devices, p, i);
            assert(is_first(records, q, i));
            lemma_first_is(devices, p, i);
            lemma_first_is(records, q, i);
        } else {
            assert(forall|i: int| !is_first(records, q, i));
        }
    }
}

proof fn lemma_same_devices(inventories: Seq<InventoryView>)
    ensures
        known_devices(inventories).len() == known(inventories).len(),
        forall|i: int|
            0 <= i < known(inventories).len() ==> Some(
                #[trigger] known_devices(inventories)[i].config_key,
            ) == model_key(known(inventories)[i].1),
    decreases inventories.len(),
{
    if inventories.len() > 0 {
        lemma_same_devices(inventories.drop_last());
        lemma_same_devices_of(inventories.last().receiver, inventories.last().paired);
    }
}

proof fn lemma_same_devices_of(receiver: ReceiverInfo, paired: Seq<PairedDevice>)
    ensures
        devices_of(receiver, paired).len() == known_of(receiver, paired).len(),
        forall|i: int|
            0 <= i < known_of(receiver, paired).len() ==> Some(
                #[trigger] devices_of(receiver, paired)[i].config_key,
            ) == model_key(known_of(receiver, paired)[i].1),
    decreases paired.len(),
{
    if paired.len() > 0 {
        lemma_same_devices_of(receiver, paired.drop_last());
    }
}

spec fn model_key(paired: PairedDevice) -> Option<String> {
    match paired.model_info {
        Some(model) => Some(model.key),
        None => None,
    }
}

/// The device to begin with is the first that has the saved key; the first of
/// all where none has it, or nothing is saved.
pub proof fn law_the_first_record_with_the_saved_key_is_picked(
    list: Seq<DeviceRecord>,
    key: Seq<char>,
    i: int,
)
    ensures
        initial(list, None) == 0,
        (forall|j: int| 0 <= j < list.len() ==> (#[trigger] list[j]).config_key@ != key)
            ==> initial(list, Some(key)) == 0,
        0 <= i < list.len() && list[i].config_key@ == key && (forall|j: int|
            0 <= j < i ==> (#[trigger] list[j]).config_key@ != key) ==> initial(list, Some(key))
            == i,
{
    let p = keyed(key);
    if forall|j: int| 0 <= j < list.len() ==> (#[trigger] list[j]).config_key@ != key {
        crate::search::law_nothing_is_found_where_nothing_matches(list, p);
    }
    if 0 <= i < list.len() && list[i].config_key@ == key && (forall|j: int|
        0 <= j < i ==> (#[trigger] list[j]).config_key@ != key) {
        assert(p(list[i]));
        assert forall|j: int| 0 <= j < i implies !p(#[trigger] list[j]) by {}
        crate::search::law_the_first_match_is_found(list, p, i);
    }
}

/// What the record of a device says: the key of its model, the asset that was
/// resolved for that model, the name of the asset, else the codename, else the
/// slot, and the receiver's id with the slot as the target, where there is one.
pub proof fn law_a_record_says_what_is_known_of_its_device<
    F: Fn(&DeviceModelInfo) -> Option<ResolvedAsset>,
>(record: DeviceRecord, receiver: ReceiverInfo, paired: PairedDevice, resolve: F)
    requires
        record_of(record, receiver, paired, resolve),
    ensures
        paired.model_info is Some,
        record.config_key == paired.model_info->0.key,
        call_ensures(resolve, (&paired.model_info->0,), record.asset),
        record.asset matches Some(asset) ==> record.display_name@ == asset.display_name@,
        record.asset is None && paired.codename is Some ==> record.display_name@
            == paired.codename->0@,
        record.asset is None && paired.codename is None ==> record.display_name@ == "Slot "@
            + decimal(paired.slot),
        receiver.unique_id matches Some(uid) ==> (record.dpi_target matches Some(target)
            && target.receiver_uid == uid && target.slot == paired.slot),
        receiver.unique_id is None ==> record.dpi_target is None,
{
}

/// Every device whose model is known has a record, whatever its kind, slot or
/// status, and there are as many records as such devices.
pub proof fn law_every_device_with_a_model_has_a_record<
    F: Fn(&DeviceModelInfo) -> Option<ResolvedAsset>,
>(
    inventories: Seq<InventoryView>,
    records: Seq<DeviceRecord>,
    resolve: F,
    i: int,
    j: int,
)
    requires
        records_of(records, known(inventories), resolve),
        0 <= i < inventories.len(),
        0 <= j < inventories[i].paired.len(),
        inventories[i].paired[j].model_info is Some,
    ensures
        records.len() == known(inventories).len(),
        exists|k: int|
            0 <= k < records.len() && #[trigger] record_of(
                records[k],
                inventories[i].receiver,
                inventories[i].paired[j],
                resolve,
            ),
{
    crate::device::law_every_device_with_a_model_is_known(inventories, i, j);
    let devices = known(inventories);
    let wanted = (inventories[i].receiver, inventories[i].paired[j]);
    let k = choose|k: int| 0 <= k < devices.len() && devices[k] == wanted;
    assert(record_of(records[k], devices[k].0, devices[k].1, resolve));
}

/// Every device whose model is known is listed, whatever its kind, slot or
/// status: under the key of its model, with the asset resolved for it, the name
/// of that asset, else its codename, else its slot, and its receiver's id and
/// slot as the target.
pub proof fn law_listing_shows_every_known_device<
    F: Fn(&DeviceModelInfo) -> Option<ResolvedAsset>,
>(inventories: &[DeviceInventory], resolve: F, list: Vec<DeviceRecord>, i: int, j: int)
    requires
        call_ensures(build_device_list::<F>, (inventories, &resolve), list),
        0 <= i < inventories@.len(),
        0 <= j < inventories@[i].paired@.len(),
        inventories@[i].paired@[j].model_info is Some,
    ensures
        exists|k: int|
            {
                let receiver = inventories@[i].receiver;
                let paired = inventories@[i].paired@[j];
                let model = paired.model_info->0;
                &&& 0 <= k < list@.len()
                &&& (#[trigger] list@[k]).config_key == model.key
                &&& call_ensures(resolve, (&model,), list@[k].asset)
                &&& list@[k].asset matches Some(a) ==> list@[k].display_name@ == a.display_name@
                &&& list@[k].asset is None ==> (paired.codename matches Some(name)
                    ==> list@[k].display_name@ == name@)
                &&& list@[k].asset is None && paired.codename is None ==> list@[k].display_name@
                    == "Slot "@ + decimal(paired.slot)
                &&& receiver.unique_id matches Some(uid) ==> (list@[k].dpi_target matches Some(t)
                    && t.receiver_uid == uid && t.slot == paired.slot)
                &&& receiver.unique_id is None ==> list@[k].dpi_target is None
            },
{
    let views = inventories.deep_view();
    assert(views[i] == inventories@[i]@);
    law_every_device_with_a_model_has_a_record(views, list@, resolve, i, j);
    let k = choose|k: int|
        0 <= k < list@.len() && #[trigger] record_of(
            list@[k],
            views[i].receiver,
            views[i].paired[j],
            resolve,
        );
    law_a_record_says_what_is_known_of_its_device(
        list@[k],
        views[i].receiver,
        views[i].paired[j],
        resolve,
    );
}

/// The list has one record for each device whose model is known and no other,
/// receiver by receiver.
pub proof fn law_nothing_else_is_listed<F: Fn(&DeviceModelInfo) -> Option<ResolvedAsset>>(
    inventories: &[DeviceInventory],
    resolve: F,
    list: Vec<DeviceRecord>,
    k: int,
)
    requires
        call_ensures(build_device_list::<F>, (inventories, &resolve), list),
        0 <= k < list@.len(),
    ensures
        list@.len() == known(inventories.deep_view()).len(),
        known(inventories.deep_view())[k].1.model_info matches Some(model) && model.key
            == list@[k].config_key,
{
    let devices = known(inventories.deep_view());
    assert(record_of(list@[k], devices[k].0, devices[k].1, resolve));
}

/// The device that is picked is the first with the saved key, else the first.
pub proof fn law_picking_the_saved_device(
    list: Vec<DeviceRecord>,
    key: &str,
    index: usize,
    fallback: usize,
    i: int,
)
    requires
        call_ensures(pick_initial_device, (&list, Some(key)), index),
        call_ensures(pick_initial_device, (&list, None), fallback),
    ensures
        fallback == 0,
        0 <= i < list@.len() && list@[i].config_key@ == key@ && (forall|j: int|
            0 <= j < i ==> (#[trigger] list@[j]).config_key@ != key@) ==> index == i,
        (forall|j: int| 0 <= j < list@.len() ==> (#[trigger] list@[j]).config_key@ != key@) ==> index
            == 0,
{
    law_the_first_record_with_the_saved_key_is_picked(list@, key@, i);
}

} // verus!
