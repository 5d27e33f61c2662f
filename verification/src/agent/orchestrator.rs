//! Headless runtime state owned by the background agent.
//!
//! It owns the values the event hook and the gesture watcher read, and rebuilds
//! them from a [`Config`] plus the latest device inventory. The agent never
//! discovers DPI capabilities, so presets cycle at their raw values.

use crate::binding::Action;
use crate::binding::ActionMap;
use crate::binding::ButtonId;
use crate::binding::GestureDirection;
use crate::config::bindings_for;
use crate::config::button_actions;
use crate::config::gesture_actions;
use crate::config::gesture_bindings_for;
use crate::config::text;
use crate::config::Config;
use crate::device::clone_inventories;
use crate::device::DeviceInventory;
use crate::device::DeviceRoute;
use crate::device::InventoryView;
use crate::device::PairedDevice;
use crate::device::ReceiverInfo;
use crate::device::DIRECT_DEVICE_INDEX;
use crate::guarded::write_value;
use crate::guarded::Guarded;
use crate::search::first;
use crate::search::lemma_first_exists;
use crate::search::lemma_first_is;
use crate::text::str_eq;
use vstd::prelude::*;

verus! {

/// The minimal per-device facts the agent needs: the config key (binding and
/// preset lookup) and the HID++ route (device writes and capture target).
#[derive(Debug)]
pub struct AgentDevice {
    pub config_key: String,
    pub route: Option<DeviceRoute>,
}

/// The DPI presets of the selected device, which one is current, and where a
/// DPI write goes.
#[verifier::ext_equal]
pub struct DpiCycleView {
    pub presets: Seq<u32>,
    pub index: usize,
    pub target: Option<DeviceRoute>,
}

/// The DPI presets of the selected device, which one is current, and where a
/// DPI write goes.
#[derive(Debug)]
pub struct DpiCycleState {
    pub presets: Vec<u32>,
    pub index: usize,
    pub target: Option<DeviceRoute>,
}

impl View for DpiCycleState {
    type V = DpiCycleView;

    open spec fn view(&self) -> DpiCycleView {
        DpiCycleView { presets: self.presets@, index: self.index, target: self.target }
    }
}

impl Clone for DpiCycleState {
    fn clone(&self) -> (copy: Self)
        ensures
            copy@ == self@,
    {
        let presets: Vec<u32> = self.presets.clone();
        assert(presets@ =~= self.presets@);
        DpiCycleState { presets, index: self.index, target: self.target.clone() }
    }
}

/// The values the hook and the gesture watcher read.
#[verifier::ext_equal]
pub struct RuntimeView {
    pub hook_bindings: Map<ButtonId, Action>,
    pub gesture_bindings: Map<GestureDirection, Action>,
    pub dpi_cycle: DpiCycleView,
    pub thumbwheel_sensitivity: i32,
}

/// Which of the locks are poisoned.
pub struct PoisonView {
    pub hook_bindings: bool,
    pub gesture_bindings: bool,
    pub dpi_cycle: bool,
}

impl RuntimeView {
    /// These values with the current ones in place of those behind a poisoned
    /// lock.
    pub open spec fn kept_where_poisoned(
        self,
        poison: PoisonView,
        current: RuntimeView,
    ) -> RuntimeView {
        RuntimeView {
            hook_bindings: if poison.hook_bindings {
                current.hook_bindings
            } else {
                self.hook_bindings
            },
            gesture_bindings: if poison.gesture_bindings {
                current.gesture_bindings
            } else {
                self.gesture_bindings
            },
            dpi_cycle: if poison.dpi_cycle {
                current.dpi_cycle
            } else {
                self.dpi_cycle
            },
            thumbwheel_sensitivity: self.thumbwheel_sensitivity,
        }
    }
}

/// The runtime handed to the hook and the gesture watcher. The orchestrator
/// rewrites the values on each rebuild.
#[derive(Debug)]
pub struct SharedRuntime {
    pub hook_bindings: Guarded<ActionMap<ButtonId>>,
    pub gesture_bindings: Guarded<ActionMap<GestureDirection>>,
    pub dpi_cycle: Guarded<DpiCycleState>,
    pub thumbwheel_sensitivity: i32,
}

impl SharedRuntime {
    /// The values.
    pub open spec fn values(&self) -> RuntimeView {
        RuntimeView {
            hook_bindings: self.hook_bindings.value@,
            gesture_bindings: self.gesture_bindings.value@,
            dpi_cycle: self.dpi_cycle.value@,
            thumbwheel_sensitivity: self.thumbwheel_sensitivity,
        }
    }

    /// Which of the locks are poisoned.
    pub open spec fn poison(&self) -> PoisonView {
        PoisonView {
            hook_bindings: self.hook_bindings.poisoned,
            gesture_bindings: self.gesture_bindings.poisoned,
            dpi_cycle: self.dpi_cycle.poisoned,
        }
    }
}

impl Clone for SharedRuntime {
    fn clone(&self) -> (copy: Self)
        ensures
            copy.values() == self.values(),
            copy.poison() == self.poison(),
    {
        SharedRuntime {
            hook_bindings: Guarded {
                value: self.hook_bindings.value.clone(),
                poisoned: self.hook_bindings.poisoned,
            },
            gesture_bindings: Guarded {
                value: self.gesture_bindings.value.clone(),
                poisoned: self.gesture_bindings.poisoned,
            },
            dpi_cycle: Guarded {
                value: self.dpi_cycle.value.clone(),
                poisoned: self.dpi_cycle.poisoned,
            },
            thumbwheel_sensitivity: self.thumbwheel_sensitivity,
        }
    }
}

/// The route to a device: through the receiver where its id is known, and
/// directly at the index of a directly attached device. A paired device whose
/// receiver's id is unknown has none, so writes are skipped rather than
/// misrouted.
pub open spec fn route_to(receiver: ReceiverInfo, slot: u8) -> Option<DeviceRoute> {
    match receiver.unique_id {
        Some(receiver_uid) => Some(DeviceRoute::Bolt { receiver_uid, slot }),
        None => if slot == DIRECT_DEVICE_INDEX {
            Some(
                DeviceRoute::Direct {
                    vendor_id: receiver.vendor_id,
                    product_id: receiver.product_id,
                },
            )
        } else {
            None
        },
    }
}

/// The devices of one receiver whose model is known.
pub open spec fn devices_of(receiver: ReceiverInfo, paired: Seq<PairedDevice>) -> Seq<AgentDevice>
    decreases paired.len(),
{
    if paired.len() == 0 {
        Seq::empty()
    } else {
        let rest = devices_of(receiver, paired.drop_last());
        match paired.last().model_info {
            Some(model) => rest.push(
                AgentDevice {
                    config_key: model.key,
                    route: route_to(receiver, paired.last().slot),
                },
            ),
            None => rest,
        }
    }
}

/// The devices of all receivers whose model is known, in enumeration order.
pub open spec fn known_devices(inventories: Seq<InventoryView>) -> Seq<AgentDevice>
    decreases inventories.len(),
{
    if inventories.len() == 0 {
        Seq::empty()
    } else {
        known_devices(inventories.drop_last()) + devices_of(
            inventories.last().receiver,
            inventories.last().paired,
        )
    }
}

/// Whether a device has this config key.
pub open spec fn keyed(key: Seq<char>) -> spec_fn(AgentDevice) -> bool {
    |d: AgentDevice| d.config_key@ == key
}

/// The position of the selected device: the first whose config key is the saved
/// one, else the first of all.
pub open spec fn picked(devices: Seq<AgentDevice>, saved: Option<Seq<char>>) -> int {
    match saved {
        Some(key) => match first(devices, keyed(key)) {
            Some(i) => i,
            None => 0,
        },
        None => 0,
    }
}

/// What the orchestrator holds.
#[verifier::ext_equal]
pub struct OrchestratorView {
    pub config: Config,
    pub devices: Seq<AgentDevice>,
    pub current: int,
    pub current_app: Option<Seq<char>>,
    pub inventory: Seq<InventoryView>,
    pub shared: RuntimeView,
    pub poison: PoisonView,
}

impl OrchestratorView {
    /// The selected device.
    pub open spec fn device(self) -> Option<AgentDevice> {
        if 0 <= self.current < self.devices.len() {
            Some(self.devices[self.current])
        } else {
            None
        }
    }

    /// The selected device's config key.
    pub open spec fn key(self) -> Option<Seq<char>> {
        match self.device() {
            Some(d) => Some(d.config_key@),
            None => None,
        }
    }

    /// The values that follow from the config, the selected device and the
    /// frontmost application.
    pub open spec fn derived(self) -> RuntimeView {
        RuntimeView {
            hook_bindings: button_actions(self.config, self.key(), self.current_app),
            gesture_bindings: gesture_actions(self.config, self.key()),
            dpi_cycle: DpiCycleView {
                presets: match self.key() {
                    Some(key) => self.config.presets(key),
                    None => Seq::empty(),
                },
                index: 0,
                target: match self.device() {
                    Some(d) => d.route,
                    None => None,
                },
            },
            thumbwheel_sensitivity: self.config.app_settings.thumbwheel_sensitivity,
        }
    }

    /// The state with its shared values derived anew.
    pub open spec fn rebuilt(self) -> OrchestratorView {
        OrchestratorView {
            shared: self.derived().kept_where_poisoned(self.poison, self.shared),
            ..self
        }
    }

    /// The state after an inventory snapshot.
    pub open spec fn with_inventory(self, inventories: Seq<InventoryView>) -> OrchestratorView {
        let devices = known_devices(inventories);
        (OrchestratorView {
            inventory: inventories,
            devices,
            current: picked(devices, self.config.selection()),
            ..self
        }).rebuilt()
    }

    /// The state after the config was replaced.
    pub open spec fn with_config(self, config: Config) -> OrchestratorView {
        (OrchestratorView {
            config,
            current: picked(self.devices, config.selection()),
            ..self
        }).rebuilt()
    }

    /// The state after another application came to the front: the button
    /// bindings follow, gestures and DPI are not app-scoped.
    pub open spec fn with_app(self, app: Option<Seq<char>>) -> OrchestratorView {
        let moved = OrchestratorView { current_app: app, ..self };
        if app == self.current_app {
            self
        } else {
            OrchestratorView {
                shared: RuntimeView {
                    hook_bindings: if self.poison.hook_bindings {
                        self.shared.hook_bindings
                    } else {
                        moved.derived().hook_bindings
                    },
                    ..self.shared
                },
                ..moved
            }
        }
    }

    /// The shared values are those that follow from the rest, save behind a
    /// poisoned lock.
    pub open spec fn in_sync(self) -> bool {
        self.shared == self.derived().kept_where_poisoned(self.poison, self.shared)
    }
}

/// The locks of the shared runtime.
#[derive(Clone, Copy, Debug, PartialEq, Eq, Structural)]
pub enum Lock {
    HookBindings,
    GestureBindings,
    DpiCycle,
}

/// Owns the config and the device selection and keeps [`SharedRuntime`] in
/// sync.
#[derive(Debug)]
pub struct Orchestrator {
    config: Config,
    devices: Vec<AgentDevice>,
    current: usize,
    current_app: Option<String>,
    /// The latest inventory snapshot, kept so that it can be asked for without
    /// enumerating again.
    last_inventory: Vec<DeviceInventory>,
    shared: SharedRuntime,
}

impl View for Orchestrator {
    type V = OrchestratorView;

    closed spec fn view(&self) -> OrchestratorView {
        OrchestratorView {
            config: self.config,
            devices: self.devices@,
            current: self.current as int,
            current_app: match self.current_app {
                Some(app) => Some(app@),
                None => None,
            },
            inventory: self.last_inventory.deep_view(),
            shared: self.shared.values(),
            poison: self.shared.poison(),
        }
    }
}

/// The text of an optional string.
fn borrowed(s: &Option<String>) -> (b: Option<&str>)
    ensures
        text(b) == match *s {
            Some(t) => Some(t@),
            None => None,
        },
{
    match s {
        Some(t) => Some(t.as_str()),
        None => None,
    }
}

impl Orchestrator {
    /// Build from a loaded config, with no devices yet; the first inventory
    /// fills in the routes and presets.
    pub fn new(config: Config) -> (orchestrator: Self)
        ensures
            orchestrator@.config == config,
            orchestrator@.devices == Seq::<AgentDevice>::empty(),
            orchestrator@.current == 0,
            orchestrator@.current_app is None,
            orchestrator@.inventory == Seq::<InventoryView>::empty(),
            orchestrator@.shared == orchestrator@.derived(),
            orchestrator@.poison == (PoisonView {
                hook_bindings: false,
                gesture_bindings: false,
                dpi_cycle: false,
            }),
    {
        let shared = SharedRuntime {
            hook_bindings: Guarded { value: ActionMap::new(), poisoned: false },
            gesture_bindings: Guarded { value: ActionMap::new(), poisoned: false },
            dpi_cycle: Guarded {
                value: DpiCycleState { presets: Vec::new(), index: 0, target: None },
                poisoned: false,
            },
            thumbwheel_sensitivity: config.app_settings.thumbwheel_sensitivity,
        };
        let mut orchestrator = Orchestrator {
            config,
            devices: Vec::new(),
            current: 0,
            current_app: None,
            last_inventory: Vec::new(),
            shared,
        };
        assert(orchestrator@.inventory =~= Seq::<InventoryView>::empty());
        orchestrator.rebuild();
        orchestrator
    }

    /// The shared values, to hand to the watchers and the hook.
    pub fn shared(&self) -> (shared: SharedRuntime)
        ensures
            shared.values() == self@.shared,
            shared.poison() == self@.poison,
    {
        self.shared.clone()
    }

    fn current_key(&self) -> (key: Option<&str>)
        ensures
            text(key) == self@.key(),
    {
        if self.current < self.devices.len() {
            Some(self.devices[self.current].config_key.as_str())
        } else {
            None
        }
    }

    fn current_route(&self) -> (route: Option<DeviceRoute>)
        ensures
            route == match self@.device() {
                Some(d) => d.route,
                None => None,
            },
    {
        if self.current < self.devices.len() {
            self.devices[self.current].route.clone()
        } else {
            None
        }
    }

    /// Rewrite every shared value from the current config and selected device.
    fn rebuild(&mut self)
        ensures
            final(self)@ == old(self)@.rebuilt(),
    {
        let hook_bindings = bindings_for(
            &self.config,
            self.current_key(),
            borrowed(&self.current_app),
        );
        let gesture_bindings = gesture_bindings_for(&self.config, self.current_key());
        let presets: Vec<u32> = match self.current_key() {
            Some(key) => self.config.dpi_presets(key),
            None => Vec::new(),
        };
        let target = self.current_route();
        write_value(&mut self.shared.hook_bindings, hook_bindings);
        write_value(&mut self.shared.gesture_bindings, gesture_bindings);
        write_value(&mut self.shared.dpi_cycle, DpiCycleState { presets, index: 0, target });
        self.shared.thumbwheel_sensitivity = self.config.app_settings.thumbwheel_sensitivity;
    }

    /// Apply a fresh inventory snapshot: rebuild the device list, re-pick the
    /// selected device (by saved config key, else the first), and rebuild.
    pub fn refresh_inventory(&mut self, inventories: &[DeviceInventory])
        ensures
            final(self)@ == old(self)@.with_inventory(inventories.deep_view()),
    {
        self.last_inventory = clone_inventories(inventories);
        self.devices = build_devices(inventories);
        self.current = pick_current(&self.devices, self.config.selected_device());
        self.rebuild();
    }

    /// The latest inventory snapshot.
    pub fn inventory(&self) -> (inventory: Vec<DeviceInventory>)
        ensures
            inventory.deep_view() == self@.inventory,
    {
        clone_inventories(self.last_inventory.as_slice())
    }

    /// Whether autostart is enabled in the current config.
    pub fn launch_at_login(&self) -> (enabled: bool)
        ensures
            enabled == self@.config.app_settings.launch_at_login,
    {
        self.config.app_settings.launch_at_login
    }

    /// Another application came to the front: re-overlay the per-app bindings.
    /// Returns whether it is another one.
    pub fn set_current_app(&mut self, bundle: Option<String>) -> (changed: bool)
        ensures
            final(self)@ == old(self)@.with_app(
                match bundle {
                    Some(app) => Some(app@),
                    None => None,
                },
            ),
            changed == (old(self)@.current_app != final(self)@.current_app),
    {
        let same: bool = match (&bundle, &self.current_app) {
            (Some(a), Some(b)) => str_eq(a.as_str(), b.as_str()),
            (None, None) => true,
            _ => false,
        };
        if same {
            return false;
        }
        self.current_app = bundle;
        let hook_bindings = bindings_for(
            &self.config,
            self.current_key(),
            borrowed(&self.current_app),
        );
        write_value(&mut self.shared.hook_bindings, hook_bindings);
        true
    }

    /// Replace the config and rebuild everything.
    pub fn reload_config(&mut self, config: Config)
        ensures
            final(self)@ == old(self)@.with_config(config),
    {
        self.config = config;
        self.current = pick_current(&self.devices, self.config.selected_device());
        self.rebuild();
    }

    /// A thread panicked while it held a lock.
    pub fn poisoned(&mut self, lock: Lock)
        ensures
            final(self)@ == (OrchestratorView {
                poison: match lock {
                    Lock::HookBindings => PoisonView {
                        hook_bindings: true,
                        ..old(self)@.poison
                    },
                    Lock::GestureBindings => PoisonView {
                        gesture_bindings: true,
                        ..old(self)@.poison
                    },
                    Lock::DpiCycle => PoisonView { dpi_cycle: true, ..old(self)@.poison },
                },
                ..old(self)@
            }),
    {
        match lock {
            Lock::HookBindings => {
                self.shared.hook_bindings.poisoned = true;
            },
            Lock::GestureBindings => {
                self.shared.gesture_bindings.poisoned = true;
            },
            Lock::DpiCycle => {
                self.shared.dpi_cycle.poisoned = true;
            },
        }
    }
}

/// Build the agent device list from an inventory snapshot. A device is included
/// only once its model has resolved, since the config key is derived from it.
pub fn build_devices(inventories: &[DeviceInventory]) -> (devices: Vec<AgentDevice>)
    ensures
        devices@ == known_devices(inventories.deep_view()),
{
    let ghost views = inventories.deep_view();
    let mut devices: Vec<AgentDevice> = Vec::new();
    let mut i: usize = 0;
    assert(views.take(0) =~= Seq::empty());
    while i < inventories.len()
        invariant
            i <= inventories@.len(),
            views == inventories.deep_view(),
            devices@ == known_devices(views.take(i as int)),
        decreases inventories@.len() - i,
    {
        let inv: &DeviceInventory = &inventories[i];
        let ghost before = devices@;
        let mut j: usize = 0;
        assert(inv.paired@.take(0) =~= Seq::empty());
        assert(before + Seq::<AgentDevice>::empty() =~= before);
        while j < inv.paired.len()
            invariant
                j <= inv.paired@.len(),
                devices@ == before + devices_of(inv.receiver, inv.paired@.take(j as int)),
            decreases inv.paired@.len() - j,
        {
            let paired: &PairedDevice = &inv.paired[j];
            let ghost upto = inv.paired@.take(j + 1);
            assert(upto.drop_last() =~= inv.paired@.take(j as int));
            if let Some(model) = &paired.model_info {
                devices.push(
                    AgentDevice {
                        config_key: model.config_key(),
                        route: device_route(&inv.receiver, paired.slot),
                    },
                );
            }
            assert(devices@ =~= before + devices_of(inv.receiver, upto));
            j += 1;
        }
        assert(inv.paired@.take(j as int) =~= inv.paired@);
        proof {
            let upto = views.take(i + 1);
            assert(upto.drop_last() =~= views.take(i as int));
            assert(upto.last() == inv@);
        }
        i += 1;
    }
    assert(views.take(i as int) =~= views);
    devices
}

/// Index of the selected device: the one whose config key matches the saved
/// selection, else the first.
pub fn pick_current(devices: &Vec<AgentDevice>, saved: Option<&str>) -> (index: usize)
    ensures
        index == picked(devices@, text(saved)),
{
    let key: &str = match saved {
        Some(key) => key,
        None => return 0,
    };
    let ghost p = keyed(key@);
    let mut i: usize = 0;
    while i < devices.len()
        invariant
            i <= devices@.len(),
            p == keyed(key@),
            saved == Some(key),
            forall|j: int| 0 <= j < i ==> !p(#[trigger] devices@[j]),
        decreases devices@.len() - i,
    {
        if str_eq(devices[i].config_key.as_str(), key) {
            proof {
                lemma_first_is(devices@, p, i as int);
            }
            return i;
        }
        i += 1;
    }
    0
}

/// The route HID++ writes use to reach a device.
pub fn device_route(receiver: &ReceiverInfo, slot: u8) -> (route: Option<DeviceRoute>)
    ensures
        route == route_to(*receiver, slot),
{
    match &receiver.unique_id {
        Some(receiver_uid) => Some(
            DeviceRoute::Bolt { receiver_uid: receiver_uid.clone(), slot },
        ),
        None => if slot == DIRECT_DEVICE_INDEX {
            Some(
                DeviceRoute::Direct {
                    vendor_id: receiver.vendor_id,
                    product_id: receiver.product_id,
                },
            )
        } else {
            None
        },
    }
}

/// Every operation leaves the shared values in sync with the config, the
/// selected device and the frontmost application.
pub proof fn law_operations_keep_the_runtime_in_sync(
    state: OrchestratorView,
    inventories: Seq<InventoryView>,
    config: Config,
    app: Option<Seq<char>>,
)
    requires
        state.in_sync(),
    ensures
        state.with_inventory(inventories).in_sync(),
        state.with_config(config).in_sync(),
        state.with_app(app).in_sync(),
{
}

/// The selected device exists as soon as any does, and it is the one the user
/// selected wherever that one is present.
pub proof fn law_a_device_is_selected_when_there_is_one(
    devices: Seq<AgentDevice>,
    saved: Option<Seq<char>>,
)
    ensures
        devices.len() > 0 ==> 0 <= picked(devices, saved) < devices.len(),
        devices.len() == 0 ==> picked(devices, saved) == 0,
        saved matches Some(key) ==> (exists|i: int|
            0 <= i < devices.len() && (#[trigger] devices[i]).config_key@ == key)
            ==> devices[picked(devices, saved)].config_key@ == key,
{
    if let Some(key) = saved {
        if exists|i: int| 0 <= i < devices.len() && (#[trigger] devices[i]).config_key@ == key {
            let i = choose|i: int|
                0 <= i < devices.len() && (#[trigger] devices[i]).config_key@ == key;
            assert(keyed(key)(devices[i]));
            lemma_first_exists(devices, keyed(key), i);
        }
    }
}

/// Applying the same inventory, config or frontmost application again changes
/// nothing.
pub proof fn law_operations_are_idempotent(
    state: OrchestratorView,
    inventories: Seq<InventoryView>,
    config: Config,
    app: Option<Seq<char>>,
)
    ensures
        state.with_inventory(inventories).with_inventory(inventories) == state.with_inventory(
            inventories,
        ),
        state.with_config(config).with_config(config) == state.with_config(config),
        state.with_app(app).with_app(app) == state.with_app(app),
{
}

/// A foreground change never touches gestures, DPI or the thumbwheel.
pub proof fn law_a_foreground_change_touches_the_button_bindings_alone(
    state: OrchestratorView,
    app: Option<Seq<char>>,
)
    ensures
        state.with_app(app).shared == (RuntimeView {
            hook_bindings: state.with_app(app).shared.hook_bindings,
            ..state.shared
        }),
        state.with_app(app).devices == state.devices,
        state.with_app(app).current == state.current,
        state.with_app(app).config == state.config,
{
}

/// A device behind a receiver with an id is reached through it, at its slot; one
/// without, directly, by vendor and product, exactly at index `0xff`; and there
/// is no other route.
pub proof fn law_routes_go_through_the_receiver_or_straight(receiver: ReceiverInfo, slot: u8)
    ensures
        ({
            let route = route_to(receiver, slot);
            &&& receiver.unique_id matches Some(uid) ==> (route matches Some(
                DeviceRoute::Bolt { receiver_uid, slot: at },
            ) && receiver_uid == uid && at == slot)
            &&& receiver.unique_id is None && slot == 0xff ==> (route matches Some(
                DeviceRoute::Direct { vendor_id, product_id },
            ) && vendor_id == receiver.vendor_id && product_id == receiver.product_id)
            &&& receiver.unique_id is None && slot != 0xff ==> route is None
        }),
{
}

/// The agent lists the devices of a receiver whose model is known, whatever else
/// is said of them, all of them, in order, each with the key of its model and the
/// route to its slot.
pub proof fn law_a_receivers_devices_are_those_with_a_model(
    receiver: ReceiverInfo,
    paired: Seq<PairedDevice>,
)
    ensures
        devices_of(receiver, paired) == paired.filter(
            |d: PairedDevice| d.model_info is Some,
        ).map_values(
            |d: PairedDevice|
                AgentDevice {
                    config_key: d.model_info->0.key,
                    route: route_to(receiver, d.slot),
                },
        ),
    decreases paired.len(),
{
    reveal(Seq::filter);
    let has_model = |d: PairedDevice| d.model_info is Some;
    let listed = |d: PairedDevice|
        AgentDevice { config_key: d.model_info->0.key, route: route_to(receiver, d.slot) };
    if paired.len() > 0 {
        law_a_receivers_devices_are_those_with_a_model(receiver, paired.drop_last());
        let rest = paired.drop_last().filter(has_model);
        assert(rest.push(paired.last()).map_values(listed) =~= rest.map_values(listed).push(
            listed(paired.last()),
        ));
    }
    assert(devices_of(receiver, paired) =~= paired.filter(has_model).map_values(listed));
}

/// The devices of several receivers are listed receiver by receiver.
pub proof fn law_devices_keep_the_order_of_the_receivers(
    before: Seq<InventoryView>,
    inventory: InventoryView,
    after: Seq<InventoryView>,
)
    ensures
        known_devices(before + seq![inventory] + after) == known_devices(before) + devices_of(
            inventory.receiver,
            inventory.paired,
        ) + known_devices(after),
        known_devices(Seq::empty()) == Seq::<AgentDevice>::empty(),
    decreases after.len(),
{
    let all = before + seq![inventory] + after;
    let own = devices_of(inventory.receiver, inventory.paired);
    if after.len() == 0 {
        assert(all.drop_last() =~= before);
        assert(known_devices(all) =~= known_devices(before) + own + known_devices(after));
    } else {
        law_devices_keep_the_order_of_the_receivers(before, inventory, after.drop_last());
        assert(all.drop_last() =~= before + seq![inventory] + after.drop_last());
        assert(all.last() == after.last());
        assert(known_devices(all) =~= known_devices(before) + own + known_devices(after));
    }
}

/// Every device whose model is known is listed, whatever its kind, slot or
/// status, with the key of its model and the route to it.
pub proof fn law_every_device_with_a_model_is_listed(
    inventories: Seq<InventoryView>,
    i: int,
    j: int,
)
    requires
        0 <= i < inventories.len(),
        0 <= j < inventories[i].paired.len(),
        inventories[i].paired[j].model_info is Some,
    ensures
        known_devices(inventories).contains(
            AgentDevice {
                config_key: inventories[i].paired[j].model_info->0.key,
                route: route_to(inventories[i].receiver, inventories[i].paired[j].slot),
            },
        ),
    decreases inventories.len(),
{
    let last = inventories.last();
    let before = known_devices(inventories.drop_last());
    let own = devices_of(last.receiver, last.paired);
    let wanted = AgentDevice {
        config_key: inventories[i].paired[j].model_info->0.key,
        route: route_to(inventories[i].receiver, inventories[i].paired[j].slot),
    };
    if i < inventories.len() - 1 {
        law_every_device_with_a_model_is_listed(inventories.drop_last(), i, j);
        let k = choose|k: int| 0 <= k < before.len() && before[k] == wanted;
        assert(known_devices(inventories)[k] == wanted);
    } else {
        lemma_devices_of_contains(last.receiver, last.paired, j);
        let k = choose|k: int| 0 <= k < own.len() && own[k] == wanted;
        assert(known_devices(inventories)[before.len() + k] == wanted);
    }
}

proof fn lemma_devices_of_contains(receiver: ReceiverInfo, paired: Seq<PairedDevice>, j: int)
    requires
        0 <= j < paired.len(),
        paired[j].model_info is Some,
    ensures
        devices_of(receiver, paired).contains(
            AgentDevice {
                config_key: paired[j].model_info->0.key,
                route: route_to(receiver, paired[j].slot),
            },
        ),
    decreases paired.len(),
{
    let rest = devices_of(receiver, paired.drop_last());
    let wanted = AgentDevice {
        config_key: paired[j].model_info->0.key,
        route: route_to(receiver, paired[j].slot),
    };
    if j < paired.len() - 1 {
        lemma_devices_of_contains(receiver, paired.drop_last(), j);
        let k = choose|k: int| 0 <= k < rest.len() && rest[k] == wanted;
        assert(devices_of(receiver, paired)[k] == wanted);
    } else {
        assert(devices_of(receiver, paired)[rest.len() as int] == wanted);
    }
}

/// The selected device is the first that has the saved key; the first of all
/// where none has it, or nothing is saved.
pub proof fn law_the_first_device_with_the_saved_key_is_selected(
    devices: Seq<AgentDevice>,
    key: Seq<char>,
    i: int,
)
    ensures
        picked(devices, None) == 0,
        (forall|j: int| 0 <= j < devices.len() ==> (#[trigger] devices[j]).config_key@ != key)
            ==> picked(devices, Some(key)) == 0,
        0 <= i < devices.len() && devices[i].config_key@ == key && (forall|j: int|
            0 <= j < i ==> (#[trigger] devices[j]).config_key@ != key) ==> picked(
            devices,
            Some(key),
        ) == i,
{
    let p = keyed(key);
    if forall|j: int| 0 <= j < devices.len() ==> (#[trigger] devices[j]).config_key@ != key {
        crate::search::law_nothing_is_found_where_nothing_matches(devices, p);
    }
    if 0 <= i < devices.len() && devices[i].config_key@ == key && (forall|j: int|
        0 <= j < i ==> (#[trigger] devices[j]).config_key@ != key) {
        assert(p(devices[i]));
        assert forall|j: int| 0 <= j < i implies !p(#[trigger] devices[j]) by {}
        crate::search::law_the_first_match_is_found(devices, p, i);
    }
}

/// Rebuilding publishes, for the device at the current position and the
/// frontmost application, the bindings, the presets from the first on, the route
/// and the thumbwheel setting of the config; without a device there are no
/// presets and there is no route. What is behind a poisoned lock stays as it is,
/// and so does everything that is not published.
pub proof fn law_a_rebuild_publishes_the_selected_device(state: OrchestratorView)
    ensures
        ({
            let now = state.rebuilt();
            let there = 0 <= state.current < state.devices.len();
            let key = if there {
                Some(state.devices[state.current].config_key@)
            } else {
                None
            };
            &&& now.shared.thumbwheel_sensitivity
                == state.config.app_settings.thumbwheel_sensitivity
            &&& now.shared.hook_bindings == (if state.poison.hook_bindings {
                state.shared.hook_bindings
            } else {
                button_actions(state.config, key, state.current_app)
            })
            &&& now.shared.gesture_bindings == (if state.poison.gesture_bindings {
                state.shared.gesture_bindings
            } else {
                gesture_actions(state.config, key)
            })
            &&& state.poison.dpi_cycle ==> now.shared.dpi_cycle == state.shared.dpi_cycle
            &&& !state.poison.dpi_cycle ==> now.shared.dpi_cycle.index == 0
            &&& !state.poison.dpi_cycle && there ==> now.shared.dpi_cycle.presets
                == state.config.presets(state.devices[state.current].config_key@)
                && now.shared.dpi_cycle.target == state.devices[state.current].route
            &&& !state.poison.dpi_cycle && !there ==> now.shared.dpi_cycle.presets.len() == 0
                && now.shared.dpi_cycle.target is None
            &&& now.config == state.config
            &&& now.devices == state.devices
            &&& now.current == state.current
            &&& now.current_app == state.current_app
            &&& now.inventory == state.inventory
            &&& now.poison == state.poison
        }),
{
}

/// An inventory is kept as it came, its devices replace those before, the
/// selection is made anew, and everything published follows.
pub proof fn law_an_inventory_replaces_the_devices(
    state: OrchestratorView,
    inventories: Seq<InventoryView>,
)
    ensures
        ({
            let now = state.with_inventory(inventories);
            &&& now.inventory == inventories
            &&& now.devices == known_devices(inventories)
            &&& now.current == picked(known_devices(inventories), state.config.selection())
            &&& now.config == state.config
            &&& now.current_app == state.current_app
            &&& now.poison == state.poison
            &&& now == (OrchestratorView { shared: state.shared, ..now }).rebuilt()
        }),
{
}

/// A config replaces the one before, the selection among the same devices is made
/// anew, and everything published follows.
pub proof fn law_a_config_replaces_the_one_before(state: OrchestratorView, config: Config)
    ensures
        ({
            let now = state.with_config(config);
            &&& now.config == config
            &&& now.devices == state.devices
            &&& now.inventory == state.inventory
            &&& now.current == picked(state.devices, config.selection())
            &&& now.current_app == state.current_app
            &&& now.poison == state.poison
            &&& now == (OrchestratorView { shared: state.shared, ..now }).rebuilt()
        }),
{
}

/// The bindings of the application that came to the front are published, unless
/// their lock is poisoned; where the same one stays in front nothing is.
pub proof fn law_the_frontmost_application_is_published(
    state: OrchestratorView,
    app: Option<Seq<char>>,
)
    ensures
        ({
            let now = state.with_app(app);
            &&& now.current_app == app
            &&& app == state.current_app ==> now == state
            &&& app != state.current_app && !state.poison.hook_bindings
                ==> now.shared.hook_bindings == (OrchestratorView {
                current_app: app,
                ..state
            }).rebuilt().shared.hook_bindings
            &&& state.poison.hook_bindings ==> now.shared.hook_bindings
                == state.shared.hook_bindings
            &&& now.inventory == state.inventory
            &&& now.poison == state.poison
        }),
{
}

/// What is read is what stands behind the locks, each value behind its own.
pub proof fn law_every_value_stands_behind_its_own_lock(shared: SharedRuntime)
    ensures
        shared.values().hook_bindings == shared.hook_bindings.value@,
        shared.values().gesture_bindings == shared.gesture_bindings.value@,
        shared.values().dpi_cycle.presets == shared.dpi_cycle.value.presets@,
        shared.values().dpi_cycle.index == shared.dpi_cycle.value.index,
        shared.values().dpi_cycle.target == shared.dpi_cycle.value.target,
        shared.values().thumbwheel_sensitivity == shared.thumbwheel_sensitivity,
        shared.poison().hook_bindings == shared.hook_bindings.poisoned,
        shared.poison().gesture_bindings == shared.gesture_bindings.poisoned,
        shared.poison().dpi_cycle == shared.dpi_cycle.poisoned,
{
}

/// Every device whose model is known is built, whatever its kind, slot or status,
/// with the key of its model and the route to it.
pub proof fn law_every_known_device_is_built(
    inventories: &[DeviceInventory],
    devices: Vec<AgentDevice>,
    i: int,
    j: int,
)
    requires
        call_ensures(build_devices, (inventories,), devices),
        0 <= i < inventories@.len(),
        0 <= j < inventories@[i].paired@.len(),
        inventories@[i].paired@[j].model_info is Some,
    ensures
        exists|k: int|
            {
                let receiver = inventories@[i].receiver;
                let slot = inventories@[i].paired@[j].slot;
                &&& 0 <= k < devices@.len()
                &&& (#[trigger] devices@[k]).config_key
                    == inventories@[i].paired@[j].model_info->0.key
                &&& receiver.unique_id matches Some(uid) ==> devices@[k].route == Some(
                    DeviceRoute::Bolt { receiver_uid: uid, slot },
                )
                &&& receiver.unique_id is None && slot == 0xff ==> devices@[k].route == Some(
                    DeviceRoute::Direct {
                        vendor_id: receiver.vendor_id,
                        product_id: receiver.product_id,
                    },
                )
                &&& receiver.unique_id is None && slot != 0xff ==> devices@[k].route is None
            },
{
    let views = inventories.deep_view();
    assert(views[i] == inventories@[i]@);
    law_every_device_with_a_model_is_listed(views, i, j);
    let wanted = AgentDevice {
        config_key: views[i].paired[j].model_info->0.key,
        route: route_to(views[i].receiver, views[i].paired[j].slot),
    };
    let k = choose|k: int| 0 <= k < devices@.len() && devices@[k] == wanted;
    assert(devices@[k] == wanted);
}

/// The device that is picked has the saved key, where one has it.
pub proof fn law_the_saved_key_is_picked(
    devices: Vec<AgentDevice>,
    key: &str,
    index: usize,
    i: int,
    fallback: usize,
)
    requires
        call_ensures(pick_current, (&devices, Some(key)), index),
        call_ensures(pick_current, (&devices, None), fallback),
    ensures
        fallback == 0,
        0 <= i < devices@.len() && devices@[i].config_key@ == key@ && (forall|j: int|
            0 <= j < i ==> (#[trigger] devices@[j]).config_key@ != key@) ==> index == i,
        (forall|j: int| 0 <= j < devices@.len() ==> (#[trigger] devices@[j]).config_key@ != key@)
            ==> index == 0,
{
    law_the_first_device_with_the_saved_key_is_selected(devices@, key@, i);
}

/// Refreshing replaces the inventory and the devices; reloading replaces the
/// config; and each publishes what follows.
pub proof fn law_refreshing_and_reloading_publish(
    agent: &mut Orchestrator,
    inventories: &[DeviceInventory],
    reloaded: &mut Orchestrator,
    config: Config,
)
    requires
        call_ensures(Orchestrator::refresh_inventory, (agent, inventories), ()),
        call_ensures(Orchestrator::reload_config, (reloaded, config), ()),
    ensures
        final(agent)@.inventory == inventories.deep_view(),
        final(agent)@.devices == known_devices(inventories.deep_view()),
        final(agent)@.config == old(agent)@.config,
        final(agent)@.current_app == old(agent)@.current_app,
        final(agent)@.shared == final(agent)@.rebuilt().shared,
        final(reloaded)@.config == config,
        final(reloaded)@.devices == old(reloaded)@.devices,
        final(reloaded)@.shared == final(reloaded)@.rebuilt().shared,
{
    law_an_inventory_replaces_the_devices(old(agent)@, inventories.deep_view());
    law_a_config_replaces_the_one_before(old(reloaded)@, config);
    assert(final(agent)@.rebuilt().shared =~= final(agent)@.shared);
    assert(final(reloaded)@.rebuilt().shared =~= final(reloaded)@.shared);
}

/// Another application in front is noted, and is a change exactly where it is
/// another.
pub proof fn law_another_application_is_noted(
    agent: &mut Orchestrator,
    bundle: Option<String>,
    changed: bool,
)
    requires
        call_ensures(Orchestrator::set_current_app, (agent, bundle), changed),
    ensures
        bundle matches Some(app) ==> final(agent)@.current_app == Some(app@),
        bundle is None ==> final(agent)@.current_app is None,
        changed <==> old(agent)@.current_app != final(agent)@.current_app,
        final(agent)@.shared.gesture_bindings == old(agent)@.shared.gesture_bindings,
        final(agent)@.shared.dpi_cycle == old(agent)@.shared.dpi_cycle,
{
    law_the_frontmost_application_is_published(
        old(agent)@,
        match bundle {
            Some(app) => Some(app@),
            None => None,
        },
    );
}

/// What the hook and the watchers read after a refresh: the bindings, gestures,
/// presets and route of the device picked from the new inventory, for the
/// application in front, starting at the first preset.
pub proof fn law_what_is_read_after_a_refresh(
    agent: &mut Orchestrator,
    inventories: &[DeviceInventory],
    devices: Vec<AgentDevice>,
    saved: Option<&str>,
    index: usize,
    key: Option<&str>,
    app: Option<&str>,
    bindings: ActionMap<ButtonId>,
    gestures: ActionMap<GestureDirection>,
    presets: Vec<u32>,
    shared: SharedRuntime,
)
    requires
        call_ensures(Orchestrator::refresh_inventory, (agent, inventories), ()),
        call_ensures(build_devices, (inventories,), devices),
        call_ensures(Config::selected_device, (&old(agent)@.config,), saved),
        call_ensures(pick_current, (&devices, saved), index),
        key is Some <==> index < devices@.len(),
        key matches Some(k) ==> k@ == devices@[index as int].config_key@,
        text(app) == old(agent)@.current_app,
        call_ensures(bindings_for, (&old(agent)@.config, key, app), bindings),
        call_ensures(gesture_bindings_for, (&old(agent)@.config, key), gestures),
        key matches Some(k) ==> call_ensures(
            Config::dpi_presets,
            (&old(agent)@.config, k),
            presets,
        ),
        call_ensures(Orchestrator::shared, (&*final(agent),), shared),
    ensures
        !old(agent)@.poison.hook_bindings ==> shared.hook_bindings.value@ == bindings@,
        !old(agent)@.poison.gesture_bindings ==> shared.gesture_bindings.value@ == gestures@,
        !old(agent)@.poison.dpi_cycle ==> shared.dpi_cycle.value.index == 0,
        !old(agent)@.poison.dpi_cycle && key is Some ==> shared.dpi_cycle.value.presets@ == presets@
            && shared.dpi_cycle.value.target == devices@[index as int].route,
        !old(agent)@.poison.dpi_cycle && key is None ==> shared.dpi_cycle.value.presets@.len() == 0
            && shared.dpi_cycle.value.target is None,
        shared.thumbwheel_sensitivity == old(agent)@.config.app_settings.thumbwheel_sensitivity,
        shared.hook_bindings.poisoned == old(agent)@.poison.hook_bindings,
        shared.gesture_bindings.poisoned == old(agent)@.poison.gesture_bindings,
        shared.dpi_cycle.poisoned == old(agent)@.poison.dpi_cycle,
{
    let state = old(agent)@;
    law_an_inventory_replaces_the_devices(state, inventories.deep_view());
    law_a_rebuild_publishes_the_selected_device(
        OrchestratorView { shared: state.shared, ..final(agent)@ },
    );
    law_every_value_stands_behind_its_own_lock(shared);
    assert(final(agent)@.current == index);
}

/// A fresh agent has the config it was given, no devices, nothing in front and no
/// poisoned lock, and publishes the defaults of the config.
pub proof fn law_a_fresh_agent_publishes_the_defaults(
    config: Config,
    agent: Orchestrator,
    shared: SharedRuntime,
    inventory: Vec<DeviceInventory>,
    enabled: bool,
    bindings: ActionMap<ButtonId>,
    gestures: ActionMap<GestureDirection>,
)
    requires
        call_ensures(Orchestrator::new, (config,), agent),
        call_ensures(Orchestrator::shared, (&agent,), shared),
        call_ensures(Orchestrator::inventory, (&agent,), inventory),
        call_ensures(Orchestrator::launch_at_login, (&agent,), enabled),
        call_ensures(bindings_for, (&config, None, None), bindings),
        call_ensures(gesture_bindings_for, (&config, None), gestures),
    ensures
        shared.hook_bindings.value@ == bindings@,
        shared.gesture_bindings.value@ == gestures@,
        shared.dpi_cycle.value.presets@.len() == 0,
        shared.dpi_cycle.value.index == 0,
        shared.dpi_cycle.value.target is None,
        shared.thumbwheel_sensitivity == config.app_settings.thumbwheel_sensitivity,
        !shared.hook_bindings.poisoned && !shared.gesture_bindings.poisoned
            && !shared.dpi_cycle.poisoned,
        inventory@.len() == 0,
        enabled == config.app_settings.launch_at_login,
{
    law_every_value_stands_behind_its_own_lock(shared);
    assert(inventory.deep_view().len() == inventory@.len());
}

/// A poisoned lock keeps its value over every refresh and reload, for good, and
/// poisons no other.
pub proof fn law_a_poisoned_lock_keeps_its_value(
    hit: &mut Orchestrator,
    lock: Lock,
    refreshed: &mut Orchestrator,
    inventories: &[DeviceInventory],
    reloaded: &mut Orchestrator,
    config: Config,
)
    requires
        call_ensures(Orchestrator::poisoned, (hit, lock), ()),
        old(refreshed)@ == final(hit)@,
        call_ensures(Orchestrator::refresh_inventory, (refreshed, inventories), ()),
        old(reloaded)@ == final(refreshed)@,
        call_ensures(Orchestrator::reload_config, (reloaded, config), ()),
    ensures
        lock is HookBindings ==> final(reloaded)@.shared.hook_bindings
            == old(hit)@.shared.hook_bindings,
        lock is GestureBindings ==> final(reloaded)@.shared.gesture_bindings
            == old(hit)@.shared.gesture_bindings,
        lock is DpiCycle ==> final(reloaded)@.shared.dpi_cycle == old(hit)@.shared.dpi_cycle,
        final(reloaded)@.poison.hook_bindings <==> old(hit)@.poison.hook_bindings || lock
            is HookBindings,
        final(reloaded)@.poison.gesture_bindings <==> old(hit)@.poison.gesture_bindings || lock
            is GestureBindings,
        final(reloaded)@.poison.dpi_cycle <==> old(hit)@.poison.dpi_cycle || lock is DpiCycle,
        final(reloaded)@.inventory == inventories.deep_view(),
        final(reloaded)@.config == config,
{
    law_an_inventory_replaces_the_devices(old(refreshed)@, inventories.deep_view());
    law_a_rebuild_publishes_the_selected_device(
        OrchestratorView { shared: old(refreshed)@.shared, ..final(refreshed)@ },
    );
    law_a_config_replaces_the_one_before(old(reloaded)@, config);
    law_a_rebuild_publishes_the_selected_device(
        OrchestratorView { shared: old(reloaded)@.shared, ..final(reloaded)@ },
    );
}

/// A route goes through the receiver where its id is known, straight to the
/// device at index `0xff` where it is not, and nowhere otherwise.
pub proof fn law_routing_goes_through_the_receiver_or_straight(
    receiver: ReceiverInfo,
    slot: u8,
    route: Option<DeviceRoute>,
)
    requires
        call_ensures(device_route, (&receiver, slot), route),
    ensures
        receiver.unique_id matches Some(uid) ==> (route matches Some(DeviceRoute::Bolt {
            receiver_uid,
            slot: s,
        }) && receiver_uid == uid && s == slot),
        receiver.unique_id is None && slot == 0xff ==> (route matches Some(DeviceRoute::Direct {
            vendor_id,
            product_id,
        }) && vendor_id == receiver.vendor_id && product_id == receiver.product_id),
        receiver.unique_id is None && slot != 0xff ==> route is None,
{
}

} // verus!
