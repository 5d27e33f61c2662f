//! What the window does with captured mouse events.

use crate::binding::Action;
use crate::binding::ActionMap;
use crate::binding::ButtonId;
use crate::config::button_actions;
use crate::config::Config;
use crate::device::known;
use crate::device::DeviceInventory;
use crate::device::DeviceModelInfo;
use crate::guarded::Guarded;
use crate::gui::asset::ResolvedAsset;
use crate::gui::state::bindings::bindings_for;
use crate::gui::state::devices::build_device_list;
use crate::gui::state::devices::initial;
use crate::gui::state::devices::pick_initial_device;
use crate::gui::state::devices::records_of;
use crate::gui::state::devices::resolvable;
use crate::gui::state::devices::DeviceRecord;
use crate::gui::state::dpi::DpiCycleState;
use crate::gui::state::dpi::DpiCycleView;
use crate::gui::state::dpi::DpiTarget;
use crate::hook::linux::passes;
use crate::hook::linux::translated;
use crate::hook::linux::InputEvent;
use crate::hook::EventDisposition;
use crate::hook::Hook;
use crate::hook::HookError;
use crate::hook::MouseEvent;
use crate::platform::Platform;
use vstd::prelude::*;

verus! {

/// What happens to a captured event, and which action it triggers.
#[derive(Clone, Copy, Debug, PartialEq, Eq, Structural)]
pub struct Reaction {
    pub disposition: EventDisposition,
    pub action: Option<Action>,
}

/// Whether the application owns a button: the side buttons alone. Primary
/// clicks keep the behaviour the system gives them.
pub open spec fn owned(id: ButtonId) -> bool {
    id == ButtonId::Back || id == ButtonId::Forward
}

/// What happens to a captured event. Owned buttons are suppressed, press and
/// release alike, so that no application sees an orphan; a press triggers the
/// bound action, where the bindings can be read. Everything else passes.
pub open spec fn reaction(event: MouseEvent, bindings: Option<Map<ButtonId, Action>>) -> Reaction {
    match event {
        MouseEvent::Button { id, pressed } if owned(id) => Reaction {
            disposition: EventDisposition::Suppress,
            action: match bindings {
                Some(map) if pressed && map.contains_key(id) => Some(map[id]),
                _ => None,
            },
        },
        _ => Reaction { disposition: EventDisposition::PassThrough, action: None },
    }
}

/// The bindings behind a lock, unless it is poisoned.
pub open spec fn readable(bindings: Guarded<ActionMap<ButtonId>>) -> Option<Map<ButtonId, Action>> {
    if bindings.poisoned {
        None
    } else {
        Some(bindings.value@)
    }
}

/// React to a captured event.
pub fn on_event(event: &MouseEvent, bindings: &Guarded<ActionMap<ButtonId>>) -> (r: Reaction)
    ensures
        r == reaction(*event, readable(*bindings)),
{
    match event {
        MouseEvent::Button { id, pressed } => {
            let owns: bool = match id {
                ButtonId::Back | ButtonId::Forward => true,
                _ => false,
            };
            if !owns {
                return Reaction { disposition: EventDisposition::PassThrough, action: None };
            }
            let mut action: Option<Action> = None;
            if *pressed && !bindings.poisoned {
                action = bindings.value.get(*id);
            }
            Reaction { disposition: EventDisposition::Suppress, action }
        },
        MouseEvent::Scroll { .. } | MouseEvent::Moved { .. } | MouseEvent::CaptureInterrupted => {
            Reaction { disposition: EventDisposition::PassThrough, action: None }
        },
    }
}

/// What carrying out an action takes.
#[derive(Debug)]
pub enum Effect {
    /// Write this DPI to the device at the target.
    WriteDpi { dpi: u32, target: Option<DpiTarget> },
    /// Flip the wheel mode of the device at the target.
    ToggleSmartShift { target: Option<DpiTarget> },
    /// Synthesize the action at the OS level.
    Execute(Action),
    /// Nothing: no DPI preset is configured for the active device, or the DPI
    /// state cannot be reached.
    Ignored,
}

/// The DPI write that follows a step, if any.
pub open spec fn write_effect(write: Option<(u32, Option<DpiTarget>)>) -> Effect {
    match write {
        Some((dpi, target)) => Effect::WriteDpi { dpi, target },
        None => Effect::Ignored,
    }
}

/// The DPI state after an action.
pub open spec fn dpi_after(action: Action, state: DpiCycleView, poisoned: bool) -> DpiCycleView {
    if poisoned {
        state
    } else {
        match action {
            Action::CycleDpiPresets => state.cycled(),
            Action::SetDpiPreset(i) => state.switched(i as usize),
            Action::ToggleSmartShift | Action::Os(_) => state,
        }
    }
}

/// What carrying out an action takes, given the DPI state before it.
pub open spec fn effect_of(action: Action, state: DpiCycleView, poisoned: bool) -> Effect {
    match action {
        Action::CycleDpiPresets => if poisoned || state.presets.len() == 0 {
            Effect::Ignored
        } else {
            write_effect(state.cycled().write())
        },
        Action::SetDpiPreset(i) => if poisoned || i >= state.presets.len() {
            Effect::Ignored
        } else {
            write_effect(state.switched(i as usize).write())
        },
        Action::ToggleSmartShift => Effect::ToggleSmartShift {
            target: if poisoned {
                None
            } else {
                state.target
            },
        },
        Action::Os(_) => Effect::Execute(action),
    }
}

/// Route a bound action to OS-level event synthesis or to one of the device's
/// own functions.
pub fn dispatch_action(action: &Action, dpi_cycle: &mut Guarded<DpiCycleState>) -> (effect: Effect)
    ensures
        effect == effect_of(*action, old(dpi_cycle).value@, old(dpi_cycle).poisoned),
        final(dpi_cycle).value@ == dpi_after(
            *action,
            old(dpi_cycle).value@,
            old(dpi_cycle).poisoned,
        ),
        final(dpi_cycle).poisoned == old(dpi_cycle).poisoned,
{
    let next: Option<(u32, Option<DpiTarget>)> = match action {
        Action::CycleDpiPresets => if dpi_cycle.poisoned {
            None
        } else {
            dpi_cycle.value.cycle()
        },
        Action::SetDpiPreset(i) => if dpi_cycle.poisoned {
            None
        } else {
            dpi_cycle.value.set(*i as usize)
        },
        // SmartShift uses the same device target as DPI.
        Action::ToggleSmartShift => {
            let target: Option<DpiTarget> = if dpi_cycle.poisoned {
                None
            } else {
                dpi_cycle.value.target.clone()
            };
            return Effect::ToggleSmartShift { target };
        },
        Action::Os(_) => return Effect::Execute(*action),
    };
    match next {
        Some((dpi, target)) => Effect::WriteDpi { dpi, target },
        None => Effect::Ignored,
    }
}

/// Start the OS hook with the platform's `install`, where the process may.
/// `None` otherwise, or where installing fails: the window goes on without.
pub fn start_hook<I, F: FnOnce() -> Result<I, HookError>>(
    platform: Platform,
    trusted: bool,
    install: F,
) -> (hook: Option<Hook<I>>)
    requires
        platform == Platform::Linux || (platform == Platform::MacOs && trusted) ==> call_requires(
            install,
            (),
        ),
    ensures
        platform == Platform::Other ==> hook is None,
        platform == Platform::MacOs && !trusted ==> hook is None,
        platform == Platform::Linux || (platform == Platform::MacOs && trusted) ==> match hook {
            Some(h) => h.handle() is Some && call_ensures(install, (), Ok(h.handle()->0)),
            None => exists|e: HookError| call_ensures(install, (), Err(e)),
        },
{
    if !Hook::has_accessibility(platform, trusted) {
        return None;
    }
    match Hook::start(platform, install) {
        Ok(hook) => Some(hook),
        Err(_) => None,
    }
}

/// Whether bindings and DPI state are those the window begins with: for the
/// saved device of the list, else its first, with no application frontmost.
pub open spec fn initial_state(
    bindings: Map<ButtonId, Action>,
    dpi: DpiCycleView,
    config: Config,
    list: Seq<DeviceRecord>,
) -> bool {
    let i = initial(list, config.selection());
    if 0 <= i < list.len() {
        &&& bindings == button_actions(config, Some(list[i].config_key@), None)
        &&& dpi == (DpiCycleView {
            presets: config.presets(list[i].config_key@),
            index: 0,
            target: list[i].dpi_target,
        })
    } else {
        &&& bindings == button_actions(config, None, None)
        &&& dpi == (DpiCycleView { presets: Seq::empty(), index: 0, target: None })
    }
}

/// The config, where it could be loaded and otherwise the default one, with the
/// bindings and the DPI state the hook sees from the very first event.
pub fn load_config_and_bindings<F: Fn(&DeviceModelInfo) -> Option<ResolvedAsset>>(
    loaded: Option<Config>,
    default: Config,
    inventories: &[DeviceInventory],
    resolve: &F,
) -> (r: (ActionMap<ButtonId>, DpiCycleState, Config))
    requires
        resolvable(inventories@, *resolve),
    ensures
        r.2 == (match loaded {
            Some(config) => config,
            None => default,
        }),
        exists|list: Seq<DeviceRecord>| #[trigger]
            records_of(list, known(inventories.deep_view()), *resolve) && initial_state(
                r.0@,
                r.1@,
                r.2,
                list,
            ),
{
    let config: Config = match loaded {
        Some(config) => config,
        None => default,
    };
    let list: Vec<DeviceRecord> = build_device_list(inventories, resolve);
    let i: usize = pick_initial_device(&list, config.selected_device());
    if i < list.len() {
        let record: &DeviceRecord = &list[i];
        let bindings: ActionMap<ButtonId> = bindings_for(&config, Some(record), None);
        let dpi = DpiCycleState {
            presets: config.dpi_presets(record.config_key.as_str()),
            index: 0,
            target: record.dpi_target.clone(),
        };
        assert(initial_state(bindings@, dpi@, config, list@));
        (bindings, dpi, config)
    } else {
        let bindings: ActionMap<ButtonId> = bindings_for(&config, None, None);
        let dpi = DpiCycleState { presets: Vec::new(), index: 0, target: None };
        assert(initial_state(bindings@, dpi@, config, list@));
        (bindings, dpi, config)
    }
}

/// Press and release of a button fare alike, so that no application ever sees
/// one without the other; and only a press of an owned button triggers
/// anything.
pub proof fn law_press_and_release_fare_alike(
    id: ButtonId,
    at_press: Option<Map<ButtonId, Action>>,
    at_release: Option<Map<ButtonId, Action>>,
)
    ensures
        reaction(MouseEvent::Button { id, pressed: true }, at_press).disposition == reaction(
            MouseEvent::Button { id, pressed: false },
            at_release,
        ).disposition,
        reaction(MouseEvent::Button { id, pressed: false }, at_release).action is None,
        !owned(id) ==> reaction(MouseEvent::Button { id, pressed: true }, at_press).action is None,
{
}

/// Scrolling, pointer movement and interruptions always pass.
pub proof fn law_only_buttons_are_ever_suppressed(
    event: MouseEvent,
    bindings: Option<Map<ButtonId, Action>>,
)
    requires
        !(event is Button),
    ensures
        reaction(event, bindings).disposition == EventDisposition::PassThrough,
        reaction(event, bindings).action is None,
{
}

/// On Linux, a press or release of an owned button never reaches the desktop,
/// and every other mouse event does.
pub proof fn law_only_owned_buttons_are_kept_from_the_desktop(
    event: InputEvent,
    hires: bool,
    bindings: Option<Map<ButtonId, Action>>,
)
    requires
        translated(event, hires) is Some,
    ensures
        passes(event, hires, reaction(translated(event, hires)->0, bindings).disposition) <==> !(
        translated(event, hires)->0 matches MouseEvent::Button { id, .. } && owned(id)),
{
}

/// No action changes the presets or the target, and every DPI that is written
/// is one of the presets.
pub proof fn law_only_presets_are_written(action: Action, state: DpiCycleView, poisoned: bool)
    ensures
        dpi_after(action, state, poisoned).presets == state.presets,
        dpi_after(action, state, poisoned).target == state.target,
        effect_of(action, state, poisoned) matches Effect::WriteDpi { dpi, target }
            ==> state.presets.contains(dpi) && target == state.target,
{
}

/// Of the buttons, exactly the two side buttons are kept from the applications.
/// The left, right and middle click and the DPI button always pass and trigger
/// nothing, whatever is bound to them.
pub proof fn law_exactly_the_side_buttons_are_suppressed(
    id: ButtonId,
    pressed: bool,
    bindings: Option<Map<ButtonId, Action>>,
)
    ensures
        reaction(MouseEvent::Button { id, pressed }, bindings).disposition is Suppress <==> id
            is Back || id is Forward,
        id is LeftClick || id is RightClick || id is MiddleClick || id is DpiToggle ==> reaction(
            MouseEvent::Button { id, pressed },
            bindings,
        ) == (Reaction { disposition: EventDisposition::PassThrough, action: None }),
{
}

/// Pressing a side button triggers what is bound to it and nothing else; nothing
/// where nothing is bound or the bindings cannot be read. Releasing it triggers
/// nothing.
pub proof fn law_a_side_button_triggers_its_own_binding(
    id: ButtonId,
    map: Map<ButtonId, Action>,
)
    requires
        id is Back || id is Forward,
    ensures
        map.contains_key(id) ==> reaction(
            MouseEvent::Button { id, pressed: true },
            Some(map),
        ).action == Some(map[id]),
        !map.contains_key(id) ==> reaction(
            MouseEvent::Button { id, pressed: true },
            Some(map),
        ).action is None,
        reaction(MouseEvent::Button { id, pressed: true }, None).action is None,
        reaction(MouseEvent::Button { id, pressed: false }, Some(map)).action is None,
        reaction(MouseEvent::Button { id, pressed: false }, None).action is None,
{
}

/// The bindings are read unless their lock is poisoned.
pub proof fn law_bindings_are_read_unless_poisoned(bindings: Guarded<ActionMap<ButtonId>>)
    ensures
        bindings.poisoned ==> readable(bindings) is None,
        !bindings.poisoned ==> readable(bindings) == Some(bindings.value@),
{
}

/// Cycling steps to the next preset, past the last to the first, and writes it
/// to the target. Without a preset, or with the state out of reach, nothing
/// happens.
pub proof fn law_cycling_writes_the_next_preset(state: DpiCycleView, poisoned: bool)
    ensures
        ({
            let effect = effect_of(Action::CycleDpiPresets, state, poisoned);
            let now = dpi_after(Action::CycleDpiPresets, state, poisoned);
            let len = state.presets.len();
            &&& poisoned || len == 0 ==> effect is Ignored && now == state
            &&& !poisoned && len <= usize::MAX && state.index + 1 < len ==> now.index
                == state.index + 1 && effect == (Effect::WriteDpi {
                dpi: state.presets[state.index + 1],
                target: state.target,
            })
            &&& !poisoned && len > 0 && state.index + 1 >= len ==> now.index == 0 && effect == (
            Effect::WriteDpi { dpi: state.presets[0], target: state.target })
            &&& now.presets == state.presets && now.target == state.target
        }),
{
}

/// Setting a preset switches to it and writes it to the target, where there is
/// one of that number and the state can be reached; otherwise nothing happens.
pub proof fn law_setting_writes_that_preset(i: u8, state: DpiCycleView, poisoned: bool)
    ensures
        ({
            let effect = effect_of(Action::SetDpiPreset(i), state, poisoned);
            let now = dpi_after(Action::SetDpiPreset(i), state, poisoned);
            &&& poisoned || i >= state.presets.len() ==> effect is Ignored && now == state
            &&& !poisoned && i < state.presets.len() ==> now.index == i && effect == (
            Effect::WriteDpi { dpi: state.presets[i as int], target: state.target })
            &&& now.presets == state.presets && now.target == state.target
        }),
{
}

/// SmartShift is flipped on the target of the DPI writes, on none where the state
/// cannot be reached; every other action is synthesized as it is. Neither touches
/// the DPI state.
pub proof fn law_other_actions_leave_the_dpi_alone(
    number: u32,
    state: DpiCycleView,
    poisoned: bool,
)
    ensures
        effect_of(Action::ToggleSmartShift, state, false) == (Effect::ToggleSmartShift {
            target: state.target,
        }),
        effect_of(Action::ToggleSmartShift, state, true) == (Effect::ToggleSmartShift {
            target: None,
        }),
        effect_of(Action::Os(number), state, poisoned) == Effect::Execute(Action::Os(number)),
        dpi_after(Action::ToggleSmartShift, state, poisoned) == state,
        dpi_after(Action::Os(number), state, poisoned) == state,
{
}

/// The window begins with the device of the list that has the saved key, the
/// first such, else with the first of all: with the bindings stored for its key
/// and no application in front, its presets from the first on, and its target.
/// With an empty list it begins with the defaults, no presets and no target.
pub proof fn law_the_window_begins_with_the_saved_device(
    bindings: Map<ButtonId, Action>,
    dpi: DpiCycleView,
    config: Config,
    list: Seq<DeviceRecord>,
    i: int,
)
    requires
        initial_state(bindings, dpi, config, list),
    ensures
        dpi.index == 0,
        list.len() == 0 ==> bindings == button_actions(config, None, None) && dpi.presets.len()
            == 0 && dpi.target is None,
        0 <= i < list.len() && (match config.selected_device {
            Some(key) => (list[i].config_key@ == key@ && forall|j: int|
                0 <= j < i ==> (#[trigger] list[j]).config_key@ != key@) || (i == 0 && forall|
                j: int,
            |
                0 <= j < list.len() ==> (#[trigger] list[j]).config_key@ != key@),
            None => i == 0,
        }) ==> bindings == button_actions(config, Some(list[i].config_key@), None) && dpi.presets
            == config.presets(list[i].config_key@) && dpi.target == list[i].dpi_target,
{
    crate::gui::state::devices::law_the_saved_device_is_picked(list, config.selection());
    if let Some(key) = config.selected_device {
        crate::gui::state::devices::law_the_first_record_with_the_saved_key_is_picked(
            list,
            key@,
            i,
        );
    }
}

/// What is done about a captured event: the side buttons are suppressed and
/// trigger what is bound to them when pressed, and everything else passes and
/// triggers nothing.
pub proof fn law_reacting_suppresses_the_side_buttons_alone(
    event: MouseEvent,
    bindings: Guarded<ActionMap<ButtonId>>,
    r: Reaction,
)
    requires
        call_ensures(on_event, (&event, &bindings), r),
    ensures
        r.disposition is Suppress <==> (event matches MouseEvent::Button { id, .. } && (id is Back
            || id is Forward)),
        r.action matches Some(action) ==> (event matches MouseEvent::Button { id, pressed }
            && pressed && (id is Back || id is Forward) && !bindings.poisoned
            && bindings.value@.contains_key(id) && bindings.value@[id] == action),
        event matches MouseEvent::Button { id, pressed } ==> (pressed && (id is Back || id
            is Forward) && !bindings.poisoned && bindings.value@.contains_key(id) ==> r.action
            == Some(bindings.value@[id])),
{
    if let MouseEvent::Button { id, pressed } = event {
        law_exactly_the_side_buttons_are_suppressed(id, pressed, readable(bindings));
    }
}

/// Dispatching an action writes the preset it leads to, flips SmartShift or
/// synthesizes the action, and leaves everything but the current preset alone.
pub proof fn law_dispatching_writes_what_the_action_names(
    action: Action,
    dpi: &mut Guarded<DpiCycleState>,
    effect: Effect,
)
    requires
        call_ensures(dispatch_action, (&action, dpi), effect),
    ensures
        final(dpi).poisoned == old(dpi).poisoned,
        final(dpi).value.presets@ == old(dpi).value.presets@,
        final(dpi).value.target == old(dpi).value.target,
        action matches Action::Os(_) ==> effect == Effect::Execute(action)
            && final(dpi).value.index == old(dpi).value.index,
        action matches Action::ToggleSmartShift ==> effect == (Effect::ToggleSmartShift {
            target: if old(dpi).poisoned {
                None
            } else {
                old(dpi).value.target
            },
        }) && final(dpi).value.index == old(dpi).value.index,
        action matches Action::SetDpiPreset(i) ==> (if !old(dpi).poisoned && i
            < old(dpi).value.presets@.len() {
            effect == (Effect::WriteDpi {
                dpi: old(dpi).value.presets@[i as int],
                target: old(dpi).value.target,
            }) && final(dpi).value.index == i
        } else {
            effect is Ignored && final(dpi).value.index == old(dpi).value.index
        }),
        action matches Action::CycleDpiPresets ==> (if !old(dpi).poisoned
            && old(dpi).value.presets@.len() > 0 {
            effect == (Effect::WriteDpi {
                dpi: old(dpi).value.presets@[final(dpi).value.index as int],
                target: old(dpi).value.target,
            }) && final(dpi).value.index == (if old(dpi).value.index + 1
                < old(dpi).value.presets.len() {
                old(dpi).value.index + 1
            } else {
                0
            })
        } else {
            effect is Ignored && final(dpi).value.index == old(dpi).value.index
        }),
{
    let state = old(dpi).value@;
    law_only_presets_are_written(action, state, old(dpi).poisoned);
    law_cycling_writes_the_next_preset(state, old(dpi).poisoned);
}

/// The hook is installed wherever the process may: always on Linux, on macOS with
/// access, and nowhere else. What installing gave is kept, and a failure leaves
/// the window without one.
pub proof fn law_the_hook_is_started_where_allowed<I, F: FnOnce() -> Result<I, HookError>>(
    platform: Platform,
    trusted: bool,
    install: F,
    hook: Option<Hook<I>>,
)
    requires
        call_ensures(start_hook::<I, F>, (platform, trusted, install), hook),
    ensures
        platform is Other || (platform is MacOs && !trusted) ==> hook is None,
        hook matches Some(h) ==> (h.handle() matches Some(i) && call_ensures(install, (), Ok(i))),
        hook is None && (platform is Linux || (platform is MacOs && trusted)) ==> exists|
            e: HookError,
        |
            call_ensures(install, (), Err(e)),
{
}

/// The config that was loaded is the one in force, and the default one only where
/// none was; the first presets and bindings are those of the device picked from
/// the list, starting at the first preset.
pub proof fn law_the_loaded_config_is_in_force<
    F: Fn(&DeviceModelInfo) -> Option<ResolvedAsset>,
>(
    loaded: Config,
    default: Config,
    inventories: &[DeviceInventory],
    resolve: F,
    with: (ActionMap<ButtonId>, DpiCycleState, Config),
    without: (ActionMap<ButtonId>, DpiCycleState, Config),
)
    requires
        call_ensures(
            load_config_and_bindings::<F>,
            (Some(loaded), default, inventories, &resolve),
            with,
        ),
        call_ensures(load_config_and_bindings::<F>, (None, default, inventories, &resolve), without),
    ensures
        with.2 == loaded,
        without.2 == default,
        with.1.index == 0,
        without.1.index == 0,
        exists|list: Seq<DeviceRecord>| #[trigger]
            records_of(list, known(inventories.deep_view()), resolve) && initial_state(
                with.0@,
                with.1@,
                loaded,
                list,
            ),
        known(inventories.deep_view()).len() == 0 ==> with.1.presets@.len() == 0 && with.1.target
            is None && with.0@ == button_actions(loaded, None, None),
{
    let devices = known(inventories.deep_view());
    let list = choose|list: Seq<DeviceRecord>| #[trigger]
        records_of(list, devices, resolve) && initial_state(with.0@, with.1@, with.2, list);
    let other = choose|other: Seq<DeviceRecord>| #[trigger]
        records_of(other, devices, resolve) && initial_state(
            without.0@,
            without.1@,
            without.2,
            other,
        );
    law_the_window_begins_with_the_saved_device(with.0@, with.1@, with.2, list, 0);
    law_the_window_begins_with_the_saved_device(without.0@, without.1@, without.2, other, 0);
}

} // verus!
