//! The user's configuration.

use crate::binding::Action;
use crate::binding::ActionMap;
use crate::binding::ButtonId;
use crate::binding::Defaults;
use crate::binding::GestureDirection;
use crate::search::first_of;
use crate::search::lemma_first_is;
use crate::text::str_eq;
use vstd::prelude::*;

verus! {

/// Settings of the application as a whole.
#[derive(Clone, Copy, Debug, PartialEq, Eq, Structural)]
pub struct AppSettings {
    pub launch_at_login: bool,
    pub check_for_updates: bool,
    pub thumbwheel_sensitivity: i32,
}

/// Bindings that hold while one application is frontmost.
#[derive(Debug)]
pub struct AppProfile {
    /// The application's identifier, matched exactly.
    pub app: String,
    pub bindings: ActionMap<ButtonId>,
}

/// What is configured for one device.
#[derive(Debug)]
pub struct DeviceConfig {
    /// The device's config key.
    pub key: String,
    pub bindings: ActionMap<ButtonId>,
    pub profiles: Vec<AppProfile>,
    pub gestures: ActionMap<GestureDirection>,
    pub dpi_presets: Vec<u32>,
}

/// Whether a profile is the one of an application.
pub open spec fn profile_of(app: Seq<char>) -> spec_fn(AppProfile) -> bool {
    |p: AppProfile| p.app@ == app
}

/// Whether an entry is the one of a device.
pub open spec fn entry_of(key: Seq<char>) -> spec_fn(DeviceConfig) -> bool {
    |d: DeviceConfig| d.key@ == key
}

impl DeviceConfig {
    /// The bindings that hold while `app` is frontmost: those of the device,
    /// overlaid with those of the application's profile.
    pub open spec fn effective(self, app: Option<Seq<char>>) -> Map<ButtonId, Action> {
        match app {
            Some(id) => match first_of(self.profiles@, profile_of(id)) {
                Some(profile) => self.bindings@.union_prefer_right(profile.bindings@),
                None => self.bindings@,
            },
            None => self.bindings@,
        }
    }
}

/// The user's configuration.
#[derive(Debug)]
pub struct Config {
    pub app_settings: AppSettings,
    /// The config key of the device the user selected.
    pub selected_device: Option<String>,
    pub devices: Vec<DeviceConfig>,
    /// The actions in force where nothing is bound.
    pub defaults: Defaults,
}

/// The text of an optional string.
pub open spec fn text(s: Option<&str>) -> Option<Seq<char>> {
    match s {
        Some(t) => Some(t@),
        None => None,
    }
}

impl Config {
    /// What is configured for the device with this key; the first entry counts.
    pub open spec fn entry(self, key: Seq<char>) -> Option<DeviceConfig> {
        first_of(self.devices@, entry_of(key))
    }

    /// The bindings stored for a device while `app` is frontmost.
    pub open spec fn effective(self, key: Seq<char>, app: Option<Seq<char>>) -> Map<
        ButtonId,
        Action,
    > {
        match self.entry(key) {
            Some(device) => device.effective(app),
            None => Map::empty(),
        }
    }

    /// The gesture bindings stored for a device.
    pub open spec fn gestures(self, key: Seq<char>) -> Map<GestureDirection, Action> {
        match self.entry(key) {
            Some(device) => device.gestures@,
            None => Map::empty(),
        }
    }

    /// The DPI presets stored for a device.
    pub open spec fn presets(self, key: Seq<char>) -> Seq<u32> {
        match self.entry(key) {
            Some(device) => device.dpi_presets@,
            None => Seq::empty(),
        }
    }

    /// The selected device's key.
    pub open spec fn selection(self) -> Option<Seq<char>> {
        match self.selected_device {
            Some(key) => Some(key@),
            None => None,
        }
    }

    /// The config key of the device the user selected.
    pub fn selected_device(&self) -> (key: Option<&str>)
        ensures
            text(key) == self.selection(),
    {
        match &self.selected_device {
            Some(key) => Some(key.as_str()),
            None => None,
        }
    }

    /// What is configured for the device with this key.
    pub fn device(&self, key: &str) -> (device: Option<&DeviceConfig>)
        ensures
            match device {
                Some(d) => self.entry(key@) == Some(*d),
                None => self.entry(key@) is None,
            },
    {
        let ghost p = entry_of(key@);
        let mut i: usize = 0;
        while i < self.devices.len()
            invariant
                i <= self.devices@.len(),
                p == entry_of(key@),
                forall|j: int| 0 <= j < i ==> !p(#[trigger] self.devices@[j]),
            decreases self.devices@.len() - i,
        {
            if str_eq(self.devices[i].key.as_str(), key) {
                proof {
                    lemma_first_is(self.devices@, p, i as int);
                }
                return Some(&self.devices[i]);
            }
            i += 1;
        }
        None
    }

    /// The bindings stored for a device, as they hold while `app` is frontmost.
    /// A per-app profile applies on an exact match alone.
    pub fn effective_bindings(&self, key: &str, app: Option<&str>) -> (bindings: ActionMap<
        ButtonId,
    >)
        ensures
            bindings@ == self.effective(key@, text(app)),
    {
        let device: &DeviceConfig = match self.device(key) {
            Some(d) => d,
            None => return ActionMap::new(),
        };
        let mut bindings: ActionMap<ButtonId> = device.bindings.clone();
        let id: &str = match app {
            Some(id) => id,
            None => return bindings,
        };
        let ghost p = profile_of(id@);
        let mut i: usize = 0;
        while i < device.profiles.len()
            invariant
                i <= device.profiles@.len(),
                p == profile_of(id@),
                forall|j: int| 0 <= j < i ==> !p(#[trigger] device.profiles@[j]),
                app == Some(id),
                self.entry(key@) == Some(*device),
                bindings@ == device.bindings@,
            decreases device.profiles@.len() - i,
        {
            if str_eq(device.profiles[i].app.as_str(), id) {
                proof {
                    lemma_first_is(device.profiles@, p, i as int);
                }
                bindings.overlay(&device.profiles[i].bindings);
                return bindings;
            }
            i += 1;
        }
        bindings
    }

    /// The gesture bindings stored for a device.
    pub fn gesture_bindings_for(&self, key: &str) -> (bindings: ActionMap<GestureDirection>)
        ensures
            bindings@ == self.gestures(key@),
    {
        match self.device(key) {
            Some(device) => device.gestures.clone(),
            None => ActionMap::new(),
        }
    }

    /// The DPI presets stored for a device.
    pub fn dpi_presets(&self, key: &str) -> (presets: Vec<u32>)
        ensures
            presets@ == self.presets(key@),
    {
        match self.device(key) {
            Some(device) => {
                let presets: Vec<u32> = device.dpi_presets.clone();
                assert(presets@ =~= device.dpi_presets@);
                presets
            },
            None => Vec::new(),
        }
    }
}

/// Every button's action: the default, overlaid with what is stored for the
/// device while `app` is frontmost. Without a device nothing is stored.
pub open spec fn button_actions(
    config: Config,
    key: Option<Seq<char>>,
    app: Option<Seq<char>>,
) -> Map<ButtonId, Action> {
    match key {
        Some(k) => config.defaults.buttons().union_prefer_right(config.effective(k, app)),
        None => config.defaults.buttons(),
    }
}

/// Every gesture's action: the default, overlaid with what is stored for the
/// device.
pub open spec fn gesture_actions(config: Config, key: Option<Seq<char>>) -> Map<
    GestureDirection,
    Action,
> {
    match key {
        Some(k) => config.defaults.gestures().union_prefer_right(config.gestures(k)),
        None => config.defaults.gestures(),
    }
}

/// Every button's action, for the selected device and the frontmost
/// application.
pub fn bindings_for(config: &Config, key: Option<&str>, app_bundle: Option<&str>) -> (bindings:
    ActionMap<ButtonId>)
    ensures
        bindings@ == button_actions(*config, text(key), text(app_bundle)),
{
    let mut bindings: ActionMap<ButtonId> = config.defaults.default_bindings();
    if let Some(k) = key {
        let stored: ActionMap<ButtonId> = config.effective_bindings(k, app_bundle);
        bindings.overlay(&stored);
    }
    bindings
}

/// Every gesture's action, for the selected device.
pub fn gesture_bindings_for(config: &Config, key: Option<&str>) -> (bindings: ActionMap<
    GestureDirection,
>)
    ensures
        bindings@ == gesture_actions(*config, text(key)),
{
    let mut bindings: ActionMap<GestureDirection> = config.defaults.default_gesture_bindings();
    if let Some(k) = key {
        let stored: ActionMap<GestureDirection> = config.gesture_bindings_for(k);
        bindings.overlay(&stored);
    }
    bindings
}

/// Every button and every gesture always has an action.
pub proof fn law_every_trigger_is_bound(
    config: Config,
    key: Option<Seq<char>>,
    app: Option<Seq<char>>,
    id: ButtonId,
    direction: GestureDirection,
)
    ensures
        button_actions(config, key, app).contains_key(id),
        gesture_actions(config, key).contains_key(direction),
{
}

/// What the user stored wins over the default, and the profile of the frontmost
/// application wins over what is stored for the device.
pub proof fn law_the_most_specific_binding_wins(
    config: Config,
    key: Seq<char>,
    app: Seq<char>,
    device: DeviceConfig,
    profile: AppProfile,
    id: ButtonId,
)
    requires
        config.entry(key) == Some(device),
        first_of(device.profiles@, profile_of(app)) == Some(profile),
    ensures
        button_actions(config, Some(key), Some(app))[id] == (if profile.bindings@.contains_key(
            id,
        ) {
            profile.bindings@[id]
        } else if device.bindings@.contains_key(id) {
            device.bindings@[id]
        } else {
            config.defaults.button(id)
        }),
{
}

/// An application without a profile sees the bindings that hold when none is
/// frontmost.
pub proof fn law_an_app_without_a_profile_changes_nothing(
    config: Config,
    key: Seq<char>,
    app: Seq<char>,
)
    requires
        config.entry(key) matches Some(device) ==> first_of(device.profiles@, profile_of(app)) is None,
    ensures
        button_actions(config, Some(key), Some(app)) == button_actions(config, Some(key), None),
{
}

/// The entry of a device is the first in the config that has its key; where no
/// entry has it, there is none, and nothing is stored.
pub proof fn law_the_first_entry_of_a_key_counts(config: Config, key: Seq<char>, i: int)
    ensures
        0 <= i < config.devices@.len() && config.devices@[i].key@ == key && (forall|j: int|
            0 <= j < i ==> (#[trigger] config.devices@[j]).key@ != key) ==> config.entry(key)
            == Some(config.devices@[i]) && config.presets(key) == config.devices@[i].dpi_presets@
            && config.gestures(key) == config.devices@[i].gestures@,
        (forall|j: int| 0 <= j < config.devices@.len() ==> (#[trigger] config.devices@[j]).key@
            != key) ==> config.entry(key) is None && config.presets(key).len() == 0
            && config.gestures(key) == Map::<GestureDirection, Action>::empty() && forall|
            app: Option<Seq<char>>,
        | #[trigger]
            config.effective(key, app) == Map::<ButtonId, Action>::empty(),
{
    let p = entry_of(key);
    if 0 <= i < config.devices@.len() && config.devices@[i].key@ == key && (forall|j: int|
        0 <= j < i ==> (#[trigger] config.devices@[j]).key@ != key) {
        assert(p(config.devices@[i]));
        assert forall|j: int| 0 <= j < i implies !p(#[trigger] config.devices@[j]) by {}
        crate::search::law_the_first_match_is_found(config.devices@, p, i);
    }
    if forall|j: int| 0 <= j < config.devices@.len() ==> (#[trigger] config.devices@[j]).key@
        != key {
        crate::search::law_nothing_is_found_where_nothing_matches(config.devices@, p);
    }
}

/// What a button does. With the device's entry at `d` and the profile of the
/// frontmost application at `p`, each the first of its name, the profile's
/// binding wins over the device's, and that over the default of the button; with
/// no application, or none that has a profile, the profile drops out; and
/// without an entry, or without a device, the default is left.
pub proof fn law_what_a_button_does(
    config: Config,
    key: Seq<char>,
    app: Seq<char>,
    d: int,
    p: int,
    id: ButtonId,
)
    requires
        0 <= d < config.devices@.len(),
        config.devices@[d].key@ == key,
        forall|j: int| 0 <= j < d ==> (#[trigger] config.devices@[j]).key@ != key,
    ensures
        ({
            let device = config.devices@[d];
            let fallback = if device.bindings@.contains_key(id) {
                device.bindings@[id]
            } else {
                config.defaults.buttons()[id]
            };
            let has_profile = 0 <= p < device.profiles@.len() && device.profiles@[p].app@ == app
                && forall|j: int|
                0 <= j < p ==> (#[trigger] device.profiles@[j]).app@ != app;
            let no_profile = forall|j: int|
                0 <= j < device.profiles@.len() ==> (#[trigger] device.profiles@[j]).app@ != app;
            &&& has_profile && device.profiles@[p].bindings@.contains_key(id) ==> button_actions(
                config,
                Some(key),
                Some(app),
            )[id] == device.profiles@[p].bindings@[id]
            &&& has_profile && !device.profiles@[p].bindings@.contains_key(id) ==> button_actions(
                config,
                Some(key),
                Some(app),
            )[id] == fallback
            &&& no_profile ==> button_actions(config, Some(key), Some(app))[id] == fallback
            &&& button_actions(config, Some(key), None)[id] == fallback
        }),
{
    law_the_first_entry_of_a_key_counts(config, key, d);
    let device = config.devices@[d];
    let q = profile_of(app);
    if 0 <= p < device.profiles@.len() && device.profiles@[p].app@ == app && (forall|j: int|
        0 <= j < p ==> (#[trigger] device.profiles@[j]).app@ != app) {
        assert(q(device.profiles@[p]));
        assert forall|j: int| 0 <= j < p implies !q(#[trigger] device.profiles@[j]) by {}
        crate::search::law_the_first_match_is_found(device.profiles@, q, p);
    }
    if forall|j: int|
        0 <= j < device.profiles@.len() ==> (#[trigger] device.profiles@[j]).app@ != app {
        crate::search::law_nothing_is_found_where_nothing_matches(device.profiles@, q);
    }
}

/// Without a device, or without an entry for it, every button and every gesture
/// has its default, whatever application is in front.
pub proof fn law_without_an_entry_the_defaults_hold(
    config: Config,
    key: Option<Seq<char>>,
    app: Option<Seq<char>>,
    id: ButtonId,
    direction: GestureDirection,
)
    requires
        key matches Some(k) ==> forall|j: int|
            0 <= j < config.devices@.len() ==> (#[trigger] config.devices@[j]).key@ != k,
    ensures
        button_actions(config, key, app)[id] == config.defaults.buttons()[id],
        gesture_actions(config, key)[direction] == config.defaults.gestures()[direction],
{
    if let Some(k) = key {
        law_the_first_entry_of_a_key_counts(config, k, 0);
    }
}

/// What a gesture does: what is stored for it in the device's entry, the first of
/// its key, and otherwise the default of its own direction, field by field.
pub proof fn law_what_a_gesture_does(
    config: Config,
    key: Seq<char>,
    d: int,
    direction: GestureDirection,
)
    requires
        0 <= d < config.devices@.len(),
        config.devices@[d].key@ == key,
        forall|j: int| 0 <= j < d ==> (#[trigger] config.devices@[j]).key@ != key,
    ensures
        ({
            let stored = config.devices@[d].gestures@;
            let action = gesture_actions(config, Some(key))[direction];
            &&& stored.contains_key(direction) ==> action == stored[direction]
            &&& !stored.contains_key(direction) && direction is Up ==> action
                == config.defaults.gesture_up
            &&& !stored.contains_key(direction) && direction is Down ==> action
                == config.defaults.gesture_down
            &&& !stored.contains_key(direction) && direction is Left ==> action
                == config.defaults.gesture_left
            &&& !stored.contains_key(direction) && direction is Right ==> action
                == config.defaults.gesture_right
            &&& !stored.contains_key(direction) && direction is Click ==> action
                == config.defaults.gesture_click
        }),
{
    law_the_first_entry_of_a_key_counts(config, key, d);
}

/// An optional text is kept as it is, and so is the selected device's key.
pub proof fn law_optional_texts_are_kept(config: Config, s: Option<&str>)
    ensures
        text(s) is Some <==> s is Some,
        s matches Some(t) ==> text(s) == Some(t@),
        config.selection() is Some <==> config.selected_device is Some,
        config.selected_device matches Some(key) ==> config.selection() == Some(key@),
{
}

/// The bindings that are built follow what the config says of a button: the
/// frontmost application's profile, else the device's entry, else the default.
pub proof fn law_built_bindings_follow_the_config(
    config: Config,
    key: &str,
    app: &str,
    d: int,
    p: int,
    id: ButtonId,
    bindings: ActionMap<ButtonId>,
)
    requires
        call_ensures(bindings_for, (&config, Some(key), Some(app)), bindings),
        0 <= d < config.devices@.len(),
        config.devices@[d].key@ == key@,
        forall|j: int| 0 <= j < d ==> (#[trigger] config.devices@[j]).key@ != key@,
        0 <= p < config.devices@[d].profiles@.len(),
        config.devices@[d].profiles@[p].app@ == app@,
        forall|j: int|
            0 <= j < p ==> (#[trigger] config.devices@[d].profiles@[j]).app@ != app@,
    ensures
        ({
            let device = config.devices@[d];
            let profile = device.profiles@[p];
            &&& bindings@.contains_key(id)
            &&& profile.bindings@.contains_key(id) ==> bindings@[id] == profile.bindings@[id]
            &&& !profile.bindings@.contains_key(id) && device.bindings@.contains_key(id)
                ==> bindings@[id] == device.bindings@[id]
            &&& !profile.bindings@.contains_key(id) && !device.bindings@.contains_key(id)
                ==> bindings@[id] == config.defaults.buttons()[id]
        }),
{
    law_what_a_button_does(config, key@, app@, d, p, id);
}

/// The gesture bindings that are built are what is stored for the device, else
/// the defaults, field by field.
pub proof fn law_built_gestures_follow_the_config(
    config: Config,
    bindings: ActionMap<GestureDirection>,
    key: &str,
    d: int,
    stored: ActionMap<GestureDirection>,
    direction: GestureDirection,
)
    requires
        call_ensures(gesture_bindings_for, (&config, None), bindings),
        call_ensures(gesture_bindings_for, (&config, Some(key)), stored),
        0 <= d < config.devices@.len(),
        config.devices@[d].key@ == key@,
        forall|j: int| 0 <= j < d ==> (#[trigger] config.devices@[j]).key@ != key@,
    ensures
        bindings@[GestureDirection::Up] == config.defaults.gesture_up,
        bindings@[GestureDirection::Down] == config.defaults.gesture_down,
        bindings@[GestureDirection::Left] == config.defaults.gesture_left,
        bindings@[GestureDirection::Right] == config.defaults.gesture_right,
        bindings@[GestureDirection::Click] == config.defaults.gesture_click,
        config.devices@[d].gestures@.contains_key(direction) ==> stored@[direction]
            == config.devices@[d].gestures@[direction],
        !config.devices@[d].gestures@.contains_key(direction) ==> stored@[direction]
            == bindings@[direction],
{
    law_what_a_gesture_does(config, key@, d, direction);
}

/// The presets of a device are those of its entry.
pub proof fn law_presets_are_those_of_the_entry(
    config: Config,
    key: &str,
    d: int,
    presets: Vec<u32>,
)
    requires
        call_ensures(Config::dpi_presets, (&config, key), presets),
    ensures
        0 <= d < config.devices@.len() && config.devices@[d].key@ == key@ && (forall|j: int|
            0 <= j < d ==> (#[trigger] config.devices@[j]).key@ != key@) ==> presets@
            == config.devices@[d].dpi_presets@,
        (forall|j: int| 0 <= j < config.devices@.len() ==> (#[trigger] config.devices@[j]).key@
            != key@) ==> presets@.len() == 0,
{
    law_the_first_entry_of_a_key_counts(config, key@, d);
}

/// What is stored for a device is found under its key: the first entry with it,
/// with its own bindings where no application is in front, those of the first
/// profile of the application laid over them where one is, its gestures, and the
/// key of the selection as it was saved. Nothing is stored under any other key.
pub proof fn law_what_is_stored_is_found_by_key(
    config: Config,
    key: &str,
    app: &str,
    selected: Option<&str>,
    device: Option<&DeviceConfig>,
    plain: ActionMap<ButtonId>,
    fronted: ActionMap<ButtonId>,
    gestures: ActionMap<GestureDirection>,
    d: int,
    p: int,
    id: ButtonId,
)
    requires
        call_ensures(Config::selected_device, (&config,), selected),
        call_ensures(Config::device, (&config, key), device),
        call_ensures(Config::effective_bindings, (&config, key, None), plain),
        call_ensures(Config::effective_bindings, (&config, key, Some(app)), fronted),
        call_ensures(Config::gesture_bindings_for, (&config, key), gestures),
    ensures
        selected is Some <==> config.selected_device is Some,
        selected matches Some(s) ==> s@ == config.selected_device->0@,
        0 <= d < config.devices@.len() && config.devices@[d].key@ == key@ && (forall|j: int|
            0 <= j < d ==> (#[trigger] config.devices@[j]).key@ != key@) ==> {
            let entry = config.devices@[d];
            let profiled = 0 <= p < entry.profiles@.len() && entry.profiles@[p].app@ == app@
                && forall|j: int| 0 <= j < p ==> (#[trigger] entry.profiles@[j]).app@ != app@;
            &&& device == Some(&entry)
            &&& plain@ == entry.bindings@
            &&& gestures@ == entry.gestures@
            &&& profiled && entry.profiles@[p].bindings@.contains_key(id)
                ==> fronted@.contains_key(id) && fronted@[id] == entry.profiles@[p].bindings@[id]
            &&& profiled && !entry.profiles@[p].bindings@.contains_key(id) ==> (
            fronted@.contains_key(id) <==> entry.bindings@.contains_key(id)) && (
            fronted@.contains_key(id) ==> fronted@[id] == entry.bindings@[id])
            &&& (forall|j: int|
                0 <= j < entry.profiles@.len() ==> (#[trigger] entry.profiles@[j]).app@ != app@)
                ==> fronted@ == entry.bindings@
        },
        (forall|j: int| 0 <= j < config.devices@.len() ==> (#[trigger] config.devices@[j]).key@
            != key@) ==> device is None && plain@.dom().is_empty() && gestures@.dom().is_empty(),
{
    law_the_first_entry_of_a_key_counts(config, key@, d);
    if 0 <= d < config.devices@.len() && config.devices@[d].key@ == key@ && (forall|j: int|
        0 <= j < d ==> (#[trigger] config.devices@[j]).key@ != key@) {
        let entry = config.devices@[d];
        let q = profile_of(app@);
        if 0 <= p < entry.profiles@.len() && entry.profiles@[p].app@ == app@ && (forall|j: int|
            0 <= j < p ==> (#[trigger] entry.profiles@[j]).app@ != app@) {
            assert(q(entry.profiles@[p]));
            assert forall|j: int| 0 <= j < p implies !q(#[trigger] entry.profiles@[j]) by {}
            crate::search::law_the_first_match_is_found(entry.profiles@, q, p);
        }
        if forall|j: int|
            0 <= j < entry.profiles@.len() ==> (#[trigger] entry.profiles@[j]).app@ != app@ {
            crate::search::law_nothing_is_found_where_nothing_matches(entry.profiles@, q);
        }
    }
    if forall|j: int|
        0 <= j < config.devices@.len() ==> (#[trigger] config.devices@[j]).key@ != key@ {
        assert(plain@ =~= Map::empty());
        assert(gestures@ =~= Map::empty());
    }
}

} // verus!
