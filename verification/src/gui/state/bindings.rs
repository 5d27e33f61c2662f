//! Binding overlay for the selected device.

use crate::binding::ActionMap;
use crate::binding::ButtonId;
use crate::binding::GestureDirection;
use crate::config::button_actions;
use crate::config::gesture_actions;
use crate::config::text;
use crate::config::Config;
use crate::gui::state::devices::DeviceRecord;
use vstd::prelude::*;

verus! {

/// The config key of a record, where there is one.
pub open spec fn key_of(record: Option<&DeviceRecord>) -> Option<Seq<char>> {
    match record {
        Some(r) => Some(r.config_key@),
        None => None,
    }
}

fn record_key<'a>(record: Option<&'a DeviceRecord>) -> (key: Option<&'a str>)
    ensures
        text(key) == key_of(record),
{
    match record {
        Some(r) => Some(r.config_key.as_str()),
        None => None,
    }
}

/// Every button's action, for the selected device and the frontmost
/// application.
pub fn bindings_for(
    config: &Config,
    record: Option<&DeviceRecord>,
    app_bundle: Option<&str>,
) -> (bindings: ActionMap<ButtonId>)
    ensures
        bindings@ == button_actions(*config, key_of(record), text(app_bundle)),
{
    crate::config::bindings_for(config, record_key(record), app_bundle)
}

/// Every gesture's action, for the selected device.
pub fn gesture_bindings_for(config: &Config, record: Option<&DeviceRecord>) -> (bindings: ActionMap<
    GestureDirection,
>)
    ensures
        bindings@ == gesture_actions(*config, key_of(record)),
{
    crate::config::gesture_bindings_for(config, record_key(record))
}

/// The bindings of a record go by its own config key; without a record there is
/// no key.
pub proof fn law_bindings_go_by_the_records_key(record: DeviceRecord)
    ensures
        key_of(Some(&record)) == Some(record.config_key@),
        key_of(None) is None,
{
}

/// The window's bindings are those of the config for the record's key, whatever
/// else the record holds, and those without a key where there is no record.
pub proof fn law_the_windows_bindings_are_the_configs(
    config: Config,
    record: DeviceRecord,
    key: &str,
    app: Option<&str>,
    windows: (ActionMap<ButtonId>, ActionMap<ButtonId>),
    configs: (ActionMap<ButtonId>, ActionMap<ButtonId>),
    gestures: (ActionMap<GestureDirection>, ActionMap<GestureDirection>),
    stored: (ActionMap<GestureDirection>, ActionMap<GestureDirection>),
)
    requires
        record.config_key@ == key@,
        call_ensures(bindings_for, (&config, Some(&record), app), windows.0),
        call_ensures(bindings_for, (&config, None, app), windows.1),
        call_ensures(crate::config::bindings_for, (&config, Some(key), app), configs.0),
        call_ensures(crate::config::bindings_for, (&config, None, app), configs.1),
        call_ensures(gesture_bindings_for, (&config, Some(&record)), gestures.0),
        call_ensures(gesture_bindings_for, (&config, None), gestures.1),
        call_ensures(crate::config::gesture_bindings_for, (&config, Some(key)), stored.0),
        call_ensures(crate::config::gesture_bindings_for, (&config, None), stored.1),
    ensures
        windows.0@ == configs.0@,
        windows.1@ == configs.1@,
        gestures.0@ == stored.0@,
        gestures.1@ == stored.1@,
{
}

} // verus!
