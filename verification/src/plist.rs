//! The `LaunchAgent` property list that starts a program at login on macOS.

use crate::path::PathStyle;
use crate::text::str_eq;
use vstd::prelude::*;
use vstd::string::StringSliceAdditionalSpecFns;

verus! {

/// The property list of the program `exe` under a label, and whether the system
/// is to keep the program alive.
pub open spec fn plist(label: Seq<char>, exe: Seq<char>, keep_alive: bool) -> Seq<char> {
    "<?xml version=\"1.0\" encoding=\"UTF-8\"?>\n<!DOCTYPE plist PUBLIC \"-//Apple//DTD PLIST 1.0//EN\" \"http://www.apple.com/DTD/PropertyList-1.0.dtd\">\n<plist version=\"1.0\">\n<dict>\n  <key>Label</key>\n  <string>"@
        + label
        + "</string>\n  <key>ProgramArguments</key>\n  <array>\n    <string>"@ + exe
        + "</string>\n  </array>\n  <key>RunAtLoad</key>\n  <true/>\n  <key>KeepAlive</key>\n  "@
        + (if keep_alive {
        "<true/>"@
    } else {
        "<false/>"@
    }) + "\n</dict>\n</plist>\n"@
}

/// The property list of the program `exe` under a label.
pub fn render(label: &str, exe: &str, keep_alive: bool) -> (body: String)
    ensures
        body@ == plist(label@, exe@, keep_alive),
{
    let flag: &str = if keep_alive {
        "<true/>"
    } else {
        "<false/>"
    };
    let mut body: String = "<?xml version=\"1.0\" encoding=\"UTF-8\"?>\n<!DOCTYPE plist PUBLIC \"-//Apple//DTD PLIST 1.0//EN\" \"http://www.apple.com/DTD/PropertyList-1.0.dtd\">\n<plist version=\"1.0\">\n<dict>\n  <key>Label</key>\n  <string>".to_owned();
    body.append(label);
    body.append("</string>\n  <key>ProgramArguments</key>\n  <array>\n    <string>");
    body.append(exe);
    body.append(
        "</string>\n  </array>\n  <key>RunAtLoad</key>\n  <true/>\n  <key>KeepAlive</key>\n  ",
    );
    body.append(flag);
    body.append("\n</dict>\n</plist>\n");
    body
}

/// `$HOME` is not set, so there is no place for a property list.
#[derive(Clone, Copy, Debug, PartialEq, Eq, Structural)]
pub struct HomeNotSet;

/// Where the property list of a label lives below a home directory of macOS.
pub open spec fn location(home: Seq<u8>, label: Seq<char>) -> Seq<u8> {
    let library = PathStyle::Unix.joined(home, "Library".spec_bytes());
    let agents = PathStyle::Unix.joined(library, "LaunchAgents".spec_bytes());
    PathStyle::Unix.joined(agents, vstd::utf8::encode_utf8(label + ".plist"@))
}

/// Where the property list of a label lives, given `$HOME`.
pub fn path(home: &Option<Vec<u8>>, label: &str) -> (path: Result<Vec<u8>, HomeNotSet>)
    ensures
        match path {
            Ok(p) => home is Some && p@ == location(home->0@, label@),
            Err(_) => home is None,
        },
{
    let home: &Vec<u8> = match home {
        Some(h) => h,
        None => return Err(HomeNotSet),
    };
    let mut file: String = label.to_owned();
    file.append(".plist");
    let library: Vec<u8> = PathStyle::Unix.join(home.as_slice(), "Library");
    let agents: Vec<u8> = PathStyle::Unix.join(library.as_slice(), "LaunchAgents");
    Ok(PathStyle::Unix.join(agents.as_slice(), file.as_str()))
}

/// What has to be done to the file on disk.
#[derive(Debug)]
pub enum Change {
    /// It already is as wanted.
    Current,
    /// Write this text to it, creating its directory.
    Install(String),
    /// Remove it.
    Remove,
    /// It is absent, as wanted.
    Absent,
}

impl Change {
    /// What the file holds once the change is made.
    pub open spec fn applied(self, current: Option<Seq<char>>) -> Option<Seq<char>> {
        match self {
            Change::Current | Change::Absent => current,
            Change::Install(body) => Some(body@),
            Change::Remove => None,
        }
    }

    /// Whether there is nothing to do.
    pub open spec fn idle(self) -> bool {
        self is Current || self is Absent
    }
}

/// Compare what the file should hold (`None`: it should not exist) with what it
/// holds.
pub fn change(desired: Option<String>, current: Option<&str>) -> (change: Change)
    ensures
        match (desired, current) {
            (Some(want), Some(have)) => if want@ == have@ {
                change == Change::Current
            } else {
                change == Change::Install(want)
            },
            (Some(want), None) => change == Change::Install(want),
            (None, Some(_)) => change == Change::Remove,
            (None, None) => change == Change::Absent,
        },
{
    match (desired, current) {
        (Some(want), Some(have)) => if str_eq(want.as_str(), have) {
            Change::Current
        } else {
            Change::Install(want)
        },
        (Some(want), None) => Change::Install(want),
        (None, Some(_)) => Change::Remove,
        (None, None) => Change::Absent,
    }
}

/// Whether `change` is what turns `current` into the property list of the
/// program, or into nothing where autostart is off, touching the disk only
/// where needed.
pub open spec fn reconciles(
    change: Change,
    enabled: bool,
    body: Seq<char>,
    current: Option<Seq<char>>,
) -> bool {
    if enabled {
        if current == Some(body) {
            change is Current
        } else {
            change matches Change::Install(text) && text@ == body
        }
    } else if current is Some {
        change is Remove
    } else {
        change is Absent
    }
}

/// The change reaches the desired state, and reconciling again then finds
/// nothing to do.
pub proof fn law_reconciling_is_idempotent(
    enabled: bool,
    body: Seq<char>,
    current: Option<Seq<char>>,
    change: Change,
    again: Change,
)
    requires
        reconciles(change, enabled, body, current),
        reconciles(again, enabled, body, change.applied(current)),
    ensures
        change.applied(current) == (if enabled {
            Some(body)
        } else {
            None
        }),
        again.idle(),
{
}

/// The property list names its label and its program, runs the program at login,
/// and keeps it alive exactly where that is asked for: two lists differ in
/// nothing else.
pub proof fn law_a_property_list_says_what_it_starts(
    label: Seq<char>,
    exe: Seq<char>,
    keep_alive: bool,
)
    ensures
        ({
            let head = "<?xml version=\"1.0\" encoding=\"UTF-8\"?>\n<!DOCTYPE plist PUBLIC \"-//Apple//DTD PLIST 1.0//EN\" \"http://www.apple.com/DTD/PropertyList-1.0.dtd\">\n<plist version=\"1.0\">\n<dict>\n  <key>Label</key>\n  <string>"@;
            let to_program = "</string>\n  <key>ProgramArguments</key>\n  <array>\n    <string>"@;
            let to_flag = "</string>\n  </array>\n  <key>RunAtLoad</key>\n  <true/>\n  <key>KeepAlive</key>\n  "@;
            let flag = if keep_alive {
                "<true/>"@
            } else {
                "<false/>"@
            };
            plist(label, exe, keep_alive) == head + (label + (to_program + (exe + (to_flag + (flag
                + "\n</dict>\n</plist>\n"@)))))
        }),
{
    let head = "<?xml version=\"1.0\" encoding=\"UTF-8\"?>\n<!DOCTYPE plist PUBLIC \"-//Apple//DTD PLIST 1.0//EN\" \"http://www.apple.com/DTD/PropertyList-1.0.dtd\">\n<plist version=\"1.0\">\n<dict>\n  <key>Label</key>\n  <string>"@;
    let to_program = "</string>\n  <key>ProgramArguments</key>\n  <array>\n    <string>"@;
    let to_flag = "</string>\n  </array>\n  <key>RunAtLoad</key>\n  <true/>\n  <key>KeepAlive</key>\n  "@;
    let flag = if keep_alive {
        "<true/>"@
    } else {
        "<false/>"@
    };
    assert(plist(label, exe, keep_alive) =~= head + (label + (to_program + (exe + (to_flag + (flag
        + "\n</dict>\n</plist>\n"@))))));
}

/// The property list lives in the file of its label among the user's launch
/// agents.
pub proof fn law_a_property_list_lives_among_the_launch_agents(home: Seq<u8>, label: Seq<char>)
    ensures
        location(home, label) == PathStyle::Unix.joined_all(
            home,
            seq![
                "Library".spec_bytes(),
                "LaunchAgents".spec_bytes(),
                vstd::utf8::encode_utf8(label + ".plist"@),
            ],
        ),
{
    let segments = seq![
        "Library".spec_bytes(),
        "LaunchAgents".spec_bytes(),
        vstd::utf8::encode_utf8(label + ".plist"@),
    ];
    reveal_with_fuel(PathStyle::joined_all, 4);
    assert(segments.drop_last() =~= seq!["Library".spec_bytes(), "LaunchAgents".spec_bytes()]);
    assert(segments.drop_last().drop_last() =~= seq!["Library".spec_bytes()]);
    assert(segments.drop_last().drop_last().drop_last() =~= Seq::empty());
}

/// With autostart on, the file is written exactly where it does not hold the
/// wanted text yet; with it off, it is removed exactly where it exists. Nothing
/// else is ever done to it.
pub proof fn law_the_file_is_touched_only_where_needed(
    change: Change,
    enabled: bool,
    body: Seq<char>,
    current: Option<Seq<char>>,
)
    requires
        reconciles(change, enabled, body, current),
    ensures
        change matches Change::Install(text) ==> enabled && current != Some(body) && text@ == body,
        change is Remove ==> !enabled && current is Some,
        change is Current ==> enabled && current == Some(body),
        change is Absent ==> !enabled && current is None,
        change.idle() <==> change is Current || change is Absent,
        change.applied(current) == (if enabled {
            Some(body)
        } else {
            None
        }),
{
}

/// A property list is rendered with its label, its program and its flag in their
/// places.
pub proof fn law_rendering_fills_in_label_program_and_flag(
    label: &str,
    exe: &str,
    kept: String,
    let_go: String,
)
    requires
        call_ensures(render, (label, exe, true), kept),
        call_ensures(render, (label, exe, false), let_go),
    ensures
        ({
            let head = "<?xml version=\"1.0\" encoding=\"UTF-8\"?>\n<!DOCTYPE plist PUBLIC \"-//Apple//DTD PLIST 1.0//EN\" \"http://www.apple.com/DTD/PropertyList-1.0.dtd\">\n<plist version=\"1.0\">\n<dict>\n  <key>Label</key>\n  <string>"@;
            let to_program = "</string>\n  <key>ProgramArguments</key>\n  <array>\n    <string>"@;
            let to_flag = "</string>\n  </array>\n  <key>RunAtLoad</key>\n  <true/>\n  <key>KeepAlive</key>\n  "@;
            let end = "\n</dict>\n</plist>\n"@;
            &&& kept@ == head + (label@ + (to_program + (exe@ + (to_flag + ("<true/>"@ + end)))))
            &&& let_go@ == head + (label@ + (to_program + (exe@ + (to_flag + ("<false/>"@
                + end)))))
        }),
{
    law_a_property_list_says_what_it_starts(label@, exe@, true);
    law_a_property_list_says_what_it_starts(label@, exe@, false);
}

/// The file is written where it should hold another text than it does, removed
/// where it should not exist but does, and left alone otherwise.
pub proof fn law_a_file_is_changed_where_it_differs(
    want: String,
    have: &str,
    changes: (Change, Change, Change, Change),
)
    requires
        call_ensures(change, (Some(want), Some(have)), changes.0),
        call_ensures(change, (Some(want), None), changes.1),
        call_ensures(change, (None, Some(have)), changes.2),
        call_ensures(change, (None, None), changes.3),
    ensures
        want@ == have@ <==> changes.0 is Current,
        want@ != have@ ==> (changes.0 matches Change::Install(text) && text@ == want@),
        changes.1 matches Change::Install(text) && text@ == want@,
        changes.2 is Remove,
        changes.3 is Absent,
{
}

/// A property list has a place exactly where the home directory is known: the
/// file of its label in `Library/LaunchAgents`.
pub proof fn law_a_place_takes_a_home(
    home: Vec<u8>,
    label: &str,
    place: Result<Vec<u8>, HomeNotSet>,
    homeless: Result<Vec<u8>, HomeNotSet>,
)
    requires
        call_ensures(path, (&Some(home), label), place),
        call_ensures(path, (&None, label), homeless),
    ensures
        homeless is Err,
        place matches Ok(p) && p@ == PathStyle::Unix.joined_all(
            home@,
            seq![
                "Library".spec_bytes(),
                "LaunchAgents".spec_bytes(),
                vstd::utf8::encode_utf8(label@ + ".plist"@),
            ],
        ),
{
    law_a_property_list_lives_among_the_launch_agents(home@, label@);
}

} // verus!
