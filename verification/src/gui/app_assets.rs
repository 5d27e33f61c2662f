//! The assets the window embeds.
//!
//! The logo and the action icons are embedded in the program, so that they
//! resolve the same inside a packaged app as in a development build. Every other
//! path belongs to the widget library's own icons.

use crate::search::first;
use crate::search::lemma_first_is;
use crate::text::str_eq;
use vstd::prelude::*;

verus! {

/// Asset path of the embedded app logo.
pub const LOGO: &'static str = "openlogi.png";

/// The asset paths of the embedded icons for the binding menus.
pub open spec fn action_icons() -> Seq<Seq<char>> {
    seq![
        "action-icons/arrow-left.svg"@,
        "action-icons/arrow-right.svg"@,
        "action-icons/ban.svg"@,
        "action-icons/camera.svg"@,
        "action-icons/chevron-left.svg"@,
        "action-icons/chevron-right.svg"@,
        "action-icons/chevrons-down.svg"@,
        "action-icons/chevrons-left.svg"@,
        "action-icons/chevrons-right.svg"@,
        "action-icons/chevrons-up.svg"@,
        "action-icons/circle-arrow-left.svg"@,
        "action-icons/circle-arrow-right.svg"@,
        "action-icons/clipboard-paste.svg"@,
        "action-icons/copy.svg"@,
        "action-icons/gauge.svg"@,
        "action-icons/grid-3x3.svg"@,
        "action-icons/keyboard.svg"@,
        "action-icons/layers.svg"@,
        "action-icons/layout-grid.svg"@,
        "action-icons/list-checks.svg"@,
        "action-icons/lock.svg"@,
        "action-icons/monitor.svg"@,
        "action-icons/mouse-pointer-click.svg"@,
        "action-icons/mouse.svg"@,
        "action-icons/move.svg"@,
        "action-icons/play.svg"@,
        "action-icons/redo-2.svg"@,
        "action-icons/refresh-cw.svg"@,
        "action-icons/rotate-ccw.svg"@,
        "action-icons/rotate-cw.svg"@,
        "action-icons/save.svg"@,
        "action-icons/scissors.svg"@,
        "action-icons/search.svg"@,
        "action-icons/skip-back.svg"@,
        "action-icons/skip-forward.svg"@,
        "action-icons/square-arrow-left.svg"@,
        "action-icons/square-arrow-right.svg"@,
        "action-icons/square-plus.svg"@,
        "action-icons/square-x.svg"@,
        "action-icons/undo-2.svg"@,
        "action-icons/volume-1.svg"@,
        "action-icons/volume-2.svg"@,
        "action-icons/volume-x.svg"@,
    ]
}

/// The asset paths of the embedded icons for the binding menus.
pub fn action_icon_paths() -> (paths: Vec<&'static str>)
    ensures
        paths@.len() == action_icons().len(),
        forall|i: int| 0 <= i < paths@.len() ==> (#[trigger] paths@[i])@ == action_icons()[i],
{
    vec![
        "action-icons/arrow-left.svg",
        "action-icons/arrow-right.svg",
        "action-icons/ban.svg",
        "action-icons/camera.svg",
        "action-icons/chevron-left.svg",
        "action-icons/chevron-right.svg",
        "action-icons/chevrons-down.svg",
        "action-icons/chevrons-left.svg",
        "action-icons/chevrons-right.svg",
        "action-icons/chevrons-up.svg",
        "action-icons/circle-arrow-left.svg",
        "action-icons/circle-arrow-right.svg",
        "action-icons/clipboard-paste.svg",
        "action-icons/copy.svg",
        "action-icons/gauge.svg",
        "action-icons/grid-3x3.svg",
        "action-icons/keyboard.svg",
        "action-icons/layers.svg",
        "action-icons/layout-grid.svg",
        "action-icons/list-checks.svg",
        "action-icons/lock.svg",
        "action-icons/monitor.svg",
        "action-icons/mouse-pointer-click.svg",
        "action-icons/mouse.svg",
        "action-icons/move.svg",
        "action-icons/play.svg",
        "action-icons/redo-2.svg",
        "action-icons/refresh-cw.svg",
        "action-icons/rotate-ccw.svg",
        "action-icons/rotate-cw.svg",
        "action-icons/save.svg",
        "action-icons/scissors.svg",
        "action-icons/search.svg",
        "action-icons/skip-back.svg",
        "action-icons/skip-forward.svg",
        "action-icons/square-arrow-left.svg",
        "action-icons/square-arrow-right.svg",
        "action-icons/square-plus.svg",
        "action-icons/square-x.svg",
        "action-icons/undo-2.svg",
        "action-icons/volume-1.svg",
        "action-icons/volume-2.svg",
        "action-icons/volume-x.svg",
    ]
}

/// Whether a path is this one.
pub open spec fn same(path: Seq<char>) -> spec_fn(Seq<char>) -> bool {
    |p: Seq<char>| p == path
}

/// Where the bytes of an asset come from.
#[derive(Clone, Copy, Debug, PartialEq, Eq, Structural)]
pub enum Served {
    /// The embedded logo.
    Logo,
    /// The embedded action icon at this position of the list.
    ActionIcon(usize),
    /// The widget library's own assets.
    Delegated,
}

/// The asset source of the window: the embedded logo and action icons, then the
/// widget library's bundled icons for everything else.
pub struct AppAssets;

impl AppAssets {
    /// Where the bytes of an asset come from.
    pub fn load(&self, path: &str) -> (served: Served)
        ensures
            served == (if path@ == LOGO@ {
                Served::Logo
            } else {
                match first(action_icons(), same(path@)) {
                    Some(i) => Served::ActionIcon(i as usize),
                    None => Served::Delegated,
                }
            }),
    {
        if str_eq(path, LOGO) {
            return Served::Logo;
        }
        let paths: Vec<&'static str> = action_icon_paths();
        let ghost p = same(path@);
        let mut i: usize = 0;
        while i < paths.len()
            invariant
                i <= paths@.len(),
                p == same(path@),
                path@ != LOGO@,
                paths@.len() == action_icons().len(),
                forall|j: int|
                    0 <= j < paths@.len() ==> (#[trigger] paths@[j])@ == action_icons()[j],
                forall|j: int| 0 <= j < i ==> !p(#[trigger] action_icons()[j]),
            decreases paths@.len() - i,
        {
            assert(paths@[i as int]@ == action_icons()[i as int]);
            if str_eq(paths[i], path) {
                proof {
                    lemma_first_is(action_icons(), p, i as int);
                }
                return Served::ActionIcon(i);
            }
            i += 1;
        }
        Served::Delegated
    }
}

/// Every listed icon is served from the embedded ones.
pub proof fn law_every_listed_icon_is_embedded(i: int)
    requires
        0 <= i < action_icons().len(),
    ensures
        first(action_icons(), same(action_icons()[i])) matches Some(f) && action_icons()[f]
            == action_icons()[i],
{
    crate::search::lemma_first_exists(action_icons(), same(action_icons()[i]), i);
}

/// There are 43 embedded icons. A path is served from them exactly where it is
/// one of the list, at the first place it stands there.
pub proof fn law_a_path_is_embedded_exactly_where_it_is_listed(path: Seq<char>, i: int)
    ensures
        action_icons().len() == 43,
        LOGO@ == "openlogi.png"@,
        0 <= i < action_icons().len() && action_icons()[i] == path && (forall|j: int|
            0 <= j < i ==> #[trigger] action_icons()[j] != path) ==> first(
            action_icons(),
            same(path),
        ) == Some(i),
        (forall|j: int| 0 <= j < action_icons().len() ==> #[trigger] action_icons()[j] != path)
            ==> first(action_icons(), same(path)) is None,
{
    let p = same(path);
    let icons = action_icons();
    if 0 <= i < icons.len() && icons[i] == path && (forall|j: int|
        0 <= j < i ==> #[trigger] icons[j] != path) {
        assert(p(icons[i]));
        assert forall|j: int| 0 <= j < i implies !p(#[trigger] icons[j]) by {}
        crate::search::law_the_first_match_is_found(icons, p, i);
    }
    if forall|j: int| 0 <= j < icons.len() ==> #[trigger] icons[j] != path {
        crate::search::law_nothing_is_found_where_nothing_matches(icons, p);
    }
}

/// What is served for a path: the logo for its own, the icon at its place of the
/// list for each of these, and the widget library's assets for any other.
pub proof fn law_paths_are_served_by_name(assets: AppAssets, path: &str, served: Served, i: int)
    requires
        call_ensures(AppAssets::load, (&assets, path), served),
    ensures
        ({
            let names = seq![
                "action-icons/arrow-left.svg"@,
                "action-icons/arrow-right.svg"@,
                "action-icons/ban.svg"@,
                "action-icons/camera.svg"@,
                "action-icons/chevron-left.svg"@,
                "action-icons/chevron-right.svg"@,
                "action-icons/chevrons-down.svg"@,
                "action-icons/chevrons-left.svg"@,
                "action-icons/chevrons-right.svg"@,
                "action-icons/chevrons-up.svg"@,
                "action-icons/circle-arrow-left.svg"@,
                "action-icons/circle-arrow-right.svg"@,
                "action-icons/clipboard-paste.svg"@,
                "action-icons/copy.svg"@,
                "action-icons/gauge.svg"@,
                "action-icons/grid-3x3.svg"@,
                "action-icons/keyboard.svg"@,
                "action-icons/layers.svg"@,
                "action-icons/layout-grid.svg"@,
                "action-icons/list-checks.svg"@,
                "action-icons/lock.svg"@,
                "action-icons/monitor.svg"@,
                "action-icons/mouse-pointer-click.svg"@,
                "action-icons/mouse.svg"@,
                "action-icons/move.svg"@,
                "action-icons/play.svg"@,
                "action-icons/redo-2.svg"@,
                "action-icons/refresh-cw.svg"@,
                "action-icons/rotate-ccw.svg"@,
                "action-icons/rotate-cw.svg"@,
                "action-icons/save.svg"@,
                "action-icons/scissors.svg"@,
                "action-icons/search.svg"@,
                "action-icons/skip-back.svg"@,
                "action-icons/skip-forward.svg"@,
                "action-icons/square-arrow-left.svg"@,
                "action-icons/square-arrow-right.svg"@,
                "action-icons/square-plus.svg"@,
                "action-icons/square-x.svg"@,
                "action-icons/undo-2.svg"@,
                "action-icons/volume-1.svg"@,
                "action-icons/volume-2.svg"@,
                "action-icons/volume-x.svg"@,
            ];
            &&& served is Logo <==> path@ == "openlogi.png"@
            &&& served matches Served::ActionIcon(k) ==> k < names.len() && names[k as int] == path@
            &&& path@ != "openlogi.png"@ && 0 <= i < names.len() && names[i] == path@
                ==> !(served is Delegated)
        }),
{
    let icons = action_icons();
    let p = same(path@);
    if 0 <= i < icons.len() && icons[i] == path@ {
        crate::search::law_the_first_match_is_found(icons, p, i);
    }
}

/// The list that is handed out is the one paths are looked up in.
pub proof fn law_every_path_handed_out_is_served(
    assets: AppAssets,
    paths: Vec<&'static str>,
    i: int,
    served: Served,
)
    requires
        call_ensures(action_icon_paths, (), paths),
        0 <= i < paths@.len(),
        paths@[i]@ != LOGO@,
        call_ensures(AppAssets::load, (&assets, paths@[i]), served),
    ensures
        paths@.len() == 43,
        served matches Served::ActionIcon(k) && k <= i && paths@[k as int]@ == paths@[i]@,
{
    let icons = action_icons();
    let p = same(paths@[i]@);
    assert(icons[i] == paths@[i]@);
    crate::search::law_the_first_match_is_found(icons, p, i);
    let k = first(icons, p)->0;
    assert(paths@[k]@ == icons[k]);
}

} // verus!
