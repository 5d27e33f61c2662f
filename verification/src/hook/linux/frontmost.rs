//! Which application is frontmost.
//!
//! The reader is backend-driven. Exactly one backend is selected at startup
//! from the session environment and kept for the process lifetime.
//!
//! The identifier is compared against per-app profile keys by exact match, so
//! its form matters and is backend-specific. The X11 and gnome-shell backends
//! return the `WM_CLASS` class component (e.g. "Firefox"); the wlr backend
//! returns the xdg-shell `app_id` (e.g. "org.mozilla.firefox").

use crate::text::from_utf8;
use crate::text::str_eq;
use vstd::prelude::*;
use vstd::utf8::decode_utf8;
use vstd::utf8::valid_utf8;

verus! {

/// Coarse classification of the graphical session, used to order the frontmost
/// backend candidates.
#[derive(Clone, Copy, Debug, PartialEq, Eq, Structural)]
pub enum SessionKind {
    X11,
    Wayland,
    Unknown,
}

/// The session kind told by the environment. `XDG_SESSION_TYPE` is
/// authoritative when it is `x11` or `wayland`; otherwise the presence of
/// `WAYLAND_DISPLAY` and `DISPLAY` decides.
pub open spec fn session_kind(
    session_type: Option<Seq<char>>,
    wayland_display: bool,
    display: bool,
) -> SessionKind {
    if session_type == Some("wayland"@) {
        SessionKind::Wayland
    } else if session_type == Some("x11"@) {
        SessionKind::X11
    } else if wayland_display {
        SessionKind::Wayland
    } else if display {
        SessionKind::X11
    } else {
        SessionKind::Unknown
    }
}

/// Classify the session: `session_type` is the value of `XDG_SESSION_TYPE`, the
/// flags say whether `WAYLAND_DISPLAY` and `DISPLAY` are set.
pub fn detect_session_kind(
    session_type: Option<&str>,
    wayland_display: bool,
    display: bool,
) -> (kind: SessionKind)
    ensures
        kind == session_kind(
            match session_type {
                Some(t) => Some(t@),
                None => None,
            },
            wayland_display,
            display,
        ),
{
    proof {
        reveal_strlit("wayland");
        reveal_strlit("x11");
    }
    if let Some(t) = session_type {
        if str_eq(t, "wayland") {
            return SessionKind::Wayland;
        }
        if str_eq(t, "x11") {
            return SessionKind::X11;
        }
    }
    if wayland_display {
        SessionKind::Wayland
    } else if display {
        SessionKind::X11
    } else {
        SessionKind::Unknown
    }
}

/// A way to ask which application is frontmost.
#[derive(Clone, Copy, Debug, PartialEq, Eq, Structural)]
pub enum Backend {
    /// The wlroots foreign-toplevel protocol (sway, Hyprland, river, …).
    WlrForeignToplevel,
    /// The GNOME Shell D-Bus extension (Mutter).
    GnomeShell,
    /// `_NET_ACTIVE_WINDOW` + `WM_CLASS`. Works on an X11 session, and on a
    /// Wayland session for XWayland windows.
    X11,
}

/// The backends to try, in priority order: the Wayland-native ones on a Wayland
/// session, and X11 everywhere as the last resort.
pub open spec fn candidates_for(session: SessionKind) -> Seq<Backend> {
    match session {
        SessionKind::Wayland => seq![
            Backend::WlrForeignToplevel,
            Backend::GnomeShell,
            Backend::X11,
        ],
        SessionKind::X11 | SessionKind::Unknown => seq![Backend::X11],
    }
}

/// Wayland-native frontmost backends, in priority order.
fn wayland_candidates() -> (candidates: Vec<Backend>)
    ensures
        candidates@ == seq![Backend::WlrForeignToplevel, Backend::GnomeShell],
{
    vec![Backend::WlrForeignToplevel, Backend::GnomeShell]
}

/// Whether every candidate before the `i`-th may have failed to initialize.
pub open spec fn none_before<S, F: Fn(Backend) -> Option<S>>(
    session: SessionKind,
    connect: F,
    i: int,
) -> bool {
    forall|j: int|
        0 <= j < i ==> call_ensures(connect, (#[trigger] candidates_for(session)[j],), None)
}

/// Pick the frontmost backend for this session: try `connect` on each candidate
/// in order, going on only where one fails, and keep the first that initializes. `None` when none does; the
/// frontmost application is then never known.
pub fn detect_frontmost_source<S, F: Fn(Backend) -> Option<S>>(
    session: SessionKind,
    connect: &F,
) -> (source: Option<(Backend, S)>)
    requires
        forall|i: int|
            0 <= i < candidates_for(session).len() && none_before(session, *connect, i)
                ==> call_requires(*connect, (#[trigger] candidates_for(session)[i],)),
    ensures
        match source {
            Some((backend, s)) => exists|i: int|
                {
                    &&& 0 <= i < candidates_for(session).len()
                    &&& #[trigger] candidates_for(session)[i] == backend
                    &&& call_ensures(*connect, (backend,), Some(s))
                    &&& none_before(session, *connect, i)
                },
            None => none_before(session, *connect, candidates_for(session).len() as int),
        },
{
    let mut candidates: Vec<Backend> = match session {
        SessionKind::Wayland => wayland_candidates(),
        SessionKind::X11 | SessionKind::Unknown => Vec::new(),
    };
    // X11 / XWayland: the primary path on an X11 session and the universal
    // fallback everywhere else.
    candidates.push(Backend::X11);
    assert(candidates@ =~= candidates_for(session));

    let mut i: usize = 0;
    while i < candidates.len()
        invariant
            i <= candidates@.len(),
            candidates@ == candidates_for(session),
            forall|k: int|
                0 <= k < candidates_for(session).len() && none_before(session, *connect, k)
                    ==> call_requires(*connect, (#[trigger] candidates_for(session)[k],)),
            forall|j: int|
                0 <= j < i ==> call_ensures(
                    *connect,
                    (#[trigger] candidates_for(session)[j],),
                    None,
                ),
        decreases candidates@.len() - i,
    {
        let backend: Backend = candidates[i];
        assert(none_before(session, *connect, i as int));
        assert(candidates_for(session)[i as int] == backend);
        if let Some(s) = connect(backend) {
            return Some((backend, s));
        }
        i += 1;
    }
    None
}

/// The class an X11 window property holds: its text, unless it is empty or not
/// UTF-8.
pub open spec fn class_text(class: Seq<u8>) -> Option<Seq<char>> {
    if valid_utf8(class) && decode_utf8(class).len() > 0 {
        Some(decode_utf8(class))
    } else {
        None
    }
}

/// The application behind the focused X11 window, out of its id and the class
/// component of its `WM_CLASS`, each as far as it could be read. Window 0 means
/// that none is focused.
///
/// The class component is more stable across window instances than the instance
/// name (e.g. "Firefox", not "Navigator").
pub fn x11_frontmost(active_window: Option<u32>, class: Option<&[u8]>) -> (id: Option<String>)
    ensures
        match id {
            Some(text) => active_window is Some && active_window->0 != 0 && class is Some
                && class_text(class->0@) == Some(text@),
            None => active_window is None || active_window->0 == 0 || class is None || class_text(
                class->0@,
            ) is None,
        },
{
    let window: u32 = match active_window {
        Some(w) => w,
        None => return None,
    };
    if window == 0 {
        return None;
    }
    let bytes: &[u8] = match class {
        Some(c) => c,
        None => return None,
    };
    match from_utf8(bytes) {
        Some(text) => if text.unicode_len() > 0 {
            Some(text.to_owned())
        } else {
            None
        },
        None => None,
    }
}

/// A session type that is `wayland` or `x11` decides alone; any other, or none,
/// leaves it to the displays, of which the Wayland one counts first.
pub proof fn law_the_session_type_decides_before_the_displays(
    session_type: Option<Seq<char>>,
    wayland_display: bool,
    display: bool,
)
    ensures
        session_kind(Some("wayland"@), wayland_display, display) is Wayland,
        session_kind(Some("x11"@), wayland_display, display) is X11,
        session_type != Some("wayland"@) && session_type != Some("x11"@) ==> {
            let kind = session_kind(session_type, wayland_display, display);
            &&& kind is Wayland <==> wayland_display
            &&& kind is X11 <==> !wayland_display && display
            &&& kind is Unknown <==> !wayland_display && !display
        },
{
    reveal_strlit("wayland");
    reveal_strlit("x11");
    assert("wayland"@.len() != "x11"@.len());
}

/// X11 is tried in every session, and last; before it, in a Wayland session and
/// in no other, the wlroots protocol and then the GNOME extension.
pub proof fn law_x11_is_the_last_resort(session: SessionKind)
    ensures
        candidates_for(session).last() is X11,
        session is Wayland ==> candidates_for(session).len() == 3 && candidates_for(
            session,
        )[0] is WlrForeignToplevel && candidates_for(session)[1] is GnomeShell,
        !(session is Wayland) ==> candidates_for(session).len() == 1,
{
}

/// A backend is reached exactly where every candidate before it gave nothing.
pub proof fn law_candidates_are_tried_in_turn<S, F: Fn(Backend) -> Option<S>>(
    session: SessionKind,
    connect: F,
    i: int,
)
    requires
        none_before(session, connect, i),
    ensures
        forall|j: int|
            0 <= j < i ==> call_ensures(connect, (#[trigger] candidates_for(session)[j],), None),
{
}

/// The class of a window is its text: not where it is no UTF-8, and not where it
/// is empty.
pub proof fn law_a_class_is_text_that_is_not_empty(class: Seq<u8>)
    ensures
        !valid_utf8(class) ==> class_text(class) is None,
        valid_utf8(class) && decode_utf8(class).len() == 0 ==> class_text(class) is None,
        valid_utf8(class) && decode_utf8(class).len() > 0 ==> class_text(class) == Some(
            decode_utf8(class),
        ),
{
}

/// What the environment says of the session is what the session is taken for.
pub proof fn law_detecting_goes_by_type_then_displays(
    session_type: Option<&str>,
    wayland_display: bool,
    display: bool,
    kind: SessionKind,
)
    requires
        call_ensures(detect_session_kind, (session_type, wayland_display, display), kind),
    ensures
        session_type matches Some(t) ==> (t@ == "wayland"@ ==> kind is Wayland),
        session_type matches Some(t) ==> (t@ == "x11"@ ==> kind is X11),
        !(session_type matches Some(t) && (t@ == "wayland"@ || t@ == "x11"@)) ==> {
            &&& kind is Wayland <==> wayland_display
            &&& kind is X11 <==> !wayland_display && display
            &&& kind is Unknown <==> !wayland_display && !display
        },
{
    let told = match session_type {
        Some(t) => Some(t@),
        None => None,
    };
    law_the_session_type_decides_before_the_displays(told, wayland_display, display);
}

/// Outside a Wayland session the source is X11 or none; within one it is the
/// wlroots protocol wherever that connects, X11 only where neither native backend
/// did, and none only where nothing connects.
pub proof fn law_the_source_is_the_first_that_connects<S, F: Fn(Backend) -> Option<S>>(
    session: SessionKind,
    connect: F,
    source: Option<(Backend, S)>,
)
    requires
        call_ensures(detect_frontmost_source::<S, F>, (session, &connect), source),
    ensures
        source matches Some(found) ==> call_ensures(connect, (found.0,), Some(found.1)),
        source is None ==> call_ensures(connect, (Backend::X11,), None),
        source matches Some(found) ==> (!(session is Wayland) ==> found.0 is X11),
        session is Wayland && !(source matches Some(found) && found.0 is WlrForeignToplevel)
            ==> call_ensures(connect, (Backend::WlrForeignToplevel,), None),
        session is Wayland && (source is None || (source matches Some(found) && found.0 is X11))
            ==> call_ensures(connect, (Backend::GnomeShell,), None),
{
    let all = candidates_for(session);
    law_x11_is_the_last_resort(session);
    if let Some((backend, s)) = source {
        let i = choose|i: int|
            {
                &&& 0 <= i < candidates_for(session).len()
                &&& #[trigger] candidates_for(session)[i] == backend
                &&& call_ensures(connect, (backend,), Some(s))
                &&& none_before(session, connect, i)
            };
        law_candidates_are_tried_in_turn(session, connect, i);
        assert(0 < i ==> call_ensures(connect, (all[0],), None));
        assert(1 < i ==> call_ensures(connect, (all[1],), None));
    } else {
        law_candidates_are_tried_in_turn(session, connect, all.len() as int);
        assert(call_ensures(connect, (all[0],), None));
        assert(all.len() > 1 ==> call_ensures(connect, (all[1],), None));
        assert(all.len() > 2 ==> call_ensures(connect, (all[2],), None));
    }
}

/// The frontmost application is the text of the focused window's class, and is
/// unknown exactly where no window is focused or its class is no text or empty.
pub proof fn law_the_focused_windows_class_is_the_answer(
    active_window: Option<u32>,
    class: &[u8],
    id: Option<String>,
    unread: Option<String>,
)
    requires
        call_ensures(x11_frontmost, (active_window, Some(class)), id),
        call_ensures(x11_frontmost, (active_window, None), unread),
    ensures
        unread is None,
        id is Some <==> (active_window matches Some(window) && window != 0) && valid_utf8(class@)
            && decode_utf8(class@).len() > 0,
        id matches Some(text) ==> text@ == decode_utf8(class@),
{
    law_a_class_is_text_that_is_not_empty(class@);
}

} // verus!
