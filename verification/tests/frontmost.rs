use openlogi::hook::linux::frontmost::detect_frontmost_source;
use openlogi::hook::linux::frontmost::detect_session_kind;
use openlogi::hook::linux::frontmost::x11_frontmost;
use openlogi::hook::linux::frontmost::Backend;
use openlogi::hook::linux::frontmost::SessionKind;
use openlogi::hook::linux::wlr_foreign_toplevel::is_activated;
use openlogi::hook::linux::wlr_foreign_toplevel::HandleEvent;
use openlogi::hook::linux::wlr_foreign_toplevel::ManagerEvent;
use openlogi::hook::linux::wlr_foreign_toplevel::State;

#[test]
fn the_session_type_is_authoritative_where_it_is_known() {
    assert_eq!(detect_session_kind(Some("x11"), true, true), SessionKind::X11);
    assert_eq!(detect_session_kind(Some("wayland"), false, true), SessionKind::Wayland);
    assert_eq!(detect_session_kind(Some("tty"), true, true), SessionKind::Wayland);
    assert_eq!(detect_session_kind(None, false, true), SessionKind::X11);
    assert_eq!(detect_session_kind(Some(""), false, false), SessionKind::Unknown);
}

#[test]
fn the_first_backend_that_connects_is_kept() {
    let name = |wanted: Backend| move |b: Backend| if b == wanted { Some(7u8) } else { None };
    assert_eq!(
        detect_frontmost_source(SessionKind::Wayland, &|_| Some(1u8)),
        Some((Backend::WlrForeignToplevel, 1))
    );
    assert_eq!(
        detect_frontmost_source(SessionKind::Wayland, &name(Backend::GnomeShell)),
        Some((Backend::GnomeShell, 7))
    );
    assert_eq!(
        detect_frontmost_source(SessionKind::Wayland, &name(Backend::X11)),
        Some((Backend::X11, 7))
    );
    assert_eq!(
        detect_frontmost_source(SessionKind::X11, &|_| Some(1u8)),
        Some((Backend::X11, 1))
    );
    assert_eq!(
        detect_frontmost_source(SessionKind::Unknown, &name(Backend::GnomeShell)),
        None
    );
}

#[test]
fn no_backend_behind_one_that_connects_is_tried() {
    let tried = std::cell::RefCell::new(Vec::new());
    let connect = |b: Backend| {
        tried.borrow_mut().push(b);
        if b == Backend::GnomeShell {
            Some(7u8)
        } else {
            None
        }
    };
    assert_eq!(
        detect_frontmost_source(SessionKind::Wayland, &connect),
        Some((Backend::GnomeShell, 7))
    );
    assert_eq!(tried.into_inner(), vec![Backend::WlrForeignToplevel, Backend::GnomeShell]);
}

#[test]
fn the_x11_class_has_to_be_text() {
    let class: &[u8] = b"Firefox";
    assert_eq!(x11_frontmost(Some(5), Some(class)), Some("Firefox".to_owned()));
    assert_eq!(x11_frontmost(Some(5), Some("été".as_bytes())), Some("été".to_owned()));
    assert_eq!(x11_frontmost(Some(0), Some(class)), None);
    assert_eq!(x11_frontmost(None, Some(class)), None);
    assert_eq!(x11_frontmost(Some(5), None), None);
    let empty: &[u8] = b"";
    assert_eq!(x11_frontmost(Some(5), Some(empty)), None);
    let broken: &[u8] = &[0xff, 0xfe];
    assert_eq!(x11_frontmost(Some(5), Some(broken)), None);
}

fn states(values: &[u32]) -> Vec<u8> {
    values.iter().flat_map(|v| v.to_ne_bytes()).collect()
}

fn native() -> bool {
    1u16.to_ne_bytes()[0] == 1
}

#[test]
fn activated_is_found_among_the_states() {
    assert!(is_activated(&states(&[0, 2]), native()));
    assert!(is_activated(&states(&[2]), native()));
    assert!(!is_activated(&states(&[0, 1, 3]), native()));
    assert!(!is_activated(&states(&[]), native()));
    assert!(!is_activated(&states(&[512, 0x0200_0000]), native()));
    // Bytes left over at the end hold no value.
    assert!(!is_activated(&vec![1, 0, 0, 0, 2, 0, 0], true));
    assert!(is_activated(&vec![0, 0, 0, 2], false));
    assert!(!is_activated(&vec![0, 0, 0, 2], true));
}

#[test]
fn the_manager_is_bound_at_a_version_both_sides_know() {
    let mut state = State::new();
    assert_eq!(state.registry_global("wl_seat", 7), None);
    assert!(!state.is_bound());
    assert_eq!(state.registry_global("zwlr_foreign_toplevel_manager_v1", 9), Some(3));
    assert!(state.is_bound());
    assert_eq!(state.registry_global("zwlr_foreign_toplevel_manager_v1", 1), Some(1));
}

fn app_id(id: &str) -> HandleEvent {
    HandleEvent::AppId { app_id: id.to_owned() }
}

fn active() -> HandleEvent {
    HandleEvent::State { states: states(&[2]) }
}

fn inactive() -> HandleEvent {
    HandleEvent::State { states: states(&[]) }
}

#[test]
fn the_active_window_is_frontmost_once_committed() {
    let mut state = State::new();
    state.manager_event(ManagerEvent::Toplevel { id: 10 });
    state.manager_event(ManagerEvent::Toplevel { id: 11 });
    assert_eq!(state.frontmost_bundle_id(true), None);
    assert!(!state.handle_event(10, app_id("foot"), native()));
    assert!(!state.handle_event(10, active(), native()));
    assert_eq!(state.frontmost_bundle_id(true), None);
    assert!(!state.handle_event(10, HandleEvent::Done, native()));
    assert_eq!(state.frontmost_bundle_id(true), Some("foot".to_owned()));
    // Draining failed: nothing is known.
    assert_eq!(state.frontmost_bundle_id(false), None);

    // Focus moves; the id is not sent again.
    state.handle_event(11, app_id("Alacritty"), native());
    state.handle_event(11, active(), native());
    state.handle_event(10, inactive(), native());
    state.handle_event(10, HandleEvent::Done, native());
    state.handle_event(11, HandleEvent::Done, native());
    assert_eq!(state.frontmost_bundle_id(true), Some("Alacritty".to_owned()));
    state.handle_event(11, inactive(), native());
    state.handle_event(11, HandleEvent::Done, native());
    state.handle_event(10, active(), native());
    state.handle_event(10, HandleEvent::Done, native());
    assert_eq!(state.frontmost_bundle_id(true), Some("foot".to_owned()));

    assert!(state.handle_event(10, HandleEvent::Closed, native()));
    assert_eq!(state.frontmost_bundle_id(true), None);
}

#[test]
fn an_active_window_without_an_id_has_no_answer() {
    let mut state = State::new();
    state.manager_event(ManagerEvent::Toplevel { id: 1 });
    state.handle_event(1, active(), native());
    state.handle_event(1, HandleEvent::Done, native());
    assert_eq!(state.frontmost_bundle_id(true), None);
    // Events of handles that are not known change nothing.
    state.handle_event(2, app_id("ghost"), native());
    state.handle_event(2, active(), native());
    state.handle_event(2, HandleEvent::Done, native());
    assert_eq!(state.frontmost_bundle_id(true), None);
}

#[test]
fn a_finished_manager_answers_nothing() {
    let mut state = State::new();
    state.registry_global("zwlr_foreign_toplevel_manager_v1", 3);
    state.manager_event(ManagerEvent::Toplevel { id: 1 });
    state.handle_event(1, app_id("foot"), native());
    state.handle_event(1, active(), native());
    state.handle_event(1, HandleEvent::Done, native());
    state.manager_event(ManagerEvent::Other);
    assert!(state.frontmost_bundle_id(true).is_some());
    state.manager_event(ManagerEvent::Finished);
    assert!(!state.is_bound());
    assert_eq!(state.frontmost_bundle_id(true), None);
    state.handle_event(1, active(), native());
    state.handle_event(1, HandleEvent::Done, native());
    assert_eq!(state.frontmost_bundle_id(true), None);
}

#[test]
fn a_window_shows_what_it_last_committed() {
    let mut state = State::new();
    state.manager_event(ManagerEvent::Toplevel { id: 1 });
    state.manager_event(ManagerEvent::Toplevel { id: 2 });
    // The last report before `done` counts, whatever came in between.
    for event in [app_id("a"), active(), app_id("b"), inactive(), HandleEvent::Other, active()] {
        state.handle_event(1, event, native());
        state.handle_event(2, app_id("other"), native());
        assert_eq!(state.frontmost_bundle_id(true), None);
    }
    state.handle_event(1, HandleEvent::Done, native());
    assert_eq!(state.frontmost_bundle_id(true), Some("b".to_owned()));
    // What was reported since is staged; a second `done` keeps what is not new.
    state.handle_event(1, app_id("c"), native());
    assert_eq!(state.frontmost_bundle_id(true), Some("b".to_owned()));
    state.handle_event(2, HandleEvent::Done, native());
    assert_eq!(state.frontmost_bundle_id(true), Some("b".to_owned()));
    state.handle_event(1, HandleEvent::Done, native());
    state.handle_event(1, HandleEvent::Done, native());
    assert_eq!(state.frontmost_bundle_id(true), Some("c".to_owned()));
    // Closed for good, unless the window is announced anew.
    state.handle_event(1, HandleEvent::Closed, native());
    for event in [app_id("c"), active(), HandleEvent::Done] {
        state.handle_event(1, event, native());
    }
    assert_eq!(state.frontmost_bundle_id(true), None);
}
