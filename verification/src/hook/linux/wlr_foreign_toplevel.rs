//! Frontmost backend using the wlroots `zwlr_foreign_toplevel_management_v1`
//! protocol.
//!
//! The manager hands out one handle per toplevel window; each handle reports
//! its `app_id` and a `state` set. The frontmost window is the toplevel whose
//! state set contains `activated`, and its `app_id` is the answer.
//!
//! wlroots-based compositors implement this protocol (sway, Hyprland, river,
//! Wayfire, …). GNOME and KDE do not advertise it; connecting then fails and
//! the next backend candidate is tried.
//!
//! The protocol is event-driven, but the answer is polled. The accumulated
//! state is kept alive and pending events are drained before each poll.

use std::collections::HashMap;
use vstd::prelude::*;
use wayland_client::Proxy;
use wayland_protocols_wlr::foreign_toplevel::v1::client::zwlr_foreign_toplevel_handle_v1;
use wayland_protocols_wlr::foreign_toplevel::v1::client::zwlr_foreign_toplevel_manager_v1::ZwlrForeignToplevelManagerV1;

verus! {

/// Highest protocol version this backend understands. The events it relies on
/// (`app_id`, `state`, `done`, `closed`) exist since the first.
pub const MANAGER_MAX_VERSION: u32 = 3;

/// Accumulated per-toplevel data. Property events arrive one by one and a
/// `done` marks a consistent snapshot, so updates are staged in the pending
/// fields and committed on `done`.
pub struct Toplevel {
    pub app_id: Option<String>,
    pub activated: bool,
    pub pending_app_id: Option<String>,
    pub pending_activated: bool,
}

impl Toplevel {
    /// A toplevel nothing is known of yet.
    pub open spec fn blank() -> Toplevel {
        Toplevel { app_id: None, activated: false, pending_app_id: None, pending_activated: false }
    }

    /// The toplevel after the staged values are committed. The `app_id` is sent
    /// only when it changes, so one that is not pending keeps its value.
    pub open spec fn committed(self) -> Toplevel {
        Toplevel {
            app_id: if self.pending_app_id is Some {
                self.pending_app_id
            } else {
                self.app_id
            },
            activated: self.pending_activated,
            ..self
        }
    }
}

/// Events of the toplevel manager.
pub enum ManagerEvent {
    /// A new window, with the id of its handle.
    Toplevel { id: u32 },
    /// The compositor is done with the manager, which is now defunct.
    Finished,
    /// Anything else.
    Other,
}

/// Events of a toplevel handle.
pub enum HandleEvent {
    AppId { app_id: String },
    State { states: Vec<u8> },
    Done,
    Closed,
    /// Title, output enter/leave and parent: not needed for frontmost.
    Other,
}

/// What is known of the compositor's windows.
#[verifier::ext_equal]
pub struct StateView {
    /// Whether a manager is bound.
    pub bound: bool,
    /// The windows, by the id of their handle.
    pub toplevels: Map<u32, Toplevel>,
    /// Whether the compositor ended the manager.
    pub finished: bool,
}

impl StateView {
    /// The state with one window's data changed, if that window is known.
    pub open spec fn amended(self, id: u32, toplevel: Toplevel) -> StateView {
        if self.toplevels.contains_key(id) {
            StateView { toplevels: self.toplevels.insert(id, toplevel), ..self }
        } else {
            self
        }
    }

    /// The state after an event of the manager.
    pub open spec fn after_manager(self, event: ManagerEvent) -> StateView {
        match event {
            ManagerEvent::Toplevel { id } => StateView {
                toplevels: self.toplevels.insert(id, Toplevel::blank()),
                ..self
            },
            ManagerEvent::Finished => StateView { finished: true, bound: false, ..self },
            ManagerEvent::Other => self,
        }
    }

    /// The state after an event of the handle `id`.
    pub open spec fn after_handle(
        self,
        id: u32,
        event: HandleEvent,
        little_endian: bool,
    ) -> StateView {
        let window = self.toplevels[id];
        match event {
            HandleEvent::AppId { app_id } => self.amended(
                id,
                (Toplevel { pending_app_id: Some(app_id), ..window }),
            ),
            HandleEvent::State { states } => self.amended(
                id,
                (Toplevel { pending_activated: activated(states@, little_endian), ..window }),
            ),
            HandleEvent::Done => self.amended(id, window.committed()),
            HandleEvent::Closed => StateView { toplevels: self.toplevels.remove(id), ..self },
            HandleEvent::Other => self,
        }
    }

    /// Whether a window is known and activated.
    pub open spec fn active(self, id: u32) -> bool {
        self.toplevels.contains_key(id) && self.toplevels[id].activated
    }

    /// Whether `answer` may be what the poll gives: the `app_id` of an
    /// activated window, and nothing where there is none.
    pub open spec fn answers(self, answer: Option<String>) -> bool {
        if self.finished || forall|id: u32| !self.active(id) {
            answer is None
        } else {
            exists|id: u32| #[trigger] self.active(id) && answer == self.toplevels[id].app_id
        }
    }
}

/// The number four bytes hold.
pub open spec fn word(bytes: Seq<u8>, little_endian: bool) -> int {
    if little_endian {
        bytes[0] + 0x100 * bytes[1] + 0x1_0000 * bytes[2] + 0x100_0000 * bytes[3]
    } else {
        bytes[3] + 0x100 * bytes[2] + 0x1_0000 * bytes[1] + 0x100_0000 * bytes[0]
    }
}

/// The value of the `activated` state.
pub const ACTIVATED: u32 = 2;

/// Whether an array of state values, four bytes each, holds `activated`. Bytes
/// left over at the end hold no value.
pub open spec fn activated(states: Seq<u8>, little_endian: bool) -> bool {
    exists|i: int|
        0 <= i < states.len() / 4 && #[trigger] word(
            states.subrange(4 * i, 4 * i + 4),
            little_endian,
        ) == ACTIVATED
}

/// The states a toplevel can have.
#[derive(Clone, Copy, Debug, PartialEq, Eq, Structural)]
pub enum ToplevelState {
    Maximized,
    Minimized,
    Activated,
    Fullscreen,
}

/// `zwlr_foreign_toplevel_handle_v1::State::try_from`: claims that the values 0
/// to 3 are maximized, minimized, activated and fullscreen, and that no other
/// value is a state.
#[verifier::external_body]
fn toplevel_state(value: u32) -> (state: Option<ToplevelState>)
    ensures
        state == (if value == 0 {
            Some(ToplevelState::Maximized)
        } else if value == 1 {
            Some(ToplevelState::Minimized)
        } else if value == ACTIVATED {
            Some(ToplevelState::Activated)
        } else if value == 3 {
            Some(ToplevelState::Fullscreen)
        } else {
            None
        }),
{
    match zwlr_foreign_toplevel_handle_v1::State::try_from(value).ok()? {
        zwlr_foreign_toplevel_handle_v1::State::Maximized => Some(ToplevelState::Maximized),
        zwlr_foreign_toplevel_handle_v1::State::Minimized => Some(ToplevelState::Minimized),
        zwlr_foreign_toplevel_handle_v1::State::Activated => Some(ToplevelState::Activated),
        zwlr_foreign_toplevel_handle_v1::State::Fullscreen => Some(ToplevelState::Fullscreen),
        _ => None,
    }
}

/// `ZwlrForeignToplevelManagerV1::interface`: claims what the name of the
/// interface it describes is.
#[verifier::external_body]
fn manager_interface() -> (name: &'static str)
    ensures
        name@ == "zwlr_foreign_toplevel_manager_v1"@,
{
    ZwlrForeignToplevelManagerV1::interface().name
}

/// Whether the `activated` value is present in a `wl_array` of `u32` state
/// values in the machine's byte order.
pub fn is_activated(states: &Vec<u8>, little_endian: bool) -> (r: bool)
    ensures
        r == activated(states@, little_endian),
{
    let len: usize = states.len();
    let chunks: usize = len / 4;
    let mut i: usize = 0;
    while i < chunks
        invariant
            i <= chunks,
            len == states@.len(),
            chunks == len / 4,
            forall|j: int|
                0 <= j < i ==> #[trigger] word(
                    states@.subrange(4 * j, 4 * j + 4),
                    little_endian,
                ) != ACTIVATED,
        decreases chunks - i,
    {
        let a: u32 = states[4 * i] as u32;
        let b: u32 = states[4 * i + 1] as u32;
        let c: u32 = states[4 * i + 2] as u32;
        let d: u32 = states[4 * i + 3] as u32;
        let value: u32 = if little_endian {
            a + 0x100 * b + 0x1_0000 * c + 0x100_0000 * d
        } else {
            d + 0x100 * c + 0x1_0000 * b + 0x100_0000 * a
        };
        assert(value == word(states@.subrange(4 * i, 4 * i + 4), little_endian));
        if let Some(ToplevelState::Activated) = toplevel_state(value) {
            return true;
        }
        i += 1;
    }
    false
}

/// Dispatch state: whether the manager is bound, plus the toplevels seen so
/// far.
pub struct State {
    bound: bool,
    toplevels: HashMap<u32, Toplevel>,
    finished: bool,
}

impl View for State {
    type V = StateView;

    closed spec fn view(&self) -> StateView {
        StateView { bound: self.bound, toplevels: self.toplevels@, finished: self.finished }
    }
}

impl State {
    /// Nothing bound, nothing seen.
    pub fn new() -> (state: State)
        ensures
            state@ == (StateView { bound: false, toplevels: Map::empty(), finished: false }),
    {
        State { bound: false, toplevels: HashMap::new(), finished: false }
    }

    /// The registry announced an interface: the version to bind it at, where it
    /// is the manager's.
    pub fn registry_global(&mut self, interface: &str, version: u32) -> (bind: Option<u32>)
        ensures
            interface@ == "zwlr_foreign_toplevel_manager_v1"@ ==> bind == Some(
                if version < MANAGER_MAX_VERSION {
                    version
                } else {
                    MANAGER_MAX_VERSION
                },
            ) && final(self)@ == (StateView { bound: true, ..old(self)@ }),
            interface@ != "zwlr_foreign_toplevel_manager_v1"@ ==> bind is None && final(self)@
                == old(self)@,
    {
        if crate::text::str_eq(interface, manager_interface()) {
            self.bound = true;
            if version < MANAGER_MAX_VERSION {
                Some(version)
            } else {
                Some(MANAGER_MAX_VERSION)
            }
        } else {
            None
        }
    }

    /// Whether a manager is bound; without one the backend is of no use.
    pub fn is_bound(&self) -> (bound: bool)
        ensures
            bound == self@.bound,
    {
        self.bound
    }

    /// Take an event of the manager in.
    pub fn manager_event(&mut self, event: ManagerEvent)
        ensures
            final(self)@ == old(self)@.after_manager(event),
    {
        broadcast use vstd::std_specs::hash::group_hash_axioms;

        match event {
            ManagerEvent::Toplevel { id } => {
                self.toplevels.insert(
                    id,
                    Toplevel {
                        app_id: None,
                        activated: false,
                        pending_app_id: None,
                        pending_activated: false,
                    },
                );
            },
            ManagerEvent::Finished => {
                // sway emits this on config reload and compositor restart; the
                // per-app profiles stay disabled until the hook is restarted.
                self.finished = true;
                self.bound = false;
            },
            ManagerEvent::Other => {},
        }
    }

    /// Take an event of the handle `id` in. Returns whether the handle is to be
    /// destroyed.
    pub fn handle_event(&mut self, id: u32, event: HandleEvent, little_endian: bool) -> (destroy:
        bool)
        ensures
            destroy == (event is Closed),
            final(self)@ == old(self)@.after_handle(id, event, little_endian),
    {
        broadcast use vstd::std_specs::hash::group_hash_axioms;

        let ghost before = self@;
        match event {
            HandleEvent::AppId { app_id } => {
                if let Some(mut toplevel) = self.toplevels.remove(&id) {
                    toplevel.pending_app_id = Some(app_id);
                    self.toplevels.insert(id, toplevel);
                    assert(self@.toplevels =~= before.toplevels.insert(id, toplevel));
                } else {
                    assert(self@.toplevels =~= before.toplevels);
                }
                false
            },
            HandleEvent::State { states } => {
                let active: bool = is_activated(&states, little_endian);
                if let Some(mut toplevel) = self.toplevels.remove(&id) {
                    toplevel.pending_activated = active;
                    self.toplevels.insert(id, toplevel);
                    assert(self@.toplevels =~= before.toplevels.insert(id, toplevel));
                } else {
                    assert(self@.toplevels =~= before.toplevels);
                }
                false
            },
            HandleEvent::Done => {
                if let Some(mut toplevel) = self.toplevels.remove(&id) {
                    // A compositor may send the state and `done` before the
                    // first `app_id`, so a known id is only overwritten by a
                    // pending one.
                    if toplevel.pending_app_id.is_some() {
                        toplevel.app_id = toplevel.pending_app_id.clone();
                    }
                    toplevel.activated = toplevel.pending_activated;
                    self.toplevels.insert(id, toplevel);
                    assert(self@.toplevels =~= before.toplevels.insert(id, toplevel));
                } else {
                    assert(self@.toplevels =~= before.toplevels);
                }
                false
            },
            HandleEvent::Closed => {
                self.toplevels.remove(&id);
                true
            },
            HandleEvent::Other => false,
        }
    }

    /// The `app_id` of the frontmost window, given whether pending events could
    /// be drained. Where several windows claim to be activated, it is that of
    /// one of them.
    pub fn frontmost_bundle_id(&self, drained: bool) -> (id: Option<String>)
        ensures
            !drained ==> id is None,
            drained ==> self@.answers(id),
    {
        broadcast use vstd::std_specs::hash::group_hash_axioms;

        if !drained {
            return None;
        }
        if self.finished {
            return None;
        }
        for toplevel in it: self.toplevels.values()
            invariant
                it.seq().unref().to_set() == self.toplevels@.values(),
                drained,
                !self.finished,
                forall|j: int| 0 <= j < it.index() ==> !(#[trigger] it.seq()[j]).activated,
        {
            if toplevel.activated {
                proof {
                    assert(it.seq().unref()[it.index() as int] == *toplevel);
                    assert(it.seq().unref().to_set().contains(*toplevel));
                    let id = choose|id: u32| #[trigger]
                        self.toplevels@.contains_key(id) && self.toplevels@[id] == *toplevel;
                    assert(self@.active(id));
                }
                return toplevel.app_id.clone();
            }
        }
        proof {
            assert forall|id: u32| !self@.active(id) by {
                if self@.active(id) {
                    assert(self.toplevels@.values().contains(self.toplevels@[id]));
                }
            }
        }
        None
    }
}

/// An answer is always a consistent snapshot: property events show only once
/// `done` commits them.
pub proof fn law_properties_show_only_when_done(
    state: StateView,
    id: u32,
    event: HandleEvent,
    little_endian: bool,
    answer: Option<String>,
)
    requires
        event is AppId || event is State || event is Other,
    ensures
        state.after_handle(id, event, little_endian).answers(answer) == state.answers(answer),
{
    let after = state.after_handle(id, event, little_endian);
    assert forall|w: u32|
        #![trigger after.active(w)]
        #![trigger state.active(w)]
        after.active(w) == state.active(w) && (state.active(w) ==> after.toplevels[w].app_id
            == state.toplevels[w].app_id) by {}
}

/// A window whose `app_id` is known keeps having one as long as it is open,
/// whatever its handle reports.
pub proof fn law_a_known_app_id_is_never_lost(
    state: StateView,
    id: u32,
    reporting: u32,
    event: HandleEvent,
    little_endian: bool,
)
    requires
        state.toplevels.contains_key(id),
        state.toplevels[id].app_id is Some,
        !(event is Closed && reporting == id),
    ensures
        state.after_handle(reporting, event, little_endian).toplevels.contains_key(id),
        state.after_handle(reporting, event, little_endian).toplevels[id].app_id is Some,
{
}

/// Once the compositor ended the manager nothing is frontmost any more, whatever
/// the handles still report.
pub proof fn law_finished_is_for_good(
    state: StateView,
    id: u32,
    event: HandleEvent,
    little_endian: bool,
    answer: Option<String>,
)
    requires
        state.finished,
    ensures
        state.after_handle(id, event, little_endian).finished,
        state.answers(answer) ==> answer is None,
{
}

/// A closed window is forgotten.
pub proof fn law_a_closed_window_is_not_active(state: StateView, id: u32, little_endian: bool)
    ensures
        !state.after_handle(id, HandleEvent::Closed, little_endian).active(id),
{
}

impl StateView {
    /// The state after a run of events, each with the handle it comes from.
    pub open spec fn after_run(
        self,
        events: Seq<(u32, HandleEvent)>,
        little_endian: bool,
    ) -> StateView
        decreases events.len(),
    {
        if events.len() == 0 {
            self
        } else {
            let (id, event) = events.last();
            self.after_run(events.drop_last(), little_endian).after_handle(
                id,
                event,
                little_endian,
            )
        }
    }
}

/// The last `app_id` a window reported in a run, if it did.
pub open spec fn last_app_id(events: Seq<(u32, HandleEvent)>, id: u32) -> Option<String>
    decreases events.len(),
{
    if events.len() == 0 {
        None
    } else {
        match events.last() {
            (from, HandleEvent::AppId { app_id }) if from == id => Some(app_id),
            _ => last_app_id(events.drop_last(), id),
        }
    }
}

/// Whether the last state set a window reported in a run holds `activated`, if
/// it reported one.
pub open spec fn last_activated(
    events: Seq<(u32, HandleEvent)>,
    id: u32,
    little_endian: bool,
) -> Option<bool>
    decreases events.len(),
{
    if events.len() == 0 {
        None
    } else {
        match events.last() {
            (from, HandleEvent::State { states }) if from == id => Some(
                activated(states@, little_endian),
            ),
            _ => last_activated(events.drop_last(), id, little_endian),
        }
    }
}

/// The part of a run up to the last `done` of a window; nothing where there is
/// none.
pub open spec fn up_to_done(events: Seq<(u32, HandleEvent)>, id: u32) -> Seq<(u32, HandleEvent)>
    decreases events.len(),
{
    if events.len() == 0 {
        events
    } else {
        match events.last() {
            (from, HandleEvent::Done) if from == id => events,
            _ => up_to_done(events.drop_last(), id),
        }
    }
}

/// Whether a window is closed in a run.
pub open spec fn closes(events: Seq<(u32, HandleEvent)>, id: u32) -> bool {
    exists|i: int| 0 <= i < events.len() && #[trigger] events[i].0 == id && events[i].1 is Closed
}

/// What a window shows, and what is staged, after any run of events of its own
/// and other handles. A window that is announced and not closed shows the last
/// `app_id` and the last state it reported up to its last `done`; before the
/// first `app_id` it has none, and before the first state it is not activated.
/// What it reported since is staged.
pub proof fn law_a_window_shows_what_it_last_committed(
    state: StateView,
    id: u32,
    events: Seq<(u32, HandleEvent)>,
    little_endian: bool,
)
    requires
        state.toplevels.contains_key(id),
        state.toplevels[id] == Toplevel::blank(),
        !closes(events, id),
    ensures
        state.after_run(events, little_endian).toplevels.contains_key(id),
        state.after_run(events, little_endian).toplevels[id] == (Toplevel {
            app_id: last_app_id(up_to_done(events, id), id),
            activated: last_activated(up_to_done(events, id), id, little_endian) == Some(true),
            pending_app_id: last_app_id(events, id),
            pending_activated: last_activated(events, id, little_endian) == Some(true),
        }),
{
    law_a_run_amends_a_window(state, id, events, little_endian);
}

/// The same from any window that is known, whatever it showed before. Once a
/// `done` came, it is activated if the last state up to there said so, or what
/// was staged before where none came; its `app_id` is the last one reported, or
/// else the one that was staged, or else the one it had.
pub proof fn law_a_run_amends_a_window(
    state: StateView,
    id: u32,
    events: Seq<(u32, HandleEvent)>,
    little_endian: bool,
)
    requires
        state.toplevels.contains_key(id),
        !closes(events, id),
    ensures
        ({
            let after = state.after_run(events, little_endian);
            let was = state.toplevels[id];
            let now = after.toplevels[id];
            let done = up_to_done(events, id);
            &&& after.toplevels.contains_key(id)
            &&& now.pending_app_id == (match last_app_id(events, id) {
                Some(app_id) => Some(app_id),
                None => was.pending_app_id,
            })
            &&& now.pending_activated == (match last_activated(events, id, little_endian) {
                Some(active) => active,
                None => was.pending_activated,
            })
            &&& done.len() == 0 ==> now.app_id == was.app_id && now.activated == was.activated
            &&& done.len() > 0 ==> now.activated == (match last_activated(
                done,
                id,
                little_endian,
            ) {
                Some(active) => active,
                None => was.pending_activated,
            })
            &&& done.len() > 0 ==> now.app_id == (match last_app_id(done, id) {
                Some(app_id) => Some(app_id),
                None => if was.pending_app_id is Some {
                    was.pending_app_id
                } else {
                    was.app_id
                },
            })
        }),
    decreases events.len(),
{
    if events.len() > 0 {
        let before = events.drop_last();
        assert(!closes(before, id)) by {
            if closes(before, id) {
                let i = choose|i: int|
                    0 <= i < before.len() && #[trigger] before[i].0 == id && before[i].1 is Closed;
                assert(events[i].0 == id);
            }
        }
        assert(!(events.last().0 == id && events.last().1 is Closed)) by {
            if events.last().0 == id && events.last().1 is Closed {
                assert(events[events.len() - 1].0 == id);
            }
        }
        law_a_run_amends_a_window(state, id, before, little_endian);
        lemma_a_committed_app_id_was_reported(before, id);
    }
}

proof fn lemma_a_committed_app_id_was_reported(events: Seq<(u32, HandleEvent)>, id: u32)
    ensures
        last_app_id(events, id) is None ==> last_app_id(up_to_done(events, id), id) is None,
    decreases events.len(),
{
    if events.len() > 0 {
        lemma_a_committed_app_id_was_reported(events.drop_last(), id);
    }
}

/// The events of other handles leave a window as it is.
pub proof fn law_other_windows_never_change(
    state: StateView,
    id: u32,
    events: Seq<(u32, HandleEvent)>,
    little_endian: bool,
)
    requires
        forall|i: int| 0 <= i < events.len() ==> #[trigger] events[i].0 != id,
    ensures
        state.after_run(events, little_endian).toplevels.contains_key(id)
            == state.toplevels.contains_key(id),
        state.toplevels.contains_key(id) ==> state.after_run(events, little_endian).toplevels[id]
            == state.toplevels[id],
    decreases events.len(),
{
    if events.len() > 0 {
        let before = events.drop_last();
        assert forall|i: int| 0 <= i < before.len() implies #[trigger] before[i].0 != id by {
            assert(events[i].0 != id);
        }
        assert(events[events.len() - 1].0 != id);
        law_other_windows_never_change(state, id, before, little_endian);
    }
}

/// The events of handles that are not known change nothing at all.
pub proof fn law_unknown_windows_change_nothing(
    state: StateView,
    events: Seq<(u32, HandleEvent)>,
    little_endian: bool,
)
    requires
        forall|i: int|
            0 <= i < events.len() ==> !state.toplevels.contains_key(#[trigger] events[i].0),
    ensures
        state.after_run(events, little_endian) == state,
    decreases events.len(),
{
    if events.len() > 0 {
        let before = events.drop_last();
        assert forall|i: int| 0 <= i < before.len() implies !state.toplevels.contains_key(
            #[trigger] before[i].0,
        ) by {
            assert(!state.toplevels.contains_key(events[i].0));
        }
        assert(!state.toplevels.contains_key(events[events.len() - 1].0));
        law_unknown_windows_change_nothing(state, before, little_endian);
        assert(state.toplevels.remove(events.last().0) =~= state.toplevels);
    }
}

/// A window that is closed in a run is not known at its end, whatever its handle
/// still reports.
pub proof fn law_a_closed_window_stays_forgotten(
    state: StateView,
    id: u32,
    events: Seq<(u32, HandleEvent)>,
    little_endian: bool,
)
    requires
        closes(events, id),
    ensures
        !state.after_run(events, little_endian).toplevels.contains_key(id),
    decreases events.len(),
{
    let i = choose|i: int|
        0 <= i < events.len() && #[trigger] events[i].0 == id && events[i].1 is Closed;
    if i < events.len() - 1 {
        let before = events.drop_last();
        assert(before[i].0 == id && before[i].1 is Closed);
        law_a_closed_window_stays_forgotten(state, id, before, little_endian);
    }
}

/// A state array says `activated` exactly where one of its four-byte values, in
/// the machine's order, is 2; bytes left over at the end do not count.
pub proof fn law_activated_is_the_value_two(states: Seq<u8>)
    ensures
        activated(states, true) <==> exists|k: int|
            0 <= k < states.len() / 4 && #[trigger] states.subrange(4 * k, 4 * k + 4) == seq![
                2u8,
                0u8,
                0u8,
                0u8,
            ],
        activated(states, false) <==> exists|k: int|
            0 <= k < states.len() / 4 && #[trigger] states.subrange(4 * k, 4 * k + 4) == seq![
                0u8,
                0u8,
                0u8,
                2u8,
            ],
{
    let little = seq![2u8, 0u8, 0u8, 0u8];
    let big = seq![0u8, 0u8, 0u8, 2u8];
    assert forall|k: int| 0 <= k < states.len() / 4 implies (word(
        #[trigger] states.subrange(4 * k, 4 * k + 4),
        true,
    ) == 2 <==> states.subrange(4 * k, 4 * k + 4) == little) && (word(
        states.subrange(4 * k, 4 * k + 4),
        false,
    ) == 2 <==> states.subrange(4 * k, 4 * k + 4) == big) by {
        let w = states.subrange(4 * k, 4 * k + 4);
        if word(w, true) == 2 {
            assert(w =~= little);
        }
        if word(w, false) == 2 {
            assert(w =~= big);
        }
    }
    if activated(states, true) {
        let k = choose|k: int|
            0 <= k < states.len() / 4 && #[trigger] word(
                states.subrange(4 * k, 4 * k + 4),
                true,
            ) == ACTIVATED;
        assert(states.subrange(4 * k, 4 * k + 4) == little);
    }
    if activated(states, false) {
        let k = choose|k: int|
            0 <= k < states.len() / 4 && #[trigger] word(
                states.subrange(4 * k, 4 * k + 4),
                false,
            ) == ACTIVATED;
        assert(states.subrange(4 * k, 4 * k + 4) == big);
    }
    if exists|k: int|
        0 <= k < states.len() / 4 && #[trigger] states.subrange(4 * k, 4 * k + 4) == little {
        let k = choose|k: int|
            0 <= k < states.len() / 4 && #[trigger] states.subrange(4 * k, 4 * k + 4) == little;
        assert(word(states.subrange(4 * k, 4 * k + 4), true) == ACTIVATED);
    }
    if exists|k: int|
        0 <= k < states.len() / 4 && #[trigger] states.subrange(4 * k, 4 * k + 4) == big {
        let k = choose|k: int|
            0 <= k < states.len() / 4 && #[trigger] states.subrange(4 * k, 4 * k + 4) == big;
        assert(word(states.subrange(4 * k, 4 * k + 4), false) == ACTIVATED);
    }
}

/// A window that is announced is known from then on, with no id and not
/// activated; the end of the manager is noted and unbinds it. Neither touches
/// another window, and no other event of the manager changes anything.
pub proof fn law_the_manager_announces_windows_and_ends(state: StateView, id: u32, other: u32)
    ensures
        ({
            let announced = state.after_manager(ManagerEvent::Toplevel { id });
            let ended = state.after_manager(ManagerEvent::Finished);
            &&& announced.toplevels.contains_key(id)
            &&& announced.toplevels[id].app_id is None
            &&& announced.toplevels[id].pending_app_id is None
            &&& !announced.toplevels[id].activated
            &&& !announced.toplevels[id].pending_activated
            &&& other != id ==> announced.toplevels.contains_key(other)
                == state.toplevels.contains_key(other) && announced.toplevels[other]
                == state.toplevels[other]
            &&& announced.bound == state.bound && announced.finished == state.finished
            &&& ended.finished && !ended.bound && ended.toplevels == state.toplevels
            &&& state.after_manager(ManagerEvent::Other) == state
        }),
{
}

/// An event of a window's handle concerns that window alone: a report is staged,
/// `done` commits what is staged, and closing forgets the window. Whether the
/// manager is bound or has ended is not the handle's to say.
pub proof fn law_a_handle_changes_its_own_window(
    state: StateView,
    id: u32,
    app_id: String,
    states: Vec<u8>,
    little_endian: bool,
    event: HandleEvent,
    other: u32,
)
    requires
        state.toplevels.contains_key(id),
    ensures
        ({
            let was = state.toplevels[id];
            let named = state.after_handle(id, HandleEvent::AppId { app_id }, little_endian);
            let told = state.after_handle(id, HandleEvent::State { states }, little_endian);
            let done = state.after_handle(id, HandleEvent::Done, little_endian);
            let closed = state.after_handle(id, HandleEvent::Closed, little_endian);
            let after = state.after_handle(id, event, little_endian);
            &&& named.toplevels.contains_key(id)
            &&& named.toplevels[id] == (Toplevel { pending_app_id: Some(app_id), ..was })
            &&& told.toplevels.contains_key(id)
            &&& told.toplevels[id] == (Toplevel {
                pending_activated: activated(states@, little_endian),
                ..was
            })
            &&& done.toplevels.contains_key(id)
            &&& done.toplevels[id].activated == was.pending_activated
            &&& done.toplevels[id].app_id == (if was.pending_app_id is Some {
                was.pending_app_id
            } else {
                was.app_id
            })
            &&& done.toplevels[id].pending_app_id == was.pending_app_id
            &&& done.toplevels[id].pending_activated == was.pending_activated
            &&& !closed.toplevels.contains_key(id)
            &&& event is Other ==> after == state
            &&& other != id ==> after.toplevels.contains_key(other)
                == state.toplevels.contains_key(other) && after.toplevels[other]
                == state.toplevels[other]
            &&& after.bound == state.bound && after.finished == state.finished
        }),
{
    assert(state.after_handle(id, HandleEvent::Other, little_endian) == state);
}

/// What the poll answers: the id of a window that is known and activated, as far
/// as it has one; nothing where no window is, or once the manager has ended.
pub proof fn law_the_answer_is_the_id_of_an_activated_window(
    state: StateView,
    answer: Option<String>,
    id: u32,
)
    requires
        state.answers(answer),
    ensures
        state.finished ==> answer is None,
        answer is Some ==> exists|w: u32|
            state.toplevels.contains_key(w) && (#[trigger] state.toplevels[w]).activated
                && state.toplevels[w].app_id == answer,
        !state.finished && state.toplevels.contains_key(id) && state.toplevels[id].activated && (
        forall|w: u32|
            w != id && state.toplevels.contains_key(w) ==> !(#[trigger] state.toplevels[w]).activated)
            ==> answer == state.toplevels[id].app_id,
{
    if !state.finished && exists|w: u32| state.active(w) {
        let w = choose|w: u32| #[trigger] state.active(w) && answer == state.toplevels[w].app_id;
        assert(state.toplevels.contains_key(w) && state.toplevels[w].activated);
    }
    if state.toplevels.contains_key(id) && state.toplevels[id].activated {
        assert(state.active(id));
    }
}

/// The manager is bound where the registry announces it, at the version announced
/// and at most at version 3; nothing else is bound.
pub proof fn law_the_manager_is_bound_where_announced(
    state: &mut State,
    interface: &str,
    version: u32,
    bind: Option<u32>,
    bound: bool,
)
    requires
        call_ensures(State::registry_global, (state, interface, version), bind),
        call_ensures(State::is_bound, (&*final(state),), bound),
    ensures
        bind is Some <==> interface@ == "zwlr_foreign_toplevel_manager_v1"@,
        bind matches Some(at) ==> at == (if version < 3 {
            version as int
        } else {
            3
        }),
        bound == (old(state)@.bound || bind is Some),
        final(state)@.toplevels == old(state)@.toplevels,
        final(state)@.finished == old(state)@.finished,
{
}

/// A fresh state knows no window and is not bound; a state array is looked
/// through for the value 2 in the byte order that is given.
pub proof fn law_a_fresh_state_knows_nothing(
    state: State,
    bound: bool,
    id: Option<String>,
    drained: bool,
    states: Vec<u8>,
    little: bool,
    big: bool,
)
    requires
        call_ensures(State::new, (), state),
        call_ensures(State::is_bound, (&state,), bound),
        call_ensures(State::frontmost_bundle_id, (&state, drained), id),
        call_ensures(is_activated, (&states, true), little),
        call_ensures(is_activated, (&states, false), big),
    ensures
        !bound,
        id is None,
        little <==> exists|k: int|
            0 <= k < states@.len() / 4 && #[trigger] states@.subrange(4 * k, 4 * k + 4) == seq![
                2u8,
                0u8,
                0u8,
                0u8,
            ],
        big <==> exists|k: int|
            0 <= k < states@.len() / 4 && #[trigger] states@.subrange(4 * k, 4 * k + 4) == seq![
                0u8,
                0u8,
                0u8,
                2u8,
            ],
{
    law_activated_is_the_value_two(states@);
}

/// A window announced, named, reported as activated and committed in this order
/// is the frontmost one, where no other is activated; and is not once it closed.
pub proof fn law_a_committed_window_is_frontmost(
    announced: &mut State,
    named: &mut State,
    told: &mut State,
    done: &mut State,
    id: u32,
    app_id: String,
    states: Vec<u8>,
    little_endian: bool,
    destroys: (bool, bool, bool),
    answer: Option<String>,
)
    requires
        call_ensures(State::manager_event, (announced, ManagerEvent::Toplevel { id }), ()),
        old(named)@ == final(announced)@,
        call_ensures(
            State::handle_event,
            (named, id, HandleEvent::AppId { app_id }, little_endian),
            destroys.0,
        ),
        old(told)@ == final(named)@,
        call_ensures(
            State::handle_event,
            (told, id, HandleEvent::State { states }, little_endian),
            destroys.1,
        ),
        old(done)@ == final(told)@,
        call_ensures(State::handle_event, (done, id, HandleEvent::Done, little_endian), destroys.2),
        call_ensures(State::frontmost_bundle_id, (&*final(done), true), answer),
        !old(announced)@.finished,
        forall|w: u32|
            w != id && old(announced)@.toplevels.contains_key(w) ==> !(
            #[trigger] old(announced)@.toplevels[w]).activated,
    ensures
        activated(states@, little_endian) ==> answer == Some(app_id),
        !activated(states@, little_endian) ==> answer is None,
        !destroys.0 && !destroys.1 && !destroys.2,
{
    let before = old(announced)@;
    let after = final(done)@;
    law_the_manager_announces_windows_and_ends(before, id, id);
    law_a_handle_changes_its_own_window(
        old(named)@,
        id,
        app_id,
        states,
        little_endian,
        HandleEvent::AppId { app_id },
        id,
    );
    law_a_handle_changes_its_own_window(
        old(told)@,
        id,
        app_id,
        states,
        little_endian,
        HandleEvent::State { states },
        id,
    );
    law_a_handle_changes_its_own_window(
        old(done)@,
        id,
        app_id,
        states,
        little_endian,
        HandleEvent::Done,
        id,
    );
    assert forall|w: u32| w != id && after.toplevels.contains_key(w) implies !(
    #[trigger] after.toplevels[w]).activated by {
        law_the_manager_announces_windows_and_ends(before, id, w);
        law_a_handle_changes_its_own_window(
            old(named)@,
            id,
            app_id,
            states,
            little_endian,
            HandleEvent::AppId { app_id },
            w,
        );
        law_a_handle_changes_its_own_window(
            old(told)@,
            id,
            app_id,
            states,
            little_endian,
            HandleEvent::State { states },
            w,
        );
        law_a_handle_changes_its_own_window(
            old(done)@,
            id,
            app_id,
            states,
            little_endian,
            HandleEvent::Done,
            w,
        );
        assert(!before.toplevels[w].activated);
    }
    law_the_answer_is_the_id_of_an_activated_window(after, answer, id);
}

/// A window that closed is forgotten and its handle destroyed; no other event
/// destroys one.
pub proof fn law_only_closed_handles_are_destroyed(
    state: &mut State,
    id: u32,
    event: HandleEvent,
    little_endian: bool,
    destroy: bool,
    other: u32,
)
    requires
        call_ensures(State::handle_event, (state, id, event, little_endian), destroy),
    ensures
        destroy <==> event is Closed,
        destroy ==> !final(state)@.toplevels.contains_key(id),
        !destroy ==> final(state)@.toplevels.contains_key(id)
            == old(state)@.toplevels.contains_key(id),
        other != id ==> final(state)@.toplevels.contains_key(other)
            == old(state)@.toplevels.contains_key(other),
        final(state)@.bound == old(state)@.bound,
        final(state)@.finished == old(state)@.finished,
{
}

/// Nothing is answered where the events could not be drained.
pub proof fn law_nothing_is_answered_undrained(state: State, id: Option<String>)
    requires
        call_ensures(State::frontmost_bundle_id, (&state, false), id),
    ensures
        id is None,
{
}

} // verus!
