//! Linux `evdev` + `uinput` implementation of the OS-level mouse hook.
//!
//! Each physical mouse found under `/dev/input/` is grabbed exclusively; a
//! paired `uinput` virtual device re-injects events the callback marks
//! [`EventDisposition::PassThrough`]. Events marked
//! [`EventDisposition::Suppress`] are consumed and never reach the desktop.

pub mod frontmost;
pub mod lifecycle;
pub mod wlr_foreign_toplevel;

use crate::binding::ButtonId;
use crate::hook::EventDisposition;
use crate::hook::MouseEvent;
use crate::hook::ScrollDelta;
use vstd::prelude::*;

verus! {

/// Name stamped on every uinput pass-through device; used to skip those
/// devices during enumeration so the hook does not grab its own virtual mice.
pub const VIRTUAL_DEVICE_NAME: &'static str = "OpenLogi virtual mouse";

/// Hi-res scroll resolution: 120 units per standard wheel tick, matching the
/// Linux kernel's `REL_WHEEL_HI_RES` convention and Windows HID semantics.
pub const HIRES_UNITS_PER_TICK: u16 = 120;

/// `EV_SYN`: the end of a report.
pub const EV_SYN: u16 = 0;

/// `EV_KEY`: a key or button.
pub const EV_KEY: u16 = 1;

/// `EV_REL`: a relative axis.
pub const EV_REL: u16 = 2;

pub const BTN_LEFT: u16 = 0x110;

pub const BTN_RIGHT: u16 = 0x111;

pub const BTN_MIDDLE: u16 = 0x112;

pub const BTN_SIDE: u16 = 0x113;

pub const BTN_EXTRA: u16 = 0x114;

pub const BTN_FORWARD: u16 = 0x115;

pub const BTN_BACK: u16 = 0x116;

pub const BTN_TASK: u16 = 0x117;

pub const REL_X: u16 = 0;

pub const REL_Y: u16 = 1;

pub const REL_HWHEEL: u16 = 6;

pub const REL_WHEEL: u16 = 8;

pub const REL_WHEEL_HI_RES: u16 = 0x0b;

pub const REL_HWHEEL_HI_RES: u16 = 0x0c;

/// An input event as the kernel reports it.
#[derive(Clone, Copy, Debug, PartialEq, Eq, Structural)]
pub struct InputEvent {
    pub event_type: u16,
    pub code: u16,
    pub value: i32,
}

/// The kinds of input event the hook tells apart.
#[derive(Clone, Copy, Debug, PartialEq, Eq, Structural)]
pub enum EventSummary {
    Synchronization,
    Key { code: u16, value: i32 },
    RelativeAxis { code: u16, value: i32 },
    Other,
}

impl InputEvent {
    /// The kind of an event is told by its type alone.
    pub open spec fn summary(self) -> EventSummary {
        if self.event_type == EV_SYN {
            EventSummary::Synchronization
        } else if self.event_type == EV_KEY {
            EventSummary::Key { code: self.code, value: self.value }
        } else if self.event_type == EV_REL {
            EventSummary::RelativeAxis { code: self.code, value: self.value }
        } else {
            EventSummary::Other
        }
    }

    /// Whether the event ends a report.
    pub open spec fn is_sync(self) -> bool {
        self.summary() is Synchronization
    }

    /// `evdev::InputEvent::destructure`, on the event that
    /// `evdev::InputEvent::new` makes of the three numbers: claims that type 0
    /// gives `Synchronization`, type 1 gives `Key` and type 2 gives
    /// `RelativeAxis`, the latter two with the event's own code and value, and
    /// that every other type gives another variant.
    #[verifier::external_body]
    fn destructure(self) -> (summary: EventSummary)
        ensures
            summary == self.summary(),
    {
        match evdev::InputEvent::new(self.event_type, self.code, self.value).destructure() {
            evdev::EventSummary::Synchronization(..) => EventSummary::Synchronization,
            evdev::EventSummary::Key(_, key, value) => EventSummary::Key { code: key.0, value },
            evdev::EventSummary::RelativeAxis(_, axis, value) => {
                EventSummary::RelativeAxis { code: axis.0, value }
            },
            _ => EventSummary::Other,
        }
    }
}

/// The button a key code stands for.
pub open spec fn button_of(key: u16) -> Option<ButtonId> {
    if key == BTN_LEFT {
        Some(ButtonId::LeftClick)
    } else if key == BTN_RIGHT {
        Some(ButtonId::RightClick)
    } else if key == BTN_MIDDLE {
        Some(ButtonId::MiddleClick)
    } else if key == BTN_BACK || key == BTN_SIDE {
        Some(ButtonId::Back)
    } else if key == BTN_FORWARD || key == BTN_EXTRA {
        Some(ButtonId::Forward)
    } else if key == BTN_TASK {
        Some(ButtonId::DpiToggle)
    } else {
        None
    }
}

/// The mouse event a relative axis reports. `hires` says whether the device has
/// a hi-res wheel, in which case the low-res axes are redundant.
pub open spec fn motion_of(axis: u16, value: i32, hires: bool) -> Option<MouseEvent> {
    if axis == REL_X {
        Some(MouseEvent::Moved { delta_x: value, delta_y: 0 })
    } else if axis == REL_Y {
        Some(MouseEvent::Moved { delta_x: 0, delta_y: value })
    } else if axis == (if hires {
        REL_WHEEL_HI_RES
    } else {
        REL_WHEEL
    }) {
        Some(MouseEvent::Scroll { delta_x: ScrollDelta::none(), delta_y: wheel(value, hires) })
    } else if axis == (if hires {
        REL_HWHEEL_HI_RES
    } else {
        REL_HWHEEL
    }) {
        Some(MouseEvent::Scroll { delta_x: wheel(value, hires), delta_y: ScrollDelta::none() })
    } else {
        None
    }
}

/// A wheel value in ticks.
pub open spec fn wheel(value: i32, hires: bool) -> ScrollDelta {
    ScrollDelta::Units {
        units: value,
        per_tick: if hires {
            HIRES_UNITS_PER_TICK
        } else {
            1
        },
    }
}

/// The mouse event an input event stands for.
pub open spec fn translated(event: InputEvent, hires: bool) -> Option<MouseEvent> {
    match event.summary() {
        EventSummary::Key { code, value } => match button_of(code) {
            Some(id) => Some(MouseEvent::Button { id, pressed: value != 0 }),
            None => None,
        },
        EventSummary::RelativeAxis { code, value } => motion_of(code, value, hires),
        EventSummary::Synchronization | EventSummary::Other => None,
    }
}

/// Whether an event is a low-res wheel tick of a device that reports hi-res
/// ticks too.
pub open spec fn redundant(event: InputEvent, hires: bool) -> bool {
    hires && (event.summary() matches EventSummary::RelativeAxis { code, .. } && (code == REL_WHEEL
        || code == REL_HWHEEL))
}

/// Whether an event is re-injected, where `answer` is what the callback says of
/// it if it is asked.
pub open spec fn passes(event: InputEvent, hires: bool, answer: EventDisposition) -> bool {
    &&& !event.is_sync()
    &&& match translated(event, hires) {
        Some(_) => answer == EventDisposition::PassThrough,
        None => !redundant(event, hires),
    }
}

/// The button a key code stands for.
pub fn key_to_button(key: u16) -> (id: Option<ButtonId>)
    ensures
        id == button_of(key),
{
    match key {
        BTN_LEFT => Some(ButtonId::LeftClick),
        BTN_RIGHT => Some(ButtonId::RightClick),
        BTN_MIDDLE => Some(ButtonId::MiddleClick),
        // BTN_BACK/BTN_SIDE both appear as the back thumb button across mice.
        BTN_BACK | BTN_SIDE => Some(ButtonId::Back),
        // BTN_FORWARD/BTN_EXTRA both appear as the forward thumb button.
        BTN_FORWARD | BTN_EXTRA => Some(ButtonId::Forward),
        // BTN_TASK is the closest generic match for a mode/DPI toggle button.
        BTN_TASK => Some(ButtonId::DpiToggle),
        _ => None,
    }
}

/// A scroll by so many units of a tick on each axis.
fn scroll(delta_x: ScrollDelta, delta_y: ScrollDelta) -> (event: MouseEvent)
    ensures
        event == (MouseEvent::Scroll { delta_x, delta_y }),
{
    MouseEvent::Scroll { delta_x, delta_y }
}

/// The mouse event an input event stands for, or `None` for one the hook does
/// not track.
pub fn translate(event: &InputEvent, hires_scroll: bool) -> (translation: Option<MouseEvent>)
    ensures
        translation == translated(*event, hires_scroll),
{
    match event.destructure() {
        EventSummary::Key { code, value } => match key_to_button(code) {
            Some(id) => Some(MouseEvent::Button { id, pressed: value != 0 }),
            None => None,
        },
        EventSummary::RelativeAxis { code, value } => {
            let still = ScrollDelta::Units { units: 0, per_tick: 1 };
            match code {
                // Pointer movement feeds gesture-button swipe detection. Emitted
                // as a `Moved` and always passed through, so the cursor keeps
                // moving while a held gesture button accumulates the swipe.
                REL_X => Some(MouseEvent::Moved { delta_x: value, delta_y: 0 }),
                REL_Y => Some(MouseEvent::Moved { delta_x: 0, delta_y: value }),
                _ => if hires_scroll {
                    let ticks = ScrollDelta::Units { units: value, per_tick: HIRES_UNITS_PER_TICK };
                    match code {
                        REL_WHEEL_HI_RES => Some(scroll(still, ticks)),
                        REL_HWHEEL_HI_RES => Some(scroll(ticks, still)),
                        // Low-res ticks are redundant when hi-res is active.
                        _ => None,
                    }
                } else {
                    let ticks = ScrollDelta::Units { units: value, per_tick: 1 };
                    match code {
                        REL_WHEEL => Some(scroll(still, ticks)),
                        REL_HWHEEL => Some(scroll(ticks, still)),
                        _ => None,
                    }
                },
            }
        },
        EventSummary::Synchronization | EventSummary::Other => None,
    }
}

/// What a hooked device's thread keeps between events.
#[verifier::ext_equal]
pub struct SessionView {
    /// Whether the device reports hi-res wheel ticks.
    pub hires_scroll: bool,
    /// Events to be re-injected at the end of the report.
    pub pending: Seq<InputEvent>,
}

impl SessionView {
    /// What is pending may be re-injected: no end of report, and no low-res tick
    /// of a hi-res device.
    pub open spec fn wf(self) -> bool {
        forall|i: int|
            0 <= i < self.pending.len() ==> !(#[trigger] self.pending[i]).is_sync() && !redundant(
                self.pending[i],
                self.hires_scroll,
            )
    }

    /// The session after one event.
    pub open spec fn after(self, event: InputEvent, answer: EventDisposition) -> SessionView {
        if passes(event, self.hires_scroll, answer) {
            SessionView { pending: self.pending.push(event), ..self }
        } else {
            self
        }
    }

    /// The session once the pending report has been re-injected.
    pub open spec fn cleared(self) -> SessionView {
        SessionView { pending: Seq::empty(), ..self }
    }
}

/// The event loop of one hooked device.
pub struct Session {
    hires_scroll: bool,
    pending: Vec<InputEvent>,
}

impl View for Session {
    type V = SessionView;

    closed spec fn view(&self) -> SessionView {
        SessionView { hires_scroll: self.hires_scroll, pending: self.pending@ }
    }
}

/// Whether `answer` is what the callback may say of an event; of one that it is
/// not asked about, it may say anything.
pub open spec fn answered<F: Fn(MouseEvent) -> EventDisposition>(
    cb: F,
    event: InputEvent,
    hires: bool,
    answer: EventDisposition,
) -> bool {
    translated(event, hires) matches Some(m) ==> call_ensures(cb, (m,), answer)
}

impl Session {
    /// Begin a session, given whether the exclusive grab succeeded and which
    /// relative axes the device has.
    ///
    /// Without the exclusive grab the desktop still receives the physical
    /// events, so reading and re-injecting them would duplicate every one. Such
    /// a device is skipped: it stays usable, just un-hooked.
    pub fn open(grabbed: bool, relative_axes: &Option<Vec<u16>>) -> (session: Option<Session>)
        ensures
            session matches Some(s) ==> s@ == (SessionView {
                hires_scroll: relative_axes matches Some(axes) && axes@.contains(REL_WHEEL_HI_RES),
                pending: Seq::empty(),
            }),
            session matches Some(s) ==> s@.wf(),
            session is Some <==> grabbed,
    {
        if !grabbed {
            return None;
        }
        let hires_scroll: bool = match relative_axes {
            Some(axes) => contains_code(axes, REL_WHEEL_HI_RES),
            None => false,
        };
        Some(Session { hires_scroll, pending: Vec::new() })
    }

    /// Take one event in, asking `cb` about the ones that are mouse events.
    /// Returns whether the pending report has to be re-injected now.
    ///
    /// Re-injecting appends its own end of report, so the incoming one is
    /// dropped rather than re-emitted.
    pub fn handle<F: Fn(MouseEvent) -> EventDisposition>(
        &mut self,
        event: InputEvent,
        cb: &F,
    ) -> (flush: bool)
        requires
            translated(event, old(self)@.hires_scroll) matches Some(m) ==> call_requires(*cb, (m,)),
        ensures
            flush == (event.is_sync() && old(self)@.pending.len() > 0),
            exists|answer: EventDisposition| #[trigger]
                answered(*cb, event, old(self)@.hires_scroll, answer) && final(self)@ == old(
                    self,
                )@.after(event, answer),
            old(self)@.wf() ==> final(self)@.wf(),
    {
        let summary = event.destructure();
        if let EventSummary::Synchronization = summary {
            let flush: bool = self.pending.len() > 0;
            assert(answered(*cb, event, self@.hires_scroll, EventDisposition::PassThrough));
            return flush;
        }
        let disposition: EventDisposition = match translate(&event, self.hires_scroll) {
            Some(m) => cb(m),
            None => {
                // Low-res companions must be suppressed when hi-res is active:
                // passing them through would double the scroll distance.
                let low_res: bool = match summary {
                    EventSummary::RelativeAxis { code, .. } => code == REL_WHEEL || code
                        == REL_HWHEEL,
                    _ => false,
                };
                if self.hires_scroll && low_res {
                    EventDisposition::Suppress
                } else {
                    EventDisposition::PassThrough
                }
            },
        };
        assert(answered(*cb, event, self@.hires_scroll, disposition));
        if let EventDisposition::PassThrough = disposition {
            self.pending.push(event);
        }
        false
    }

    /// The events of the report to re-inject.
    pub fn pending(&self) -> (events: &Vec<InputEvent>)
        ensures
            events@ == self@.pending,
    {
        &self.pending
    }

    /// Note the outcome of re-injecting the pending report, and tell whether
    /// the session goes on.
    ///
    /// The physical device is grabbed, so the pass-through events cannot reach
    /// the desktop any other way. A failure means the virtual device is broken,
    /// so the session ends, which releases the grab and restores normal input.
    pub fn flushed(&mut self, emitted: bool) -> (go_on: bool)
        ensures
            go_on == emitted,
            final(self)@ == (if emitted {
                old(self)@.cleared()
            } else {
                old(self)@
            }),
            old(self)@.wf() ==> final(self)@.wf(),
    {
        if emitted {
            self.pending.clear();
        }
        emitted
    }
}

/// Whether `emit` may say of a report that it was re-injected, or that it could
/// not be.
pub open spec fn emitted<E: Fn(&Vec<InputEvent>) -> bool>(
    emit: E,
    report: Seq<InputEvent>,
    accepted: bool,
) -> bool {
    exists|events: Vec<InputEvent>|
        events@ == report && #[trigger] call_ensures(emit, (&events,), accepted)
}

/// Events paired with what the callback said of them.
pub open spec fn paired(events: Seq<InputEvent>, answers: Seq<EventDisposition>) -> Seq<
    (InputEvent, EventDisposition),
> {
    Seq::new(answers.len(), |i: int| (events[i], answers[i]))
}

/// Whether a session may have come as far as the event behind `answers`, which
/// is what the callback says of those before it: every report that ended was
/// accepted.
pub open spec fn reached<F: Fn(MouseEvent) -> EventDisposition, E: Fn(&Vec<InputEvent>) -> bool>(
    start: SessionView,
    events: Seq<InputEvent>,
    cb: F,
    emit: E,
    answers: Seq<EventDisposition>,
) -> bool {
    let reports = run(start, paired(events, answers)).0;
    &&& answers.len() < events.len()
    &&& forall|i: int|
        0 <= i < answers.len() ==> answered(
            cb,
            events[i],
            start.hires_scroll,
            #[trigger] answers[i],
        )
    &&& forall|r: int| 0 <= r < reports.len() ==> emitted(emit, #[trigger] reports[r], true)
}

/// Whether a report is due at the event behind `answers`: the event ends it, and
/// it is what passed since the one before and is not empty.
pub open spec fn due<F: Fn(MouseEvent) -> EventDisposition, E: Fn(&Vec<InputEvent>) -> bool>(
    start: SessionView,
    events: Seq<InputEvent>,
    cb: F,
    emit: E,
    answers: Seq<EventDisposition>,
    report: Seq<InputEvent>,
) -> bool {
    &&& reached(start, events, cb, emit, answers)
    &&& events[answers.len() as int].is_sync()
    &&& report.len() > 0
    &&& report == run(start, paired(events, answers)).1.pending
}

/// Whether a session may end up as `end` after some events, where `answers` is
/// what the callback says of each: every report that ended was accepted, and the
/// session goes on; or one was not, and nothing behind it was taken in.
pub open spec fn processed<F: Fn(MouseEvent) -> EventDisposition, E: Fn(&Vec<InputEvent>) -> bool>(
    start: SessionView,
    events: Seq<InputEvent>,
    cb: F,
    emit: E,
    answers: Seq<EventDisposition>,
    go_on: bool,
    end: SessionView,
) -> bool {
    let (reports, session) = run(start, paired(events, answers));
    &&& answers.len() <= events.len()
    &&& forall|i: int|
        0 <= i < answers.len() ==> answered(
            cb,
            events[i],
            start.hires_scroll,
            #[trigger] answers[i],
        )
    &&& forall|r: int| 0 <= r < reports.len() ==> emitted(emit, #[trigger] reports[r], true)
    &&& end == session
    &&& if go_on {
        answers.len() == events.len()
    } else {
        &&& answers.len() < events.len()
        &&& events[answers.len() as int].is_sync()
        &&& session.pending.len() > 0
        &&& emitted(emit, session.pending, false)
    }
}

impl Session {
    /// Take the events of one read in, asking `cb` about the ones that are mouse
    /// events and re-injecting each report with `emit` as it ends. Returns
    /// whether the session goes on: it ends as soon as a report is not accepted.
    ///
    /// `emit` is handed nothing but reports that are due, each only once all
    /// before it were accepted, and `cb` nothing but what the event at hand
    /// translates to. The contract does not count the calls; how often a report
    /// is due is exact in [`Session::handle`], [`Session::pending`] and
    /// [`Session::flushed`].
    pub fn process<F: Fn(MouseEvent) -> EventDisposition, E: Fn(&Vec<InputEvent>) -> bool>(
        &mut self,
        events: &Vec<InputEvent>,
        cb: &F,
        emit: &E,
    ) -> (go_on: bool)
        requires
            forall|answers: Seq<EventDisposition>| #[trigger]
                reached(old(self)@, events@, *cb, *emit, answers) ==> (translated(
                    events@[answers.len() as int],
                    old(self)@.hires_scroll,
                ) matches Some(m) ==> call_requires(*cb, (m,))),
            forall|report: Vec<InputEvent>, answers: Seq<EventDisposition>| #[trigger]
                due(old(self)@, events@, *cb, *emit, answers, report@) ==> call_requires(
                    *emit,
                    (&report,),
                ),
        ensures
            exists|answers: Seq<EventDisposition>| #[trigger]
                processed(
                    old(self)@,
                    events@,
                    *cb,
                    *emit,
                    answers,
                    go_on,
                    final(self)@,
                ),
    {
        let ghost start = self@;
        let ghost mut answers: Seq<EventDisposition> = Seq::empty();
        let mut i: usize = 0;
        assert(paired(events@, answers) =~= Seq::empty());
        while i < events.len()
            invariant
                i <= events@.len(),
                answers.len() == i,
                start == old(self)@,
                forall|answers: Seq<EventDisposition>| #[trigger]
                    reached(start, events@, *cb, *emit, answers) ==> (translated(
                        events@[answers.len() as int],
                        start.hires_scroll,
                    ) matches Some(m) ==> call_requires(*cb, (m,))),
                forall|report: Vec<InputEvent>, answers: Seq<EventDisposition>| #[trigger]
                    due(start, events@, *cb, *emit, answers, report@) ==> call_requires(
                        *emit,
                        (&report,),
                    ),
                forall|j: int|
                    0 <= j < answers.len() ==> answered(
                        *cb,
                        events@[j],
                        start.hires_scroll,
                        #[trigger] answers[j],
                    ),
                forall|r: int|
                    0 <= r < run(start, paired(events@, answers)).0.len() ==> emitted(
                        *emit,
                        #[trigger] run(start, paired(events@, answers)).0[r],
                        true,
                    ),
                self@ == run(start, paired(events@, answers)).1,
            decreases events@.len() - i,
        {
            let event: InputEvent = events[i];
            let ghost before = self@;
            let ghost so_far = answers;
            proof {
                law_session_keeps_its_scroll_mode(start, paired(events@, so_far));
                assert(reached(start, events@, *cb, *emit, so_far));
            }
            let flush: bool = self.handle(event, cb);
            let ghost answer = choose|answer: EventDisposition| #[trigger]
                answered(*cb, event, before.hires_scroll, answer) && self@ == before.after(
                    event,
                    answer,
                );
            if flush {
                assert(self@ == before);
                assert(due(start, events@, *cb, *emit, so_far, self.pending@));
                let accepted: bool = emit(&self.pending);
                assert(emitted(*emit, before.pending, accepted));
                if !self.flushed(accepted) {
                    assert(processed(start, events@, *cb, *emit, so_far, false, self@));
                    return false;
                }
            }
            proof {
                answers = so_far.push(answer);
                let trace = paired(events@, answers);
                assert(trace.drop_last() =~= paired(events@, so_far));
                assert(trace.last() == (event, answer));
            }
            i += 1;
        }
        assert(processed(start, events@, *cb, *emit, answers, true, self@));
        true
    }
}

/// Whether a list of codes holds one.
fn contains_code(codes: &Vec<u16>, code: u16) -> (found: bool)
    ensures
        found == codes@.contains(code),
{
    let mut i: usize = 0;
    while i < codes.len()
        invariant
            i <= codes@.len(),
            forall|j: int| 0 <= j < i ==> codes@[j] != code,
        decreases codes@.len() - i,
    {
        if codes[i] == code {
            assert(codes@[i as int] == code);
            return true;
        }
        i += 1;
    }
    false
}

/// The reports re-injected, and the session that is left, after a run of events
/// that were each answered as given and whose reports were all accepted.
pub open spec fn run(
    start: SessionView,
    trace: Seq<(InputEvent, EventDisposition)>,
) -> (Seq<Seq<InputEvent>>, SessionView)
    decreases trace.len(),
{
    if trace.len() == 0 {
        (Seq::empty(), start)
    } else {
        let (reports, session) = run(start, trace.drop_last());
        let (event, answer) = trace.last();
        if event.is_sync() && session.pending.len() > 0 {
            (reports.push(session.pending), session.cleared())
        } else {
            (reports, session.after(event, answer))
        }
    }
}

/// The events of a run that are to reach the desktop.
pub open spec fn kept(hires: bool, trace: Seq<(InputEvent, EventDisposition)>) -> Seq<InputEvent>
    decreases trace.len(),
{
    if trace.len() == 0 {
        Seq::empty()
    } else {
        let rest = kept(hires, trace.drop_last());
        let (event, answer) = trace.last();
        if passes(event, hires, answer) {
            rest.push(event)
        } else {
            rest
        }
    }
}

/// The hook loses, duplicates and reorders nothing: the reports re-injected,
/// followed by what is pending, are what was pending at the start, followed by
/// exactly the events that pass.
pub proof fn law_every_passing_event_is_reinjected_once_in_order(
    start: SessionView,
    trace: Seq<(InputEvent, EventDisposition)>,
)
    ensures
        run(start, trace).0.flatten() + run(start, trace).1.pending == start.pending + kept(
            start.hires_scroll,
            trace,
        ),
    decreases trace.len(),
{
    if trace.len() > 0 {
        let before = trace.drop_last();
        law_every_passing_event_is_reinjected_once_in_order(start, before);
        law_session_keeps_its_scroll_mode(start, before);
        let (reports, session) = run(start, before);
        let (event, answer) = trace.last();
        let expected = start.pending + kept(start.hires_scroll, trace);
        if event.is_sync() && session.pending.len() > 0 {
            reports.lemma_flatten_push(session.pending);
            assert(run(start, trace).0.flatten() + run(start, trace).1.pending =~= expected);
        } else {
            let past = kept(start.hires_scroll, before);
            assert(reports.flatten() + session.pending.push(event) =~= (reports.flatten()
                + session.pending).push(event));
            assert(start.pending + past.push(event) =~= (start.pending + past).push(event));
        }
    } else {
        assert(Seq::<Seq<InputEvent>>::empty().flatten() + start.pending =~= start.pending + kept(
            start.hires_scroll,
            trace,
        ));
    }
}

/// Whether a device counts as hi-res never changes within a session.
pub proof fn law_session_keeps_its_scroll_mode(
    start: SessionView,
    trace: Seq<(InputEvent, EventDisposition)>,
)
    ensures
        run(start, trace).1.hires_scroll == start.hires_scroll,
    decreases trace.len(),
{
    if trace.len() > 0 {
        law_session_keeps_its_scroll_mode(start, trace.drop_last());
    }
}

/// No end-of-report event and, on a hi-res device, no low-res wheel tick is
/// ever re-injected; and no report is empty.
pub proof fn law_reports_hold_only_passing_events(
    start: SessionView,
    trace: Seq<(InputEvent, EventDisposition)>,
    r: int,
)
    requires
        start.wf(),
        0 <= r < run(start, trace).0.len(),
    ensures
        run(start, trace).0[r].len() > 0,
        forall|i: int|
            0 <= i < run(start, trace).0[r].len() ==> {
                let event = #[trigger] run(start, trace).0[r][i];
                !event.is_sync() && !redundant(event, start.hires_scroll)
            },
    decreases trace.len(),
{
    if trace.len() > 0 {
        let before = trace.drop_last();
        law_a_session_stays_well_formed(start, before);
        law_session_keeps_its_scroll_mode(start, before);
        if r < run(start, before).0.len() {
            law_reports_hold_only_passing_events(start, before, r);
        }
    }
}

/// Only events that may be re-injected are ever pending.
pub proof fn law_a_session_stays_well_formed(
    start: SessionView,
    trace: Seq<(InputEvent, EventDisposition)>,
)
    requires
        start.wf(),
    ensures
        run(start, trace).1.wf(),
    decreases trace.len(),
{
    if trace.len() > 0 {
        law_a_session_stays_well_formed(start, trace.drop_last());
    }
}

/// Whether an event is one of a run that is to reach the desktop.
pub open spec fn passed(
    event: InputEvent,
    hires: bool,
    trace: Seq<(InputEvent, EventDisposition)>,
) -> bool {
    exists|i: int|
        0 <= i < trace.len() && #[trigger] trace[i].0 == event && passes(event, hires, trace[i].1)
}

proof fn lemma_pending_events_passed(
    start: SessionView,
    trace: Seq<(InputEvent, EventDisposition)>,
    k: int,
)
    requires
        0 <= k < run(start, trace).1.pending.len(),
    ensures
        ({
            let event = run(start, trace).1.pending[k];
            start.pending.contains(event) || passed(event, start.hires_scroll, trace)
        }),
    decreases trace.len(),
{
    if trace.len() > 0 {
        let before = trace.drop_last();
        let session = run(start, before).1;
        let event = run(start, trace).1.pending[k];
        law_session_keeps_its_scroll_mode(start, before);
        if k < session.pending.len() {
            lemma_pending_events_passed(start, before, k);
            if passed(event, start.hires_scroll, before) {
                let i = choose|i: int|
                    0 <= i < before.len() && #[trigger] before[i].0 == event && passes(
                        event,
                        start.hires_scroll,
                        before[i].1,
                    );
                assert(trace[i].0 == event);
            }
        } else {
            assert(trace[trace.len() - 1].0 == event);
        }
    }
}

/// What `emit` may be handed is not empty and holds no end-of-report event, no
/// redundant tick and nothing the callback suppressed: every event of it was
/// pending at the start or passes. Together with the reports before it, it is
/// exactly what was pending and what passed, in order.
pub proof fn law_a_due_report_is_exactly_what_passed<
    F: Fn(MouseEvent) -> EventDisposition,
    E: Fn(&Vec<InputEvent>) -> bool,
>(
    start: SessionView,
    events: Seq<InputEvent>,
    cb: F,
    emit: E,
    answers: Seq<EventDisposition>,
    report: Seq<InputEvent>,
)
    requires
        start.wf(),
        due(start, events, cb, emit, answers, report),
    ensures
        report.len() > 0,
        forall|k: int|
            0 <= k < report.len() ==> {
                let event = #[trigger] report[k];
                &&& !event.is_sync()
                &&& !redundant(event, start.hires_scroll)
                &&& start.pending.contains(event) || passed(
                    event,
                    start.hires_scroll,
                    paired(events, answers),
                )
            },
        run(start, paired(events, answers)).0.flatten() + report == start.pending + kept(
            start.hires_scroll,
            paired(events, answers),
        ),
{
    let trace = paired(events, answers);
    law_every_passing_event_is_reinjected_once_in_order(start, trace);
    law_a_session_stays_well_formed(start, trace);
    law_session_keeps_its_scroll_mode(start, trace);
    assert forall|k: int| 0 <= k < report.len() implies start.pending.contains(#[trigger] report[k])
        || passed(report[k], start.hires_scroll, trace) by {
        lemma_pending_events_passed(start, trace, k);
    }
}

/// At every end of report everything that passed has been re-injected.
pub proof fn law_nothing_stays_pending_after_a_report(
    start: SessionView,
    trace: Seq<(InputEvent, EventDisposition)>,
)
    requires
        trace.len() > 0,
        trace.last().0.is_sync(),
    ensures
        run(start, trace).1.pending == Seq::<InputEvent>::empty(),
        run(start, trace).0.flatten() == start.pending + kept(start.hires_scroll, trace),
{
    law_every_passing_event_is_reinjected_once_in_order(start, trace);
}

/// An event the callback is not asked about fares the same whatever the callback
/// would say; one that it suppresses never reaches the desktop.
pub proof fn law_the_callback_decides_on_mouse_events_alone(
    event: InputEvent,
    hires: bool,
    a: EventDisposition,
    b: EventDisposition,
)
    ensures
        translated(event, hires) is None ==> passes(event, hires, a) == passes(event, hires, b),
        translated(event, hires) is Some ==> !passes(event, hires, EventDisposition::Suppress),
        translated(event, hires) is Some ==> passes(event, hires, EventDisposition::PassThrough),
{
}

/// Pointer movement is reported whatever the wheel is: the horizontal axis and
/// the vertical axis of type 2 are codes 0 and 1, and each moves by its value
/// alone.
pub proof fn law_pointer_movement_is_always_reported(value: i32, hires: bool)
    ensures
        translated(InputEvent { event_type: 2, code: 0, value }, hires) == Some(
            MouseEvent::Moved { delta_x: value, delta_y: 0 },
        ),
        translated(InputEvent { event_type: 2, code: 1, value }, hires) == Some(
            MouseEvent::Moved { delta_x: 0, delta_y: value },
        ),
{
}

/// The eight mouse buttons of type 1 are codes `0x110` to `0x117`, reported
/// alike with every wheel: as a release where the value is 0 and as a press
/// otherwise. The two codes of each side button are told apart by nobody.
pub proof fn law_mouse_buttons_are_reported(code: u16, value: i32, hires: bool)
    ensures
        ({
            let seen = translated(InputEvent { event_type: 1, code, value }, hires);
            let pressed = value != 0;
            &&& code == 0x110 ==> seen == Some(
                MouseEvent::Button { id: ButtonId::LeftClick, pressed },
            )
            &&& code == 0x111 ==> seen == Some(
                MouseEvent::Button { id: ButtonId::RightClick, pressed },
            )
            &&& code == 0x112 ==> seen == Some(
                MouseEvent::Button { id: ButtonId::MiddleClick, pressed },
            )
            &&& code == 0x113 || code == 0x116 ==> seen == Some(
                MouseEvent::Button { id: ButtonId::Back, pressed },
            )
            &&& code == 0x114 || code == 0x115 ==> seen == Some(
                MouseEvent::Button { id: ButtonId::Forward, pressed },
            )
            &&& code == 0x117 ==> seen == Some(
                MouseEvent::Button { id: ButtonId::DpiToggle, pressed },
            )
            &&& code < 0x110 || code > 0x117 ==> seen is None
            &&& button_of(code) == (match seen {
                Some(MouseEvent::Button { id, .. }) => Some(id),
                _ => None,
            })
        }),
{
}

/// A turn of the wheel is reported once: a hi-res device by codes `0x0b` and
/// `0x0c`, in parts of a hundred and twentieth of a tick, and any other by codes
/// 8 and 6, in ticks. The codes of the other kind say nothing.
pub proof fn law_the_wheel_is_reported_at_one_resolution(code: u16, value: i32, hires: bool)
    ensures
        ({
            let seen = translated(InputEvent { event_type: 2, code, value }, hires);
            let still = ScrollDelta::Units { units: 0, per_tick: 1 };
            let fine = ScrollDelta::Units { units: value, per_tick: 120 };
            let coarse = ScrollDelta::Units { units: value, per_tick: 1 };
            &&& hires && code == 0x0b ==> seen == Some(
                MouseEvent::Scroll { delta_x: still, delta_y: fine },
            )
            &&& hires && code == 0x0c ==> seen == Some(
                MouseEvent::Scroll { delta_x: fine, delta_y: still },
            )
            &&& !hires && code == 8 ==> seen == Some(
                MouseEvent::Scroll { delta_x: still, delta_y: coarse },
            )
            &&& !hires && code == 6 ==> seen == Some(
                MouseEvent::Scroll { delta_x: coarse, delta_y: still },
            )
            &&& hires && (code == 8 || code == 6) ==> seen is None
            &&& !hires && (code == 0x0b || code == 0x0c) ==> seen is None
        }),
{
}

/// Every other event means nothing to the hook: the other relative axes, and
/// the events of types other than keys and relative axes.
pub proof fn law_nothing_else_is_a_mouse_event(event: InputEvent, hires: bool)
    requires
        event.event_type != 1,
        event.event_type == 2 ==> event.code != 0 && event.code != 1 && event.code != 6
            && event.code != 8 && event.code != 0x0b && event.code != 0x0c,
    ensures
        translated(event, hires) is None,
{
}

/// What reaches the desktop, by the numbers of the event. Ends of report never
/// do, nor do the ticks of type 2 and codes 8 and 6 on a hi-res device. What is
/// reported to the callback does exactly where the callback lets it pass.
/// Everything else does whatever the callback says.
pub proof fn law_what_reaches_the_desktop(
    event: InputEvent,
    hires: bool,
    answer: EventDisposition,
)
    ensures
        ({
            let reported = translated(event, hires) is Some;
            let wheel_tick = event.event_type == 2 && (event.code == 8 || event.code == 6);
            &&& event.event_type == 0 ==> !passes(event, hires, answer)
            &&& wheel_tick && hires ==> !passes(event, hires, answer)
            &&& reported ==> passes(event, hires, answer) == (answer is PassThrough)
            &&& event.event_type != 0 && !reported && !(wheel_tick && hires) ==> passes(
                event,
                hires,
                answer,
            )
        }),
{
}

/// An event is queued behind those that wait, or it is left out; nothing that
/// waits is touched, and an event that reaches the desktop is queued.
pub proof fn law_an_event_is_queued_last_or_left_out(
    session: SessionView,
    event: InputEvent,
    answer: EventDisposition,
)
    ensures
        session.after(event, answer).hires_scroll == session.hires_scroll,
        passes(event, session.hires_scroll, answer) ==> session.after(event, answer).pending
            == session.pending.push(event),
        !passes(event, session.hires_scroll, answer) ==> session.after(event, answer).pending
            == session.pending,
        session.cleared().pending.len() == 0,
        session.cleared().hires_scroll == session.hires_scroll,
{
}

/// A report ends at an event of type 0 and nowhere else: there what waits
/// becomes one more report, unless nothing waits, and nothing waits afterwards.
pub proof fn law_reports_end_at_sync_events_alone(
    start: SessionView,
    trace: Seq<(InputEvent, EventDisposition)>,
    event: InputEvent,
    answer: EventDisposition,
)
    ensures
        ({
            let (reports, session) = run(start, trace);
            let (reports_then, session_then) = run(start, trace.push((event, answer)));
            &&& event.event_type != 0 ==> reports_then == reports && session_then
                == session.after(event, answer)
            &&& event.event_type == 0 && session.pending.len() > 0 ==> reports_then
                == reports.push(session.pending)
            &&& event.event_type == 0 && session.pending.len() == 0 ==> reports_then == reports
            &&& event.event_type == 0 ==> session_then.pending.len() == 0
            &&& run(start, Seq::empty()) == (Seq::<Seq<InputEvent>>::empty(), start)
        }),
{
    assert(trace.push((event, answer)).drop_last() =~= trace);
}

/// A read is taken in to its end, or to the report that was not accepted, which
/// then still waits. Every answer counted is one the callback gave to what the
/// event translates to, and every report before was accepted.
pub proof fn law_a_read_ends_at_its_end_or_at_a_refusal<
    F: Fn(MouseEvent) -> EventDisposition,
    E: Fn(&Vec<InputEvent>) -> bool,
>(
    start: SessionView,
    events: Seq<InputEvent>,
    cb: F,
    emit: E,
    answers: Seq<EventDisposition>,
    go_on: bool,
    end: SessionView,
    trace: Seq<(InputEvent, EventDisposition)>,
    r: int,
)
    requires
        trace.len() == answers.len(),
        forall|i: int| 0 <= i < trace.len() ==> #[trigger] trace[i] == (events[i], answers[i]),
        processed(start, events, cb, emit, answers, go_on, end),
    ensures
        go_on <==> answers.len() == events.len(),
        !go_on ==> answers.len() < events.len() && events[answers.len() as int].event_type == 0
            && end.pending.len() > 0 && exists|v: Vec<InputEvent>|
            v@ == end.pending && #[trigger] call_ensures(emit, (&v,), false),
        forall|i: int|
            0 <= i < answers.len() ==> (translated(events[i], start.hires_scroll) matches Some(m)
                ==> call_ensures(cb, (m,), #[trigger] answers[i])),
        end == run(start, trace).1,
        0 <= r < run(start, trace).0.len() ==> exists|v: Vec<InputEvent>|
            v@ == run(start, trace).0[r] && #[trigger] call_ensures(emit, (&v,), true),
{
    assert(trace =~= paired(events, answers));
    if 0 <= r < run(start, trace).0.len() {
        assert(emitted(emit, run(start, trace).0[r], true));
    }
    assert forall|i: int| 0 <= i < answers.len() implies (translated(
        events[i],
        start.hires_scroll,
    ) matches Some(m) ==> call_ensures(cb, (m,), #[trigger] answers[i])) by {
        assert(answered(cb, events[i], start.hires_scroll, answers[i]));
    }
}

/// What translating gives, by the numbers of the event: movement whatever the
/// wheel is, a button by its code, and nothing for types other than keys and
/// relative axes.
pub proof fn law_translating_goes_by_the_numbers(
    event: InputEvent,
    hires: bool,
    seen: Option<MouseEvent>,
)
    requires
        call_ensures(translate, (&event, hires), seen),
    ensures
        event.event_type == 2 && event.code == 0 ==> seen == Some(
            MouseEvent::Moved { delta_x: event.value, delta_y: 0 },
        ),
        event.event_type == 2 && event.code == 1 ==> seen == Some(
            MouseEvent::Moved { delta_x: 0, delta_y: event.value },
        ),
        event.event_type == 1 ==> (seen is Some <==> 0x110 <= event.code <= 0x117),
        event.event_type == 1 && seen is Some ==> (seen->0 matches MouseEvent::Button {
            pressed,
            ..
        } && pressed == (event.value != 0)),
        event.event_type == 2 && event.code > 1 ==> (seen is Some <==> if hires {
            event.code == 0x0b || event.code == 0x0c
        } else {
            event.code == 8 || event.code == 6
        }),
        event.event_type == 2 && event.code > 1 && seen is Some ==> seen->0 is Scroll,
        event.event_type != 1 && event.event_type != 2 ==> seen is None,
{
    law_mouse_buttons_are_reported(event.code, event.value, hires);
    law_the_wheel_is_reported_at_one_resolution(event.code, event.value, hires);
}

/// The button of a key code.
pub proof fn law_keys_stand_for_buttons(key: u16, id: Option<ButtonId>)
    requires
        call_ensures(key_to_button, (key,), id),
    ensures
        id is Some <==> 0x110 <= key <= 0x117,
        id matches Some(ButtonId::LeftClick) <==> key == 0x110,
        id matches Some(ButtonId::RightClick) <==> key == 0x111,
        id matches Some(ButtonId::MiddleClick) <==> key == 0x112,
        id matches Some(ButtonId::Back) <==> key == 0x113 || key == 0x116,
        id matches Some(ButtonId::Forward) <==> key == 0x114 || key == 0x115,
        id matches Some(ButtonId::DpiToggle) <==> key == 0x117,
{
}

/// A session begins exactly where the device could be grabbed, with nothing
/// waiting, and counts as hi-res exactly where the device has axis `0x0b`.
pub proof fn law_a_session_begins_with_the_grab(
    grabbed: bool,
    axes: Option<Vec<u16>>,
    session: Option<Session>,
)
    requires
        call_ensures(Session::open, (grabbed, &axes), session),
    ensures
        session is Some <==> grabbed,
        session matches Some(s) ==> s@.pending.len() == 0 && (s@.hires_scroll <==> (axes
            matches Some(list) && list@.contains(0x0bu16))),
{
}

/// A report that was re-injected no longer waits and the session goes on; one
/// that was not still waits and the session ends.
pub proof fn law_a_refused_report_still_waits(session: &mut Session, emitted: bool, go_on: bool)
    requires
        call_ensures(Session::flushed, (session, emitted), go_on),
    ensures
        go_on == emitted,
        emitted ==> final(session)@.pending.len() == 0,
        !emitted ==> final(session)@ == old(session)@,
        final(session)@.hires_scroll == old(session)@.hires_scroll,
{
}

/// An event of type 0 asks for the report that waits, if any does, and changes
/// nothing; every other waits behind the rest, where the callback lets it pass or
/// is not asked and it is no redundant tick.
pub proof fn law_taking_an_event_in<F: Fn(MouseEvent) -> EventDisposition>(
    session: &mut Session,
    event: InputEvent,
    cb: F,
    flush: bool,
)
    requires
        call_ensures(Session::handle, (session, event, &cb), flush),
    ensures
        flush <==> event.event_type == 0 && old(session)@.pending.len() > 0,
        event.event_type == 0 ==> final(session)@ == old(session)@,
        final(session)@.pending == old(session)@.pending || final(session)@.pending == old(
            session,
        )@.pending.push(event),
        final(session)@.hires_scroll == old(session)@.hires_scroll,
        event.event_type == 1 && !(0x110 <= event.code <= 0x117) ==> final(session)@.pending
            == old(session)@.pending.push(event),
        event.event_type > 2 ==> final(session)@.pending == old(session)@.pending.push(event),
        translated(event, old(session)@.hires_scroll) matches Some(m) ==> (final(session)@.pending
            == old(session)@.pending.push(event) ==> call_ensures(
            cb,
            (m,),
            EventDisposition::PassThrough,
        )) && (final(session)@.pending == old(session)@.pending ==> call_ensures(
            cb,
            (m,),
            EventDisposition::Suppress,
        )),
{
    let hires = old(session)@.hires_scroll;
    let answer = choose|answer: EventDisposition| #[trigger]
        answered(cb, event, hires, answer) && final(session)@ == old(session)@.after(
            event,
            answer,
        );
    assert(answered(cb, event, hires, answer));
    let before = old(session)@.pending;
    assert(before.push(event).len() != before.len());
}

/// A read leaves the session going unless a report was refused, which then still
/// waits; a read without an event of type 0 refuses nothing, and takes in every
/// event that reaches the desktop whatever the callback says.
pub proof fn law_processing_a_read<
    F: Fn(MouseEvent) -> EventDisposition,
    E: Fn(&Vec<InputEvent>) -> bool,
>(
    session: &mut Session,
    events: Vec<InputEvent>,
    cb: F,
    emit: E,
    go_on: bool,
    waiting: &Vec<InputEvent>,
)
    requires
        call_ensures(Session::process::<F, E>, (session, &events, &cb, &emit), go_on),
        call_ensures(Session::pending, (&*final(session),), waiting),
    ensures
        waiting@ == final(session)@.pending,
        final(session)@.hires_scroll == old(session)@.hires_scroll,
        !go_on ==> waiting@.len() > 0 && exists|v: Vec<InputEvent>|
            v@ == waiting@ && #[trigger] call_ensures(emit, (&v,), false),
        !go_on ==> exists|i: int| 0 <= i < events@.len() && (#[trigger] events@[i]).event_type == 0,
        events@.len() > 0 && go_on && events@.last().event_type == 0 ==> waiting@.len() == 0,
        events@.len() == 0 ==> go_on && final(session)@ == old(session)@,
        events@.len() == 1 && events@[0].event_type > 2 ==> go_on && waiting@
            == old(session)@.pending.push(events@[0]),
{
    let start = old(session)@;
    let answers = choose|answers: Seq<EventDisposition>| #[trigger]
        processed(start, events@, cb, emit, answers, go_on, final(session)@);
    let trace = paired(events@, answers);
    law_a_read_ends_at_its_end_or_at_a_refusal(
        start,
        events@,
        cb,
        emit,
        answers,
        go_on,
        final(session)@,
        trace,
        0,
    );
    law_session_keeps_its_scroll_mode(start, trace);
    if trace.len() > 0 {
        let (event, answer) = trace.last();
        law_reports_end_at_sync_events_alone(start, trace.drop_last(), event, answer);
        assert(trace.drop_last().push((event, answer)) =~= trace);
        law_what_reaches_the_desktop(event, start.hires_scroll, answer);
        law_an_event_is_queued_last_or_left_out(start, event, answer);
        if events@.len() == 1 {
            assert(trace.drop_last() =~= Seq::empty());
        }
    }
}

} // verus!
