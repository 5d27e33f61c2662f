//! Buttons, gestures and the actions bound to them.

use std::collections::BTreeMap;
use vstd::prelude::*;

verus! {

/// A mouse button the application tracks.
#[derive(Clone, Copy, Debug, PartialEq, Eq, Structural)]
pub enum ButtonId {
    LeftClick,
    RightClick,
    MiddleClick,
    Back,
    Forward,
    DpiToggle,
}

/// A movement made while the gesture button is held; a plain click is one too.
#[derive(Clone, Copy, Debug, PartialEq, Eq, Structural)]
pub enum GestureDirection {
    Up,
    Down,
    Left,
    Right,
    Click,
}

/// What a button or gesture does.
#[derive(Clone, Copy, Debug, PartialEq, Eq, Structural)]
pub enum Action {
    /// Step to the next DPI preset of the device.
    CycleDpiPresets,
    /// Switch to one DPI preset of the device.
    SetDpiPreset(u8),
    /// Flip the wheel mode of the device.
    ToggleSmartShift,
    /// Synthesize an event at the OS level; the number says which.
    Os(u32),
}

/// What an action can be bound to.
pub trait Trigger: Sized + Copy {
    /// The number that stands for it in a map.
    spec fn number(self) -> u8;

    /// Every trigger of this kind.
    spec fn listed() -> Seq<Self>;

    /// The number that stands for it in a map.
    fn code(self) -> (code: u8)
        ensures
            code == self.number(),
    ;

    /// Every trigger of this kind.
    fn all() -> (all: Vec<Self>)
        ensures
            all@ == Self::listed(),
    ;

    /// Different triggers have different numbers.
    proof fn numbers_differ(a: Self, b: Self)
        ensures
            a.number() == b.number() ==> a == b,
    ;

    /// The list leaves none out.
    proof fn list_is_complete(trigger: Self)
        ensures
            Self::listed().contains(trigger),
    ;
}

impl Trigger for ButtonId {
    open spec fn number(self) -> u8 {
        match self {
            ButtonId::LeftClick => 0,
            ButtonId::RightClick => 1,
            ButtonId::MiddleClick => 2,
            ButtonId::Back => 3,
            ButtonId::Forward => 4,
            ButtonId::DpiToggle => 5,
        }
    }

    open spec fn listed() -> Seq<Self> {
        seq![
            ButtonId::LeftClick,
            ButtonId::RightClick,
            ButtonId::MiddleClick,
            ButtonId::Back,
            ButtonId::Forward,
            ButtonId::DpiToggle,
        ]
    }

    fn code(self) -> (code: u8) {
        match self {
            ButtonId::LeftClick => 0,
            ButtonId::RightClick => 1,
            ButtonId::MiddleClick => 2,
            ButtonId::Back => 3,
            ButtonId::Forward => 4,
            ButtonId::DpiToggle => 5,
        }
    }

    fn all() -> (all: Vec<Self>) {
        vec![
            ButtonId::LeftClick,
            ButtonId::RightClick,
            ButtonId::MiddleClick,
            ButtonId::Back,
            ButtonId::Forward,
            ButtonId::DpiToggle,
        ]
    }

    proof fn numbers_differ(a: Self, b: Self) {
    }

    proof fn list_is_complete(trigger: Self) {
        assert(Self::listed()[trigger.number() as int] == trigger);
    }
}

impl Trigger for GestureDirection {
    open spec fn number(self) -> u8 {
        match self {
            GestureDirection::Up => 0,
            GestureDirection::Down => 1,
            GestureDirection::Left => 2,
            GestureDirection::Right => 3,
            GestureDirection::Click => 4,
        }
    }

    open spec fn listed() -> Seq<Self> {
        seq![
            GestureDirection::Up,
            GestureDirection::Down,
            GestureDirection::Left,
            GestureDirection::Right,
            GestureDirection::Click,
        ]
    }

    fn code(self) -> (code: u8) {
        match self {
            GestureDirection::Up => 0,
            GestureDirection::Down => 1,
            GestureDirection::Left => 2,
            GestureDirection::Right => 3,
            GestureDirection::Click => 4,
        }
    }

    fn all() -> (all: Vec<Self>) {
        vec![
            GestureDirection::Up,
            GestureDirection::Down,
            GestureDirection::Left,
            GestureDirection::Right,
            GestureDirection::Click,
        ]
    }

    proof fn numbers_differ(a: Self, b: Self) {
    }

    proof fn list_is_complete(trigger: Self) {
        assert(Self::listed()[trigger.number() as int] == trigger);
    }
}

/// The actions bound to some of the triggers of one kind.
#[derive(Debug)]
pub struct ActionMap<K> {
    actions: BTreeMap<u8, Action>,
    kind: core::marker::PhantomData<K>,
}

impl<K: Trigger> View for ActionMap<K> {
    type V = Map<K, Action>;

    closed spec fn view(&self) -> Map<K, Action> {
        Map::new(
            |k: K| self.actions@.contains_key(k.number()),
            |k: K| self.actions@[k.number()],
        )
    }
}

impl<K: Trigger> Clone for ActionMap<K> {
    fn clone(&self) -> (copy: Self)
        ensures
            copy@ == self@,
    {
        ActionMap { actions: self.actions.clone(), kind: core::marker::PhantomData }
    }
}

impl<K: Trigger> ActionMap<K> {
    /// Nothing is bound.
    pub fn new() -> (map: Self)
        ensures
            map@ == Map::<K, Action>::empty(),
    {
        let map = ActionMap { actions: BTreeMap::new(), kind: core::marker::PhantomData };
        assert(map@ =~= Map::<K, Action>::empty());
        map
    }

    /// Bind an action, in place of the one bound before.
    pub fn insert(&mut self, trigger: K, action: Action)
        ensures
            final(self)@ == old(self)@.insert(trigger, action),
    {
        broadcast use vstd::std_specs::btree::group_btree_axioms;

        let ghost before = self@;
        self.actions.insert(trigger.code(), action);
        proof {
            assert forall|k: K|
                k.number() == trigger.number() implies k == trigger by {
                K::numbers_differ(k, trigger);
            }
            assert(self@ =~= before.insert(trigger, action));
        }
    }

    /// The action bound to a trigger.
    pub fn get(&self, trigger: K) -> (action: Option<Action>)
        ensures
            action == (if self@.contains_key(trigger) {
                Some(self@[trigger])
            } else {
                None
            }),
    {
        broadcast use vstd::std_specs::btree::group_btree_axioms;

        match self.actions.get(&trigger.code()) {
            Some(action) => Some(*action),
            None => None,
        }
    }

    /// Bind every action of another map, in place of those bound before.
    pub fn overlay(&mut self, over: &ActionMap<K>)
        ensures
            final(self)@ == old(self)@.union_prefer_right(over@),
    {
        let all: Vec<K> = K::all();
        let ghost before = self@;
        let mut i: usize = 0;
        while i < all.len()
            invariant
                i <= all@.len(),
                all@ == K::listed(),
                forall|k: K| #[trigger]
                    self@.contains_key(k) <==> before.contains_key(k) || (over@.contains_key(k)
                        && all@.take(i as int).contains(k)),
                forall|k: K| #[trigger]
                    self@.contains_key(k) ==> self@[k] == (if over@.contains_key(k) && all@.take(
                        i as int,
                    ).contains(k) {
                        over@[k]
                    } else {
                        before[k]
                    }),
            decreases all@.len() - i,
        {
            let ghost taken = all@.take(i as int);
            let ghost held = self@;
            if let Some(action) = over.get(all[i]) {
                self.insert(all[i], action);
            }
            proof {
                assert(all@.take(i + 1) =~= taken.push(all@[i as int]));
                assert forall|k: K| #[trigger]
                    all@.take(i + 1).contains(k) <==> taken.contains(k) || k == all@[i as int] by {
                    if taken.contains(k) {
                        let j = choose|j: int| 0 <= j < taken.len() && taken[j] == k;
                        assert(all@.take(i + 1)[j] == k);
                    }
                    if k == all@[i as int] {
                        assert(all@.take(i + 1)[i as int] == k);
                    }
                }
            }
            i += 1;
        }
        proof {
            assert(all@.take(i as int) =~= all@);
            assert forall|k: K| #[trigger] all@.contains(k) by {
                K::list_is_complete(k);
            }
            assert(self@ =~= before.union_prefer_right(over@));
        }
    }
}

/// The action each button and gesture has until the user binds another.
#[derive(Clone, Copy, Debug, PartialEq, Eq, Structural)]
pub struct Defaults {
    pub left_click: Action,
    pub right_click: Action,
    pub middle_click: Action,
    pub back: Action,
    pub forward: Action,
    pub dpi_toggle: Action,
    pub gesture_up: Action,
    pub gesture_down: Action,
    pub gesture_left: Action,
    pub gesture_right: Action,
    pub gesture_click: Action,
}

impl Defaults {
    /// The default action of a button.
    pub open spec fn button(self, id: ButtonId) -> Action {
        match id {
            ButtonId::LeftClick => self.left_click,
            ButtonId::RightClick => self.right_click,
            ButtonId::MiddleClick => self.middle_click,
            ButtonId::Back => self.back,
            ButtonId::Forward => self.forward,
            ButtonId::DpiToggle => self.dpi_toggle,
        }
    }

    /// The default action of a gesture.
    pub open spec fn gesture(self, direction: GestureDirection) -> Action {
        match direction {
            GestureDirection::Up => self.gesture_up,
            GestureDirection::Down => self.gesture_down,
            GestureDirection::Left => self.gesture_left,
            GestureDirection::Right => self.gesture_right,
            GestureDirection::Click => self.gesture_click,
        }
    }

    /// The default action of every button.
    pub open spec fn buttons(self) -> Map<ButtonId, Action> {
        Map::new(|id: ButtonId| true, |id: ButtonId| self.button(id))
    }

    /// The default action of every gesture.
    pub open spec fn gestures(self) -> Map<GestureDirection, Action> {
        Map::new(|d: GestureDirection| true, |d: GestureDirection| self.gesture(d))
    }

    /// The default action of every button.
    pub fn default_bindings(&self) -> (map: ActionMap<ButtonId>)
        ensures
            map@ == self.buttons(),
    {
        let mut map: ActionMap<ButtonId> = ActionMap::new();
        map.insert(ButtonId::LeftClick, self.left_click);
        map.insert(ButtonId::RightClick, self.right_click);
        map.insert(ButtonId::MiddleClick, self.middle_click);
        map.insert(ButtonId::Back, self.back);
        map.insert(ButtonId::Forward, self.forward);
        map.insert(ButtonId::DpiToggle, self.dpi_toggle);
        assert(map@ =~= self.buttons());
        map
    }

    /// The default action of every gesture.
    pub fn default_gesture_bindings(&self) -> (map: ActionMap<GestureDirection>)
        ensures
            map@ == self.gestures(),
    {
        let mut map: ActionMap<GestureDirection> = ActionMap::new();
        map.insert(GestureDirection::Up, self.gesture_up);
        map.insert(GestureDirection::Down, self.gesture_down);
        map.insert(GestureDirection::Left, self.gesture_left);
        map.insert(GestureDirection::Right, self.gesture_right);
        map.insert(GestureDirection::Click, self.gesture_click);
        assert(map@ =~= self.gestures());
        map
    }
}

/// Each button and each gesture has the default of its own name.
pub proof fn law_defaults_go_by_name(defaults: Defaults)
    ensures
        defaults.buttons()[ButtonId::LeftClick] == defaults.left_click,
        defaults.buttons()[ButtonId::RightClick] == defaults.right_click,
        defaults.buttons()[ButtonId::MiddleClick] == defaults.middle_click,
        defaults.buttons()[ButtonId::Back] == defaults.back,
        defaults.buttons()[ButtonId::Forward] == defaults.forward,
        defaults.buttons()[ButtonId::DpiToggle] == defaults.dpi_toggle,
        defaults.gestures()[GestureDirection::Up] == defaults.gesture_up,
        defaults.gestures()[GestureDirection::Down] == defaults.gesture_down,
        defaults.gestures()[GestureDirection::Left] == defaults.gesture_left,
        defaults.gestures()[GestureDirection::Right] == defaults.gesture_right,
        defaults.gestures()[GestureDirection::Click] == defaults.gesture_click,
        forall|id: ButtonId| #[trigger] defaults.buttons().contains_key(id),
        forall|d: GestureDirection| #[trigger] defaults.gestures().contains_key(d),
        forall|id: ButtonId| #[trigger] defaults.buttons()[id] == defaults.button(id),
        forall|d: GestureDirection| #[trigger] defaults.gestures()[d] == defaults.gesture(d),
{
}

/// The default maps hold each default under its own name.
pub proof fn law_default_maps_go_by_name(
    defaults: Defaults,
    buttons: ActionMap<ButtonId>,
    gestures: ActionMap<GestureDirection>,
)
    requires
        call_ensures(Defaults::default_bindings, (&defaults,), buttons),
        call_ensures(Defaults::default_gesture_bindings, (&defaults,), gestures),
    ensures
        buttons@[ButtonId::LeftClick] == defaults.left_click,
        buttons@[ButtonId::RightClick] == defaults.right_click,
        buttons@[ButtonId::MiddleClick] == defaults.middle_click,
        buttons@[ButtonId::Back] == defaults.back,
        buttons@[ButtonId::Forward] == defaults.forward,
        buttons@[ButtonId::DpiToggle] == defaults.dpi_toggle,
        gestures@[GestureDirection::Up] == defaults.gesture_up,
        gestures@[GestureDirection::Down] == defaults.gesture_down,
        gestures@[GestureDirection::Left] == defaults.gesture_left,
        gestures@[GestureDirection::Right] == defaults.gesture_right,
        gestures@[GestureDirection::Click] == defaults.gesture_click,
        forall|id: ButtonId| #[trigger] buttons@.contains_key(id),
        forall|d: GestureDirection| #[trigger] gestures@.contains_key(d),
{
}

/// What was bound last is what is found, and binding one trigger leaves the
/// others as they are; a fresh map has nothing bound.
pub proof fn law_the_last_binding_is_found<K: Trigger>(
    map: &mut ActionMap<K>,
    bound: K,
    action: Action,
    other: K,
    empty: ActionMap<K>,
)
    requires
        call_ensures(ActionMap::<K>::insert, (map, bound, action), ()),
        call_ensures(ActionMap::<K>::new, (), empty),
    ensures
        final(map)@.contains_key(bound) && final(map)@[bound] == action,
        other != bound ==> final(map)@.contains_key(other) == old(map)@.contains_key(other)
            && final(map)@[other] == old(map)@[other],
        !empty@.contains_key(other),
{
}

/// What is found is what is bound.
pub proof fn law_what_is_bound_is_found<K: Trigger>(
    map: ActionMap<K>,
    trigger: K,
    action: Option<Action>,
)
    requires
        call_ensures(ActionMap::<K>::get, (&map, trigger), action),
    ensures
        action is Some <==> map@.contains_key(trigger),
        action matches Some(a) ==> a == map@[trigger],
{
}

/// Where two maps both bind a trigger, the one laid over wins; where one does,
/// that one counts.
pub proof fn law_the_map_laid_over_wins<K: Trigger>(
    map: &mut ActionMap<K>,
    over: ActionMap<K>,
    trigger: K,
)
    requires
        call_ensures(ActionMap::<K>::overlay, (map, &over), ()),
    ensures
        final(map)@.contains_key(trigger) <==> old(map)@.contains_key(trigger)
            || over@.contains_key(trigger),
        over@.contains_key(trigger) ==> final(map)@[trigger] == over@[trigger],
        !over@.contains_key(trigger) && old(map)@.contains_key(trigger) ==> final(map)@[trigger]
            == old(map)@[trigger],
{
}

} // verus!
