//! DPI presets of the selected device.

use vstd::prelude::*;

verus! {

/// Where the window's HID++ writes go: a receiver and a slot of it.
#[derive(Debug)]
pub struct DpiTarget {
    pub receiver_uid: String,
    pub slot: u8,
}

impl Clone for DpiTarget {
    fn clone(&self) -> (copy: Self)
        ensures
            copy == *self,
    {
        DpiTarget { receiver_uid: self.receiver_uid.clone(), slot: self.slot }
    }
}

/// The presets, which one is current, and where a DPI write goes.
#[verifier::ext_equal]
pub struct DpiCycleView {
    pub presets: Seq<u32>,
    pub index: usize,
    pub target: Option<DpiTarget>,
}

impl DpiCycleView {
    /// The state after stepping to the next preset, past the last to the first.
    pub open spec fn cycled(self) -> DpiCycleView {
        if self.presets.len() == 0 {
            self
        } else {
            DpiCycleView {
                index: (if self.index + 1 < self.presets.len() {
                    self.index + 1
                } else {
                    0
                }) as usize,
                ..self
            }
        }
    }

    /// The state after switching to a preset that exists.
    pub open spec fn switched(self, i: usize) -> DpiCycleView {
        if i < self.presets.len() {
            DpiCycleView { index: i, ..self }
        } else {
            self
        }
    }

    /// The current preset and the target, where there is one.
    pub open spec fn write(self) -> Option<(u32, Option<DpiTarget>)> {
        if self.index < self.presets.len() {
            Some((self.presets[self.index as int], self.target))
        } else {
            None
        }
    }
}

/// The presets of the selected device, which one is current, and where a DPI
/// write goes.
#[derive(Debug)]
pub struct DpiCycleState {
    pub presets: Vec<u32>,
    pub index: usize,
    pub target: Option<DpiTarget>,
}

impl View for DpiCycleState {
    type V = DpiCycleView;

    open spec fn view(&self) -> DpiCycleView {
        DpiCycleView { presets: self.presets@, index: self.index, target: self.target }
    }
}

impl DpiCycleState {
    /// Step to the next preset, past the last to the first, and tell what to
    /// write where. `None` when there is no preset.
    pub fn cycle(&mut self) -> (write: Option<(u32, Option<DpiTarget>)>)
        ensures
            final(self)@ == old(self)@.cycled(),
            write == final(self)@.write(),
            write is Some <==> old(self)@.presets.len() > 0,
    {
        let len: usize = self.presets.len();
        if len == 0 {
            return None;
        }
        if self.index < len - 1 {
            self.index = self.index + 1;
        } else {
            self.index = 0;
        }
        Some((self.presets[self.index], self.target.clone()))
    }

    /// Switch to a preset and tell what to write where. `None` when there is no
    /// such preset.
    pub fn set(&mut self, i: usize) -> (write: Option<(u32, Option<DpiTarget>)>)
        ensures
            final(self)@ == old(self)@.switched(i),
            write == (if i < old(self)@.presets.len() {
                final(self)@.write()
            } else {
                None
            }),
            write is Some <==> i < old(self)@.presets.len(),
    {
        if i >= self.presets.len() {
            return None;
        }
        self.index = i;
        Some((self.presets[i], self.target.clone()))
    }
}

/// The state after so many steps.
pub open spec fn cycled_times(state: DpiCycleView, n: nat) -> DpiCycleView
    decreases n,
{
    if n == 0 {
        state
    } else {
        cycled_times(state, (n - 1) as nat).cycled()
    }
}

/// Stepping through as many presets as there are comes back to where it began.
pub proof fn law_cycling_through_all_presets_comes_back(state: DpiCycleView)
    requires
        state.index < state.presets.len(),
        state.presets.len() <= usize::MAX,
    ensures
        cycled_times(state, state.presets.len()) == state,
{
    lemma_cycled(state, state.presets.len());
    let len = state.presets.len() as int;
    assert((state.index + len) % len == state.index) by {
        vstd::arithmetic::div_mod::lemma_mod_add_multiples_vanish(state.index as int, len);
        vstd::arithmetic::div_mod::lemma_small_mod(state.index as nat, len as nat);
    }
}

proof fn lemma_cycled(state: DpiCycleView, n: nat)
    requires
        state.index < state.presets.len(),
        state.presets.len() <= usize::MAX,
    ensures
        cycled_times(state, n) == (DpiCycleView {
            index: ((state.index + n) % (state.presets.len() as int)) as usize,
            ..state
        }),
        0 <= (state.index + n) % (state.presets.len() as int) < state.presets.len(),
    decreases n,
{
    let len = state.presets.len() as int;
    if n == 0 {
        vstd::arithmetic::div_mod::lemma_small_mod(state.index as nat, len as nat);
    } else {
        lemma_cycled(state, (n - 1) as nat);
        let before = (state.index + n - 1) % len;
        vstd::arithmetic::div_mod::lemma_add_mod_noop(state.index + n - 1, 1, len);
        vstd::arithmetic::div_mod::lemma_mod_bound(state.index + n, len);
        if before + 1 < len {
            vstd::arithmetic::div_mod::lemma_small_mod((before + 1) as nat, len as nat);
            if len > 1 {
                vstd::arithmetic::div_mod::lemma_small_mod(1, len as nat);
            }
        } else {
            vstd::arithmetic::div_mod::lemma_mod_self_0(len);
            if len > 1 {
                vstd::arithmetic::div_mod::lemma_small_mod(1, len as nat);
            } else {
                vstd::arithmetic::div_mod::lemma_mod_self_0(1);
            }
        }
    }
}

/// A step goes to the next preset, and from the last, or from behind it, to the
/// first; presets and target stay. Without a preset nothing changes.
pub proof fn law_a_step_goes_to_the_next_preset(state: DpiCycleView)
    ensures
        state.cycled().presets == state.presets,
        state.cycled().target == state.target,
        state.presets.len() == 0 ==> state.cycled() == state,
        state.presets.len() <= usize::MAX && state.index + 1 < state.presets.len()
            ==> state.cycled().index == state.index + 1,
        state.presets.len() > 0 && state.index + 1 >= state.presets.len() ==> state.cycled().index
            == 0,
{
}

/// Switching goes to the preset that was named, where there is one, and changes
/// nothing else; what is written is the preset at the current position, to the
/// target.
pub proof fn law_what_is_written_is_the_current_preset(state: DpiCycleView, i: usize)
    ensures
        i < state.presets.len() ==> state.switched(i).index == i,
        i >= state.presets.len() ==> state.switched(i) == state,
        state.switched(i).presets == state.presets,
        state.switched(i).target == state.target,
        state.index < state.presets.len() ==> state.write() == Some(
            (state.presets[state.index as int], state.target),
        ),
        state.index >= state.presets.len() ==> state.write() is None,
{
}

/// Stepping goes to the next preset, from the last to the first, and tells to
/// write it; setting goes to the one that is named, where there is one.
pub proof fn law_stepping_and_setting_tell_what_to_write(
    state: &mut DpiCycleState,
    stepped: Option<(u32, Option<DpiTarget>)>,
    other: &mut DpiCycleState,
    i: usize,
    switched: Option<(u32, Option<DpiTarget>)>,
)
    requires
        call_ensures(DpiCycleState::cycle, (state,), stepped),
        call_ensures(DpiCycleState::set, (other, i), switched),
    ensures
        stepped is Some <==> old(state).presets@.len() > 0,
        stepped matches Some(w) ==> w.0 == old(state).presets@[final(state).index as int] && w.1
            == old(state).target,
        old(state).presets@.len() > 0 ==> final(state).index == (if old(state).index + 1
            < old(state).presets.len() {
            old(state).index + 1
        } else {
            0
        }),
        final(state).presets@ == old(state).presets@,
        switched is Some <==> i < old(other).presets@.len(),
        switched matches Some(w) ==> w.0 == old(other).presets@[i as int] && w.1
            == old(other).target && final(other).index == i,
        final(other).presets@ == old(other).presets@,
{
    law_a_step_goes_to_the_next_preset(old(state)@);
    law_what_is_written_is_the_current_preset(final(state)@, i);
    law_what_is_written_is_the_current_preset(old(other)@, i);
    law_what_is_written_is_the_current_preset(final(other)@, i);
    assert(final(state)@.presets == old(state)@.presets);
    assert(final(other)@.presets == old(other)@.presets);
}

} // verus!
