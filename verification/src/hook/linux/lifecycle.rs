//! Which devices are hooked, how the hook starts and stops, and how a device
//! thread waits for input.

use crate::hook::HookError;
use crate::hook::linux::contains_code;
use crate::hook::linux::BTN_LEFT;
use crate::hook::linux::VIRTUAL_DEVICE_NAME;
use crate::text::str_eq;
use vstd::prelude::*;

verus! {

/// What an input device says of itself.
#[derive(Debug)]
pub struct DeviceFacts {
    /// Its name, where it reports one.
    pub name: Option<String>,
    /// The keys and buttons it has, where it has any.
    pub keys: Option<Vec<u16>>,
    /// The relative axes it has, where it has any.
    pub relative_axes: Option<Vec<u16>>,
}

impl DeviceFacts {
    /// A device is hooked when it has a left button and is not one of the
    /// hook's own virtual mice.
    pub open spec fn is_mouse(&self) -> bool {
        &&& self.name matches Some(name) ==> name@ != VIRTUAL_DEVICE_NAME@
        &&& self.keys matches Some(keys) && keys@.contains(BTN_LEFT)
    }
}

/// The positions of the devices to hook, in the order of enumeration.
pub fn find_mouse_devices(devices: &Vec<DeviceFacts>) -> (found: Vec<usize>)
    ensures
        forall|k: int, l: int| 0 <= k < l < found@.len() ==> found@[k] < found@[l],
        forall|k: int|
            0 <= k < found@.len() ==> (#[trigger] found@[k]) < devices@.len()
                && devices@[found@[k] as int].is_mouse(),
        forall|i: usize|
            i < devices@.len() && devices@[i as int].is_mouse() ==> #[trigger] found@.contains(i),
{
    let mut found: Vec<usize> = Vec::new();
    let mut i: usize = 0;
    while i < devices.len()
        invariant
            i <= devices@.len(),
            forall|k: int, l: int| 0 <= k < l < found@.len() ==> found@[k] < found@[l],
            forall|k: int|
                0 <= k < found@.len() ==> (#[trigger] found@[k]) < i
                    && devices@[found@[k] as int].is_mouse(),
            forall|j: usize|
                j < i && devices@[j as int].is_mouse() ==> #[trigger] found@.contains(j),
        decreases devices@.len() - i,
    {
        let device = &devices[i];
        let own: bool = match &device.name {
            Some(name) => str_eq(name.as_str(), VIRTUAL_DEVICE_NAME),
            None => false,
        };
        let has_left: bool = match &device.keys {
            Some(keys) => contains_code(keys, BTN_LEFT),
            None => false,
        };
        let ghost before = found@;
        if !own && has_left {
            found.push(i);
            assert(found@[before.len() as int] == i);
            assert forall|j: usize|
                j < i + 1 && devices@[j as int].is_mouse() implies #[trigger] found@.contains(j) by {
                if j < i {
                    assert(before.contains(j));
                    let k = choose|k: int| 0 <= k < before.len() && before[k] == j;
                    assert(found@[k] == j);
                }
            }
        }
        i += 1;
    }
    found
}

/// The capabilities of the virtual device paired with a hooked one: those of
/// the device itself, under the hook's own name.
pub struct VirtualDevice<'a> {
    pub name: &'static str,
    pub keys: &'a Option<Vec<u16>>,
    pub relative_axes: &'a Option<Vec<u16>>,
}

/// Describe the virtual device that re-injects a device's events.
pub fn build_virtual_device<'a>(device: &'a DeviceFacts) -> (virtual_device: VirtualDevice<'a>)
    ensures
        virtual_device.name@ == VIRTUAL_DEVICE_NAME@,
        *virtual_device.keys == device.keys,
        *virtual_device.relative_axes == device.relative_axes,
{
    VirtualDevice {
        name: VIRTUAL_DEVICE_NAME,
        keys: &device.keys,
        relative_axes: &device.relative_axes,
    }
}

/// The resources a device thread is given, in the order they are made.
#[derive(Clone, Copy, Debug, PartialEq, Eq, Structural)]
pub enum Stage {
    /// The virtual device that re-injects events.
    VirtualDevice,
    /// The pipe that wakes the thread up.
    Pipe,
    /// The thread itself.
    Thread,
}

/// What starting the hook has to do next.
#[derive(Clone, Copy, Debug, PartialEq, Eq, Structural)]
pub enum StartStep {
    /// Make this resource of the device at this position.
    Make { device: usize, stage: Stage },
    /// Every device has its thread: the hook runs.
    Running,
}

/// A hook being started: one virtual device, one pipe and one thread per
/// device, device by device.
#[derive(Clone, Copy, Debug)]
pub struct Startup {
    devices: usize,
    launched: usize,
    stage: Stage,
}

impl Startup {
    /// How many devices are to be hooked.
    pub closed spec fn devices(&self) -> nat {
        self.devices as nat
    }

    /// How many device threads run.
    pub closed spec fn launched(&self) -> nat {
        self.launched as nat
    }

    /// What is made next for the device after those.
    pub closed spec fn stage(&self) -> Stage {
        self.stage
    }

    /// How many steps are left until the hook runs.
    pub open spec fn steps_left(&self) -> int {
        3 * (self.devices() - self.launched()) - match self.stage() {
            Stage::VirtualDevice => 0int,
            Stage::Pipe => 1,
            Stage::Thread => 2,
        }
    }

    /// There is a device, and no more threads than devices; once all run,
    /// nothing is half made.
    pub closed spec fn wf(&self) -> bool {
        &&& self.devices > 0
        &&& self.launched <= self.devices
        &&& self.launched == self.devices ==> self.stage == Stage::VirtualDevice
    }

    /// Start hooking so many devices; there has to be one.
    pub fn begin(devices: usize) -> (startup: Result<Startup, HookError>)
        ensures
            match startup {
                Ok(s) => devices > 0 && s.wf() && s.devices() == devices && s.launched() == 0
                    && s.stage() == Stage::VirtualDevice && s.steps_left() == 3 * devices,
                Err(e) => devices == 0 && e == HookError::NoDeviceFound,
            },
    {
        if devices == 0 {
            return Err(HookError::NoDeviceFound);
        }
        Ok(Startup { devices, launched: 0, stage: Stage::VirtualDevice })
    }

    /// What has to be done next.
    pub fn next(&self) -> (step: StartStep)
        requires
            self.wf(),
        ensures
            step == (if self.launched() == self.devices() {
                StartStep::Running
            } else {
                StartStep::Make { device: self.launched() as usize, stage: self.stage() }
            }),
    {
        if self.launched == self.devices {
            StartStep::Running
        } else {
            StartStep::Make { device: self.launched, stage: self.stage }
        }
    }

    /// The step was carried out.
    pub fn succeeded(&mut self)
        requires
            old(self).wf(),
            old(self).launched() < old(self).devices(),
        ensures
            final(self).wf(),
            final(self).devices() == old(self).devices(),
            final(self).steps_left() == old(self).steps_left() - 1,
            final(self).launched() == old(self).launched() + (if old(self).stage()
                == Stage::Thread {
                1nat
            } else {
                0
            }),
            final(self).stage() == (match old(self).stage() {
                Stage::VirtualDevice => Stage::Pipe,
                Stage::Pipe => Stage::Thread,
                Stage::Thread => Stage::VirtualDevice,
            }),
    {
        match self.stage {
            Stage::VirtualDevice => {
                self.stage = Stage::Pipe;
            },
            Stage::Pipe => {
                self.stage = Stage::Thread;
            },
            Stage::Thread => {
                self.stage = Stage::VirtualDevice;
                self.launched = self.launched + 1;
            },
        }
    }

    /// The step failed with this error: what has to be shut down, and the
    /// error of the whole start.
    pub fn failed(&self, error: String) -> (r: (Vec<ShutdownStep>, HookError))
        requires
            self.wf(),
        ensures
            r.0@ == shutdown_steps(self.launched(), self.launched()),
            r.1 == HookError::Linux(error),
    {
        (shutdown(self.launched, self.launched), HookError::Linux(error))
    }
}

/// One step of shutting the hook down.
#[derive(Clone, Copy, Debug, PartialEq, Eq, Structural)]
pub enum ShutdownStep {
    /// Raise the flag the threads look at.
    RaiseStop,
    /// Wake the thread behind this pipe.
    Signal { pipe: usize },
    /// Wait for this thread to end.
    Join { thread: usize },
}

/// Shutting down raises the flag, then wakes every thread, and only then waits
/// for each.
pub open spec fn shutdown_steps(pipes: nat, threads: nat) -> Seq<ShutdownStep> {
    seq![ShutdownStep::RaiseStop] + Seq::new(
        pipes,
        |i: int| ShutdownStep::Signal { pipe: i as usize },
    ) + Seq::new(threads, |i: int| ShutdownStep::Join { thread: i as usize })
}

/// The steps that shut down so many pipes and threads.
pub fn shutdown(pipes: usize, threads: usize) -> (steps: Vec<ShutdownStep>)
    ensures
        steps@ == shutdown_steps(pipes as nat, threads as nat),
{
    let mut steps: Vec<ShutdownStep> = Vec::new();
    steps.push(ShutdownStep::RaiseStop);
    let mut i: usize = 0;
    while i < pipes
        invariant
            i <= pipes,
            steps@ == shutdown_steps(i as nat, 0),
        decreases pipes - i,
    {
        steps.push(ShutdownStep::Signal { pipe: i });
        i += 1;
        assert(steps@ =~= shutdown_steps(i as nat, 0));
    }
    let mut j: usize = 0;
    while j < threads
        invariant
            j <= threads,
            steps@ == shutdown_steps(pipes as nat, j as nat),
        decreases threads - j,
    {
        steps.push(ShutdownStep::Join { thread: j });
        j += 1;
        assert(steps@ =~= shutdown_steps(pipes as nat, j as nat));
    }
    steps
}

/// What to do after trying to write the wake-up byte.
#[derive(Clone, Copy, Debug, PartialEq, Eq, Structural)]
pub enum SignalOutcome {
    /// The byte is written.
    Sent,
    /// A signal interrupted the call: try again.
    Retry,
    /// The pipe cannot be written; the thread may not wake.
    Failed,
}

/// Judge an attempt to write the wake-up byte, by what the call returned and
/// whether its error is an interruption.
pub fn signal_pipe(returned: isize, interrupted: bool) -> (outcome: SignalOutcome)
    ensures
        outcome == (if returned >= 0 {
            SignalOutcome::Sent
        } else if interrupted {
            SignalOutcome::Retry
        } else {
            SignalOutcome::Failed
        }),
{
    if returned >= 0 {
        return SignalOutcome::Sent;
    }
    if interrupted {
        return SignalOutcome::Retry;
    }
    SignalOutcome::Failed
}

/// `POLLIN`: there is data to read.
pub const POLLIN: i16 = 0x001;

/// `POLLERR`, `POLLHUP` and `POLLNVAL`: the descriptor is beyond use.
pub const POLL_ERROR_FLAGS: i16 = 0x038;

/// What one `poll` of the device and the stop pipe came back with.
#[derive(Clone, Copy, Debug, PartialEq, Eq, Structural)]
pub struct Poll {
    /// What the call returned; negative on error.
    pub returned: i32,
    /// Whether the error is an interruption by a signal.
    pub interrupted: bool,
    /// The events on the device.
    pub device: i16,
    /// The events on the stop pipe.
    pub stop: i16,
}

impl Poll {
    /// The poll decided nothing: wait again.
    pub open spec fn undecided(self) -> bool {
        if self.returned < 0 {
            self.interrupted
        } else {
            &&& self.device & POLL_ERROR_FLAGS == 0
            &&& self.stop & POLL_ERROR_FLAGS == 0
            &&& self.stop & POLLIN == 0
            &&& self.device & POLLIN == 0
        }
    }

    /// The device has data, neither descriptor is broken, and nobody asked to
    /// stop.
    pub open spec fn ready(self) -> bool {
        &&& self.returned >= 0
        &&& self.device & POLL_ERROR_FLAGS == 0
        &&& self.stop & POLL_ERROR_FLAGS == 0
        &&& self.stop & POLLIN == 0
        &&& self.device & POLLIN != 0
    }
}

/// Judge a `poll`: `Some(true)` when the device is ready to read, `Some(false)`
/// on a stop signal or an unrecoverable error, `None` to poll again.
///
/// An error or hangup on either descriptor leaves it permanently "ready", so it
/// counts as a stop: the thread ends and releases the grab, rather than spin.
pub fn wait_readable(poll: &Poll) -> (readable: Option<bool>)
    ensures
        readable == (if poll.undecided() {
            None
        } else {
            Some(poll.ready())
        }),
{
    if poll.returned < 0 {
        if poll.interrupted {
            return None;
        }
        return Some(false);
    }
    if poll.device & POLL_ERROR_FLAGS != 0 {
        return Some(false);  // the device is gone
    }
    if poll.stop & POLL_ERROR_FLAGS != 0 {
        return Some(false);  // the stop pipe is closed
    }
    if poll.stop & POLLIN != 0 {
        return Some(false);  // stop signal
    }
    if poll.device & POLLIN != 0 {
        return Some(true);  // device has data
    }
    None
}

/// No thread is waited for before every thread has been woken: each wake-up
/// stands before each wait, and the flag before both.
pub proof fn law_every_thread_is_woken_before_any_is_joined(
    pipes: nat,
    threads: nat,
    i: int,
    j: int,
)
    requires
        pipes <= usize::MAX,
        threads <= usize::MAX,
        0 <= i < shutdown_steps(pipes, threads).len(),
        0 <= j < shutdown_steps(pipes, threads).len(),
        shutdown_steps(pipes, threads)[i] is Signal,
        shutdown_steps(pipes, threads)[j] is Join,
    ensures
        0 < i < j,
        shutdown_steps(pipes, threads)[0] is RaiseStop,
{
}

/// The hook runs exactly when no step is left, and until then each step makes
/// progress.
pub proof fn law_starting_ends_when_no_step_is_left(startup: Startup)
    requires
        startup.wf(),
    ensures
        startup.steps_left() >= 0,
        startup.steps_left() == 0 <==> startup.launched() == startup.devices(),
{
}

/// A start that fails part way leaves nothing behind: exactly the threads that
/// run at that point are woken and waited for, each once.
pub proof fn law_a_failed_start_joins_every_launched_thread(startup: Startup, thread: usize)
    requires
        startup.wf(),
    ensures
        shutdown_steps(startup.launched(), startup.launched()).contains(
            ShutdownStep::Join { thread },
        ) <==> thread < startup.launched(),
        shutdown_steps(startup.launched(), startup.launched()).contains(
            ShutdownStep::Signal { pipe: thread },
        ) <==> thread < startup.launched(),
        shutdown_steps(startup.launched(), startup.launched()).no_duplicates(),
{
    let n = startup.launched();
    let steps = shutdown_steps(n, n);
    if thread < n {
        assert(steps[1 + thread] == (ShutdownStep::Signal { pipe: thread }));
        assert(steps[1 + n + thread] == (ShutdownStep::Join { thread }));
    }
}

/// A device is hooked exactly where it has the left button, code `0x110`, and is
/// not one of the hook's own virtual mice; what other keys or axes it has does
/// not matter.
pub proof fn law_mice_are_told_by_their_left_button(device: DeviceFacts)
    ensures
        device.is_mouse() <==> (device.keys matches Some(keys) && keys@.contains(0x110u16)) && !(
        device.name matches Some(name) && name@ == "OpenLogi virtual mouse"@),
{
}

/// Shutting down is one step for the flag, then one for each pipe, then one for
/// each thread, each in its own order.
pub proof fn law_every_pipe_and_thread_has_its_step(pipes: nat, threads: nat, i: int)
    requires
        pipes <= usize::MAX,
        threads <= usize::MAX,
    ensures
        shutdown_steps(pipes, threads).len() == 1 + pipes + threads,
        shutdown_steps(pipes, threads)[0] is RaiseStop,
        0 <= i < pipes ==> (shutdown_steps(pipes, threads)[1 + i] matches ShutdownStep::Signal {
            pipe,
        } && pipe == i),
        0 <= i < threads ==> (shutdown_steps(pipes, threads)[1 + pipes
            + i] matches ShutdownStep::Join { thread } && thread == i),
{
}

/// Three steps are left for every device that has none of its resources, one
/// less once its virtual device is made, and one less again with its pipe.
pub proof fn law_each_device_takes_three_steps(startup: Startup)
    ensures
        startup.stage() is VirtualDevice ==> startup.steps_left() == 3 * (startup.devices()
            - startup.launched()),
        startup.stage() is Pipe ==> startup.steps_left() == 3 * (startup.devices()
            - startup.launched()) - 1,
        startup.stage() is Thread ==> startup.steps_left() == 3 * (startup.devices()
            - startup.launched()) - 2,
{
}

/// A poll by its bits: bit 0 is data, and bits 3 to 5 are trouble. A failed poll
/// is repeated exactly where a signal interrupted it. Otherwise trouble on either
/// side and data on the stop pipe end the wait without reading, data on the
/// device alone makes it readable, and nothing at all leaves it undecided.
pub proof fn law_a_poll_is_judged_by_its_bits(poll: Poll)
    ensures
        ({
            let trouble = poll.device & 0x38i16 != 0 || poll.stop & 0x38i16 != 0;
            let asked_to_stop = poll.stop & 0x1i16 != 0;
            let has_data = poll.device & 0x1i16 != 0;
            &&& poll.returned < 0 ==> !poll.ready() && (poll.undecided() <==> poll.interrupted)
            &&& poll.returned >= 0 && (trouble || asked_to_stop) ==> !poll.ready()
                && !poll.undecided()
            &&& poll.returned >= 0 && !trouble && !asked_to_stop ==> (poll.ready() <==> has_data)
                && (poll.undecided() <==> !has_data)
        }),
{
}

/// Exactly the devices with a left button that are not virtual mice of the hook
/// are found, in order.
pub proof fn law_every_mouse_is_found(devices: Vec<DeviceFacts>, found: Vec<usize>, i: usize)
    requires
        call_ensures(find_mouse_devices, (&devices,), found),
        i < devices@.len(),
    ensures
        found@.contains(i) <==> (devices@[i as int].keys matches Some(keys) && keys@.contains(
            0x110u16,
        )) && !(devices@[i as int].name matches Some(name) && name@ == "OpenLogi virtual mouse"@),
        forall|k: int, l: int| 0 <= k < l < found@.len() ==> found@[k] < found@[l],
{
    law_mice_are_told_by_their_left_button(devices@[i as int]);
    if found@.contains(i) {
        let k = choose|k: int| 0 <= k < found@.len() && found@[k] == i;
        assert(devices@[found@[k] as int].is_mouse());
    }
    if devices@[i as int].is_mouse() {
        assert(found@.contains(i));
    }
}

/// The virtual device has all that its device has, and a name by which the hook
/// never takes it for a mouse.
pub proof fn law_a_virtual_device_stands_for_its_device(
    device: DeviceFacts,
    twin: VirtualDevice,
    listed: DeviceFacts,
)
    requires
        call_ensures(build_virtual_device, (&device,), twin),
        listed.name matches Some(name) && name@ == twin.name@,
    ensures
        *twin.keys == device.keys,
        *twin.relative_axes == device.relative_axes,
        !listed.is_mouse(),
{
}

/// A start begins with the virtual device of the first device and fails exactly
/// where there is no device.
pub proof fn law_a_start_begins_with_the_first_device(
    devices: usize,
    startup: Result<Startup, HookError>,
    step: StartStep,
)
    requires
        call_ensures(Startup::begin, (devices,), startup),
        startup matches Ok(s) ==> call_ensures(Startup::next, (&s,), step),
    ensures
        startup is Err <==> devices == 0,
        startup matches Err(e) ==> e is NoDeviceFound,
        startup is Ok ==> step == (StartStep::Make { device: 0, stage: Stage::VirtualDevice }),
        startup matches Ok(s) ==> s.devices() == devices,
{
}

/// A device gets its virtual device, then its pipe, then its thread, and then it
/// is the next device's turn; after the last the hook runs.
pub proof fn law_steps_follow_one_another(
    startup: &mut Startup,
    device: usize,
    stage: Stage,
    next: StartStep,
)
    requires
        old(startup).wf(),
        call_ensures(Startup::next, (&*old(startup),), StartStep::Make { device, stage }),
        call_ensures(Startup::succeeded, (startup,), ()),
        call_ensures(Startup::next, (&*final(startup),), next),
        old(startup).devices() <= usize::MAX,
    ensures
        stage is VirtualDevice ==> next == (StartStep::Make { device, stage: Stage::Pipe }),
        stage is Pipe ==> next == (StartStep::Make { device, stage: Stage::Thread }),
        stage is Thread && device + 1 < old(startup).devices() ==> (next matches StartStep::Make {
            device: d,
            stage: s,
        } && d == device + 1 && s is VirtualDevice),
        stage is Thread && device + 1 == old(startup).devices() ==> next is Running,
        final(startup).devices() == old(startup).devices(),
{
}

/// A start that fails raises the flag, wakes and joins every thread that was
/// launched, and reports the error it met.
pub proof fn law_a_failed_start_reports_its_error(
    startup: Startup,
    error: String,
    r: (Vec<ShutdownStep>, HookError),
    i: int,
)
    requires
        startup.wf(),
        startup.launched() <= usize::MAX,
        call_ensures(Startup::failed, (&startup, error), r),
    ensures
        r.1 == HookError::Linux(error),
        r.0@.len() == 1 + 2 * startup.launched(),
        r.0@[0] is RaiseStop,
        0 <= i < startup.launched() ==> (r.0@[1 + i] matches ShutdownStep::Signal { pipe } && pipe
            == i),
        0 <= i < startup.launched() ==> (r.0@[1 + startup.launched()
            + i] matches ShutdownStep::Join { thread } && thread == i),
{
    law_every_pipe_and_thread_has_its_step(startup.launched(), startup.launched(), i);
}

/// Shutting down raises the flag, wakes every thread and only then joins each.
pub proof fn law_shutting_down_wakes_and_joins_all(
    pipes: usize,
    threads: usize,
    steps: Vec<ShutdownStep>,
    i: int,
)
    requires
        call_ensures(shutdown, (pipes, threads), steps),
    ensures
        steps@.len() == 1 + pipes + threads,
        steps@[0] is RaiseStop,
        0 <= i < pipes ==> (steps@[1 + i] matches ShutdownStep::Signal { pipe } && pipe == i),
        0 <= i < threads ==> (steps@[1 + pipes + i] matches ShutdownStep::Join { thread } && thread
            == i),
{
    law_every_pipe_and_thread_has_its_step(pipes as nat, threads as nat, i);
}

/// A wake-up was sent exactly where the call did not fail, and is tried again
/// exactly where it failed by an interruption.
pub proof fn law_an_interrupted_wake_up_is_tried_again(
    returned: isize,
    interrupted: bool,
    outcome: SignalOutcome,
)
    requires
        call_ensures(signal_pipe, (returned, interrupted), outcome),
    ensures
        outcome is Sent <==> returned >= 0,
        outcome is Retry <==> returned < 0 && interrupted,
        outcome is Failed <==> returned < 0 && !interrupted,
{
}

/// The device is read only where it has data, both descriptors are sound and
/// nobody asked to stop.
pub proof fn law_waiting_is_judged_by_the_bits(poll: Poll, readable: Option<bool>)
    requires
        call_ensures(wait_readable, (&poll,), readable),
    ensures
        ({
            let sound = poll.device & 0x38i16 == 0 && poll.stop & 0x38i16 == 0;
            let asked_to_stop = poll.stop & 0x1i16 != 0;
            let has_data = poll.device & 0x1i16 != 0;
            &&& readable == Some(true) <==> poll.returned >= 0 && sound && !asked_to_stop
                && has_data
            &&& readable is None <==> if poll.returned < 0 {
                poll.interrupted
            } else {
                sound && !asked_to_stop && !has_data
            }
        }),
{
    law_a_poll_is_judged_by_its_bits(poll);
}

} // verus!
