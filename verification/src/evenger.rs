//! The event translation engine: the remapping policy and the reactor that
//! drives it.
//!
//! The engine performs no input or output itself. It says what has to be
//! done next (wait for readiness, read once from a device, write one event
//! to the synthetic device, stop) and is told what came of it.

use vstd::prelude::*;
use vstd::string::StringExecFns;
use crate::codes::{
    BTN_TASK, EV_KEY, EV_LED, EV_REL, KEY_CAPSLOCK, KEY_LEFTSHIFT, LED_CAPSL, REL_HWHEEL, REL_Y,
};
use crate::destdev::{
    busy_text, idle_text, whole_steps, DestinationDevice, DestinationState, Effect, OutputEvent,
    PendingWrite,
};
use crate::error::{fails_with, Error};
use crate::event::{Event, EventData, EventTarget, Modifier, ReadStatus};
use crate::muxer::{MuxerEvent, MuxerEvents};
use crate::registry::{
    lemma_push_keeps_consistency, lemma_remove_keeps_consistency, RegistryState, SourceDeviceSet,
};
use crate::srcdev::{ReadStep, SourceDevice, SourceState};
use crate::text::{decimal, decimal_digits, signed_decimal, signed_decimal_digits};

verus! {

/// Vertical pointer motion `value` as wheel motion in accumulator units:
/// sixteen units of motion make one wheel step in the opposite direction,
/// so each unit of motion is one accumulator unit the other way.
pub open spec fn wheel_amount(value: i32) -> int {
    -(value as int)
}

/// What the policy decides for one captured event.
#[derive(Clone, Copy, PartialEq, Eq, Structural, Debug)]
pub enum Verdict {
    /// The device that the decision depends on is not registered.
    MissingMouse,
    /// The device that the decision depends on is not registered.
    MissingKeyboard,
    /// The event is consumed and nothing is emitted.
    Suppress,
    /// Vertical pointer motion of this value becomes wheel motion.
    Wheel(i32),
    /// The CapsLock key is pulsed, then the event is forwarded unchanged.
    PulseThenForward,
    /// The event is forwarded unchanged.
    Forward,
}

/// The role name of the pointer device.
pub open spec fn mouse_id() -> Seq<char> {
    "mouse"@
}

/// The role name of the keyboard device.
pub open spec fn keyboard_id() -> Seq<char> {
    "keyboard"@
}

/// Whether `modf` is known to hold of the device named `id`.
pub open spec fn holds_of(registry: RegistryState, id: Seq<char>, modf: Modifier) -> bool {
    registry.device(id) matches Some(dev) && dev.match_modifier(modf) == Some(true)
}

/// The remapping policy.
///
/// Vertical pointer motion turns into wheel motion while the pointer's task
/// button is held. While the keyboard's CapsLock LED is on, a CapsLock
/// key-down is swallowed, and a left Shift event pulses CapsLock before it
/// is forwarded. Everything else is forwarded unchanged. A decision that
/// depends on a device that is not registered cannot be made.
pub open spec fn verdict(registry: RegistryState, event: EventData) -> Verdict {
    if event.target == EventTarget(EV_REL, REL_Y) {
        if registry.device(mouse_id()) is None {
            Verdict::MissingMouse
        } else if holds_of(registry, mouse_id(), Modifier::Key(BTN_TASK, true)) {
            Verdict::Wheel(event.value)
        } else {
            Verdict::Forward
        }
    } else if event.target == EventTarget(EV_KEY, KEY_CAPSLOCK) {
        if registry.device(keyboard_id()) is None {
            Verdict::MissingKeyboard
        } else if holds_of(registry, keyboard_id(), Modifier::Led(LED_CAPSL, true)) && event.value
            == 1 {
            Verdict::Suppress
        } else {
            Verdict::Forward
        }
    } else if event.target == EventTarget(EV_KEY, KEY_LEFTSHIFT) {
        if registry.device(keyboard_id()) is None {
            Verdict::MissingKeyboard
        } else if holds_of(registry, keyboard_id(), Modifier::Led(LED_CAPSL, true)) {
            Verdict::PulseThenForward
        } else {
            Verdict::Forward
        }
    } else {
        Verdict::Forward
    }
}

/// One operation on the destination device that carries out a decision of
/// the policy.
#[derive(Clone, Copy, PartialEq, Eq, Structural, Debug)]
pub enum Step {
    /// Vertical pointer motion of this value moves the wheel.
    Wheel(i32),
    /// The CapsLock key is set to this state.
    Caps(bool),
    /// This event is emitted as it is.
    Forward(OutputEvent),
}

/// The event for the synthetic device that forwards `event` unchanged.
pub open spec fn forwarded(event: EventData) -> OutputEvent {
    OutputEvent { type_: event.target.0, code: event.target.1, value: event.value }
}

/// The operations that carry out `verdict` for `event`, in order.
pub open spec fn plan(verdict: Verdict, event: EventData) -> Seq<Step> {
    match verdict {
        Verdict::MissingMouse => seq![],
        Verdict::MissingKeyboard => seq![],
        Verdict::Suppress => seq![],
        Verdict::Wheel(value) => seq![Step::Wheel(value)],
        Verdict::PulseThenForward => seq![
            Step::Caps(true),
            Step::Caps(false),
            Step::Forward(forwarded(event)),
        ],
        Verdict::Forward => seq![Step::Forward(forwarded(event))],
    }
}

/// The destination after `step` was started on it.
pub open spec fn perform(dest: DestinationState, step: Step) -> DestinationState {
    match step {
        Step::Wheel(value) => dest.move_relative(REL_HWHEEL as int, wheel_amount(value)),
        Step::Caps(press) => dest.press_key(KEY_CAPSLOCK as int, press),
        Step::Forward(event) => dest.write_event(event),
    }
}

/// Carries out `script` on `dest` as far as that goes without an outcome:
/// the operations are started in order until one of them leaves a write
/// pending or none is left. What is left of the script comes back with the
/// destination.
pub open spec fn run(dest: DestinationState, script: Seq<Step>) -> (DestinationState, Seq<Step>)
    decreases script.len(),
{
    if dest.busy() || script.len() == 0 {
        (dest, script)
    } else {
        run(perform(dest, script[0]), script.skip(1))
    }
}

/// The device states that the policy asks about: the pointer's task button
/// and the keyboard's CapsLock LED.
pub open spec fn watched_list() -> Seq<EventTarget> {
    seq![EventTarget(EV_KEY, BTN_TASK), EventTarget(EV_LED, LED_CAPSL)]
}

/// The description under which a failed write of a forwarded event is
/// reported: the event's class, code and value.
pub open spec fn passthru_text(event: OutputEvent) -> Seq<char> {
    "passthru failure (type="@ + decimal_digits(event.type_ as nat) + " code="@ + decimal_digits(
        event.code as nat,
    ) + " value="@ + signed_decimal_digits(event.value as int) + ")"@
}

fn passthru_description(event: OutputEvent) -> (text: String)
    ensures
        text@ == passthru_text(event),
{
    let mut text = String::from_str("passthru failure (type=");
    let class = decimal(event.type_);
    text.append(class.as_str());
    text.append(" code=");
    let code = decimal(event.code);
    text.append(code.as_str());
    text.append(" value=");
    let value = signed_decimal(event.value);
    text.append(value.as_str());
    text.append(")");
    text
}

/// Where the reactor stands in its cycle.
#[derive(Clone, Copy, PartialEq, Eq, Structural, Debug)]
pub enum Phase {
    /// The next thing to happen is a readiness report.
    Waiting,
    /// A readiness report is being worked through.
    Dispatching,
    /// The device of this readiness event is being drained.
    Draining(MuxerEvent),
    /// The device of this readiness event is drained, and the commit marker
    /// that closes its batch awaits the outcome of its write.
    Committing(MuxerEvent),
    /// No source device is left; the reactor has stopped.
    Terminated,
}

/// What the driver of the reactor has to do next.
#[derive(Clone, Copy, PartialEq, Eq, Structural, Debug)]
pub enum Request {
    /// Wait, without a time limit, until a registered descriptor is ready,
    /// and report the batch with `on_ready`.
    Wait,
    /// Read once, without blocking, from the device under this descriptor,
    /// and report the outcome with `on_srcdev_ready`.
    Read(i32),
    /// Write this event to the synthetic device, and report the outcome
    /// with `on_written`.
    Write(OutputEvent),
    /// Stop.
    Exit,
}

/// Mathematical state of the engine.
pub struct EngineState {
    /// The registered source devices.
    pub registry: RegistryState,
    /// The destination device.
    pub dest: DestinationState,
    /// The readiness events of the current report that are still to come.
    pub batch: Seq<MuxerEvent>,
    /// Where the reactor stands.
    pub phase: Phase,
    /// The operations of the current translation that are still to come.
    pub script: Seq<Step>,
}

/// What working through a readiness report leads to.
pub enum Dispatch {
    /// The driver has this to do.
    Act(Request),
    /// A descriptor was reported readable that no registered device has.
    InvalidFd(i32),
}

impl EngineState {
    /// Both devices' states are well formed, a device that is being drained
    /// is registered, a reactor that has stopped has no source device and
    /// nothing left of its last readiness report, and operations are left
    /// over, or a commit is under way, only while a write awaits its
    /// outcome.
    pub open spec fn wf(self) -> bool {
        &&& self.registry.wf()
        &&& self.dest.wf()
        &&& self.phase matches Phase::Draining(current) ==> self.registry.by_fd.contains_key(
            current.fd,
        )
        &&& self.phase is Terminated ==> self.registry.by_fd.len() == 0 && self.batch.len() == 0
        &&& !self.dest.busy() ==> self.script.len() == 0 && !(self.phase is Committing)
        &&& self.phase is Committing ==> self.script.len() == 0
    }

    /// The state after `dev` was registered: it enters the registry unless
    /// its descriptor or its name is taken, and a reactor that had stopped
    /// for want of devices runs again and waits for readiness.
    pub open spec fn open_device(self, dev: SourceState) -> Self {
        EngineState {
            registry: self.registry.push(dev),
            phase: if self.phase is Terminated && self.registry.admits(dev) {
                Phase::Waiting
            } else {
                self.phase
            },
            ..self
        }
    }

    /// The state after `event` was translated: the operations that carry
    /// out the policy's decision are started as far as that goes without an
    /// outcome. While a write awaits its outcome, and when the decision
    /// depends on a device that is not registered, nothing changes.
    pub open spec fn translate(self, event: EventData) -> Self {
        if self.dest.busy() {
            self
        } else {
            let started = run(self.dest, plan(verdict(self.registry, event), event));
            EngineState { dest: started.0, script: started.1, ..self }
        }
    }

    /// The state once the current device is done with: a device that was
    /// reported hung up leaves the registry, and the report is worked
    /// through further.
    pub open spec fn finish(self, current: MuxerEvent) -> Self {
        EngineState {
            registry: if current.spec_hungup() {
                self.registry.remove_by_fd(current.fd)
            } else {
                self.registry
            },
            phase: Phase::Dispatching,
            ..self
        }
    }

    /// What the driver has to do next, and the state in which it is to do
    /// it.
    ///
    /// A pending write comes first. Otherwise the readiness report is worked
    /// through: a readable event of a registered device starts draining
    /// that device. A readable event of an unknown descriptor is reported,
    /// after the descriptor's hang-up, if any, was honoured. An event that
    /// is only a hang-up removes its device. When the report is used up,
    /// the reactor stops if no device is left and waits otherwise.
    pub open spec fn dispatch(self) -> (Self, Dispatch)
        decreases self.batch.len(),
    {
        if self.dest.busy() {
            (self, Dispatch::Act(Request::Write(self.dest.in_flight->0.event)))
        } else {
            match self.phase {
                Phase::Waiting => (self, Dispatch::Act(Request::Wait)),
                Phase::Committing(_) => (self, Dispatch::Act(Request::Wait)),
                Phase::Draining(current) => (self, Dispatch::Act(Request::Read(current.fd))),
                Phase::Terminated => (self, Dispatch::Act(Request::Exit)),
                Phase::Dispatching => if self.batch.len() == 0 {
                    if self.registry.by_fd.len() == 0 {
                        (
                            EngineState { phase: Phase::Terminated, ..self },
                            Dispatch::Act(Request::Exit),
                        )
                    } else {
                        (
                            EngineState { phase: Phase::Waiting, ..self },
                            Dispatch::Act(Request::Wait),
                        )
                    }
                } else {
                    let current = self.batch[0];
                    let rest = EngineState { batch: self.batch.skip(1), ..self };
                    if current.spec_readable() && self.registry.by_fd.contains_key(current.fd) {
                        (
                            EngineState { phase: Phase::Draining(current), ..rest },
                            Dispatch::Act(Request::Read(current.fd)),
                        )
                    } else if current.spec_readable() {
                        (rest.finish(current), Dispatch::InvalidFd(current.fd))
                    } else {
                        rest.finish(current).dispatch()
                    }
                },
            }
        }
    }

    /// The state after the readiness report `events` came in: a waiting
    /// reactor starts to work through it; otherwise nothing changes.
    pub open spec fn on_ready(self, events: Seq<MuxerEvent>) -> Self {
        if self.phase == Phase::Waiting {
            EngineState { batch: events, phase: Phase::Dispatching, ..self }
        } else {
            self
        }
    }

    /// Whether the device under `fd` is the one being drained, and no write
    /// awaits its outcome.
    pub open spec fn draining(self, fd: i32) -> bool {
        &&& !self.dest.busy()
        &&& self.phase matches Phase::Draining(current) && current.fd == fd
    }

    /// The state after the drain of the current device ended: the
    /// destination commits its batch, and the device is done with once the
    /// commit marker, if one is needed, has had its outcome.
    pub open spec fn end_drain(self, current: MuxerEvent) -> Self {
        let committing = EngineState { dest: self.dest.sync(), ..self };
        if committing.dest.busy() {
            EngineState { phase: Phase::Committing(current), ..committing }
        } else {
            committing.finish(current)
        }
    }

    /// The state after one read attempt on the device under `fd` came back
    /// with `status`.
    ///
    /// An ordinary event is translated and the drain goes on. A
    /// resynchronisation marker is passed over. When the device has no more
    /// events, or the read failed, the drain ends. If the device under `fd`
    /// is not the one being drained, or a write awaits its outcome, nothing
    /// changes.
    pub open spec fn on_read(self, fd: i32, status: Result<ReadStatus, nix::errno::Errno>) -> Self {
        if !self.draining(fd) {
            self
        } else {
            match status {
                Ok(ReadStatus::Success(base)) => self.translate(
                    EventData {
                        source: self.registry.by_fd[fd].id,
                        target: EventTarget(base.type_, base.code),
                        value: base.value,
                    },
                ),
                Ok(ReadStatus::Sync(_)) => self,
                _ => self.end_drain(self.phase->Draining_0),
            }
        }
    }

    /// The state after the pending write came back, delivered or not.
    ///
    /// The destination takes in the outcome. If the write was the commit
    /// marker of a drained device, the device is done with. Otherwise a
    /// delivered write lets the current translation go on, and a failed one
    /// ends it. Without a pending write nothing changes.
    pub open spec fn on_written(self, delivered: bool) -> Self {
        if !self.dest.busy() {
            self
        } else {
            let settled = EngineState { dest: self.dest.complete(delivered), ..self };
            match self.phase {
                Phase::Committing(current) => settled.finish(current),
                _ => if delivered {
                    let resumed = run(settled.dest, settled.script);
                    EngineState { dest: resumed.0, script: resumed.1, ..settled }
                } else {
                    EngineState { script: Seq::empty(), ..settled }
                },
            }
        }
    }
}

/// The wheel remap, for every value: while the pointer's task button is
/// held and no write is pending, vertical pointer motion is consumed by the
/// wheel's accumulator. At most one event is asked for, it is on the
/// horizontal wheel axis, and the motion itself is not forwarded.
pub proof fn lemma_wheel_remap(state: EngineState, event: EventData)
    requires
        state.wf(),
        !state.dest.busy(),
        event.target == EventTarget(EV_REL, REL_Y),
        holds_of(state.registry, mouse_id(), Modifier::Key(BTN_TASK, true)),
    ensures
        verdict(state.registry, event) == Verdict::Wheel(event.value),
        state.translate(event) == (EngineState {
            dest: state.dest.move_relative(REL_HWHEEL as int, wheel_amount(event.value)),
            ..state
        }),
        state.translate(event).script.len() == 0,
        state.translate(event).dest.in_flight matches Some(write) ==> {
            &&& write.event.type_ == EV_REL
            &&& write.event.code == REL_HWHEEL
            &&& write.event.value == whole_steps(
                state.dest.accumulators[REL_HWHEEL as int] + wheel_amount(event.value),
            )
            &&& write.event.value != 0
        },
        !state.translate(event).on_written(true).dest.busy(),
        state.translate(event).on_written(true).dest.delivered == (
        match state.translate(event).dest.in_flight {
            Some(write) => state.dest.delivered.push(write.event),
            None => state.dest.delivered,
        }),
        state.translate(event).on_written(true).dest.pressed == state.dest.pressed,
{
    reveal_with_fuel(run, 3);
    let script = plan(Verdict::Wheel(event.value), event);
    assert(script.skip(1) =~= Seq::<Step>::empty());
    assert(state.script =~= Seq::<Step>::empty());
    let started = state.translate(event);
    assert(started.script =~= Seq::<Step>::empty());
}

/// The CapsLock pulse, for every value: while the keyboard's CapsLock LED
/// is on, CapsLock is recorded as released and no write is pending, a left
/// Shift event asks for CapsLock down, then CapsLock up, then the event
/// itself, unchanged. When all three writes have succeeded, CapsLock is
/// recorded as released again, so that the next left Shift event pulses
/// again.
pub proof fn lemma_capslock_pulse(state: EngineState, event: EventData)
    requires
        state.wf(),
        !state.dest.busy(),
        event.target == EventTarget(EV_KEY, KEY_LEFTSHIFT),
        holds_of(state.registry, keyboard_id(), Modifier::Led(LED_CAPSL, true)),
        !state.dest.pressed[KEY_CAPSLOCK as int],
    ensures
        verdict(state.registry, event) == Verdict::PulseThenForward,
        ({
            let down = OutputEvent { type_: EV_KEY, code: KEY_CAPSLOCK, value: 1 };
            let up = OutputEvent { type_: EV_KEY, code: KEY_CAPSLOCK, value: 0 };
            let first = state.translate(event);
            let second = first.on_written(true);
            let third = second.on_written(true);
            let last = third.on_written(true);
            &&& first.dest.in_flight == Some(
                PendingWrite { event: down, effect: Effect::Press(KEY_CAPSLOCK, true) },
            )
            &&& second.dest.in_flight == Some(
                PendingWrite { event: up, effect: Effect::Press(KEY_CAPSLOCK, false) },
            )
            &&& third.dest.in_flight == Some(
                PendingWrite { event: forwarded(event), effect: Effect::Nothing },
            )
            &&& !last.dest.busy()
            &&& last.script.len() == 0
            &&& last.dest.delivered == state.dest.delivered.push(down).push(up).push(
                forwarded(event),
            )
            &&& last.dest.pressed == state.dest.pressed
            &&& last.dest.accumulators == state.dest.accumulators
            &&& last.registry == state.registry
            &&& last.phase == state.phase
            &&& last.wf()
        }),
{
    reveal_with_fuel(run, 4);
    let down = OutputEvent { type_: EV_KEY, code: KEY_CAPSLOCK, value: 1 };
    let up = OutputEvent { type_: EV_KEY, code: KEY_CAPSLOCK, value: 0 };
    let script = plan(Verdict::PulseThenForward, event);
    assert(script.skip(1) =~= seq![Step::Caps(false), Step::Forward(forwarded(event))]);
    assert(script.skip(1).skip(1) =~= seq![Step::Forward(forwarded(event))]);
    assert(script.skip(1).skip(1).skip(1) =~= Seq::<Step>::empty());
    let first = state.translate(event);
    assert(first.script =~= script.skip(1));
    let second = first.on_written(true);
    assert(second.script =~= script.skip(1).skip(1));
    let third = second.on_written(true);
    assert(third.script =~= Seq::<Step>::empty());
    let last = third.on_written(true);
    assert(last.dest.pressed =~= state.dest.pressed);
    assert(last.script =~= Seq::<Step>::empty());
}

/// The reactor stops only on an empty registry: working through a report
/// keeps the state well formed, and when the answer is to stop, the report
/// is used up, no source device is registered, and the reactor has
/// terminated.
pub proof fn lemma_exit_only_when_empty(state: EngineState)
    requires
        state.wf(),
    ensures
        state.dispatch().0.wf(),
        state.dispatch().1 == Dispatch::Act(Request::Exit) ==> {
            &&& state.dispatch().0.phase == Phase::Terminated
            &&& state.dispatch().0.registry.by_fd.len() == 0
            &&& state.dispatch().0.batch.len() == 0
        },
    decreases state.batch.len(),
{
    if !state.dest.busy() && state.phase == Phase::Dispatching && state.batch.len() > 0 {
        let current = state.batch[0];
        let rest = EngineState { batch: state.batch.skip(1), ..state };
        lemma_remove_keeps_consistency(state.registry, current.fd);
        if !(current.spec_readable() && state.registry.by_fd.contains_key(current.fd))
            && !current.spec_readable() {
            lemma_exit_only_when_empty(rest.finish(current));
        }
    }
}

/// A reactor that has stopped runs again when a device is registered:
/// registration keeps the state well formed, and after it the reactor has
/// terminated only if the registry is still empty.
pub proof fn lemma_open_device_restarts(state: EngineState, dev: SourceState)
    requires
        state.wf(),
    ensures
        state.open_device(dev).wf(),
        state.open_device(dev).phase is Terminated ==> state.open_device(dev).registry.by_fd.len()
            == 0,
        state.phase is Terminated ==> state.registry.admits(dev) && state.open_device(dev).phase
            == Phase::Waiting,
{
    lemma_push_keeps_consistency(state.registry, dev);
    if state.phase is Terminated {
        assert(!state.registry.by_fd.contains_key(dev.fd)) by {
            if state.registry.by_fd.contains_key(dev.fd) {
                assert(state.registry.by_fd.dom().contains(dev.fd));
                assert(state.registry.by_fd.dom().len() > 0);
            }
        }
        assert(!state.registry.by_id.contains_key(dev.id)) by {
            if state.registry.by_id.contains_key(dev.id) {
                let fd = state.registry.by_id[dev.id];
                assert(state.registry.by_fd.dom().contains(fd));
                assert(state.registry.by_fd.dom().len() > 0);
            }
        }
    }
}

/// When the only registered device is reported hung up and not readable,
/// the reactor stops at the end of that report.
pub proof fn lemma_last_hangup_terminates(state: EngineState, current: MuxerEvent)
    requires
        state.wf(),
        !state.dest.busy(),
        state.phase == Phase::Waiting,
        state.registry.by_fd.dom() == set![current.fd],
        current.spec_hungup(),
        !current.spec_readable(),
    ensures
        state.on_ready(seq![current]).dispatch().1 == Dispatch::Act(Request::Exit),
        state.on_ready(seq![current]).dispatch().0.phase == Phase::Terminated,
        state.on_ready(seq![current]).dispatch().0.registry == RegistryState::empty(),
{
    reveal_with_fuel(EngineState::dispatch, 3);
    let taken = state.on_ready(seq![current]);
    let rest = EngineState { batch: taken.batch.skip(1), ..taken };
    assert(state.registry.by_fd.contains_key(current.fd));
    let left = rest.finish(current);
    assert(left.registry.by_fd =~= Map::<i32, SourceState>::empty());
    assert(left.registry.by_id =~= Map::<Seq<char>, i32>::empty()) by {
        assert forall|id: Seq<char>| !left.registry.by_id.contains_key(id) by {
            if state.registry.by_id.contains_key(id) && id != state.registry.by_fd[current.fd].id {
                assert(state.registry.by_fd.contains_key(state.registry.by_id[id]));
            }
        }
    }
    assert(left.batch.len() == 0);
}

/// When the only registered device was reported readable and hung up, the
/// reactor stops once the device is drained and the commit marker, if one
/// was needed, has had its outcome, whatever that is.
pub proof fn lemma_last_drain_terminates(state: EngineState, current: MuxerEvent, delivered: bool)
    requires
        state.wf(),
        !state.dest.busy(),
        state.phase == Phase::Draining(current),
        state.batch.len() == 0,
        state.registry.by_fd.dom() == set![current.fd],
        current.spec_hungup(),
    ensures
        ({
            let drained = state.on_read(current.fd, Ok(ReadStatus::TryAgain));
            let settled = if drained.dest.busy() {
                drained.on_written(delivered)
            } else {
                drained
            };
            &&& settled.dispatch().1 == Dispatch::Act(Request::Exit)
            &&& settled.dispatch().0.phase == Phase::Terminated
        }),
{
    let drained = state.on_read(current.fd, Ok(ReadStatus::TryAgain));
    let settled = if drained.dest.busy() {
        drained.on_written(delivered)
    } else {
        drained
    };
    assert(settled.registry.by_fd =~= Map::<i32, SourceState>::empty());
}

/// The event translation engine.
pub struct Evenger {
    srcdevs: SourceDeviceSet,
    destdev: DestinationDevice,
    batch: MuxerEvents,
    phase: Phase,
    script: Vec<Step>,
}

impl View for Evenger {
    type V = EngineState;

    closed spec fn view(&self) -> EngineState {
        EngineState {
            registry: self.srcdevs@,
            dest: self.destdev@,
            batch: self.batch@,
            phase: self.phase,
            script: self.script@,
        }
    }
}

impl Evenger {
    /// The representation is sound.
    pub closed spec fn inv(&self) -> bool {
        &&& self.srcdevs.inv()
        &&& self.batch.inv()
        &&& self@.wf()
    }

    /// A sound engine has a well-formed state.
    pub proof fn lemma_inv_wf(&self)
        requires
            self.inv(),
        ensures
            self@.wf(),
    {
    }

    /// An engine without source devices, with a fresh destination device
    /// named "output", that waits for its first readiness report.
    pub fn new() -> (engine: Evenger)
        ensures
            engine.inv(),
            engine@ == (EngineState {
                registry: RegistryState::empty(),
                dest: DestinationState::initial("output"@),
                batch: Seq::empty(),
                phase: Phase::Waiting,
                script: Seq::empty(),
            }),
    {
        Evenger {
            srcdevs: SourceDeviceSet::new(),
            destdev: DestinationDevice::new(String::from_str("output")),
            batch: MuxerEvents::new(),
            phase: Phase::Waiting,
            script: Vec::new(),
        }
    }

    /// The registry of source devices.
    pub fn srcdevs(&self) -> (set: &SourceDeviceSet)
        requires
            self.inv(),
        ensures
            set.inv(),
            set@ == self@.registry,
    {
        &self.srcdevs
    }

    /// The destination device.
    pub fn destdev(&self) -> (dev: &DestinationDevice)
        requires
            self.inv(),
        ensures
            dev@ == self@.dest,
            dev@.wf(),
    {
        &self.destdev
    }

    /// Where the reactor stands.
    pub fn phase(&self) -> (phase: Phase)
        ensures
            phase == self@.phase,
    {
        self.phase
    }

    /// The event that is to be written to the synthetic device now, if a
    /// write awaits its outcome.
    pub fn pending_write(&self) -> (event: Option<OutputEvent>)
        ensures
            event == match self@.dest.in_flight {
                Some(write) => Some(write.event),
                None => None,
            },
    {
        self.destdev.pending_write()
    }

    /// The device states that the policy asks about. Whoever owns the
    /// device nodes reports these with `set_event_state` whenever a device
    /// may have changed them.
    pub fn watched_states() -> (targets: Vec<EventTarget>)
        ensures
            targets@ == watched_list(),
    {
        let mut targets: Vec<EventTarget> = Vec::new();
        targets.push(EventTarget::new(EV_KEY, BTN_TASK));
        targets.push(EventTarget::new(EV_LED, LED_CAPSL));
        assert(targets@ =~= watched_list());
        targets
    }

    /// Registers the source device named `id` whose node is open under
    /// descriptor `fd`. A descriptor or a name that is already registered
    /// is rejected and changes nothing. A reactor that had stopped because
    /// no device was left runs again once a device is registered: it waits
    /// for the next readiness report.
    pub fn open_device(&mut self, id: String, fd: i32) -> (r: Result<(), Error>)
        requires
            old(self).inv(),
        ensures
            final(self).inv(),
            final(self)@ == old(self)@.open_device(
                SourceState { id: id@, fd, states: Map::empty() },
            ),
            old(self)@.phase is Terminated && r is Ok ==> final(self)@.phase == Phase::Waiting,
            !(old(self)@.phase is Terminated) || r is Err ==> final(self)@.phase == old(
                self,
            )@.phase,
            old(self)@.registry.admits(SourceState { id: id@, fd, states: Map::empty() }) ==> r
                is Ok,
            old(self)@.registry.by_fd.contains_key(fd) ==> fails_with(
                r,
                "descriptor already registered"@,
            ),
            !old(self)@.registry.by_fd.contains_key(fd) && old(self)@.registry.by_id.contains_key(
                id@,
            ) ==> fails_with(r, "device name already registered"@),
    {
        let srcdev = SourceDevice::new(id, fd);
        let r = self.srcdevs.push(srcdev);
        if r.is_ok() {
            if let Phase::Terminated = self.phase {
                self.phase = Phase::Waiting;
            }
        }
        r
    }

    /// Records what the node behind `fd` reports for (`type_`, `code`): its
    /// current value, or `None` if the device does not track the code.
    /// Returns whether a device is registered under `fd`; if none is,
    /// nothing changes.
    pub fn set_event_state(&mut self, fd: i32, type_: u32, code: u32, value: Option<i32>) -> (known:
        bool)
        requires
            old(self).inv(),
        ensures
            final(self).inv(),
            known == old(self)@.registry.by_fd.contains_key(fd),
            !known ==> final(self)@ == old(self)@,
            known ==> final(self)@ == (EngineState {
                registry: RegistryState {
                    by_fd: old(self)@.registry.by_fd.insert(
                        fd,
                        SourceState {
                            states: match value {
                                Some(v) => old(self)@.registry.by_fd[fd].states.insert(
                                    (type_, code),
                                    v,
                                ),
                                None => old(self)@.registry.by_fd[fd].states.remove((type_, code)),
                            },
                            ..old(self)@.registry.by_fd[fd]
                        },
                    ),
                    ..old(self)@.registry
                },
                ..old(self)@
            }),
    {
        self.srcdevs.set_event_state(fd, type_, code, value)
    }

    /// Whether `modf` is known to hold of the device named `id`, or `None`
    /// if no device of that name is registered.
    fn probe(&self, id: &str, modf: Modifier) -> (answer: Option<bool>)
        requires
            self.inv(),
        ensures
            answer is None <==> self@.registry.device(id@) is None,
            answer matches Some(holds) ==> holds == holds_of(self@.registry, id@, modf),
    {
        let name = String::from_str(id);
        match self.srcdevs.get_by_id(&name) {
            Some(dev) => match dev.match_modifier(modf) {
                Some(true) => Some(true),
                _ => Some(false),
            },
            None => None,
        }
    }

    /// What the policy decides for `event` as the devices stand.
    pub fn decide(&self, event: &Event) -> (decision: Verdict)
        requires
            self.inv(),
        ensures
            decision == verdict(self@.registry, event@),
    {
        let target = event.target();
        let value = event.value();
        if target.type_() == EV_REL && target.code() == REL_Y {
            match self.probe("mouse", Modifier::Key(BTN_TASK, true)) {
                None => Verdict::MissingMouse,
                Some(true) => Verdict::Wheel(value),
                Some(false) => Verdict::Forward,
            }
        } else if target.type_() == EV_KEY && target.code() == KEY_CAPSLOCK {
            match self.probe("keyboard", Modifier::Led(LED_CAPSL, true)) {
                None => Verdict::MissingKeyboard,
                Some(true) => if value == 1 {
                    Verdict::Suppress
                } else {
                    Verdict::Forward
                },
                Some(false) => Verdict::Forward,
            }
        } else if target.type_() == EV_KEY && target.code() == KEY_LEFTSHIFT {
            match self.probe("keyboard", Modifier::Led(LED_CAPSL, true)) {
                None => Verdict::MissingKeyboard,
                Some(true) => Verdict::PulseThenForward,
                Some(false) => Verdict::Forward,
            }
        } else {
            Verdict::Forward
        }
    }

    /// Starts the operations of the script, in order, until one of them
    /// leaves a write pending or none is left.
    fn resume(&mut self)
        requires
            old(self).srcdevs.inv(),
            old(self).batch.inv(),
            old(self)@.registry.wf(),
            old(self)@.dest.wf(),
        ensures
            final(self).srcdevs.inv(),
            final(self).batch.inv(),
            final(self)@.registry.wf(),
            final(self)@.dest.wf(),
            final(self)@ == (EngineState {
                dest: run(old(self)@.dest, old(self)@.script).0,
                script: run(old(self)@.dest, old(self)@.script).1,
                ..old(self)@
            }),
            !final(self)@.dest.busy() ==> final(self)@.script.len() == 0,
    {
        while self.destdev.pending_write().is_none() && self.script.len() > 0
            invariant
                self.srcdevs.inv(),
                self.batch.inv(),
                self@.registry.wf(),
                self@.dest.wf(),
                self@.registry == old(self)@.registry,
                self@.batch == old(self)@.batch,
                self@.phase == old(self)@.phase,
                run(self@.dest, self@.script) == run(old(self)@.dest, old(self)@.script),
            decreases self@.script.len(),
        {
            let ghost before = self@.script;
            let step = self.script.remove(0);
            assert(self@.script =~= before.skip(1));
            match step {
                Step::Wheel(value) => {
                    let _ = self.destdev.move_relative(REL_HWHEEL, -(value as i64));
                },
                Step::Caps(press) => {
                    let _ = self.destdev.press_key(KEY_CAPSLOCK, press);
                },
                Step::Forward(event) => {
                    let _ = self.destdev.write_event(event.type_, event.code, event.value);
                },
            }
        }
    }

    /// Translates one captured event: starts the operations that carry out
    /// what the policy decides for it, as far as that goes without the
    /// outcome of a write.
    ///
    /// Fails, without touching the destination, if the decision depends on
    /// a device that is not registered, or if a write awaits its outcome.
    pub fn translate_event(&mut self, event: &Event) -> (r: Result<(), Error>)
        requires
            old(self).inv(),
        ensures
            final(self).inv(),
            final(self)@ == old(self)@.translate(event@),
            old(self)@.dest.busy() ==> fails_with(r, busy_text()),
            !old(self)@.dest.busy() ==> match verdict(old(self)@.registry, event@) {
                Verdict::MissingMouse => fails_with(r, "can't get device 'mouse'"@),
                Verdict::MissingKeyboard => fails_with(r, "can't get device 'keyboard'"@),
                _ => r is Ok,
            },
    {
        if self.destdev.pending_write().is_some() {
            return Err(Error::msg("a write awaits its outcome"));
        }
        assert(self@.script =~= Seq::<Step>::empty());
        let decision = self.decide(event);
        let forward = Step::Forward(
            OutputEvent {
                type_: event.target().type_(),
                code: event.target().code(),
                value: event.value(),
            },
        );
        let mut script: Vec<Step> = Vec::new();
        match decision {
            Verdict::MissingMouse => {
                return Err(Error::msg("can't get device 'mouse'"));
            },
            Verdict::MissingKeyboard => {
                return Err(Error::msg("can't get device 'keyboard'"));
            },
            Verdict::Suppress => {},
            Verdict::Wheel(value) => {
                script.push(Step::Wheel(value));
            },
            Verdict::PulseThenForward => {
                script.push(Step::Caps(true));
                script.push(Step::Caps(false));
                script.push(forward);
            },
            Verdict::Forward => {
                script.push(forward);
            },
        }
        assert(script@ =~= plan(decision, event@));
        self.script = script;
        self.resume();
        Ok(())
    }

    /// Takes in the readiness report of one wait.
    ///
    /// A waiting reactor starts to work through the report. A reactor that
    /// is not waiting rejects it and stays as it is.
    pub fn on_ready(&mut self, events: MuxerEvents) -> (r: Result<(), Error>)
        requires
            old(self).inv(),
            events.inv(),
        ensures
            final(self).inv(),
            final(self)@ == old(self)@.on_ready(events@),
            old(self)@.phase == Phase::Waiting ==> r is Ok,
            old(self)@.phase != Phase::Waiting ==> fails_with(r, "not waiting for readiness"@),
    {
        match self.phase {
            Phase::Waiting => {
                self.batch = events;
                self.phase = Phase::Dispatching;
                Ok(())
            },
            _ => Err(Error::msg("not waiting for readiness")),
        }
    }

    fn finish(&mut self, current: MuxerEvent)
        requires
            old(self).srcdevs.inv(),
            old(self).batch.inv(),
            old(self)@.dest.wf(),
        ensures
            final(self).srcdevs.inv(),
            final(self).batch.inv(),
            final(self)@.registry.wf(),
            final(self)@ == old(self)@.finish(current),
    {
        proof {
            self.srcdevs.lemma_inv_consistent();
        }
        if current.hungup() {
            let _ = self.srcdevs.remove_by_fd(current.fd);
        }
        proof {
            self.srcdevs.lemma_inv_consistent();
        }
        self.phase = Phase::Dispatching;
    }

    fn end_drain(&mut self, current: MuxerEvent)
        requires
            old(self).inv(),
            !old(self)@.dest.busy(),
        ensures
            final(self).inv(),
            final(self)@ == old(self)@.end_drain(current),
    {
        let _ = self.destdev.sync();
        if self.destdev.pending_write().is_some() {
            self.phase = Phase::Committing(current);
        } else {
            self.finish(current);
        }
    }

    /// Says what the driver has to do next, working through the current
    /// readiness report as far as that takes.
    ///
    /// The answer is to stop only when a readiness report was worked through
    /// to its end and no source device is registered. Fails with "invalid
    /// fd" when the report names a readable descriptor that no registered
    /// device has; the report is then worked through further by the next
    /// call.
    pub fn next_action(&mut self) -> (r: Result<Request, Error>)
        requires
            old(self).inv(),
        ensures
            final(self).inv(),
            final(self)@ == old(self)@.dispatch().0,
            match old(self)@.dispatch().1 {
                Dispatch::Act(request) => r == Ok::<Request, Error>(request),
                Dispatch::InvalidFd(_) => fails_with(r, "invalid fd"@),
            },
            r == Ok::<Request, Error>(Request::Exit) ==> final(self)@.phase == Phase::Terminated
                && final(self)@.registry.by_fd.len() == 0 && final(self)@.batch.len() == 0,
    {
        if let Some(event) = self.destdev.pending_write() {
            return Ok(Request::Write(event));
        }
        let ghost start = self@;
        loop
            invariant
                self.inv(),
                !self@.dest.busy(),
                start == old(self)@,
                self@.dispatch() == start.dispatch(),
            decreases self@.batch.len(),
        {
            match self.phase {
                Phase::Waiting => {
                    return Ok(Request::Wait);
                },
                Phase::Committing(_) => {
                    return Ok(Request::Wait);
                },
                Phase::Draining(current) => {
                    return Ok(Request::Read(current.fd));
                },
                Phase::Terminated => {
                    return Ok(Request::Exit);
                },
                Phase::Dispatching => {},
            }
            match self.batch.next() {
                None => {
                    if self.srcdevs.len() == 0 {
                        self.phase = Phase::Terminated;
                        return Ok(Request::Exit);
                    } else {
                        self.phase = Phase::Waiting;
                        return Ok(Request::Wait);
                    }
                },
                Some(current) => {
                    let readable = current.readable();
                    if readable && self.srcdevs.get_by_fd(current.fd).is_some() {
                        self.phase = Phase::Draining(current);
                        return Ok(Request::Read(current.fd));
                    }
                    self.finish(current);
                    if readable {
                        return Err(Error::msg("invalid fd"));
                    }
                },
            }
        }
    }

    /// Takes in what one read attempt on the device under `fd` came to.
    ///
    /// `status` is what the non-blocking read returned. An ordinary event
    /// is translated, and the result is that of the translation. A
    /// resynchronisation marker is passed over. When the device has no more
    /// events, the destination commits its batch and the device is done
    /// with: if it was reported hung up, it leaves the registry. A failed
    /// read ends the drain in the same way and is reported with its error
    /// number. While a write awaits its outcome the call fails and changes
    /// nothing; so it does, with "invalid fd", if the device under `fd` is
    /// not the one being drained.
    pub fn on_srcdev_ready(&mut self, fd: i32, status: Result<ReadStatus, nix::errno::Errno>) -> (r:
        Result<(), Error>)
        requires
            old(self).inv(),
        ensures
            final(self).inv(),
            final(self)@ == old(self)@.on_read(fd, status),
            old(self)@.dest.busy() ==> fails_with(r, busy_text()),
            !old(self)@.dest.busy() && !old(self)@.draining(fd) ==> fails_with(r, "invalid fd"@),
            old(self)@.draining(fd) ==> match status {
                Ok(ReadStatus::Success(base)) => match verdict(
                    old(self)@.registry,
                    EventData {
                        source: old(self)@.registry.by_fd[fd].id,
                        target: EventTarget(base.type_, base.code),
                        value: base.value,
                    },
                ) {
                    Verdict::MissingMouse => fails_with(r, "can't get device 'mouse'"@),
                    Verdict::MissingKeyboard => fails_with(r, "can't get device 'keyboard'"@),
                    _ => r is Ok,
                },
                Ok(_) => r is Ok,
                Err(errno) => r matches Err(Error::Errno(e)) && e == errno,
            },
    {
        if self.destdev.pending_write().is_some() {
            return Err(Error::msg("a write awaits its outcome"));
        }
        let current = match self.phase {
            Phase::Draining(current) => current,
            _ => {
                return Err(Error::msg("invalid fd"));
            },
        };
        if current.fd != fd {
            return Err(Error::msg("invalid fd"));
        }
        let step = match self.srcdevs.get_by_fd(fd) {
            Some(dev) => dev.read_event(status),
            None => {
                return Err(Error::msg("invalid fd"));
            },
        };
        match step {
            Ok(ReadStep::Captured(event)) => self.translate_event(&event),
            Ok(ReadStep::Again) => Ok(()),
            Ok(ReadStep::Drained) => {
                self.end_drain(current);
                Ok(())
            },
            Err(error) => {
                self.end_drain(current);
                Err(error)
            },
        }
    }

    /// Takes in the outcome of the write that was asked for.
    ///
    /// The destination device takes in the outcome. If the write was the
    /// commit marker of a drained device, the device is done with. Otherwise
    /// a write that succeeded lets the current translation go on, and one
    /// that failed ends it. A failure is returned with its error number; if
    /// the event was only being forwarded, the failure is described by the
    /// event's class, code and value. If no write awaits its outcome, the
    /// call fails and changes nothing.
    pub fn on_written(&mut self, outcome: Result<(), nix::errno::Errno>) -> (r: Result<(), Error>)
        requires
            old(self).inv(),
        ensures
            final(self).inv(),
            final(self)@ == old(self)@.on_written(outcome is Ok),
            !old(self)@.dest.busy() ==> fails_with(r, idle_text()),
            old(self)@.dest.busy() ==> match outcome {
                Ok(_) => r is Ok,
                Err(errno) => {
                    let write = old(self)@.dest.in_flight->0;
                    if write.effect == Effect::Nothing {
                        &&& r matches Err(Error::Description(desc, cause))
                        &&& desc@ == passthru_text(write.event)
                        &&& *cause == Error::Errno(errno)
                    } else {
                        r matches Err(Error::Errno(e)) && e == errno
                    }
                },
            },
    {
        let write = match self.destdev.in_flight() {
            Some(write) => write,
            None => {
                return Err(Error::msg("no write awaits its outcome"));
            },
        };
        let forwarded = match write.effect {
            Effect::Nothing => true,
            _ => false,
        };
        let delivered = outcome.is_ok();
        let result = self.destdev.complete(outcome);
        match self.phase {
            Phase::Committing(current) => {
                self.finish(current);
            },
            _ => {
                if delivered {
                    self.resume();
                } else {
                    self.script = Vec::new();
                }
            },
        }
        match result {
            Ok(_) => Ok(()),
            Err(error) => if forwarded {
                Err(Error::Description(passthru_description(write.event), Box::new(error)))
            } else {
                Err(error)
            },
        }
    }
}

} // verus!
