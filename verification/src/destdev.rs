//! The destination device: the state behind the synthetic output device.
//!
//! The device accumulates fractional relative motion per axis, drops key
//! transitions that change nothing, and knows whether anything was emitted
//! since the last atomic commit. It does not write to the device node
//! itself: an operation that has to emit an event leaves the event as the
//! pending write, whoever owns the node writes it, and the outcome is
//! handed back with `complete`. What the operation changes, it changes only
//! when the write has succeeded.

use vstd::prelude::*;
use crate::codes::{
    BTN_BACK, BTN_EXTRA, BTN_FORWARD, BTN_LEFT, BTN_MIDDLE, BTN_RIGHT, BTN_SIDE, BTN_TASK, EV_KEY,
    EV_REL, EV_SYN, KEY_CNT, KEY_FIRST, KEY_LAST, REL_CNT, REL_HWHEEL, REL_HWHEEL_HI_RES,
    REL_WHEEL, REL_WHEEL_HI_RES, REL_X, REL_Y, SYN_REPORT,
};
use crate::event::EventTarget;
use crate::error::{fails_with, Error};
use crate::text::{decimal, decimal_digits};
use vstd::string::StringExecFns;

verus! {

/// Number of accumulator units that make one whole step of a relative axis.
pub const UNITS_PER_STEP: i64 = 16;

/// Largest magnitude of a single relative-motion amount, in accumulator
/// units: as many whole steps as one event value can carry.
pub const MAX_AMOUNT: i64 = 0x7_ffff_fff0;

/// One event for the synthetic device: class, code and value.
#[derive(Clone, Copy, PartialEq, Eq, Structural, Debug)]
pub struct OutputEvent {
    pub type_: u32,
    pub code: u32,
    pub value: i32,
}

/// The whole steps contained in `total` accumulator units, rounded toward zero.
pub open spec fn whole_steps(total: int) -> int {
    if total >= 0 {
        total / (UNITS_PER_STEP as int)
    } else {
        -((-total) / (UNITS_PER_STEP as int))
    }
}

/// The diagnostic text for an event code that the device has no slot for.
pub open spec fn invalid_code_text(code: u32) -> Seq<char> {
    "invalid event code: "@ + decimal_digits(code as nat)
}

fn invalid_code(code: u32) -> (error: Error)
    ensures
        error.is_message(invalid_code_text(code)),
{
    let mut text = String::from_str("invalid event code: ");
    let digits = decimal(code);
    text.append(digits.as_str());
    Error::Message(text)
}

/// What a write changes in the device once it has succeeded.
#[derive(Clone, Copy, PartialEq, Eq, Structural, Debug)]
pub enum Effect {
    /// Nothing: the event was emitted for its own sake.
    Nothing,
    /// The relative axis with this code carries over this many units.
    Carry(u32, i64),
    /// The key with this code is recorded in this state.
    Press(u32, bool),
    /// The batch is committed. Unlike the other effects, this one takes
    /// place whether the write succeeded or not.
    Commit,
}

/// A write that awaits its outcome: the event, and what its success changes.
#[derive(Clone, Copy, PartialEq, Eq, Structural, Debug)]
pub struct PendingWrite {
    pub event: OutputEvent,
    pub effect: Effect,
}

/// Mathematical state of a destination device.
pub struct DestinationState {
    /// The name the device was created with.
    pub id: Seq<char>,
    /// Fractional motion carried over per relative-axis code, in units.
    pub accumulators: Seq<int>,
    /// Last recorded pressed state per key code.
    pub pressed: Seq<bool>,
    /// Whether events were emitted since the last atomic commit.
    pub dirty: bool,
    /// The write that awaits its outcome, if there is one.
    pub in_flight: Option<PendingWrite>,
    /// Every event whose write has succeeded so far, oldest first.
    pub delivered: Seq<OutputEvent>,
}

impl DestinationState {
    /// The state of a freshly created device named `id`.
    pub open spec fn initial(id: Seq<char>) -> Self {
        DestinationState {
            id,
            accumulators: Seq::new(REL_CNT as nat, |i: int| 0int),
            pressed: Seq::new(KEY_CNT as nat, |i: int| false),
            dirty: false,
            in_flight: None,
            delivered: Seq::empty(),
        }
    }

    /// Whether `effect` names a slot that exists and a fraction under one
    /// whole step.
    pub open spec fn admits(effect: Effect) -> bool {
        match effect {
            Effect::Carry(code, units) => code < REL_CNT && -UNITS_PER_STEP < units
                < UNITS_PER_STEP,
            Effect::Press(code, _) => code < KEY_CNT,
            _ => true,
        }
    }

    /// Every axis and key has its slot, no accumulator holds a whole step,
    /// and the pending write, if any, can take effect.
    pub open spec fn wf(self) -> bool {
        &&& self.accumulators.len() == REL_CNT
        &&& self.pressed.len() == KEY_CNT
        &&& forall|i: int|
            0 <= i < self.accumulators.len() ==> -UNITS_PER_STEP < #[trigger] self.accumulators[i]
                < UNITS_PER_STEP
        &&& self.in_flight matches Some(write) ==> Self::admits(write.effect)
    }

    /// Whether a write awaits its outcome.
    pub open spec fn busy(self) -> bool {
        self.in_flight is Some
    }

    /// Asking for `event` to be written: the state is dirty from now on, and
    /// `effect` waits for the write to succeed.
    pub open spec fn request(self, event: OutputEvent, effect: Effect) -> Self {
        DestinationState { dirty: true, in_flight: Some(PendingWrite { event, effect }), ..self }
    }

    /// Emitting `event` for its own sake.
    pub open spec fn write_event(self, event: OutputEvent) -> Self {
        self.request(event, Effect::Nothing)
    }

    /// Moving axis `code` by `amount` units. A sum under one whole step is
    /// carried over at once. Otherwise the whole steps are to be written as
    /// one event, and the fraction is carried over when that has succeeded.
    pub open spec fn move_relative(self, code: int, amount: int) -> Self {
        let total = self.accumulators[code] + amount;
        let step = whole_steps(total);
        if step != 0 {
            self.request(
                OutputEvent { type_: EV_REL, code: code as u32, value: step as i32 },
                Effect::Carry(code as u32, (total - step * UNITS_PER_STEP) as i64),
            )
        } else {
            DestinationState { accumulators: self.accumulators.update(code, total), ..self }
        }
    }

    /// Setting key `code` to `press`. Only a change is to be written, and
    /// the new state is recorded when that has succeeded.
    pub open spec fn press_key(self, code: int, press: bool) -> Self {
        if self.pressed[code] != press {
            self.request(
                OutputEvent { type_: EV_KEY, code: code as u32, value: if press { 1i32 } else { 0i32 } },
                Effect::Press(code as u32, press),
            )
        } else {
            self
        }
    }

    /// Committing: a dirty state asks for the commit marker to be written
    /// and is clean once the outcome is in; a clean state stays as it is.
    pub open spec fn sync(self) -> Self {
        if self.dirty {
            self.request(OutputEvent { type_: EV_SYN, code: SYN_REPORT, value: 0 }, Effect::Commit)
        } else {
            self
        }
    }

    /// Taking in the outcome of the pending write. A delivered event joins
    /// the delivered events and its effect takes place; a failed write
    /// changes nothing. The commit marker leaves the state clean either
    /// way. Without a pending write nothing changes.
    pub open spec fn complete(self, delivered: bool) -> Self {
        match self.in_flight {
            None => self,
            Some(write) => {
                let settled = DestinationState {
                    in_flight: None,
                    delivered: if delivered {
                        self.delivered.push(write.event)
                    } else {
                        self.delivered
                    },
                    ..self
                };
                match write.effect {
                    Effect::Nothing => settled,
                    Effect::Carry(code, units) => if delivered {
                        DestinationState {
                            accumulators: settled.accumulators.update(code as int, units as int),
                            ..settled
                        }
                    } else {
                        settled
                    },
                    Effect::Press(code, press) => if delivered {
                        DestinationState {
                            pressed: settled.pressed.update(code as int, press),
                            ..settled
                        }
                    } else {
                        settled
                    },
                    Effect::Commit => DestinationState { dirty: false, ..settled },
                }
            },
        }
    }
}

/// The relative axes and the pointer buttons that the synthetic device
/// offers, in the order in which they are enabled.
pub open spec fn pointer_capabilities() -> Seq<EventTarget> {
    seq![
        EventTarget(EV_REL, REL_X),
        EventTarget(EV_REL, REL_Y),
        EventTarget(EV_REL, REL_WHEEL),
        EventTarget(EV_REL, REL_HWHEEL),
        EventTarget(EV_REL, REL_WHEEL_HI_RES),
        EventTarget(EV_REL, REL_HWHEEL_HI_RES),
        EventTarget(EV_KEY, BTN_LEFT),
        EventTarget(EV_KEY, BTN_RIGHT),
        EventTarget(EV_KEY, BTN_MIDDLE),
        EventTarget(EV_KEY, BTN_SIDE),
        EventTarget(EV_KEY, BTN_EXTRA),
        EventTarget(EV_KEY, BTN_FORWARD),
        EventTarget(EV_KEY, BTN_BACK),
        EventTarget(EV_KEY, BTN_TASK),
    ]
}

/// The keyboard keys that the synthetic device offers: every key code from
/// the first to the last ordinary key, in rising order.
pub open spec fn keyboard_capabilities() -> Seq<EventTarget> {
    Seq::new(
        (KEY_LAST - KEY_FIRST + 1) as nat,
        |i: int| EventTarget(EV_KEY, (KEY_FIRST + i) as u32),
    )
}

/// Everything that the synthetic device offers, in the order in which it is
/// enabled: the pointer's axes and buttons, then the keyboard's keys.
pub open spec fn capability_list() -> Seq<EventTarget> {
    pointer_capabilities() + keyboard_capabilities()
}

/// The state behind the synthetic output device.
pub struct DestinationDevice {
    id: String,
    relative: Vec<i64>,
    key: Vec<bool>,
    should_sync: bool,
    in_flight: Option<PendingWrite>,
    delivered: Ghost<Seq<OutputEvent>>,
}

impl View for DestinationDevice {
    type V = DestinationState;

    closed spec fn view(&self) -> DestinationState {
        DestinationState {
            id: self.id@,
            accumulators: self.relative@.map_values(|units: i64| units as int),
            pressed: self.key@,
            dirty: self.should_sync,
            in_flight: self.in_flight,
            delivered: self.delivered@,
        }
    }
}

/// The diagnostic text for an operation that came while a write awaited its
/// outcome.
pub open spec fn busy_text() -> Seq<char> {
    "a write awaits its outcome"@
}

/// The diagnostic text for an outcome that no write awaited.
pub open spec fn idle_text() -> Seq<char> {
    "no write awaits its outcome"@
}

fn busy() -> (error: Error)
    ensures
        error.is_message(busy_text()),
{
    Error::msg("a write awaits its outcome")
}

impl DestinationDevice {
    /// A device named `id` with empty accumulators, every key released,
    /// nothing to commit, no write pending and nothing delivered.
    pub fn new(id: String) -> (dev: DestinationDevice)
        ensures
            dev@ == DestinationState::initial(id@),
            dev@.wf(),
    {
        let mut relative: Vec<i64> = Vec::new();
        let mut i: u32 = 0;
        while i < REL_CNT
            invariant
                i <= REL_CNT,
                relative@.len() == i,
                forall|j: int| 0 <= j < i ==> relative@[j] == 0,
            decreases REL_CNT - i,
        {
            relative.push(0);
            i = i + 1;
        }
        let mut key: Vec<bool> = Vec::new();
        let mut k: u32 = 0;
        while k < KEY_CNT
            invariant
                k <= KEY_CNT,
                key@.len() == k,
                forall|j: int| 0 <= j < k ==> key@[j] == false,
            decreases KEY_CNT - k,
        {
            key.push(false);
            k = k + 1;
        }
        let dev = DestinationDevice {
            id,
            relative,
            key,
            should_sync: false,
            in_flight: None,
            delivered: Ghost(Seq::empty()),
        };
        assert(dev@.accumulators =~= DestinationState::initial(id@).accumulators);
        assert(dev@.pressed =~= DestinationState::initial(id@).pressed);
        dev
    }

    /// The name under which the synthetic device shows up.
    pub fn device_name() -> (name: &'static str)
        ensures
            name@ == "evdev device"@,
    {
        "evdev device"
    }

    /// The event targets to enable on the synthetic device, in order.
    pub fn capabilities() -> (caps: Vec<EventTarget>)
        ensures
            caps@ == capability_list(),
    {
        let mut caps: Vec<EventTarget> = Vec::new();
        caps.push(EventTarget::new(EV_REL, REL_X));
        caps.push(EventTarget::new(EV_REL, REL_Y));
        caps.push(EventTarget::new(EV_REL, REL_WHEEL));
        caps.push(EventTarget::new(EV_REL, REL_HWHEEL));
        caps.push(EventTarget::new(EV_REL, REL_WHEEL_HI_RES));
        caps.push(EventTarget::new(EV_REL, REL_HWHEEL_HI_RES));
        caps.push(EventTarget::new(EV_KEY, BTN_LEFT));
        caps.push(EventTarget::new(EV_KEY, BTN_RIGHT));
        caps.push(EventTarget::new(EV_KEY, BTN_MIDDLE));
        caps.push(EventTarget::new(EV_KEY, BTN_SIDE));
        caps.push(EventTarget::new(EV_KEY, BTN_EXTRA));
        caps.push(EventTarget::new(EV_KEY, BTN_FORWARD));
        caps.push(EventTarget::new(EV_KEY, BTN_BACK));
        caps.push(EventTarget::new(EV_KEY, BTN_TASK));
        assert(caps@ =~= pointer_capabilities());
        let mut code: u32 = KEY_FIRST;
        while code <= KEY_LAST
            invariant
                KEY_FIRST <= code <= KEY_LAST + 1,
                caps@ == pointer_capabilities() + keyboard_capabilities().take(code - KEY_FIRST),
            decreases KEY_LAST + 1 - code,
        {
            caps.push(EventTarget::new(EV_KEY, code));
            assert(caps@ =~= pointer_capabilities() + keyboard_capabilities().take(
                code + 1 - KEY_FIRST,
            ));
            code = code + 1;
        }
        assert(keyboard_capabilities().take(KEY_LAST + 1 - KEY_FIRST) =~= keyboard_capabilities());
        caps
    }


    /// The name of this device.
    pub fn id(&self) -> (id: String)
        ensures
            id@ == self@.id,
    {
        self.id.clone()
    }

    /// The fraction that relative axis `code` carries over, in accumulator
    /// units, or `None` if there is no such axis.
    pub fn accumulator(&self, code: u32) -> (units: Option<i64>)
        requires
            self@.wf(),
        ensures
            code < REL_CNT ==> (units matches Some(u) && u == self@.accumulators[code as int]),
            code >= REL_CNT ==> units is None,
    {
        if code < REL_CNT {
            Some(self.relative[code as usize])
        } else {
            None
        }
    }

    /// The state last recorded for key `code`, or `None` if there is no such
    /// key.
    pub fn is_pressed(&self, code: u32) -> (pressed: Option<bool>)
        requires
            self@.wf(),
        ensures
            code < KEY_CNT ==> pressed == Some(self@.pressed[code as int]),
            code >= KEY_CNT ==> pressed is None,
    {
        if code < KEY_CNT {
            Some(self.key[code as usize])
        } else {
            None
        }
    }

    /// Whether events were emitted since the last commit.
    pub fn is_dirty(&self) -> (dirty: bool)
        ensures
            dirty == self@.dirty,
    {
        self.should_sync
    }

    /// The event that is to be written now, if a write awaits its outcome.
    pub fn pending_write(&self) -> (event: Option<OutputEvent>)
        ensures
            event == match self@.in_flight {
                Some(write) => Some(write.event),
                None => None,
            },
    {
        match self.in_flight {
            Some(write) => Some(write.event),
            None => None,
        }
    }

    /// The write that awaits its outcome, if there is one: the event, and
    /// what its success changes.
    pub fn in_flight(&self) -> (write: Option<PendingWrite>)
        ensures
            write == self@.in_flight,
    {
        self.in_flight
    }

    fn request(&mut self, event: OutputEvent, effect: Effect)
        requires
            old(self)@.wf(),
            DestinationState::admits(effect),
        ensures
            final(self)@.wf(),
            final(self)@ == old(self)@.request(event, effect),
    {
        self.should_sync = true;
        self.in_flight = Some(PendingWrite { event, effect });
    }

    /// Emits one event: the device has something to commit from now on, and
    /// the event is the pending write. While another write awaits its
    /// outcome, the call fails and changes nothing.
    pub fn write_event(&mut self, type_: u32, code: u32, value: i32) -> (r: Result<(), Error>)
        requires
            old(self)@.wf(),
        ensures
            final(self)@.wf(),
            !old(self)@.busy() ==> r is Ok && final(self)@ == old(self)@.write_event(
                OutputEvent { type_, code, value },
            ),
            old(self)@.busy() ==> final(self)@ == old(self)@ && fails_with(r, busy_text()),
    {
        if self.in_flight.is_some() {
            return Err(busy());
        }
        self.request(OutputEvent { type_, code, value }, Effect::Nothing);
        Ok(())
    }

    /// Commits the batch: if anything was emitted since the last commit, the
    /// commit marker is the pending write, and the device is clean once the
    /// outcome of that write is in, whatever it is; otherwise nothing
    /// happens. While another write awaits its outcome, the call fails and
    /// changes nothing.
    pub fn sync(&mut self) -> (r: Result<(), Error>)
        requires
            old(self)@.wf(),
        ensures
            final(self)@.wf(),
            !old(self)@.busy() ==> r is Ok && final(self)@ == old(self)@.sync(),
            old(self)@.busy() ==> final(self)@ == old(self)@ && fails_with(r, busy_text()),
    {
        if self.in_flight.is_some() {
            return Err(busy());
        }
        if self.should_sync {
            self.request(OutputEvent { type_: EV_SYN, code: SYN_REPORT, value: 0 }, Effect::Commit);
        }
        Ok(())
    }

    /// Takes in the outcome of the pending write.
    ///
    /// If the write succeeded, what it was for takes place: the fraction is
    /// carried over, or the key state is recorded. If it failed, the device
    /// stays as it was before the operation that asked for the write, except
    /// that it has something to commit, and the failure is returned with its
    /// error number. The commit marker leaves the device clean either way.
    /// If no write awaits its outcome, the call fails and changes nothing.
    pub fn complete(&mut self, outcome: Result<(), nix::errno::Errno>) -> (r: Result<(), Error>)
        requires
            old(self)@.wf(),
        ensures
            final(self)@.wf(),
            final(self)@ == old(self)@.complete(outcome is Ok),
            !old(self)@.busy() ==> fails_with(r, idle_text()),
            old(self)@.busy() ==> match outcome {
                Ok(_) => r is Ok,
                Err(errno) => r matches Err(Error::Errno(e)) && e == errno,
            },
    {
        let write = match self.in_flight {
            Some(write) => write,
            None => {
                return Err(Error::msg("no write awaits its outcome"));
            },
        };
        self.in_flight = None;
        let delivered = outcome.is_ok();
        if delivered {
            self.delivered = Ghost(self.delivered@.push(write.event));
        }
        match write.effect {
            Effect::Nothing => {},
            Effect::Carry(code, units) => {
                if delivered {
                    self.relative.set(code as usize, units);
                }
            },
            Effect::Press(code, press) => {
                if delivered {
                    self.key.set(code as usize, press);
                }
            },
            Effect::Commit => {
                self.should_sync = false;
            },
        }
        assert(self@.accumulators =~= old(self)@.complete(delivered).accumulators);
        match outcome {
            Ok(_) => Ok(()),
            Err(errno) => Err(Error::Errno(errno)),
        }
    }

    /// Moves relative axis `code` by `amount` accumulator units.
    ///
    /// The amount joins what the axis has carried over. A sum under one
    /// whole step is carried over and emits nothing. Otherwise the whole
    /// steps in the sum, rounded toward zero, are the pending write, as one
    /// relative-motion event, and the fraction is carried over when the
    /// write has succeeded. A code without an axis is reported and changes
    /// nothing, and so is a call that comes while a write awaits its
    /// outcome.
    pub fn move_relative(&mut self, code: u32, amount: i64) -> (r: Result<(), Error>)
        requires
            old(self)@.wf(),
            -MAX_AMOUNT <= amount <= MAX_AMOUNT,
        ensures
            final(self)@.wf(),
            old(self)@.busy() ==> final(self)@ == old(self)@ && fails_with(r, busy_text()),
            !old(self)@.busy() && code >= REL_CNT ==> final(self)@ == old(self)@ && fails_with(
                r,
                invalid_code_text(code),
            ),
            !old(self)@.busy() && code < REL_CNT ==> r is Ok && final(self)@ == old(
                self,
            )@.move_relative(code as int, amount as int),
            code < REL_CNT && -UNITS_PER_STEP < old(self)@.accumulators[code as int] + amount
                < UNITS_PER_STEP ==> {
                &&& final(self)@.in_flight == old(self)@.in_flight
                &&& final(self)@.delivered == old(self)@.delivered
                &&& final(self)@.dirty == old(self)@.dirty
                &&& final(self)@.pressed == old(self)@.pressed
                &&& !old(self)@.busy() ==> r is Ok && final(self)@ == (DestinationState {
                    accumulators: old(self)@.accumulators.update(
                        code as int,
                        old(self)@.accumulators[code as int] + amount,
                    ),
                    ..old(self)@
                })
            },
    {
        if self.in_flight.is_some() {
            return Err(busy());
        }
        if code >= REL_CNT {
            return Err(invalid_code(code));
        }
        let slot = code as usize;
        assert(-UNITS_PER_STEP < self@.accumulators[slot as int] < UNITS_PER_STEP);
        let total: i64 = self.relative[slot] + amount;
        let step: i64 = if total >= 0 {
            total / UNITS_PER_STEP
        } else {
            -((-total) / UNITS_PER_STEP)
        };
        assert(step == whole_steps(total as int));
        if step != 0 {
            self.request(
                OutputEvent { type_: EV_REL, code, value: step as i32 },
                Effect::Carry(code, total - step * UNITS_PER_STEP),
            );
        } else {
            self.relative.set(slot, total);
            assert(self@.accumulators =~= old(self)@.move_relative(
                code as int,
                amount as int,
            ).accumulators);
        }
        Ok(())
    }

    /// Sets key `code` to `press`.
    ///
    /// If `press` differs from the state last recorded for the key, the key
    /// event is the pending write, and the new state is recorded when the
    /// write has succeeded; repeating a state is silent. A code without a
    /// key is reported and changes nothing, and so is a call that comes
    /// while a write awaits its outcome.
    pub fn press_key(&mut self, code: u32, press: bool) -> (r: Result<(), Error>)
        requires
            old(self)@.wf(),
        ensures
            final(self)@.wf(),
            old(self)@.busy() ==> final(self)@ == old(self)@ && fails_with(r, busy_text()),
            !old(self)@.busy() && code >= KEY_CNT ==> final(self)@ == old(self)@ && fails_with(
                r,
                invalid_code_text(code),
            ),
            !old(self)@.busy() && code < KEY_CNT ==> r is Ok && final(self)@ == old(
                self,
            )@.press_key(code as int, press),
    {
        if self.in_flight.is_some() {
            return Err(busy());
        }
        if code >= KEY_CNT {
            return Err(invalid_code(code));
        }
        if self.key[code as usize] != press {
            self.request(
                OutputEvent { type_: EV_KEY, code, value: if press { 1 } else { 0 } },
                Effect::Press(code, press),
            );
        }
        Ok(())
    }
}

/// The state after axis `code` was moved by `amount` and the write that the
/// move asked for, if any, succeeded.
pub open spec fn moved(state: DestinationState, code: int, amount: int) -> DestinationState {
    state.move_relative(code, amount).complete(true)
}

/// The state after axis `code` was moved by each of `amounts` in turn, every
/// write succeeding.
pub open spec fn move_all(state: DestinationState, code: int, amounts: Seq<int>)
    -> DestinationState
    decreases amounts.len(),
{
    if amounts.len() == 0 {
        state
    } else {
        moved(move_all(state, code, amounts.drop_last()), code, amounts.last())
    }
}

/// The sum of `amounts`.
pub open spec fn total_amount(amounts: Seq<int>) -> int
    decreases amounts.len(),
{
    if amounts.len() == 0 {
        0
    } else {
        total_amount(amounts.drop_last()) + amounts.last()
    }
}

/// The whole steps that `events` carry for relative axis `code`.
pub open spec fn steps_emitted(events: Seq<OutputEvent>, code: int) -> int
    decreases events.len(),
{
    if events.len() == 0 {
        0
    } else {
        let last = events.last();
        steps_emitted(events.drop_last(), code) + if last.type_ == EV_REL && last.code == code {
            last.value as int
        } else {
            0
        }
    }
}

/// The state after key `code` was set to `press` and the write that this
/// asked for, if any, succeeded.
pub open spec fn pressed(state: DestinationState, code: int, press: bool) -> DestinationState {
    state.press_key(code, press).complete(true)
}

/// The state after key `code` was set `count` times, starting with `first`
/// and switching between pressed and released from one call to the next,
/// every write succeeding.
pub open spec fn press_alternating(state: DestinationState, code: int, first: bool, count: nat)
    -> DestinationState
    decreases count,
{
    if count == 0 {
        state
    } else {
        let earlier = press_alternating(state, code, first, (count - 1) as nat);
        pressed(earlier, code, if count % 2 == 1 { first } else { !first })
    }
}

/// A relative move whose write succeeds keeps a well-formed state well
/// formed, and accounts for every unit: the steps delivered plus what is
/// carried over are what was carried before plus the amount.
pub proof fn lemma_move_relative_conserves(state: DestinationState, code: int, amount: int)
    requires
        state.wf(),
        !state.busy(),
        0 <= code < REL_CNT,
        -MAX_AMOUNT <= amount <= MAX_AMOUNT,
    ensures
        moved(state, code, amount).wf(),
        !moved(state, code, amount).busy(),
        steps_emitted(moved(state, code, amount).delivered, code) * UNITS_PER_STEP + moved(
            state,
            code,
            amount,
        ).accumulators[code] == steps_emitted(state.delivered, code) * UNITS_PER_STEP
            + state.accumulators[code] + amount,
{
    let total = state.accumulators[code] + amount;
    let step = whole_steps(total);
    let after = moved(state, code, amount);
    if step != 0 {
        let event = OutputEvent { type_: EV_REL, code: code as u32, value: step as i32 };
        assert(after.delivered == state.delivered.push(event));
        assert(after.delivered.drop_last() =~= state.delivered);
        assert(after.delivered.last() == event);
    }
}

/// Accumulation conservation: over any sequence of moves of one axis whose
/// writes succeed, the whole steps delivered for the axis plus the fraction
/// left in its accumulator equal what was there before plus the sum of the
/// amounts.
pub proof fn lemma_accumulation_conservation(
    state: DestinationState,
    code: int,
    amounts: Seq<int>,
)
    requires
        state.wf(),
        !state.busy(),
        0 <= code < REL_CNT,
        forall|i: int| 0 <= i < amounts.len() ==> -MAX_AMOUNT <= #[trigger] amounts[i] <= MAX_AMOUNT,
    ensures
        move_all(state, code, amounts).wf(),
        !move_all(state, code, amounts).busy(),
        steps_emitted(move_all(state, code, amounts).delivered, code) * UNITS_PER_STEP + move_all(
            state,
            code,
            amounts,
        ).accumulators[code] == steps_emitted(state.delivered, code) * UNITS_PER_STEP
            + state.accumulators[code] + total_amount(amounts),
    decreases amounts.len(),
{
    if amounts.len() > 0 {
        lemma_accumulation_conservation(state, code, amounts.drop_last());
        lemma_move_relative_conserves(
            move_all(state, code, amounts.drop_last()),
            code,
            amounts.last(),
        );
    }
}

/// Zero-step silence: a move whose sum with the carried fraction stays under
/// one whole step asks for no write and changes nothing but the accumulator
/// of its axis, which takes the sum.
pub proof fn lemma_zero_step_silence(state: DestinationState, code: int, amount: int)
    requires
        state.wf(),
        0 <= code < REL_CNT,
        -UNITS_PER_STEP < state.accumulators[code] + amount < UNITS_PER_STEP,
    ensures
        state.move_relative(code, amount) == (DestinationState {
            accumulators: state.accumulators.update(code, state.accumulators[code] + amount),
            ..state
        }),
        state.move_relative(code, amount).in_flight == state.in_flight,
        state.move_relative(code, amount).delivered == state.delivered,
        state.move_relative(code, amount).dirty == state.dirty,
        state.move_relative(code, amount).pressed == state.pressed,
        state.move_relative(code, amount).accumulators[code] == state.accumulators[code] + amount,
        forall|other: int|
            0 <= other < REL_CNT && other != code ==> #[trigger] state.move_relative(
                code,
                amount,
            ).accumulators[other] == state.accumulators[other],
        state.move_relative(code, amount).wf(),
{
}

/// A failed write undoes the operation that asked for it: the device is as
/// it was before, except that it has something to commit, or, if the write
/// was the commit marker, that it is clean.
pub proof fn lemma_failed_write_changes_nothing(
    state: DestinationState,
    event: OutputEvent,
    effect: Effect,
)
    requires
        !state.busy(),
    ensures
        state.request(event, effect).complete(false) == (DestinationState {
            dirty: effect != Effect::Commit,
            ..state
        }),
{
}

/// Key dedup idempotence: once a key was set to a state and the write, if
/// any, succeeded, setting it to that state again asks for nothing; and the
/// first call delivers exactly one event if the key was in the other state,
/// and none if it was not.
pub proof fn lemma_press_key_idempotent(state: DestinationState, code: int, press: bool)
    requires
        state.wf(),
        !state.busy(),
        0 <= code < KEY_CNT,
    ensures
        pressed(state, code, press).wf(),
        !pressed(state, code, press).busy(),
        pressed(state, code, press).pressed[code] == press,
        pressed(state, code, press).press_key(code, press) == pressed(state, code, press),
        state.pressed[code] == press ==> pressed(state, code, press) == state,
        state.pressed[code] != press ==> pressed(state, code, press).delivered
            == state.delivered.push(
            OutputEvent { type_: EV_KEY, code: code as u32, value: if press { 1i32 } else { 0i32 } },
        ),
{
}

/// Alternating presses: when each call asks for the opposite of the call
/// before it, starting with the opposite of the recorded state, and every
/// write succeeds, every call delivers exactly one event.
pub proof fn lemma_alternating_presses(
    state: DestinationState,
    code: int,
    first: bool,
    count: nat,
)
    requires
        state.wf(),
        !state.busy(),
        0 <= code < KEY_CNT,
        state.pressed[code] != first,
    ensures
        press_alternating(state, code, first, count).wf(),
        !press_alternating(state, code, first, count).busy(),
        press_alternating(state, code, first, count).delivered.len() == state.delivered.len()
            + count,
        press_alternating(state, code, first, count).pressed[code] == (if count % 2 == 1 {
            first
        } else {
            !first
        }),
        forall|k: int|
            0 <= k < count ==> #[trigger] press_alternating(
                state,
                code,
                first,
                count,
            ).delivered[state.delivered.len() + k] == (OutputEvent {
                type_: EV_KEY,
                code: code as u32,
                value: if (if k % 2 == 0 { first } else { !first }) { 1i32 } else { 0i32 },
            }),
    decreases count,
{
    if count > 0 {
        let earlier = press_alternating(state, code, first, (count - 1) as nat);
        lemma_alternating_presses(state, code, first, (count - 1) as nat);
        let press = if count % 2 == 1 { first } else { !first };
        lemma_press_key_idempotent(earlier, code, press);
    }
}

} // verus!
