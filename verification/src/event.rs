//! Plain-value descriptions of input events and of the state predicates
//! that remapping decisions are based on.

use vstd::prelude::*;
use crate::codes::{EV_KEY, EV_LED, EV_SW};

verus! {

/// What kind of signal an event carries: an event class and a code within it.
#[derive(Clone, Copy, PartialEq, Eq, Structural, Debug)]
pub struct EventTarget(pub u32, pub u32);

impl EventTarget {
    pub fn new(type_: u32, code: u32) -> (target: Self)
        ensures
            target == EventTarget(type_, code),
    {
        EventTarget(type_, code)
    }

    pub fn type_(&self) -> (type_: u32)
        ensures
            type_ == self.0,
    {
        self.0
    }

    pub fn code(&self) -> (code: u32)
        ensures
            code == self.1,
    {
        self.1
    }
}

/// A predicate over the current state of a device: a key, an LED or a switch
/// with the given code is in the given state.
#[derive(Clone, Copy, PartialEq, Eq, Structural, Debug)]
pub enum Modifier {
    Key(u32, bool),
    Led(u32, bool),
    Switch(u32, bool),
}

impl Modifier {
    /// The event class whose state the predicate looks at.
    pub open spec fn spec_class(self) -> u32 {
        match self {
            Modifier::Key(_, _) => EV_KEY,
            Modifier::Led(_, _) => EV_LED,
            Modifier::Switch(_, _) => EV_SW,
        }
    }

    /// The code whose state the predicate looks at.
    pub open spec fn spec_code(self) -> u32 {
        match self {
            Modifier::Key(code, _) => code,
            Modifier::Led(code, _) => code,
            Modifier::Switch(code, _) => code,
        }
    }

    /// The state value for which the predicate holds: 1 for on, 0 for off.
    pub open spec fn spec_wanted(self) -> i32 {
        match self {
            Modifier::Key(_, on) => if on { 1i32 } else { 0i32 },
            Modifier::Led(_, on) => if on { 1i32 } else { 0i32 },
            Modifier::Switch(_, on) => if on { 1i32 } else { 0i32 },
        }
    }

    /// The event class whose state the predicate looks at.
    #[verifier::when_used_as_spec(spec_class)]
    pub fn class(self) -> (class: u32)
        ensures
            class == self.spec_class(),
    {
        match self {
            Modifier::Key(_, _) => EV_KEY,
            Modifier::Led(_, _) => EV_LED,
            Modifier::Switch(_, _) => EV_SW,
        }
    }

    /// The code whose state the predicate looks at.
    #[verifier::when_used_as_spec(spec_code)]
    pub fn code(self) -> (code: u32)
        ensures
            code == self.spec_code(),
    {
        match self {
            Modifier::Key(code, _) => code,
            Modifier::Led(code, _) => code,
            Modifier::Switch(code, _) => code,
        }
    }

    /// The state value for which the predicate holds: 1 for on, 0 for off.
    #[verifier::when_used_as_spec(spec_wanted)]
    pub fn wanted(self) -> (value: i32)
        ensures
            value == self.spec_wanted(),
    {
        let on = match self {
            Modifier::Key(_, on) => on,
            Modifier::Led(_, on) => on,
            Modifier::Switch(_, on) => on,
        };
        if on {
            1
        } else {
            0
        }
    }
}

/// One event as a device delivers it: class, code and value.
#[derive(Clone, Copy, PartialEq, Eq, Structural, Debug)]
pub struct InputEvent {
    pub type_: u32,
    pub code: u32,
    pub value: i32,
}

impl InputEvent {
    pub fn new(type_: u32, code: u32, value: i32) -> (event: Self)
        ensures
            event == (InputEvent { type_, code, value }),
    {
        InputEvent { type_, code, value }
    }

    pub fn type_(&self) -> (type_: u32)
        ensures
            type_ == self.type_,
    {
        self.type_
    }

    pub fn code(&self) -> (code: u32)
        ensures
            code == self.code,
    {
        self.code
    }

    pub fn value(&self) -> (value: i32)
        ensures
            value == self.value,
    {
        self.value
    }
}

/// What one non-blocking read from a device yielded.
#[derive(Clone, Copy, PartialEq, Eq, Structural, Debug)]
pub enum ReadStatus {
    /// An ordinary event.
    Success(InputEvent),
    /// A resynchronisation marker: events were lost before this point.
    Sync(InputEvent),
    /// No event is available now.
    TryAgain,
}

/// A captured event: the device it came from and what it carries.
#[derive(Clone, Debug)]
pub struct Event {
    srcdev_id: String,
    base: InputEvent,
}

/// Mathematical value of a captured event.
pub struct EventData {
    pub source: Seq<char>,
    pub target: EventTarget,
    pub value: i32,
}

impl View for Event {
    type V = EventData;

    closed spec fn view(&self) -> EventData {
        EventData {
            source: self.srcdev_id@,
            target: EventTarget(self.base.type_, self.base.code),
            value: self.base.value,
        }
    }
}

impl Event {
    /// The event `base` as captured from the device named `srcdev_id`.
    pub fn new(srcdev_id: String, base: InputEvent) -> (event: Self)
        ensures
            event@ == (EventData {
                source: srcdev_id@,
                target: EventTarget(base.type_, base.code),
                value: base.value,
            }),
    {
        Event { srcdev_id, base }
    }

    /// The name of the device the event came from.
    pub fn srcdev_id(&self) -> (id: String)
        ensures
            id@ == self@.source,
    {
        self.srcdev_id.clone()
    }

    /// The kind of signal the event carries.
    pub fn target(&self) -> (target: EventTarget)
        ensures
            target == self@.target,
    {
        EventTarget::new(self.base.type_(), self.base.code())
    }

    /// The value the event carries.
    pub fn value(&self) -> (value: i32)
        ensures
            value == self@.value,
    {
        self.base.value()
    }
}

} // verus!
