//! Source devices and the registry of the active ones.
//!
//! A source device records, for the codes it tracks, the state its node
//! last reported, and answers state predicates from that record. Whoever
//! owns the device node keeps the record current.

use vstd::prelude::*;
use std::collections::HashMap;
use crate::error::Error;
use crate::event::{Event, EventData, EventTarget, Modifier, ReadStatus};

verus! {

broadcast use vstd::std_specs::hash::group_hash_axioms;

/// Mathematical value of a source device.
pub struct SourceState {
    /// The role name of the device.
    pub id: Seq<char>,
    /// The descriptor of the device node.
    pub fd: i32,
    /// The current value of every (class, code) that the device tracks.
    pub states: Map<(u32, u32), i32>,
}

impl SourceState {
    /// The current value of (`type_`, `code`), if the device tracks it.
    pub open spec fn event_state(self, type_: u32, code: u32) -> Option<i32> {
        if self.states.contains_key((type_, code)) {
            Some(self.states[(type_, code)])
        } else {
            None
        }
    }

    /// Whether `modf` holds of the device: unknown if the device does not
    /// track the code, otherwise whether the state is the wanted one.
    pub open spec fn match_modifier(self, modf: Modifier) -> Option<bool> {
        match self.event_state(modf.spec_class(), modf.spec_code()) {
            Some(value) => Some(value == modf.spec_wanted()),
            None => None,
        }
    }
}

/// Unknown is not false: a state predicate about a code that the device
/// does not track has no answer, and about a tracked code it has one.
pub proof fn lemma_unknown_modifier_is_unknown(dev: SourceState, modf: Modifier)
    ensures
        !dev.states.contains_key((modf.spec_class(), modf.spec_code())) ==> dev.match_modifier(modf)
            is None,
        dev.states.contains_key((modf.spec_class(), modf.spec_code())) ==> dev.match_modifier(modf)
            == Some(dev.states[(modf.spec_class(), modf.spec_code())] == modf.spec_wanted()),
{
}

/// The place of (`type_`, `code`) in the state record.
pub open spec fn state_key(type_: u32, code: u32) -> u64 {
    (type_ * 0x1_0000_0000 + code) as u64
}

fn make_state_key(type_: u32, code: u32) -> (key: u64)
    ensures
        key == state_key(type_, code),
{
    (type_ as u64) * 0x1_0000_0000 + (code as u64)
}

/// What came of one attempt to read from a source device.
#[derive(Debug)]
pub enum ReadStep {
    /// An event was captured.
    Captured(Event),
    /// A resynchronisation marker was discarded; the read is to be repeated.
    Again,
    /// The device has no more events for now.
    Drained,
}

impl SourceState {
    /// Whether `step` is the right answer to the read attempt `status`: an
    /// ordinary event is captured under the device's name, a
    /// resynchronisation marker is discarded and the read repeated, no data
    /// ends the drain, and a failed read is reported with its error number.
    pub open spec fn read_step(
        self,
        status: Result<ReadStatus, nix::errno::Errno>,
        step: Result<ReadStep, Error>,
    ) -> bool {
        match status {
            Ok(ReadStatus::Success(base)) => {
                &&& step matches Ok(ReadStep::Captured(event))
                &&& event@ == (EventData {
                    source: self.id,
                    target: EventTarget(base.type_, base.code),
                    value: base.value,
                })
            },
            Ok(ReadStatus::Sync(_)) => step matches Ok(ReadStep::Again),
            Ok(ReadStatus::TryAgain) => step matches Ok(ReadStep::Drained),
            Err(errno) => step matches Err(Error::Errno(e)) && e == errno,
        }
    }
}

/// One grabbed input device.
pub struct SourceDevice {
    id: String,
    fd: i32,
    states: HashMap<u64, i32>,
}

impl View for SourceDevice {
    type V = SourceState;

    closed spec fn view(&self) -> SourceState {
        SourceState {
            id: self.id@,
            fd: self.fd,
            states: Map::new(
                |k: (u32, u32)| self.states@.contains_key(state_key(k.0, k.1)),
                |k: (u32, u32)| self.states@[state_key(k.0, k.1)],
            ),
        }
    }
}

impl SourceDevice {
    /// The device named `id` behind descriptor `fd`, with no state known yet.
    pub fn new(id: String, fd: i32) -> (dev: SourceDevice)
        ensures
            dev@ == (SourceState { id: id@, fd, states: Map::empty() }),
    {
        let dev = SourceDevice { id, fd, states: HashMap::new() };
        assert(dev@.states =~= Map::<(u32, u32), i32>::empty());
        dev
    }

    /// The role name of the device.
    pub fn id(&self) -> (id: String)
        ensures
            id@ == self@.id,
    {
        self.id.clone()
    }

    /// The descriptor of the device node.
    pub fn fd(&self) -> (fd: i32)
        ensures
            fd == self@.fd,
    {
        self.fd
    }

    /// Records what the device node reports for (`type_`, `code`): its
    /// current value, or `None` if the device does not track the code.
    pub fn set_event_state(&mut self, type_: u32, code: u32, value: Option<i32>)
        ensures
            final(self)@.id == old(self)@.id,
            final(self)@.fd == old(self)@.fd,
            final(self)@.states == match value {
                Some(v) => old(self)@.states.insert((type_, code), v),
                None => old(self)@.states.remove((type_, code)),
            },
    {
        let key = make_state_key(type_, code);
        match value {
            Some(v) => {
                self.states.insert(key, v);
                assert(self@.states =~= old(self)@.states.insert((type_, code), v));
            },
            None => {
                self.states.remove(&key);
                assert(self@.states =~= old(self)@.states.remove((type_, code)));
            },
        }
    }

    /// The current value of (`type_`, `code`), or `None` if the device does
    /// not track the code.
    pub fn get_event_state(&self, type_: u32, code: u32) -> (value: Option<i32>)
        ensures
            value == self@.event_state(type_, code),
    {
        let key = make_state_key(type_, code);
        match self.states.get(&key) {
            Some(v) => Some(*v),
            None => None,
        }
    }

    /// Whether `modf` holds of the device now.
    ///
    /// `None` means unknown: the device does not track the code. It is never
    /// folded into `Some(false)`.
    pub fn match_modifier(&self, modf: Modifier) -> (answer: Option<bool>)
        ensures
            answer == self@.match_modifier(modf),
            !self@.states.contains_key((modf.spec_class(), modf.spec_code())) <==> answer is None,
    {
        match self.get_event_state(modf.class(), modf.code()) {
            Some(v) => Some(v == modf.wanted()),
            None => None,
        }
    }

    /// Decides what one read attempt on the device node amounts to.
    ///
    /// `status` is what the non-blocking read returned. An ordinary event is
    /// captured under this device's name. A resynchronisation marker is
    /// discarded, without replaying the device's state, and the read is to
    /// be repeated. No data means the device is drained for now. A failed
    /// read is reported with its error number.
    pub fn read_event(&self, status: Result<ReadStatus, nix::errno::Errno>) -> (step: Result<
        ReadStep,
        Error,
    >)
        ensures
            self@.read_step(status, step),
    {
        match status {
            Ok(ReadStatus::Success(base)) => Ok(ReadStep::Captured(Event::new(self.id(), base))),
            Ok(ReadStatus::Sync(_)) => Ok(ReadStep::Again),
            Ok(ReadStatus::TryAgain) => Ok(ReadStep::Drained),
            Err(errno) => Err(Error::Errno(errno)),
        }
    }
}

} // verus!
