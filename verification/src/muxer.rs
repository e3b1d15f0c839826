//! Readiness events as the multiplexer reports them, one batch per wait.

use vstd::prelude::*;
use nix::sys::epoll::EpollFlags;

verus! {

/// Readiness flag: the descriptor has data to read.
pub const EPOLLIN: i32 = 0x001;

/// Readiness flag: the other end of the descriptor hung up.
pub const EPOLLHUP: i32 = 0x010;

/// The most events that one wait reports.
pub const BATCH_SIZE: usize = 16;

/// `nix::sys::epoll::EpollFlags::contains`, asked of the flags whose bits are
/// `bits` about the single flag `flag`. The flags are rebuilt from their
/// bits with `EpollFlags::from_bits_truncate`, which keeps every flag the
/// crate knows, the two that are admitted here among them; `contains` then
/// says whether the bit of `flag` is set.
#[verifier::external_body]
fn flags_contain(bits: i32, flag: i32) -> (set: bool)
    requires
        flag == EPOLLIN || flag == EPOLLHUP,
    ensures
        set == (bits & flag == flag),
{
    EpollFlags::from_bits_truncate(bits).contains(EpollFlags::from_bits_truncate(flag))
}

/// One readiness event: a descriptor and the flags reported for it.
#[derive(Clone, Copy, PartialEq, Eq, Structural, Debug)]
pub struct MuxerEvent {
    pub fd: i32,
    pub events: i32,
}

impl MuxerEvent {
    /// Whether the readable flag is among the event's flags.
    pub open spec fn spec_readable(self) -> bool {
        self.events & EPOLLIN == EPOLLIN
    }

    /// Whether the hang-up flag is among the event's flags.
    pub open spec fn spec_hungup(self) -> bool {
        self.events & EPOLLHUP == EPOLLHUP
    }

    /// The event for descriptor `fd` with the flag bits `events`.
    pub fn new(fd: i32, events: i32) -> (event: Self)
        ensures
            event == (MuxerEvent { fd, events }),
    {
        MuxerEvent { fd, events }
    }

    /// The descriptor the event is about.
    pub fn fd(&self) -> (fd: i32)
        ensures
            fd == self.fd,
    {
        self.fd
    }

    /// Whether the descriptor has data to read.
    #[verifier::when_used_as_spec(spec_readable)]
    pub fn readable(self) -> (readable: bool)
        ensures
            readable == self.spec_readable(),
    {
        flags_contain(self.events, EPOLLIN)
    }

    /// Whether the descriptor was hung up.
    #[verifier::when_used_as_spec(spec_hungup)]
    pub fn hungup(self) -> (hungup: bool)
        ensures
            hungup == self.spec_hungup(),
    {
        flags_contain(self.events, EPOLLHUP)
    }
}

/// The readiness events of one wait, handed out one at a time.
pub struct MuxerEvents {
    buffer: Vec<MuxerEvent>,
    index: usize,
}

impl View for MuxerEvents {
    type V = Seq<MuxerEvent>;

    /// The events not handed out yet, in the order of the report.
    closed spec fn view(&self) -> Seq<MuxerEvent> {
        self.buffer@.skip(self.index as int)
    }
}

impl MuxerEvents {
    /// No more events are held than one wait reports, and the cursor is
    /// within them.
    pub closed spec fn inv(&self) -> bool {
        self.index <= self.buffer@.len() <= BATCH_SIZE
    }

    /// How many events the batch has held in all, handed out or not.
    pub closed spec fn spec_total(&self) -> nat {
        self.buffer@.len()
    }

    /// A sound batch holds no more events than one wait reports, and no
    /// more are still to be handed out than it has held.
    pub proof fn lemma_inv_bounded(&self)
        requires
            self.inv(),
        ensures
            self@.len() <= self.spec_total() <= BATCH_SIZE,
    {
    }

    /// A batch without events.
    pub fn new() -> (events: Self)
        ensures
            events.inv(),
            events@ == Seq::<MuxerEvent>::empty(),
            events.spec_total() == 0,
    {
        MuxerEvents { buffer: Vec::new(), index: 0 }
    }

    /// Appends `event` to the batch. A batch that already holds as many
    /// events as one wait reports stays as it is, and `false` is returned.
    pub fn push(&mut self, event: MuxerEvent) -> (added: bool)
        requires
            old(self).inv(),
        ensures
            final(self).inv(),
            added == (old(self).spec_total() < BATCH_SIZE),
            added ==> final(self)@ == old(self)@.push(event) && final(self).spec_total() == old(
                self,
            ).spec_total() + 1,
            !added ==> final(self)@ == old(self)@ && final(self).spec_total() == old(
                self,
            ).spec_total(),
    {
        if self.buffer.len() >= BATCH_SIZE {
            return false;
        }
        self.buffer.push(event);
        assert(self@ =~= old(self)@.push(event));
        true
    }

    /// Hands out the next event of the batch, or `None` once all are out.
    pub fn next(&mut self) -> (event: Option<MuxerEvent>)
        requires
            old(self).inv(),
        ensures
            final(self).inv(),
            final(self).spec_total() == old(self).spec_total(),
            match event {
                Some(e) => old(self)@.len() > 0 && e == old(self)@[0] && final(self)@ == old(
                    self,
                )@.skip(1),
                None => old(self)@.len() == 0 && final(self)@ == old(self)@,
            },
    {
        if self.index >= self.buffer.len() {
            return None;
        }
        let i = self.index;
        self.index = self.index + 1;
        assert(self@ =~= old(self)@.skip(1));
        Some(self.buffer[i])
    }
}

impl Default for MuxerEvents {
    fn default() -> (events: Self)
        ensures
            events.inv(),
            events@ == Seq::<MuxerEvent>::empty(),
            events.spec_total() == 0,
    {
        MuxerEvents::new()
    }
}

} // verus!
