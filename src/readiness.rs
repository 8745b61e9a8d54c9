//! Kernel readiness masks and the classification of readiness events.
use vstd::prelude::*;

verus! {

/// Data is available for reading.
pub const EPOLLIN: u32 = 0x1;

/// The descriptor is writable.
pub const EPOLLOUT: u32 = 0x4;

/// An error condition was reported on the descriptor.
pub const EPOLLERR: u32 = 0x8;

/// The descriptor was hung up.
pub const EPOLLHUP: u32 = 0x10;

/// The peer closed its end of the connection.
pub const EPOLLRDHUP: u32 = 0x2000;

/// Disarm the interest entry after one event has been reported.
pub const EPOLLONESHOT: u32 = 0x4000_0000;

/// Report transitions only (edge-triggered).
pub const EPOLLET: u32 = 0x8000_0000;

/// The interest mask every connection is armed with:
/// readable, peer hang-up, edge-triggered, one-shot.
pub const DEFAULT_EVENTS: u32 = EPOLLIN | EPOLLRDHUP | EPOLLET | EPOLLONESHOT;

/// Any of these bits in a reported event condemns the connection.
pub const CLOSE_EVENTS: u32 = EPOLLRDHUP | EPOLLERR | EPOLLHUP;

/// Largest number of events taken from one wait.
pub const MAX_EVENTS: usize = 100;

/// The kind of I/O a work item asks of the worker pool.
#[derive(Clone, Copy, Debug, PartialEq, Eq, Structural)]
pub enum IoEvent {
    /// Data is available on the socket for reading.
    ReadAvailable,
    /// The socket is writable.
    WriteAvailable,
    /// The socket is both writable and has data available for reading.
    ReadWriteAvailable,
}

impl IoEvent {
    pub open spec fn spec_wants_write(self) -> bool {
        self is WriteAvailable || self is ReadWriteAvailable
    }

    pub open spec fn spec_wants_read(self) -> bool {
        self is ReadAvailable || self is ReadWriteAvailable
    }

    /// Whether a write pass runs for this event.
    pub fn wants_write(&self) -> (r: bool)
        ensures
            r == self.spec_wants_write(),
    {
        match self {
            IoEvent::ReadAvailable => false,
            _ => true,
        }
    }

    /// Whether a read pass runs for this event.
    pub fn wants_read(&self) -> (r: bool)
        ensures
            r == self.spec_wants_read(),
    {
        match self {
            IoEvent::WriteAvailable => false,
            _ => true,
        }
    }
}

/// What a single reported readiness mask means for its connection.
#[derive(Clone, Copy, Debug, PartialEq, Eq, Structural)]
pub enum Readiness {
    /// Error or hang-up, or neither readable nor writable: condemn the
    /// connection and queue no work.
    Hangup,
    /// Queue one work item of this kind.
    Ready(IoEvent),
}

pub open spec fn has_bits(flags: u32, bits: u32) -> bool {
    flags & bits != 0
}

/// The meaning of a reported readiness mask.
pub open spec fn spec_classify(flags: u32) -> Readiness {
    if has_bits(flags, CLOSE_EVENTS) {
        Readiness::Hangup
    } else if has_bits(flags, EPOLLIN) && has_bits(flags, EPOLLOUT) {
        Readiness::Ready(IoEvent::ReadWriteAvailable)
    } else if has_bits(flags, EPOLLIN) {
        Readiness::Ready(IoEvent::ReadAvailable)
    } else if has_bits(flags, EPOLLOUT) {
        Readiness::Ready(IoEvent::WriteAvailable)
    } else {
        Readiness::Hangup
    }
}

/// Classifies a reported readiness mask.
pub fn classify_event(flags: u32) -> (r: Readiness)
    ensures
        r == spec_classify(flags),
{
    if flags & CLOSE_EVENTS != 0 {
        return Readiness::Hangup;
    }
    let read_available = flags & EPOLLIN != 0;
    let write_available = flags & EPOLLOUT != 0;
    if read_available && write_available {
        Readiness::Ready(IoEvent::ReadWriteAvailable)
    } else if read_available {
        Readiness::Ready(IoEvent::ReadAvailable)
    } else if write_available {
        Readiness::Ready(IoEvent::WriteAvailable)
    } else {
        Readiness::Hangup
    }
}

/// The interest mask installed when a connection is re-armed with the
/// extra bits a worker or a socket asked for.
pub fn rearm_mask(extra: u32) -> (r: u32)
    ensures
        r == DEFAULT_EVENTS | extra,
{
    DEFAULT_EVENTS | extra
}

/// A mask that carries an error or hang-up bit is never turned into work.
pub proof fn lemma_hangup_queues_nothing(flags: u32)
    requires
        has_bits(flags, CLOSE_EVENTS),
    ensures
        spec_classify(flags) == Readiness::Hangup,
{
}

/// The re-armed mask always keeps the default interest: readable, peer
/// hang-up, edge-triggered and one-shot.
pub proof fn lemma_rearm_keeps_default(extra: u32)
    ensures
        (DEFAULT_EVENTS | extra) & DEFAULT_EVENTS == DEFAULT_EVENTS,
        (DEFAULT_EVENTS | extra) & EPOLLET == EPOLLET,
        (DEFAULT_EVENTS | extra) & EPOLLONESHOT == EPOLLONESHOT,
{
    assert(0x1u32 | 0x2000u32 | 0x8000_0000u32 | 0x4000_0000u32 == 0xC000_2001u32) by (bit_vector);
    assert(DEFAULT_EVENTS == 0xC000_2001u32);
    assert((0xC000_2001u32 | extra) & 0xC000_2001u32 == 0xC000_2001u32) by (bit_vector);
    assert((0xC000_2001u32 | extra) & 0x8000_0000u32 == 0x8000_0000u32) by (bit_vector);
    assert((0xC000_2001u32 | extra) & 0x4000_0000u32 == 0x4000_0000u32) by (bit_vector);
}

} // verus!
