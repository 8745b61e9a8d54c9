//! Decisions of the worker passes and of the socket handle's `send`.
//!
//! The passes themselves (stream calls, handler calls, the re-arm system
//! call) run outside; what they reported is handed in here and the next
//! step is handed back.
use vstd::prelude::*;
use crate::readiness::{IoEvent, EPOLLIN, EPOLLOUT};

verus! {

/// The kind of failure a stream call reported.
#[derive(Clone, Copy, Debug, PartialEq, Eq, Structural)]
pub enum Fault {
    /// The kernel buffer is full (write) or drained (read).
    WouldBlock,
    /// The peer closed the stream in the middle of a message.
    UnexpectedEof,
    /// The peer reset the connection.
    ConnectionReset,
    /// The connection was aborted.
    ConnectionAborted,
    /// Any other failure.
    Other,
}

/// Expected end-of-stream indications: latched like any other fault, but
/// reported at a lower severity.
pub open spec fn spec_is_end_of_stream(f: Fault) -> bool {
    f is UnexpectedEof || f is ConnectionReset || f is ConnectionAborted
}

/// Whether a fault is an expected end-of-stream indication.
pub fn is_end_of_stream(f: Fault) -> (r: bool)
    ensures
        r == spec_is_end_of_stream(f),
{
    match f {
        Fault::UnexpectedEof | Fault::ConnectionReset | Fault::ConnectionAborted => true,
        _ => false,
    }
}

/// What a finished pass contributes.
#[derive(Clone, Copy, Debug, PartialEq, Eq, Structural)]
pub enum PassOutcome {
    /// The pass succeeded; these bits join the re-arm mask.
    Continue(u32),
    /// The pass failed: its error is latched and the task stops, without
    /// re-arming.
    Abort,
}

pub open spec fn spec_write_outcome(res: Result<(), Fault>) -> PassOutcome {
    match res {
        Ok(()) => PassOutcome::Continue(0),
        Err(Fault::WouldBlock) => PassOutcome::Continue(EPOLLOUT),
        Err(_) => PassOutcome::Abort,
    }
}

pub open spec fn spec_read_outcome(res: Result<(), Fault>) -> PassOutcome {
    match res {
        Ok(()) => PassOutcome::Continue(EPOLLIN),
        Err(Fault::WouldBlock) => PassOutcome::Continue(EPOLLIN),
        Err(_) => PassOutcome::Abort,
    }
}

/// The outcome of a write pass (a flush of the stream's buffer) from what
/// the flush returned: success asks for nothing more, a full kernel buffer
/// asks to be told when the socket is writable again, anything else aborts.
pub fn write_pass_outcome(res: Result<(), Fault>) -> (r: PassOutcome)
    ensures
        r == spec_write_outcome(res),
{
    match res {
        Ok(()) => PassOutcome::Continue(0),
        Err(Fault::WouldBlock) => PassOutcome::Continue(EPOLLOUT),
        Err(_) => PassOutcome::Abort,
    }
}

/// The outcome of a read pass from what the stream's `recv` returned.
/// A drained socket counts as success.
pub fn read_pass_outcome(res: Result<(), Fault>) -> (r: PassOutcome)
    ensures
        r == spec_read_outcome(res),
{
    match res {
        Ok(()) => PassOutcome::Continue(EPOLLIN),
        Err(Fault::WouldBlock) => PassOutcome::Continue(EPOLLIN),
        Err(_) => PassOutcome::Abort,
    }
}

/// What a socket handle does after the stream's `send` returned.
#[derive(Clone, Copy, Debug, PartialEq, Eq, Structural)]
pub enum SendAction {
    /// The bytes were taken; nothing more to do.
    Done,
    /// The kernel buffer is full: re-arm with these extra bits so that a
    /// write pass drains the rest later.
    Rearm(u32),
    /// Latch the error on the connection.
    Latch,
}

pub open spec fn spec_send_action(res: Result<(), Fault>, latched: bool) -> SendAction {
    match res {
        Ok(()) => SendAction::Done,
        Err(Fault::WouldBlock) => if latched {
            SendAction::Done
        } else {
            SendAction::Rearm(EPOLLOUT)
        },
        Err(_) => SendAction::Latch,
    }
}

/// Decides the socket handle's follow-up to a `send`. `latched` tells
/// whether the connection was already condemned: a condemned connection is
/// never re-armed.
pub fn send_action(res: Result<(), Fault>, latched: bool) -> (r: SendAction)
    ensures
        r == spec_send_action(res, latched),
        latched ==> !(r is Rearm),
{
    match res {
        Ok(()) => SendAction::Done,
        Err(Fault::WouldBlock) => if latched {
            SendAction::Done
        } else {
            SendAction::Rearm(EPOLLOUT)
        },
        Err(_) => SendAction::Latch,
    }
}

/// The state of one I/O work item being carried out.
#[derive(Clone, Copy, Debug, PartialEq, Eq, Structural)]
pub enum IoTask {
    /// The write pass is due; a read pass follows when `then_read`.
    Writing { then_read: bool },
    /// The read pass is due; `mask` holds the bits gathered so far.
    Reading { mask: u32 },
    /// Both passes finished; re-arm with `mask` as the extra bits.
    Rearming { mask: u32 },
    /// A pass failed; the connection is condemned and is not re-armed.
    Aborted,
}

/// The next thing a worker does for a task.
#[derive(Clone, Copy, Debug, PartialEq, Eq, Structural)]
pub enum TaskStep {
    /// Run the write pass.
    RunWrite,
    /// Run the read pass.
    RunRead,
    /// Re-arm the connection with these extra bits.
    Rearm(u32),
    /// Nothing more to do.
    Stop,
}

impl IoTask {
    pub open spec fn spec_start(event: IoEvent) -> IoTask {
        if event.spec_wants_write() {
            IoTask::Writing { then_read: event.spec_wants_read() }
        } else {
            IoTask::Reading { mask: 0 }
        }
    }

    pub open spec fn spec_step(self) -> TaskStep {
        match self {
            IoTask::Writing { .. } => TaskStep::RunWrite,
            IoTask::Reading { .. } => TaskStep::RunRead,
            IoTask::Rearming { mask } => TaskStep::Rearm(mask),
            IoTask::Aborted => TaskStep::Stop,
        }
    }

    pub open spec fn is_running(self) -> bool {
        self is Writing || self is Reading
    }

    pub open spec fn spec_advance(self, res: Result<(), Fault>) -> IoTask {
        match self {
            IoTask::Writing { then_read } => match spec_write_outcome(res) {
                PassOutcome::Continue(bits) => if then_read {
                    IoTask::Reading { mask: bits }
                } else {
                    IoTask::Rearming { mask: bits }
                },
                PassOutcome::Abort => IoTask::Aborted,
            },
            IoTask::Reading { mask } => match spec_read_outcome(res) {
                PassOutcome::Continue(bits) => IoTask::Rearming { mask: mask | bits },
                PassOutcome::Abort => IoTask::Aborted,
            },
            _ => self,
        }
    }

    /// The task for a work item: the write pass comes first when the event
    /// asks for it, then the read pass.
    pub fn start(event: IoEvent) -> (r: IoTask)
        ensures
            r == Self::spec_start(event),
    {
        if event.wants_write() {
            IoTask::Writing { then_read: event.wants_read() }
        } else {
            IoTask::Reading { mask: 0 }
        }
    }

    /// The next step the worker takes.
    pub fn step(&self) -> (r: TaskStep)
        ensures
            r == self.spec_step(),
    {
        match self {
            IoTask::Writing { .. } => TaskStep::RunWrite,
            IoTask::Reading { .. } => TaskStep::RunRead,
            IoTask::Rearming { mask } => TaskStep::Rearm(*mask),
            IoTask::Aborted => TaskStep::Stop,
        }
    }

    pub open spec fn spec_finish(self, latched: bool, write_pending: bool) -> TaskStep {
        if latched {
            TaskStep::Stop
        } else {
            match self {
                IoTask::Rearming { mask } => TaskStep::Rearm(
                    if write_pending {
                        mask | EPOLLOUT
                    } else {
                        mask
                    },
                ),
                _ => self.spec_step(),
            }
        }
    }

    /// The next step, given the connection's current state: `latched`
    /// tells whether it is condemned, whatever latched the error;
    /// `write_pending` whether a socket `send`
    /// during the read pass found the kernel buffer full. A condemned
    /// connection gets no further pass and is not re-armed; a pending write
    /// keeps the writable bit in the re-arm mask.
    pub fn finish(&self, latched: bool, write_pending: bool) -> (r: TaskStep)
        ensures
            r == self.spec_finish(latched, write_pending),
            latched ==> r == TaskStep::Stop,
            !latched && !write_pending ==> r == self.spec_step(),
    {
        if latched {
            return TaskStep::Stop;
        }
        match self {
            IoTask::Rearming { mask } => TaskStep::Rearm(
                if write_pending {
                    *mask | EPOLLOUT
                } else {
                    *mask
                },
            ),
            _ => self.step(),
        }
    }

    /// Records what the pass that was due reported.
    pub fn advance(&mut self, res: Result<(), Fault>)
        requires
            old(self).is_running(),
        ensures
            *final(self) == old(self).spec_advance(res),
    {
        match *self {
            IoTask::Writing { then_read } => {
                *self = match write_pass_outcome(res) {
                    PassOutcome::Continue(bits) => if then_read {
                        IoTask::Reading { mask: bits }
                    } else {
                        IoTask::Rearming { mask: bits }
                    },
                    PassOutcome::Abort => IoTask::Aborted,
                };
            },
            IoTask::Reading { mask } => {
                *self = match read_pass_outcome(res) {
                    PassOutcome::Continue(bits) => IoTask::Rearming { mask: mask | bits },
                    PassOutcome::Abort => IoTask::Aborted,
                };
            },
            _ => {},
        }
    }
}

pub open spec fn aborts(pass: PassOutcome) -> bool {
    pass is Abort
}

/// On a read-and-write event the write pass runs first; if it fails the
/// read pass does not run and nothing is re-armed; if it succeeds the read
/// pass runs; the re-arm mask holds exactly the bits of the passes that
/// finished.
pub proof fn lemma_write_before_read(w: Result<(), Fault>, r: Result<(), Fault>)
    ensures
        IoTask::spec_start(IoEvent::ReadWriteAvailable).spec_step() == TaskStep::RunWrite,
        ({
            let after_write = IoTask::spec_start(IoEvent::ReadWriteAvailable).spec_advance(w);
            let after_read = after_write.spec_advance(r);
            &&& aborts(spec_write_outcome(w)) ==> after_write.spec_step() == TaskStep::Stop
            &&& !aborts(spec_write_outcome(w)) ==> after_write.spec_step() == TaskStep::RunRead
            &&& !aborts(spec_write_outcome(w)) && aborts(spec_read_outcome(r))
                ==> after_read.spec_step() == TaskStep::Stop
            &&& (spec_write_outcome(w), spec_read_outcome(r)) matches (
                PassOutcome::Continue(wb),
                PassOutcome::Continue(rb),
            ) ==> after_read.spec_step() == TaskStep::Rearm(wb | rb)
        }),
{
}

/// Every task ends, after at most two passes, either re-armed or condemned:
/// a worker never leaves a connection without interest and without a
/// latched error.
pub proof fn lemma_task_ends_armed_or_condemned(
    event: IoEvent,
    w: Result<(), Fault>,
    r: Result<(), Fault>,
)
    ensures
        ({
            let t0 = IoTask::spec_start(event);
            let t1 = t0.spec_advance(w);
            let t2 = if t1.is_running() { t1.spec_advance(r) } else { t1 };
            t2 is Rearming || t2 is Aborted
        }),
{
}

/// Once a connection is condemned, whatever state its task is in and
/// whatever the passes reported, the task neither runs another pass nor
/// re-arms; a socket `send` on it never re-arms either.
pub proof fn lemma_condemned_never_rearmed(
    t: IoTask,
    write_pending: bool,
    res: Result<(), Fault>,
)
    ensures
        t.spec_finish(true, write_pending) == TaskStep::Stop,
        !(spec_send_action(res, true) is Rearm),
{
}

} // verus!
