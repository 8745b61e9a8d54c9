use hydrogen::latch::ErrorSlot;
use hydrogen::readiness::{
    classify_event, rearm_mask, IoEvent, Readiness, CLOSE_EVENTS, DEFAULT_EVENTS, EPOLLERR,
    EPOLLET, EPOLLHUP, EPOLLIN, EPOLLONESHOT, EPOLLOUT, EPOLLRDHUP, MAX_EVENTS,
};
use hydrogen::registry::{Dispatch, LiveRegistry, Promotion, ReadyEvent};
use hydrogen::worker::{
    is_end_of_stream, read_pass_outcome, send_action, write_pass_outcome, Fault, IoTask,
    PassOutcome, SendAction, TaskStep,
};

#[test]
fn masks_match_the_kernel_values() {
    assert_eq!(EPOLLIN, libc::EPOLLIN as u32);
    assert_eq!(EPOLLOUT, libc::EPOLLOUT as u32);
    assert_eq!(EPOLLERR, libc::EPOLLERR as u32);
    assert_eq!(EPOLLHUP, libc::EPOLLHUP as u32);
    assert_eq!(EPOLLRDHUP, libc::EPOLLRDHUP as u32);
    assert_eq!(EPOLLET, libc::EPOLLET as u32);
    assert_eq!(EPOLLONESHOT, libc::EPOLLONESHOT as u32);
    assert_eq!(
        DEFAULT_EVENTS,
        (libc::EPOLLIN | libc::EPOLLRDHUP | libc::EPOLLET | libc::EPOLLONESHOT) as u32
    );
    assert_eq!(DEFAULT_EVENTS, 0xC000_2001);
    assert_eq!(CLOSE_EVENTS, 0x2018);
}

#[test]
fn classify_readable_writable_and_both() {
    assert_eq!(classify_event(EPOLLIN), Readiness::Ready(IoEvent::ReadAvailable));
    assert_eq!(classify_event(EPOLLOUT), Readiness::Ready(IoEvent::WriteAvailable));
    assert_eq!(
        classify_event(EPOLLIN | EPOLLOUT),
        Readiness::Ready(IoEvent::ReadWriteAvailable)
    );
}

#[test]
fn classify_hangup_bits_win_over_readiness() {
    assert_eq!(classify_event(EPOLLIN | EPOLLRDHUP), Readiness::Hangup);
    assert_eq!(classify_event(EPOLLOUT | EPOLLERR), Readiness::Hangup);
    assert_eq!(classify_event(EPOLLIN | EPOLLOUT | EPOLLHUP), Readiness::Hangup);
}

#[test]
fn classify_neither_readable_nor_writable_is_hangup() {
    assert_eq!(classify_event(0), Readiness::Hangup);
    assert_eq!(classify_event(EPOLLET), Readiness::Hangup);
}

#[test]
fn rearm_mask_adds_the_extra_bits() {
    assert_eq!(rearm_mask(0), 0xC000_2001);
    assert_eq!(rearm_mask(EPOLLOUT), 0xC000_2005);
    assert_eq!(rearm_mask(EPOLLIN | EPOLLOUT), 0xC000_2005);
}

#[test]
fn io_event_passes() {
    assert!(!IoEvent::ReadAvailable.wants_write());
    assert!(IoEvent::ReadAvailable.wants_read());
    assert!(IoEvent::WriteAvailable.wants_write());
    assert!(!IoEvent::WriteAvailable.wants_read());
    assert!(IoEvent::ReadWriteAvailable.wants_write());
    assert!(IoEvent::ReadWriteAvailable.wants_read());
}

#[test]
fn latch_keeps_the_first_error() {
    let mut slot: ErrorSlot<u32> = ErrorSlot::new();
    assert!(!slot.is_latched());
    assert_eq!(slot.error(), None);
    assert!(slot.latch(7));
    assert!(!slot.latch(8));
    assert!(!slot.latch(9));
    assert!(slot.is_latched());
    assert_eq!(slot.error(), Some(&7));
}

#[test]
fn repeated_latches_reap_once() {
    let mut reg = LiveRegistry::new(4);
    assert_eq!(reg.insert(10), Promotion::Inserted);
    assert_eq!(reg.insert(11), Promotion::Inserted);
    let mut slot: ErrorSlot<Fault> = ErrorSlot::new();
    slot.latch(Fault::ConnectionAborted);
    slot.latch(Fault::Other);
    slot.latch(Fault::ConnectionReset);
    assert_eq!(slot.error(), Some(&Fault::ConnectionAborted));
    let gone = reg.remove_stale_connections(&vec![slot.is_latched(), false]);
    assert_eq!(gone, vec![10]);
    // The condemned connection is no longer live: a second pass finds nothing.
    assert_eq!(reg.len(), 1);
    assert_eq!(reg.fd_at(0), 11);
    let gone = reg.remove_stale_connections(&vec![false]);
    assert!(gone.is_empty());
}

#[test]
fn reap_removes_only_latched() {
    let mut reg = LiveRegistry::new(2);
    for fd in [3, 4, 5, 6, 7] {
        assert_eq!(reg.insert(fd), Promotion::Inserted);
    }
    let mut gone = reg.remove_stale_connections(&vec![true, false, true, true, false]);
    gone.sort();
    assert_eq!(gone, vec![3, 5, 6]);
    assert_eq!(reg.len(), 2);
    let mut left = vec![reg.fd_at(0), reg.fd_at(1)];
    left.sort();
    assert_eq!(left, vec![4, 7]);
    assert!(reg.find_connection_from_fd(7).is_some());
    assert_eq!(reg.find_connection_from_fd(5), None);
    assert_eq!(reg.find_connection_from_fd(3), None);
}

#[test]
fn reap_everything() {
    let mut reg = LiveRegistry::new(2);
    for fd in [1, 2, 3] {
        reg.insert(fd);
    }
    let mut gone = reg.remove_stale_connections(&vec![true, true, true]);
    gone.sort();
    assert_eq!(gone, vec![1, 2, 3]);
    assert_eq!(reg.len(), 0);
}

#[test]
fn reap_on_empty_registry() {
    let mut reg = LiveRegistry::new(0);
    let gone = reg.remove_stale_connections(&vec![]);
    assert!(gone.is_empty());
    assert_eq!(reg.len(), 0);
}

#[test]
fn condemned_before_promotion_is_reaped_first_iteration() {
    let mut reg = LiveRegistry::new(4);
    assert_eq!(reg.insert(20), Promotion::Inserted);
    // Staged connection 21 had its arm fail: its error is latched on promotion.
    assert_eq!(reg.insert(21), Promotion::Inserted);
    let gone = reg.remove_stale_connections(&vec![false, true]);
    assert_eq!(gone, vec![21]);
    assert!(!reg.contains(21));
    assert!(reg.contains(20));
}

#[test]
fn duplicate_descriptor_is_refused() {
    let mut reg = LiveRegistry::new(4);
    assert_eq!(reg.insert(9), Promotion::Inserted);
    assert_eq!(reg.insert(9), Promotion::Duplicate);
    assert_eq!(reg.len(), 1);
}

#[test]
fn accept_storm_promotes_all_once() {
    let mut reg = LiveRegistry::new(16);
    for fd in 0..500i32 {
        assert_eq!(reg.insert(fd + 100), Promotion::Inserted);
    }
    for fd in 0..500i32 {
        assert_eq!(reg.insert(fd + 100), Promotion::Duplicate);
    }
    assert_eq!(reg.len(), 500);
    for fd in 0..500i32 {
        assert_eq!(reg.find_connection_from_fd(fd + 100), Some(fd as usize));
    }
    assert_eq!(rearm_mask(0), DEFAULT_EVENTS);
}

#[test]
fn dispatch_each_event_of_a_batch() {
    let mut reg = LiveRegistry::new(4);
    reg.insert(5);
    reg.insert(6);
    let events = vec![
        ReadyEvent { fd: 5, flags: EPOLLIN },
        ReadyEvent { fd: 6, flags: EPOLLOUT | EPOLLRDHUP },
        ReadyEvent { fd: 42, flags: EPOLLIN },
        ReadyEvent { fd: 6, flags: EPOLLIN | EPOLLOUT },
        ReadyEvent { fd: 5, flags: 0 },
    ];
    let out = reg.update_io_events(&events);
    assert_eq!(
        out,
        vec![
            Dispatch::Enqueue(5, IoEvent::ReadAvailable),
            Dispatch::Condemn(6),
            Dispatch::Unknown(42),
            Dispatch::Enqueue(6, IoEvent::ReadWriteAvailable),
            Dispatch::Condemn(5),
        ]
    );
}

#[test]
fn full_batch_is_processed_in_one_pass() {
    let mut reg = LiveRegistry::new(MAX_EVENTS);
    for fd in 0..MAX_EVENTS as i32 {
        reg.insert(fd);
    }
    let events: Vec<ReadyEvent> = (0..MAX_EVENTS as i32)
        .map(|fd| ReadyEvent { fd, flags: EPOLLIN })
        .collect();
    let out = reg.update_io_events(&events);
    assert_eq!(out.len(), 100);
    for (i, d) in out.iter().enumerate() {
        assert_eq!(*d, Dispatch::Enqueue(i as i32, IoEvent::ReadAvailable));
    }
}

#[test]
fn hangup_event_queues_no_work() {
    let mut reg = LiveRegistry::new(1);
    reg.insert(3);
    let out = reg.update_io_events(&vec![ReadyEvent { fd: 3, flags: EPOLLIN | EPOLLHUP }]);
    assert_eq!(out, vec![Dispatch::Condemn(3)]);
}

#[test]
fn write_pass_outcomes() {
    assert_eq!(write_pass_outcome(Ok(())), PassOutcome::Continue(0));
    assert_eq!(write_pass_outcome(Err(Fault::WouldBlock)), PassOutcome::Continue(EPOLLOUT));
    assert_eq!(write_pass_outcome(Err(Fault::ConnectionReset)), PassOutcome::Abort);
    assert_eq!(write_pass_outcome(Err(Fault::Other)), PassOutcome::Abort);
}

#[test]
fn read_pass_outcomes() {
    assert_eq!(read_pass_outcome(Ok(())), PassOutcome::Continue(EPOLLIN));
    assert_eq!(read_pass_outcome(Err(Fault::WouldBlock)), PassOutcome::Continue(EPOLLIN));
    assert_eq!(read_pass_outcome(Err(Fault::UnexpectedEof)), PassOutcome::Abort);
    assert_eq!(read_pass_outcome(Err(Fault::ConnectionAborted)), PassOutcome::Abort);
    assert_eq!(read_pass_outcome(Err(Fault::Other)), PassOutcome::Abort);
}

#[test]
fn end_of_stream_faults() {
    assert!(is_end_of_stream(Fault::UnexpectedEof));
    assert!(is_end_of_stream(Fault::ConnectionReset));
    assert!(is_end_of_stream(Fault::ConnectionAborted));
    assert!(!is_end_of_stream(Fault::WouldBlock));
    assert!(!is_end_of_stream(Fault::Other));
}

#[test]
fn send_would_block_asks_for_writability() {
    assert_eq!(send_action(Err(Fault::WouldBlock), false), SendAction::Rearm(EPOLLOUT));
    assert_eq!(rearm_mask(EPOLLOUT) & EPOLLOUT, EPOLLOUT);
}

#[test]
fn send_fatal_error_latches_and_reaps() {
    assert_eq!(send_action(Ok(()), false), SendAction::Done);
    assert_eq!(send_action(Err(Fault::Other), false), SendAction::Latch);
    let mut slot: ErrorSlot<Fault> = ErrorSlot::new();
    slot.latch(Fault::Other);
    let mut reg = LiveRegistry::new(1);
    reg.insert(8);
    let gone = reg.remove_stale_connections(&vec![slot.is_latched()]);
    assert_eq!(gone, vec![8]);
    // Nothing is left to re-arm: later events for 8 are ignored.
    let out = reg.update_io_events(&vec![ReadyEvent { fd: 8, flags: EPOLLOUT }]);
    assert_eq!(out, vec![Dispatch::Unknown(8)]);
}

#[test]
fn backpressure_write_pass_drains_later() {
    // The send fills the kernel buffer: re-arm for writability.
    assert_eq!(send_action(Err(Fault::WouldBlock), false), SendAction::Rearm(EPOLLOUT));
    // A first write pass still cannot drain everything.
    let mut t = IoTask::start(IoEvent::WriteAvailable);
    assert_eq!(t.step(), TaskStep::RunWrite);
    t.advance(Err(Fault::WouldBlock));
    assert_eq!(t.step(), TaskStep::Rearm(EPOLLOUT));
    // The next one drains the rest: no extra bits.
    let mut t = IoTask::start(IoEvent::WriteAvailable);
    t.advance(Ok(()));
    assert_eq!(t.step(), TaskStep::Rearm(0));
}

#[test]
fn read_write_event_runs_write_first() {
    let mut t = IoTask::start(IoEvent::ReadWriteAvailable);
    assert_eq!(t.step(), TaskStep::RunWrite);
    t.advance(Err(Fault::WouldBlock));
    assert_eq!(t.step(), TaskStep::RunRead);
    t.advance(Ok(()));
    assert_eq!(t.step(), TaskStep::Rearm(EPOLLIN | EPOLLOUT));
}

#[test]
fn read_write_event_write_abort_skips_read() {
    let mut t = IoTask::start(IoEvent::ReadWriteAvailable);
    t.advance(Err(Fault::ConnectionReset));
    assert_eq!(t, IoTask::Aborted);
    assert_eq!(t.step(), TaskStep::Stop);
}

#[test]
fn read_write_event_read_abort_stops() {
    let mut t = IoTask::start(IoEvent::ReadWriteAvailable);
    t.advance(Ok(()));
    assert_eq!(t.step(), TaskStep::RunRead);
    t.advance(Err(Fault::ConnectionReset));
    assert_eq!(t.step(), TaskStep::Stop);
}

#[test]
fn happy_echo_then_disconnect() {
    let mut reg = LiveRegistry::new(4);
    assert_eq!(reg.insert(12), Promotion::Inserted);
    // "abc" arrives.
    let out = reg.update_io_events(&vec![ReadyEvent { fd: 12, flags: EPOLLIN }]);
    assert_eq!(out, vec![Dispatch::Enqueue(12, IoEvent::ReadAvailable)]);
    let mut t = IoTask::start(IoEvent::ReadAvailable);
    assert_eq!(t.step(), TaskStep::RunRead);
    t.advance(Ok(()));
    assert_eq!(t.step(), TaskStep::Rearm(EPOLLIN));
    // The echo of "abc" is taken by the stream.
    assert_eq!(send_action(Ok(()), false), SendAction::Done);
    // The peer disconnects.
    let out = reg.update_io_events(&vec![ReadyEvent { fd: 12, flags: EPOLLIN | EPOLLRDHUP }]);
    assert_eq!(out, vec![Dispatch::Condemn(12)]);
    let mut slot: ErrorSlot<Fault> = ErrorSlot::new();
    slot.latch(Fault::ConnectionAborted);
    let gone = reg.remove_stale_connections(&vec![slot.is_latched()]);
    assert_eq!(gone, vec![12]);
    assert!(reg.remove_stale_connections(&vec![]).is_empty());
}

#[test]
fn sudden_reset_after_data() {
    let mut reg = LiveRegistry::new(4);
    reg.insert(13);
    let mut t = IoTask::start(IoEvent::ReadAvailable);
    // "hello" is delivered, then the reset is seen by the stream.
    t.advance(Err(Fault::ConnectionReset));
    assert_eq!(t.step(), TaskStep::Stop);
    let mut slot: ErrorSlot<Fault> = ErrorSlot::new();
    assert!(slot.latch(Fault::ConnectionReset));
    let gone = reg.remove_stale_connections(&vec![slot.is_latched()]);
    assert_eq!(gone, vec![13]);
    let out = reg.update_io_events(&vec![ReadyEvent { fd: 13, flags: EPOLLIN }]);
    assert_eq!(out, vec![Dispatch::Unknown(13)]);
}

#[test]
fn staged_batch_promoted_in_order() {
    let mut reg = LiveRegistry::new(2);
    reg.insert(4);
    let out = reg.insert_new_connections(&vec![7, 4, 8, 7]);
    assert_eq!(
        out,
        vec![
            Promotion::Inserted,
            Promotion::Duplicate,
            Promotion::Inserted,
            Promotion::Duplicate,
        ]
    );
    assert_eq!(reg.len(), 3);
    assert_eq!(reg.fd_at(0), 4);
    assert_eq!(reg.fd_at(1), 7);
    assert_eq!(reg.fd_at(2), 8);
}

#[test]
fn accept_storm_single_batch() {
    let mut reg = LiveRegistry::new(8);
    let fds: Vec<i32> = (1000..1500).collect();
    let out = reg.insert_new_connections(&fds);
    assert_eq!(out.len(), 500);
    assert!(out.iter().all(|p| *p == Promotion::Inserted));
    assert_eq!(reg.len(), 500);
    let again = reg.insert_new_connections(&fds);
    assert!(again.iter().all(|p| *p == Promotion::Duplicate));
    assert_eq!(reg.len(), 500);
}

#[test]
fn empty_staged_batch() {
    let mut reg = LiveRegistry::new(1);
    assert!(reg.insert_new_connections(&vec![]).is_empty());
    assert_eq!(reg.len(), 0);
}

#[test]
fn handler_latch_during_read_pass_stops_rearm() {
    let mut t = IoTask::start(IoEvent::ReadAvailable);
    assert_eq!(t.finish(false, false), TaskStep::RunRead);
    // The read pass succeeds, but the handler's send latched a fatal error.
    t.advance(Ok(()));
    assert_eq!(t.step(), TaskStep::Rearm(EPOLLIN));
    assert_eq!(t.finish(true, false), TaskStep::Stop);
    assert_eq!(t.finish(true, true), TaskStep::Stop);
    assert_eq!(t.finish(false, false), TaskStep::Rearm(EPOLLIN));
}

#[test]
fn condemned_task_runs_no_pass() {
    let t = IoTask::start(IoEvent::ReadWriteAvailable);
    assert_eq!(t.finish(false, false), TaskStep::RunWrite);
    assert_eq!(t.finish(true, false), TaskStep::Stop);
}

#[test]
fn handler_would_block_keeps_writable_bit() {
    let mut t = IoTask::start(IoEvent::ReadAvailable);
    t.advance(Ok(()));
    assert_eq!(t.finish(false, true), TaskStep::Rearm(EPOLLIN | EPOLLOUT));
}

#[test]
fn send_on_condemned_connection_does_not_rearm() {
    assert_eq!(send_action(Err(Fault::WouldBlock), true), SendAction::Done);
    assert_eq!(send_action(Ok(()), true), SendAction::Done);
    assert_eq!(send_action(Err(Fault::Other), true), SendAction::Latch);
}
