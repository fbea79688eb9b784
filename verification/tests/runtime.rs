use quilon::runtime::deferred::{
    allocation_size, is_deferred_text, read_failure_message, site_known, ForceStep, Promise,
    PromiseState, ScopeStack, DEFERRED_SENTINEL,
};
use quilon::runtime::io::{
    connect_step, retry_action, would_block, ConnectAction, IoErrorKind, RetryAction, WriteAll,
    WriteOutcome,
};
use quilon::runtime::sched::Scheduler;

// Four fibers sleep 60, 20, 40 and 10 ticks; advancing the clock to each nearest
// deadline in turn wakes them in deadline order.
#[test]
fn sleepers_wake_in_deadline_order() {
    let mut s: Scheduler<&str> = Scheduler::new();
    let names = ["sixty", "twenty", "forty", "ten"];
    let delays = [60u64, 20, 40, 10];
    for n in names {
        s.spawn(n);
    }
    let now = 100u64;
    for d in delays.iter() {
        let (id, fiber) = s.next_ready().unwrap();
        s.park(id, fiber, now + d);
    }
    assert!(s.next_ready().is_none());
    let mut clock = now;
    let mut woke = Vec::new();
    while let Some(wait) = s.next_timeout(clock) {
        clock += wait;
        s.wake_due(clock);
        while let Some((id, fiber)) = s.next_ready() {
            woke.push((clock - now, fiber));
            s.finish(id);
        }
    }
    assert_eq!(woke, vec![(10, "ten"), (20, "twenty"), (40, "forty"), (60, "sixty")]);
}

#[test]
fn freed_slots_are_reused_last_freed_first() {
    let mut s: Scheduler<u32> = Scheduler::new();
    let a = s.spawn(1);
    let b = s.spawn(2);
    assert_eq!((a, b), (0, 1));
    let (ra, _) = s.next_ready().unwrap();
    let (rb, _) = s.next_ready().unwrap();
    s.finish(ra);
    s.finish(rb);
    assert_eq!(s.spawn(3), 1);
    assert_eq!(s.spawn(4), 0);
    assert_eq!(s.spawn(5), 2);
    assert_eq!(s.next_ready().unwrap(), (1, 3));
}

#[test]
fn timeout_is_zero_once_a_deadline_passed() {
    let mut s: Scheduler<u8> = Scheduler::new();
    assert_eq!(s.next_timeout(5), None);
    s.spawn(7);
    let (id, f) = s.next_ready().unwrap();
    s.park(id, f, 50);
    assert_eq!(s.next_timeout(20), Some(30));
    assert_eq!(s.next_timeout(80), Some(0));
    s.wake_due(49);
    assert!(s.next_ready().is_none());
    s.wake_due(50);
    assert_eq!(s.next_ready(), Some((id, 7)));
}

#[test]
fn retries_follow_the_error_kind() {
    assert_eq!(retry_action(IoErrorKind::Interrupted), RetryAction::Retry);
    assert_eq!(retry_action(IoErrorKind::WouldBlock), RetryAction::ParkThenRetry);
    assert_eq!(retry_action(IoErrorKind::Other), RetryAction::Fail);
    assert!(would_block(IoErrorKind::WouldBlock));
    assert!(!would_block(IoErrorKind::NotConnected));
}

#[test]
fn write_all_advances_through_partial_writes() {
    let mut w = WriteAll::new(10);
    assert!(!w.finished());
    assert_eq!(w.on_write(Ok(4)), WriteOutcome::Continue);
    assert_eq!(w.written, 4);
    assert_eq!(w.on_write(Err(IoErrorKind::Interrupted)), WriteOutcome::Failed(IoErrorKind::Interrupted));
    assert_eq!(w.written, 4);
    assert_eq!(w.on_write(Ok(0)), WriteOutcome::Failed(IoErrorKind::WriteZero));
    assert_eq!(w.on_write(Ok(6)), WriteOutcome::Done);
    assert!(w.finished());
    assert!(WriteAll::new(0).finished());
}

#[test]
fn a_connect_completes_reparks_or_fails() {
    assert_eq!(connect_step(None, Ok(())), ConnectAction::Connected);
    assert_eq!(connect_step(None, Err(IoErrorKind::NotConnected)), ConnectAction::ParkAgain);
    assert_eq!(connect_step(None, Err(IoErrorKind::WouldBlock)), ConnectAction::ParkAgain);
    assert_eq!(connect_step(None, Err(IoErrorKind::Other)), ConnectAction::Fail(IoErrorKind::Other));
    assert_eq!(
        connect_step(Some(IoErrorKind::Other), Ok(())),
        ConnectAction::Fail(IoErrorKind::Other)
    );
}

#[test]
fn a_scope_joins_the_tasks_launched_in_it() {
    let mut scopes: ScopeStack<u32> = ScopeStack::new();
    scopes.register(99);
    assert!(scopes.join().is_empty());
    scopes.enter();
    scopes.register(1);
    scopes.enter();
    scopes.register(2);
    scopes.register(3);
    assert_eq!(scopes.join(), vec![2, 3]);
    scopes.register(4);
    assert_eq!(scopes.join(), vec![1, 4]);
    assert!(scopes.join().is_empty());
}

// A promise parks its forcer until fulfilled; afterwards every force reads the stored
// line at once.
#[test]
fn forcing_a_fulfilled_promise_is_memoized() {
    let mut p = Promise::pending(0x2000, 11);
    assert_eq!(p.state, PromiseState::Pending);
    assert_eq!((p.data, p.len), (0, 0));
    assert_eq!((p.site_data, p.site_len), (0x2000, 11));
    assert_eq!(p.force_step(), ForceStep::Park);
    p.fulfill(0x1000, 4);
    assert_eq!(p.force_step(), ForceStep::Value { data: 0x1000, len: 4 });
    assert_eq!(p.force_step(), ForceStep::Value { data: 0x1000, len: 4 });
    assert_eq!((p.site_data, p.site_len), (0x2000, 11));
}

#[test]
fn deferred_text_and_read_failures() {
    assert!(is_deferred_text(DEFERRED_SENTINEL));
    assert!(!is_deferred_text(0));
    assert_eq!(
        read_failure_message(Some("main.ql:3:7"), "broken pipe"),
        "runtime error: @read at main.ql:3:7 failed: broken pipe\n"
    );
    assert_eq!(read_failure_message(None, "eof"), "runtime error: @read at <unknown> failed: eof\n");
    assert!(site_known(false, 5));
    assert!(!site_known(true, 5));
    assert!(!site_known(false, 0));
    assert_eq!(allocation_size(0), 1);
    assert_eq!(allocation_size(-8), 1);
    assert_eq!(allocation_size(16), 16);
}

// Timers (30, a), (10, b), (20, c) woken at 20: the sweep takes b out (c moves into its
// place), then c; a stays parked.
#[test]
fn a_wake_takes_exactly_the_due_timers() {
    let mut s: Scheduler<char> = Scheduler::new();
    for f in ['a', 'b', 'c'] {
        s.spawn(f);
    }
    for deadline in [30u64, 10, 20] {
        let (id, fiber) = s.next_ready().unwrap();
        s.park(id, fiber, deadline);
    }
    s.wake_due(20);
    assert_eq!(s.next_ready().map(|(_, f)| f), Some('b'));
    assert_eq!(s.next_ready().map(|(_, f)| f), Some('c'));
    assert!(s.next_ready().is_none());
    assert_eq!(s.next_timeout(20), Some(10));
    s.wake_due(30);
    assert_eq!(s.next_ready().map(|(_, f)| f), Some('a'));
    assert_eq!(s.next_timeout(30), None);
}

// A fiber taken out to run and then finished leaves no fiber behind once nothing is
// ready or parked.
#[test]
fn no_fiber_is_left_when_the_loop_stops() {
    let mut s: Scheduler<u8> = Scheduler::new();
    s.spawn(1);
    let (id, f) = s.next_ready().unwrap();
    s.park(id, f, 5);
    assert!(s.next_ready().is_none());
    assert_eq!(s.next_timeout(0), Some(5));
    s.wake_due(5);
    let (id, _) = s.next_ready().unwrap();
    s.finish(id);
    assert!(s.next_ready().is_none());
    assert_eq!(s.next_timeout(5), None);
}
