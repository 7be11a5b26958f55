use disruptor::chain_wait::{
    exposed_slots, look, LookWait, Looks, ProcessingWaitStrategy, PublishingWaitStrategy,
    ResizingWaitStrategy,
};
use disruptor::owner::{SequenceOwner, SequenceReader, SequenceTable};
use disruptor::sequence::{calculate_available_publisher, SequenceNumber};
use disruptor::wait::{
    BlockingWaitStrategy, NotificationPhase, SpinWaitStrategy, TimeoutResizeWaitStrategy,
    WaitAction, YieldWaitStrategy,
};

fn one_consumer() -> Vec<SequenceReader> {
    let mut table = SequenceTable::new();
    vec![SequenceOwner::new(&mut table).clone_immut()]
}

#[test]
fn looking_never_pauses_without_a_limit() {
    let mut wait = SpinWaitStrategy.wait_for_consumers(2, &one_consumer());
    for _ in 0..20 {
        assert_eq!(wait.step(1), WaitAction::Poll);
    }
    assert_eq!(wait.step(2), WaitAction::Done);
    assert_eq!(wait.step(2), WaitAction::Done);
    let mut wait = ProcessingWaitStrategy::wait_for_publisher(&SpinWaitStrategy, 1);
    // There is always a first look
    assert_eq!(wait.step(1), WaitAction::Poll);
    assert_eq!(wait.step(0), WaitAction::Poll);
    assert_eq!(wait.step(1), WaitAction::Done);
    let mut wait = ProcessingWaitStrategy::wait_for_publisher(&SpinWaitStrategy, 0);
    assert_eq!(wait.step(1), WaitAction::Poll);
    assert_eq!(wait.step(0), WaitAction::Done);
    let mut wait = LookWait::new(0, None, Looks::AtLeastOnce);
    assert_eq!(wait.step(0), WaitAction::Poll);
    assert_eq!(wait.step(5), WaitAction::Done);
    assert_eq!(wait.found(5), 5);
}

#[test]
fn other_tasks_run_after_the_limit() {
    let strategy = YieldWaitStrategy::new_with_retry_count(0, 2);
    let mut wait = strategy.wait_for_consumers(1, &one_consumer());
    for action in vec![
        WaitAction::Poll,
        WaitAction::Poll,
        WaitAction::Poll,
        WaitAction::YieldNow,
        WaitAction::Poll,
        WaitAction::YieldNow,
    ] {
        assert_eq!(wait.step(0), action);
    }
    assert_eq!(wait.step(1), WaitAction::Done);
    let mut wait = ProcessingWaitStrategy::wait_for_publisher(&strategy, 1);
    assert_eq!(wait.step(0), WaitAction::Poll);
    assert_eq!(wait.step(0), WaitAction::YieldNow);
    assert_eq!(wait.step(1), WaitAction::Done);
}

#[test]
fn the_lock_is_kept_while_blocking() {
    let strategy = BlockingWaitStrategy::new_with_retry_count(1, 3);
    let mut wait = ProcessingWaitStrategy::wait_for_publisher(&strategy, 1);
    for action in vec![
        WaitAction::Poll,
        WaitAction::LockMutex,
        WaitAction::RequestSignal,
        WaitAction::Poll,
        WaitAction::WaitForSignal,
        WaitAction::Poll,
        WaitAction::RequestSignal,
        WaitAction::Poll,
        WaitAction::WaitForSignal,
        WaitAction::Poll,
    ] {
        assert_eq!(wait.step(0), action);
    }
    assert_eq!(wait.step(1), WaitAction::UnlockMutex);
    assert_eq!(wait.step(1), WaitAction::Done);
    assert_eq!(
        PublishingWaitStrategy::notify_all_waiters(&strategy).phase,
        NotificationPhase::Start
    );
    assert_eq!(
        PublishingWaitStrategy::notify_all_waiters(&YieldWaitStrategy::new()).phase,
        NotificationPhase::Done
    );
    assert_eq!(
        PublishingWaitStrategy::notify_all_waiters(&SpinWaitStrategy).phase,
        NotificationPhase::Done
    );
}

#[test]
fn waiting_with_a_time_limit() {
    let blocking = BlockingWaitStrategy::new_with_retry_count(0, 1);
    let strategy = TimeoutResizeWaitStrategy::new_with_timeout(6, blocking);
    let mut wait = ResizingWaitStrategy::try_wait_for_consumers(&strategy, 1, &one_consumer());
    // One more slot than asked for is needed
    assert_eq!(wait.n, 2);
    assert_eq!(wait.step(0, 0), WaitAction::Poll);
    assert_eq!(wait.step(1, 0), WaitAction::ReadClock);
    assert_eq!(wait.step(1, 100), WaitAction::Poll);
    assert_eq!(wait.end_time, 6_000_100);
    assert_eq!(wait.step(1, 0), WaitAction::ReadClock);
    assert_eq!(wait.step(1, 6_000_099), WaitAction::Poll);
    assert_eq!(wait.step(1, 0), WaitAction::YieldNow);
    assert_eq!(wait.step(1, 0), WaitAction::ReadClock);
    assert_eq!(wait.step(1, 6_000_100), WaitAction::Done);
    assert_eq!(exposed_slots(1), 0);
    assert_eq!(exposed_slots(0), 0);
    assert_eq!(exposed_slots(5), 4);
    let mut wait = ResizingWaitStrategy::try_wait_for_consumers(&strategy, 1, &one_consumer());
    assert_eq!(wait.step(0, 0), WaitAction::Poll);
    assert_eq!(wait.step(2, 0), WaitAction::Done);
    assert_eq!(wait.found(2), 1);
    assert_eq!(
        strategy.wait_for_consumers(3, &one_consumer()),
        blocking.wait_for_consumers(3, &one_consumer())
    );
    assert_eq!(
        ProcessingWaitStrategy::wait_for_publisher(&strategy, 3),
        ProcessingWaitStrategy::wait_for_publisher(&blocking, 3)
    );
}

#[test]
fn nothing_is_looked_at_without_dependencies() {
    let yielding = YieldWaitStrategy::new_with_retry_count(0, 2);
    let blocking = BlockingWaitStrategy::new_with_retry_count(0, 1);
    let resizing = TimeoutResizeWaitStrategy::new_with_timeout(6, blocking);
    for n in vec![0, 1, 5, usize::MAX] {
        for mut wait in vec![
            SpinWaitStrategy.wait_for_consumers(n, &[]),
            yielding.wait_for_consumers(n, &[]),
            blocking.wait_for_consumers(n, &[]),
            resizing.wait_for_consumers(n, &[]),
        ] {
            assert_eq!(wait.step(0), WaitAction::Done);
            assert_eq!(wait.found(0), usize::MAX);
        }
    }
    let mut wait = ResizingWaitStrategy::try_wait_for_consumers(&resizing, 1, &[]);
    assert_eq!(wait.step(0, 0), WaitAction::Done);
    assert_eq!(wait.found(0), usize::MAX - 1);
}

#[test]
fn a_look_finds_the_slowest_consumer() {
    let mut table = SequenceTable::new();
    let mut first = SequenceOwner::new(&mut table);
    let mut second = SequenceOwner::new(&mut table);
    first.advance_and_flush(&mut table, 5, 8);
    second.advance_and_flush(&mut table, 3, 8);
    let consumers = vec![first.clone_immut(), second.clone_immut()];
    let waiting = SequenceNumber(9);
    assert_eq!(look(waiting, &consumers, &table, 8, &calculate_available_publisher), 2);
    let mut wait = SpinWaitStrategy.wait_for_consumers(2, &consumers);
    assert_eq!(wait.step(0), WaitAction::Poll);
    assert_eq!(wait.step(2), WaitAction::Done);
    assert_eq!(wait.found(2), 2);
    let unused = |_: SequenceNumber, _: SequenceNumber, _: usize| -> usize { unreachable!() };
    assert_eq!(look(waiting, &[], &table, 8, &unused), usize::MAX);
}

#[test]
fn a_wait_for_no_slots_finds_the_actual_number() {
    for tries in vec![0, 2] {
        let yielding = YieldWaitStrategy::new_with_retry_count(tries, tries);
        let blocking = BlockingWaitStrategy::new_with_retry_count(tries, tries);
        let resizing = TimeoutResizeWaitStrategy::new_with_timeout(6, blocking);
        for mut wait in vec![
            SpinWaitStrategy.wait_for_consumers(0, &one_consumer()),
            yielding.wait_for_consumers(0, &one_consumer()),
            blocking.wait_for_consumers(0, &one_consumer()),
            resizing.wait_for_consumers(0, &one_consumer()),
        ] {
            assert_eq!(wait.step(0), WaitAction::Poll);
            assert_eq!(wait.step(5), WaitAction::Done);
            assert_eq!(wait.found(5), 5);
        }
        for mut wait in vec![
            ProcessingWaitStrategy::wait_for_publisher(&SpinWaitStrategy, 0),
            ProcessingWaitStrategy::wait_for_publisher(&yielding, 0),
            ProcessingWaitStrategy::wait_for_publisher(&blocking, 0),
            ProcessingWaitStrategy::wait_for_publisher(&resizing, 0),
        ] {
            assert_eq!(wait.step(0), WaitAction::Poll);
            assert_eq!(wait.step(5), WaitAction::Done);
        }
        let mut wait = ResizingWaitStrategy::try_wait_for_consumers(&resizing, 0, &one_consumer());
        assert_eq!(wait.step(0, 0), WaitAction::Poll);
        assert_eq!(wait.step(5, 0), WaitAction::Done);
        assert_eq!(wait.found(5), 4);
    }
}
