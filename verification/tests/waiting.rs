use disruptor::wait::{
    Backoff, BlockingPhase, BlockingWait, BlockingWaitStrategy, ConsumerWait, Notification,
    NotificationPhase, NotificationWaitStrategy, PollingWait, PollingWaitStrategy, PublisherWait,
    SpinWaitStrategy, TimeoutResizeWaitStrategy, WaitAction, YieldWaitStrategy,
};

#[test]
fn strategies_have_defaults() {
    let expected = YieldWaitStrategy {
        max_spin_tries_publisher: 2500,
        max_spin_tries_consumer: 2500,
    };
    assert_eq!(YieldWaitStrategy::new(), expected);
    assert_eq!(YieldWaitStrategy::default(), expected);
    let expected = BlockingWaitStrategy {
        max_spin_tries_publisher: 2500,
        max_spin_tries_consumer: 2500,
    };
    assert_eq!(BlockingWaitStrategy::new(), expected);
    assert_eq!(BlockingWaitStrategy::default(), expected);
}

#[test]
fn strategies_describe_themselves() {
    assert_eq!(
        YieldWaitStrategy::new_with_retry_count(1, 20).describe(),
        "YieldWaitStrategy{p: 1, c: 20}"
    );
    let blocking = BlockingWaitStrategy::new_with_retry_count(0, 2500);
    assert_eq!(blocking.describe(), "BlockingWaitStrategy{p: 0, c: 2500}");
    assert_eq!(
        TimeoutResizeWaitStrategy::new_with_timeout(6, blocking).describe(),
        "TimeoutResizeWaitStrategy{t: 6, p: 0, c: 2500}"
    );
}

#[test]
fn spinning_polls_until_available() {
    let mut wait = SpinWaitStrategy.wait_for_dependencies(2);
    for _ in 0..10 {
        assert_eq!(wait.step(0), WaitAction::Poll);
        assert_eq!(wait.step(1), WaitAction::SpinLoop);
    }
    assert_eq!(wait.step(1), WaitAction::Poll);
    assert_eq!(wait.step(2), WaitAction::Done);
}

#[test]
fn nothing_is_done_if_enough_is_available() {
    let mut wait = SpinWaitStrategy.wait_for_dependencies(1);
    assert_eq!(wait.step(1), WaitAction::Done);
    let mut wait = BlockingWaitStrategy::new().wait_for_publisher(1);
    assert_eq!(wait.step(3), WaitAction::Done);
}

#[test]
fn a_limited_wait_gives_up() {
    let mut wait = PollingWait::spin_for_pollable_with_retries(1, Some(2), Backoff::Spin);
    let actions: Vec<WaitAction> = (0..6).map(|_| wait.step(0)).collect();
    assert_eq!(
        actions,
        vec![
            WaitAction::Poll,
            WaitAction::SpinLoop,
            WaitAction::Poll,
            WaitAction::SpinLoop,
            WaitAction::Done,
            WaitAction::Done,
        ]
    );
    assert_eq!(wait.tries, 2);
}

#[test]
fn yielding_begins_after_some_tries() {
    let strategy = YieldWaitStrategy::new_with_retry_count(3, 2);
    let mut wait = strategy.wait_for_dependencies(1);
    let pauses: Vec<WaitAction> = (0..4)
        .map(|_| {
            assert_eq!(wait.step(0), WaitAction::Poll);
            wait.step(0)
        })
        .collect();
    assert_eq!(
        pauses,
        vec![
            WaitAction::SpinLoop,
            WaitAction::YieldNow,
            WaitAction::YieldNow,
            WaitAction::YieldNow,
        ]
    );
    let mut wait = strategy.wait_for_publisher(1);
    let pauses: Vec<WaitAction> = (0..3)
        .map(|_| {
            assert_eq!(wait.step(0), WaitAction::Poll);
            wait.step(0)
        })
        .collect();
    assert_eq!(
        pauses,
        vec![WaitAction::SpinLoop, WaitAction::SpinLoop, WaitAction::YieldNow]
    );
}

#[test]
fn blocking_requests_a_signal_before_sleeping() {
    let strategy = BlockingWaitStrategy::new_with_retry_count(1, 5);
    let mut wait = strategy.wait_for_publisher(1);
    let expected = vec![
        WaitAction::Poll,
        WaitAction::SpinLoop,
        WaitAction::LockMutex,
        WaitAction::RequestSignal,
        WaitAction::Poll,
        WaitAction::WaitForSignal,
        WaitAction::Poll,
        WaitAction::UnlockMutex,
        // A wakeup without a new item begins again
        WaitAction::LockMutex,
        WaitAction::RequestSignal,
        WaitAction::Poll,
    ];
    for action in expected {
        assert_eq!(wait.step(0), action);
    }
    // An item that was released in the meantime prevents the sleep
    assert_eq!(wait.step(1), WaitAction::UnlockMutex);
    assert_eq!(wait.step(1), WaitAction::Done);
    assert_eq!(wait.step(1), WaitAction::Done);
    assert_eq!(
        wait,
        PublisherWait::Blocking(BlockingWait { min_available: 1, phase: BlockingPhase::Done })
    );
    assert_eq!(
        strategy.wait_for_dependencies(1),
        YieldWaitStrategy::new_with_retry_count(1, 5).wait_for_dependencies(1)
    );
}

#[test]
fn notification_is_skipped_if_nobody_waits() {
    let mut notification = BlockingWaitStrategy::new().notify_all_waiters();
    assert_eq!(notification.step(false), WaitAction::CheckSignal);
    assert_eq!(notification.step(false), WaitAction::Done);
    let mut notification = BlockingWaitStrategy::new().notify_all_waiters();
    for action in vec![
        WaitAction::CheckSignal,
        WaitAction::LockMutex,
        WaitAction::NotifyAll,
        WaitAction::UnlockMutex,
        WaitAction::YieldNow,
        WaitAction::Done,
    ] {
        assert_eq!(notification.step(true), action);
    }
    let done = Notification { phase: NotificationPhase::Done };
    assert_eq!(SpinWaitStrategy.notify_all_waiters(), done);
    assert_eq!(YieldWaitStrategy::new().notify_all_waiters(), done);
    assert_eq!(SpinWaitStrategy.notify_all_waiters().step(true), WaitAction::Done);
}

/// Two threads that share what the blocking strategy shares, in a given order of turns.
#[test]
fn no_order_of_turns_loses_a_wakeup() {
    for schedule in 0..(1u32 << 14) {
        let strategy = BlockingWaitStrategy::new_with_retry_count(0, 0);
        let mut wait = strategy.wait_for_publisher(1);
        let mut notification = strategy.notify_all_waiters();
        let mut signal = false;
        let mut holder = 0;
        let mut released = 0;
        let mut known = 0;
        let mut asleep = false;
        let mut notified = false;
        let mut found = false;
        let mut consumer = wait.step(known);
        let mut publisher: Option<WaitAction> = None;
        let mut turn = 0;
        while !(consumer == WaitAction::Done && publisher == Some(WaitAction::Done)) {
            assert!(turn < 100, "a consumer sleeps forever");
            // Both get their turns in the end
            let consumers_turn = if turn < 14 { schedule >> turn & 1 == 0 } else { turn % 2 == 0 };
            turn += 1;
            if consumers_turn {
                let waits_for_lock = consumer == WaitAction::LockMutex || notified;
                if asleep || consumer == WaitAction::Done || (waits_for_lock && holder != 0) {
                    continue;
                }
                match consumer {
                    WaitAction::LockMutex => holder = 1,
                    WaitAction::UnlockMutex => holder = 0,
                    WaitAction::RequestSignal => signal = true,
                    WaitAction::Poll => known = released,
                    WaitAction::WaitForSignal => {
                        if notified {
                            notified = false;
                            holder = 1;
                        } else {
                            asleep = true;
                            holder = 0;
                            continue;
                        }
                    }
                    _ => {}
                }
                consumer = wait.step(known);
            } else {
                match publisher {
                    None => released = 1,
                    Some(WaitAction::CheckSignal) => {
                        found = signal;
                        signal = false;
                    }
                    Some(WaitAction::LockMutex) => {
                        if holder != 0 {
                            continue;
                        }
                        holder = 2;
                    }
                    Some(WaitAction::NotifyAll) => {
                        notified = asleep;
                        asleep = false;
                    }
                    Some(WaitAction::UnlockMutex) => holder = 0,
                    Some(_) => {}
                }
                publisher = Some(notification.step(found));
            }
        }
        assert_eq!(known, 1);
    }
}

#[test]
fn a_wait_with_a_time_limit_gives_up() {
    let blocking = BlockingWaitStrategy::new_with_retry_count(0, 1);
    let strategy = TimeoutResizeWaitStrategy::new_with_timeout(500, blocking);
    let mut wait = strategy.try_wait_for_consumers(2);
    assert_eq!(wait.step(0, 0), WaitAction::ReadClock);
    // The limit is 500 milliseconds from here
    assert_eq!(wait.step(0, 1000), WaitAction::Poll);
    assert_eq!(wait.end_time, 500_001_000);
    assert_eq!(wait.step(0, 0), WaitAction::SpinLoop);
    assert_eq!(wait.step(0, 0), WaitAction::ReadClock);
    assert_eq!(wait.step(0, 2000), WaitAction::Poll);
    // Progress sets the limit anew
    assert_eq!(wait.step(1, 0), WaitAction::ReadClock);
    assert_eq!(wait.step(1, 400_000_000), WaitAction::YieldNow);
    assert_eq!(wait.step(1, 0), WaitAction::ReadClock);
    assert_eq!(wait.step(1, 899_999_999), WaitAction::Poll);
    assert_eq!(wait.step(1, 0), WaitAction::YieldNow);
    assert_eq!(wait.step(1, 0), WaitAction::ReadClock);
    assert_eq!(wait.step(1, 900_000_000), WaitAction::Done);
}

#[test]
fn a_wait_with_a_time_limit_ends_when_slots_are_available() {
    let strategy = TimeoutResizeWaitStrategy::new_with_timeout(
        u64::MAX,
        BlockingWaitStrategy::new_with_retry_count(0, 0),
    );
    assert_eq!(strategy.try_wait_for_consumers(2).step(2, 0), WaitAction::Done);
    let mut wait = strategy.try_wait_for_consumers(2);
    assert_eq!(wait.step(1, 0), WaitAction::ReadClock);
    assert_eq!(wait.step(1, u64::MAX), WaitAction::ReadClock);
    assert_eq!(wait.step(1, u64::MAX), WaitAction::Poll);
    assert_eq!(wait.step(2, 0), WaitAction::Done);
    assert_eq!(strategy.notify_all_waiters().phase, NotificationPhase::Start);
    assert_eq!(
        strategy.wait_for_publisher(1),
        strategy.wait_strategy.wait_for_publisher(1)
    );
    assert_eq!(
        strategy.wait_for_dependencies(1),
        strategy.wait_strategy.wait_for_dependencies(1)
    );
}

#[test]
fn a_consumer_waits_for_the_publisher_first() {
    let mut wait = ConsumerWait::wait_for_slots(&YieldWaitStrategy::new_with_retry_count(9, 0), 1);
    assert!(wait.polls_publisher());
    assert_eq!(wait.step(0, 0), WaitAction::Poll);
    assert_eq!(wait.step(0, 0), WaitAction::SpinLoop);
    assert_eq!(wait.step(0, 0), WaitAction::Poll);
    assert!(wait.polls_publisher());
    assert_eq!(wait.step(1, 0), WaitAction::Poll);
    assert!(!wait.polls_publisher());
    assert_eq!(wait.step(1, 0), WaitAction::YieldNow);
    assert_eq!(wait.step(1, 0), WaitAction::Poll);
    assert_eq!(wait.step(1, 1), WaitAction::Done);
}
