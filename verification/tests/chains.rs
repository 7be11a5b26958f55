use disruptor::chain::{Publisher, RingBuffer, SequenceBarrier, Slot};
use disruptor::dependency::LenAvailable;
use disruptor::sequence::SequenceNumber;
use disruptor::wait::{BlockingWaitStrategy, NotificationPhase, SpinWaitStrategy};

#[test]
fn disruptor_send_single_value() {
    let (mut publisher, mut memory) = Publisher::new::<isize>(1, SpinWaitStrategy);
    let mut consumer = publisher.create_single_consumer_pipeline(&mut memory);
    assert!(publisher.publish(&mut memory, 1).is_ok());
    let consumed = consumer.consume(&mut memory, |value: &isize| {
        assert!(*value == 1);
    });
    assert!(consumed);
}

#[test]
fn disruptor_send_single_value_via_take() {
    let (mut publisher, mut memory) = Publisher::new::<isize>(1, SpinWaitStrategy);
    let mut consumer = publisher.create_single_consumer_pipeline(&mut memory);
    let value = 1;
    assert!(publisher.publish(&mut memory, value).is_ok());
    let received_value = consumer.take(&mut memory).unwrap();
    assert_eq!(received_value, value);
}

#[test]
fn each_consumer_of_a_chain_waits_for_the_one_before() {
    let (mut publisher, mut memory) = Publisher::new::<String>(4, SpinWaitStrategy);
    let (mut consumers, mut last) = publisher.create_consumer_pipeline(&mut memory, 3);
    assert_eq!(consumers.len(), 2);
    for round in 0..40 {
        let text = format!("item {}", round);
        assert!(publisher.publish(&mut memory, text.clone()).is_ok());
        assert_eq!(last.take(&mut memory), None);
        assert!(!consumers[1].consume(&mut memory, |_: &String| unreachable!()));
        assert!(consumers[0].consume(&mut memory, |value: &String| assert_eq!(*value, text)));
        assert!(consumers[1].consume(&mut memory, |value: &String| assert_eq!(*value, text)));
        assert_eq!(last.take(&mut memory), Some(text));
        assert_eq!(last.take(&mut memory), None);
    }
}

#[test]
fn progress_is_visible_when_the_consumer_would_wait() {
    let (mut publisher, mut memory) = Publisher::new::<u8>(2, SpinWaitStrategy);
    let mut consumer = publisher.create_single_consumer_pipeline(&mut memory);
    assert!(publisher.publish(&mut memory, 1).is_ok());
    assert!(publisher.publish(&mut memory, 2).is_ok());
    assert_eq!(publisher.publish(&mut memory, 3), Err(3));
    assert_eq!(consumer.take(&mut memory), Some(1));
    // The consumer knows of another item, so it has not said that it has passed the first
    assert_eq!(consumer.sc.sequence_barrier.len_available(), 1);
    assert_eq!(publisher.publish(&mut memory, 3), Err(3));
    assert_eq!(consumer.take(&mut memory), Some(2));
    assert_eq!(consumer.sc.sequence_barrier.len_available(), 0);
    assert!(publisher.publish(&mut memory, 3).is_ok());
    assert!(publisher.publish(&mut memory, 4).is_ok());
    assert_eq!(consumer.take(&mut memory), Some(3));
    assert_eq!(consumer.take(&mut memory), Some(4));
}

#[test]
fn barriers_release_in_batches() {
    let (mut publisher, mut memory) = Publisher::new::<u8>(4, SpinWaitStrategy);
    let (mut consumers, mut last) = publisher.create_consumer_pipeline(&mut memory, 2);
    let barrier = &mut publisher.sequence_barrier;
    assert_eq!(SequenceBarrier::<u8>::next_n_real(barrier, &memory), 4);
    assert!(!SequenceBarrier::<u8>::next_n(barrier, &memory, 5));
    assert!(SequenceBarrier::<u8>::next_n(barrier, &memory, 3));
    assert_eq!(SequenceBarrier::<u8>::get_cached_available(barrier), 4);
    for value in 1..4 {
        SequenceBarrier::<u8>::set(barrier, &mut memory, value);
        assert_eq!(*SequenceBarrier::<u8>::get(barrier, &memory), value);
        let notification = SequenceBarrier::<u8>::release(barrier, &mut memory);
        assert_eq!(notification.phase, NotificationPhase::Done);
    }
    assert_eq!(SequenceBarrier::<u8>::get_current(barrier).value(), 3);
    assert_eq!(SequenceBarrier::<u8>::size(barrier, &memory), 4);
    assert!(SequenceBarrier::<u8>::next(barrier, &memory));
    SequenceBarrier::<u8>::set(barrier, &mut memory, 77);
    assert_eq!(SequenceBarrier::<u8>::take(barrier, &mut memory), 77);
    let consumer = &mut consumers[0].sequence_barrier;
    assert!(!SequenceBarrier::<u8>::next_n(consumer, &memory, 4));
    assert!(SequenceBarrier::<u8>::next_n(consumer, &memory, 2));
    assert_eq!(SequenceBarrier::<u8>::get_cached_available(consumer), 3);
    assert_eq!(*SequenceBarrier::<u8>::get(consumer, &memory), 1);
    SequenceBarrier::<u8>::set(consumer, &mut memory, 9);
    // Fewer slots than the batch are left, so the progress becomes visible
    let notification = SequenceBarrier::<u8>::release_n(consumer, &mut memory, 2);
    assert_eq!(notification.phase, NotificationPhase::Done);
    assert_eq!(SequenceBarrier::<u8>::get_current(consumer).value(), 2);
    assert_eq!(SequenceBarrier::<u8>::size(consumer, &memory), 4);
    assert_eq!(last.take(&mut memory), Some(9));
    assert_eq!(last.take(&mut memory), Some(2));
    assert_eq!(last.take(&mut memory), None);
}

#[test]
fn slots_may_be_empty() {
    let mut slot = Slot::<u8>::new();
    assert!(!slot.is_set());
    slot.set(4);
    assert!(slot.is_set());
    assert_eq!(*slot.get(), 4);
    assert_eq!(slot.take(), 4);
    assert!(!slot.is_set());
    slot.set(5);
    slot.unset();
    assert!(!slot.is_set());
}

#[test]
fn ring_buffers_of_slots_are_indexed_by_sequence() {
    let mut buffer = RingBuffer::<u8>::new(2);
    assert!(!buffer.is_set(SequenceNumber(0)));
    buffer.set(SequenceNumber(3), 8);
    assert!(buffer.is_set(SequenceNumber(1)));
    assert_eq!(*buffer.get(SequenceNumber(5)), 8);
    assert_eq!(buffer.take(SequenceNumber(7)), 8);
    assert!(!buffer.is_set(SequenceNumber(1)));
    buffer.set(SequenceNumber(0), 1);
    buffer.unset(SequenceNumber(2));
    assert!(!buffer.is_set(SequenceNumber(0)));
}

#[test]
fn a_publisher_without_consumers_takes_any_number_of_items() {
    let (mut publisher, mut memory) = Publisher::new::<u16>(4, SpinWaitStrategy);
    assert_eq!(
        SequenceBarrier::<u16>::next_n_real(&publisher.sequence_barrier, &memory),
        usize::MAX
    );
    for item in 0..100 {
        assert!(publisher.publish(&mut memory, item).is_ok());
        let known = SequenceBarrier::<u16>::get_cached_available(&publisher.sequence_barrier);
        assert_eq!(known, usize::MAX - 1 - item as usize);
    }
    assert_eq!(SequenceBarrier::<u16>::get_current(&publisher.sequence_barrier).value(), 100 % 16);
    let barrier = &mut publisher.sequence_barrier;
    SequenceBarrier::<u16>::set(barrier, &mut memory, 7);
    assert_eq!(*SequenceBarrier::<u16>::get(barrier, &memory), 7);
    assert_eq!(SequenceBarrier::<u16>::take(barrier, &mut memory), 7);
    SequenceBarrier::<u16>::set(barrier, &mut memory, 8);
    let notification = SequenceBarrier::<u16>::release_n(barrier, &mut memory, 1);
    assert_eq!(notification.phase, NotificationPhase::Done);
}

#[test]
fn creating_consumers_keeps_what_the_publisher_knows() {
    let (mut publisher, mut memory) = Publisher::new::<u16>(4, SpinWaitStrategy);
    let (_consumers, _last) = publisher.create_consumer_pipeline(&mut memory, 3);
    assert_eq!(publisher.sequence_barrier.len_available(), 0);
    assert!(publisher.publish(&mut memory, 1).is_ok());
    assert_eq!(publisher.sequence_barrier.len_available(), 3);
    // What has been published before goes to the consumers
    let (mut publisher, mut memory) = Publisher::new::<u16>(4, SpinWaitStrategy);
    assert!(publisher.publish(&mut memory, 5).is_ok());
    assert!(publisher.publish(&mut memory, 6).is_ok());
    let (mut consumers, mut last) = publisher.create_consumer_pipeline(&mut memory, 2);
    assert_eq!(publisher.sequence_barrier.len_available(), usize::MAX - 2);
    assert!(publisher.publish(&mut memory, 7).is_ok());
    assert_eq!(publisher.sequence_barrier.len_available(), usize::MAX - 3);
    assert_eq!(last.take(&mut memory), None);
    for item in 5..8 {
        assert!(consumers[0].consume(&mut memory, |value| assert_eq!(*value, item)));
    }
    for item in 5..8 {
        assert_eq!(last.take(&mut memory), Some(item));
    }
    assert_eq!(last.take(&mut memory), None);
}

#[test]
fn publishing_says_whom_to_wake_up() {
    let (mut publisher, mut memory) = Publisher::new::<u8>(2, BlockingWaitStrategy::new());
    let (consumers, last) = publisher.create_consumer_pipeline(&mut memory, 2);
    assert_eq!(consumers[0].sequence_barrier.wait_strategy, BlockingWaitStrategy::new());
    assert_eq!(last.sc.sequence_barrier.wait_strategy, BlockingWaitStrategy::new());
    let notification = publisher.publish(&mut memory, 1).unwrap();
    assert_eq!(notification.phase, NotificationPhase::Start);
    let (mut publisher, mut memory) = Publisher::new::<u8>(2, SpinWaitStrategy);
    let notification = publisher.publish(&mut memory, 1).unwrap();
    assert_eq!(notification.phase, NotificationPhase::Done);
    let (mut publisher, mut memory) = Publisher::new_resize_after_timeout::<u8>(2);
    let notification = publisher.publish(&mut memory, 1).unwrap();
    assert_eq!(notification.phase, NotificationPhase::Start);
}

#[test]
fn chains_can_grow() {
    let (mut publisher, mut memory) = Publisher::new_resize_after_timeout::<u16>(2);
    let (mut consumers, mut last) = publisher.create_consumer_pipeline(&mut memory, 3);
    assert_eq!(consumers.len(), 2);
    for item in 0..50 {
        if let Err(item) = publisher.publish(&mut memory, item) {
            assert!(publisher.sequence_barrier.wait_for_slots(&mut memory, 1).is_some());
            assert!(publisher.publish(&mut memory, item).is_ok());
        }
    }
    assert_eq!(last.take(&mut memory), None);
    assert!(!consumers[1].consume(&mut memory, |_| unreachable!()));
    for item in 0..50 {
        assert!(consumers[0].consume(&mut memory, |value| assert_eq!(*value, item)));
    }
    assert!(!consumers[0].consume(&mut memory, |_| unreachable!()));
    for item in 0..50 {
        assert!(consumers[1].consume(&mut memory, |value| assert_eq!(*value, item)));
    }
    assert!(!consumers[1].consume(&mut memory, |_| unreachable!()));
    for item in 0..50 {
        if item % 2 == 0 {
            assert_eq!(last.take(&mut memory), Some(item));
        } else {
            assert!(last.consume(&mut memory, |value| assert_eq!(*value, item)));
        }
    }
    assert_eq!(last.take(&mut memory), None);
}

#[test]
fn progress_in_a_growing_chain_is_visible_when_the_consumer_would_wait() {
    let (mut publisher, mut memory) = Publisher::new_resize_after_timeout::<u16>(8);
    let (mut consumers, mut last) = publisher.create_consumer_pipeline(&mut memory, 2);
    for item in 0..3 {
        assert!(publisher.publish(&mut memory, item).is_ok());
    }
    assert!(consumers[0].consume(&mut memory, |value| assert_eq!(*value, 0)));
    // The consumer knows of two more items, so it has not said that it has passed the first
    assert_eq!(consumers[0].sequence_barrier.len_available(), 2);
    assert_eq!(last.take(&mut memory), None);
    assert!(consumers[0].consume(&mut memory, |value| assert_eq!(*value, 1)));
    assert_eq!(last.take(&mut memory), None);
    assert!(consumers[0].consume(&mut memory, |value| assert_eq!(*value, 2)));
    assert_eq!(consumers[0].sequence_barrier.len_available(), 0);
    for item in 0..3 {
        assert_eq!(last.take(&mut memory), Some(item));
    }
    assert_eq!(last.take(&mut memory), None);
}

#[test]
fn a_growing_chain_of_one() {
    let (mut publisher, mut memory) =
        Publisher::new_resize_after_timeout_with_params::<u16>(4, 1, 2, 3);
    let strategy = publisher.sequence_barrier.wait_strategy;
    assert_eq!(strategy.timeout, 1);
    let mut consumer = publisher.create_single_consumer_pipeline(&mut memory);
    assert_eq!(consumer.sc.sequence_barrier.cb.wait_strategy, strategy);
    for item in 0..100 {
        assert!(publisher.publish(&mut memory, item).is_ok());
        assert_eq!(consumer.take(&mut memory), Some(item));
    }
    assert_eq!(publisher.sequence_barrier.wait_strategy, strategy);
    assert_eq!(consumer.sc.sequence_barrier.cb.wait_strategy, strategy);
}

#[test]
fn a_growing_chain_without_consumers_takes_any_number_of_items() {
    let (mut publisher, mut memory) = Publisher::new_resize_after_timeout::<u16>(1);
    for item in 0..20 {
        assert!(publisher.publish(&mut memory, item).is_ok());
        assert_eq!(publisher.sequence_barrier.len_available(), usize::MAX - 2 - item as usize);
    }
}

#[test]
fn a_growing_chain_needs_no_default_value() {
    struct Item(u32);
    let (mut publisher, mut memory) = Publisher::new_resize_after_timeout::<Item>(4);
    // What has been published before goes to the consumer
    assert!(publisher.publish(&mut memory, Item(5)).is_ok());
    assert!(publisher.publish(&mut memory, Item(6)).is_ok());
    let mut consumer = publisher.create_single_consumer_pipeline(&mut memory);
    assert_eq!(publisher.sequence_barrier.len_available(), usize::MAX - 3);
    assert!(publisher.publish(&mut memory, Item(7)).is_ok());
    assert_eq!(publisher.sequence_barrier.len_available(), usize::MAX - 4);
    assert!(consumer.consume(&mut memory, |item: &Item| assert_eq!(item.0, 5)));
    for number in 6..8 {
        assert_eq!(consumer.take(&mut memory).unwrap().0, number);
    }
    assert!(consumer.take(&mut memory).is_none());
}
