use disruptor::dependency::{LenAvailable, Pollable};
use disruptor::pipeline::{
    Consumer, ConsumerMut, FixedMemory, InsertSingleConsumer, Publisher, SharedConsumer,
    SinglePublisher,
};
use disruptor::resizing::SingleResizingPublisher;
use disruptor::sequence::wrap_boundary;
use disruptor::wait::{BlockingWaitStrategy, NotificationPhase, SpinWaitStrategy};

#[test]
fn lib_send_single_value() {
    let (mut publisher, mut memory) =
        SinglePublisher::<isize, 1, SpinWaitStrategy>::new(SpinWaitStrategy);
    let mut consumer = publisher.insert_single_consumer(&mut memory);
    assert!(publisher.publish(&mut memory, 1).is_ok());
    let consumed = consumer.consume(&mut memory, |value: &isize| {
        assert!(*value == 1);
    });
    assert!(consumed);
}

#[test]
fn lib_send_single_value_via_take() {
    let (mut publisher, mut memory) =
        SinglePublisher::<isize, 1, SpinWaitStrategy>::new(SpinWaitStrategy);
    let mut consumer = publisher.insert_single_consumer(&mut memory);
    let value = 1;
    assert!(publisher.publish(&mut memory, value).is_ok());
    let received_value = consumer.take(&mut memory).unwrap();
    assert_eq!(received_value, value);
}

#[test]
fn test_sequence_wrapping() {
    const CAPACITY: usize = 8;
    let (mut publisher, mut memory) =
        SinglePublisher::<isize, CAPACITY, SpinWaitStrategy>::new(SpinWaitStrategy);
    let mut next_published_item = 1;
    let mut consumer = publisher.insert_single_consumer(&mut memory);
    let mut next_consumed_item = 1;

    // Fill the buffer
    for _ in 0..(CAPACITY as isize) {
        assert!(publisher.publish(&mut memory, next_published_item).is_ok());
        next_published_item += 1;
    }

    // Increase the sequences, one at a time, until they both wrap.
    for _ in 0..(wrap_boundary(CAPACITY)) {
        assert!(next_consumed_item == consumer.take(&mut memory).unwrap());
        next_consumed_item += 1;
        assert!(publisher.publish(&mut memory, next_published_item).is_ok());
        next_published_item += 1;
    }
}

#[test]
fn a_full_buffer_gives_the_value_back() {
    let (mut publisher, mut memory) =
        SinglePublisher::<u8, 2, SpinWaitStrategy>::new(SpinWaitStrategy);
    let mut consumer = publisher.insert_single_consumer(&mut memory);
    assert!(publisher.publish(&mut memory, 1).is_ok());
    assert!(publisher.publish(&mut memory, 2).is_ok());
    assert_eq!(publisher.publish(&mut memory, 3), Err(3));
    assert_eq!(consumer.take(&mut memory), Some(1));
    assert!(publisher.publish(&mut memory, 3).is_ok());
    assert_eq!(consumer.take(&mut memory), Some(2));
    assert_eq!(consumer.take(&mut memory), Some(3));
    assert_eq!(consumer.take(&mut memory), None);
}

#[test]
fn consumers_of_a_chain_process_in_order() {
    let (mut publisher, mut memory) =
        SinglePublisher::<u8, 4, SpinWaitStrategy>::new(SpinWaitStrategy);
    let mut last = publisher.insert_single_consumer(&mut memory);
    let mut first = last.insert_single_consumer(&mut memory);
    for value in 1..4 {
        assert!(publisher.publish(&mut memory, value).is_ok());
    }
    // The last consumer waits for the one that was inserted ahead of it
    assert!(!last.consume(&mut memory, |_| unreachable!()));
    let mut seen: Vec<u8> = Vec::new();
    assert!(first.consume(&mut memory, |value| seen.push(*value)));
    assert!(first.consume(&mut memory, |value| seen.push(*value)));
    assert_eq!(seen, vec![1, 2]);
    assert_eq!(last.take(&mut memory), Some(1));
    assert_eq!(last.take(&mut memory), Some(2));
    assert_eq!(last.take(&mut memory), None);
}

#[test]
fn taking_leaves_the_default_for_the_stages_behind() {
    let (mut publisher, mut memory) =
        SinglePublisher::<u8, 4, SpinWaitStrategy>::new(SpinWaitStrategy);
    let mut last = publisher.insert_single_consumer(&mut memory);
    let mut first = last.insert_single_consumer(&mut memory);
    assert!(publisher.publish(&mut memory, 7).is_ok());
    assert_eq!(first.take(&mut memory), Some(7));
    assert_eq!(last.take(&mut memory), Some(0));
}

#[test]
fn a_publisher_without_consumers_may_fill_the_buffer() {
    let (mut publisher, mut memory) =
        SinglePublisher::<u8, 2, SpinWaitStrategy>::new(SpinWaitStrategy);
    assert!(publisher.publish(&mut memory, 1).is_ok());
    assert!(publisher.publish(&mut memory, 2).is_ok());
    assert_eq!(publisher.publish(&mut memory, 3), Err(3));
    // The first consumer gets everything that has been published
    let mut consumer = publisher.insert_single_consumer(&mut memory);
    assert_eq!(consumer.take(&mut memory), Some(1));
    assert_eq!(consumer.take(&mut memory), Some(2));
}

#[test]
fn a_late_consumer_starts_with_what_is_in_progress() {
    let (mut publisher, mut memory) =
        SinglePublisher::<u8, 4, SpinWaitStrategy>::new(SpinWaitStrategy);
    let mut first = publisher.insert_single_consumer(&mut memory);
    // Let the sequences wrap several times
    for value in 0..50 {
        assert!(publisher.publish(&mut memory, value).is_ok());
        assert_eq!(first.take(&mut memory), Some(value));
    }
    assert!(publisher.publish(&mut memory, 50).is_ok());
    let mut second = publisher.insert_single_consumer(&mut memory);
    assert_eq!(second.take(&mut memory), None);
    assert!(first.consume(&mut memory, |value| assert_eq!(*value, 50)));
    assert_eq!(second.take(&mut memory), Some(50));
    // The publisher now waits for the new consumer
    for value in 51..55 {
        assert!(publisher.publish(&mut memory, value).is_ok());
        assert!(first.consume(&mut memory, |_| {}));
    }
    assert_eq!(publisher.publish(&mut memory, 55), Err(55));
    assert_eq!(second.take(&mut memory), Some(51));
    assert!(publisher.publish(&mut memory, 55).is_ok());
}

#[test]
fn polling_shows_what_is_available() {
    let (mut publisher, mut memory) =
        SinglePublisher::<u8, 8, SpinWaitStrategy>::new(SpinWaitStrategy);
    let mut consumer = publisher.insert_single_consumer(&mut memory);
    assert_eq!(publisher.len_available(), 0);
    publisher.poll(&memory);
    assert_eq!(publisher.len_available(), 8);
    for value in 0..3 {
        assert!(publisher.publish(&mut memory, value).is_ok());
    }
    assert_eq!(publisher.len_available(), 5);
    assert_eq!(consumer.len_available(), 0);
    consumer.poll(&memory);
    assert_eq!(consumer.len_available(), 3);
    assert_eq!(consumer.take(&mut memory), Some(0));
    assert_eq!(consumer.len_available(), 2);
}

#[test]
fn a_consumer_sees_what_the_publisher_has_released() {
    let (mut publisher, mut memory) =
        SinglePublisher::<u8, 8, SpinWaitStrategy>::new(SpinWaitStrategy);
    let mut last = publisher.insert_single_consumer(&mut memory);
    let _first = last.insert_single_consumer(&mut memory);
    assert!(publisher.publish(&mut memory, 1).is_ok());
    let pollable = last.c.c.publisher_pollable(&memory);
    assert_eq!(pollable.len_available(), 0);
    assert_eq!(pollable.waiting_sequence.value(), 0);
    assert_eq!(pollable.buffer_size, 8);
    last.poll(&memory);
    assert_eq!(last.len_available(), 0);
}

#[test]
fn a_shared_consumer_only_reads() {
    let (mut publisher, mut memory) =
        SinglePublisher::<u8, 2, SpinWaitStrategy>::new(SpinWaitStrategy);
    let consumer = publisher.insert_single_consumer(&mut memory);
    let mut shared: SharedConsumer<u8, 2, SpinWaitStrategy> = consumer.c;
    for round in 0..20 {
        assert!(publisher.publish(&mut memory, round).is_ok());
        let mut seen: Option<u8> = None;
        assert!(shared.consume(&mut memory, |value| seen = Some(*value)));
        assert_eq!(seen, Some(round));
        shared.poll(&memory);
        assert_eq!(shared.len_available(), 0);
    }
}

#[test]
fn three_stages_in_lockstep() {
    let (mut publisher, mut memory) =
        SinglePublisher::<u64, 1, SpinWaitStrategy>::new(SpinWaitStrategy);
    let mut third = publisher.insert_single_consumer(&mut memory);
    let mut second = third.insert_single_consumer(&mut memory);
    let mut first = second.insert_single_consumer(&mut memory);
    fn skip(_: &u64) {}
    let memory: &mut FixedMemory<u64, 1> = &mut memory;
    for value in 0..20 {
        assert!(publisher.publish(memory, value).is_ok());
        assert_eq!(publisher.publish(memory, value), Err(value));
        assert!(!second.consume(memory, skip));
        assert!(first.consume(memory, skip));
        assert!(!first.consume(memory, skip));
        assert!(!third.consume(memory, skip));
        assert!(second.consume(memory, skip));
        assert_eq!(third.take(memory), Some(value));
    }
}

#[test]
fn publishing_says_which_notification_is_owed() {
    let (mut publisher, mut memory) =
        SinglePublisher::<usize, 2, BlockingWaitStrategy>::new(BlockingWaitStrategy::new());
    let notification = publisher.publish(&mut memory, 1).unwrap();
    assert_eq!(notification.phase, NotificationPhase::Start);
    let (mut publisher, mut memory) =
        SinglePublisher::<usize, 2, SpinWaitStrategy>::new(SpinWaitStrategy);
    let notification = publisher.publish(&mut memory, 1).unwrap();
    assert_eq!(notification.phase, NotificationPhase::Done);
    let (mut publisher, mut memory) =
        SingleResizingPublisher::<usize>::new_resize_after_timeout(2);
    let notification = publisher.publish(&mut memory, 1).unwrap();
    assert_eq!(notification.phase, NotificationPhase::Start);
}
