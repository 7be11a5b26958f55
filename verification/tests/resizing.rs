use disruptor::chain::{RingBuffer, Slot};
use disruptor::dependency::{LenAvailable, Pollable};
use disruptor::pipeline::{Consumer, ConsumerMut, InsertSingleConsumer, Publisher};
use disruptor::resizing::{ResizingMemory, SingleResizingPublisher};
use disruptor::ring_buffer::{BoxedRingBufferData, ReallocationFlag, ResizableRingBuffer};
use disruptor::sequence::{wrap_boundary, SequenceNumber};
use disruptor::wait::{
    BlockingWaitStrategy, ConsumerWait, NotificationPhase, TimeoutResizeWaitStrategy,
    DEFAULT_MAX_SPIN_TRIES_CONSUMER, DEFAULT_MAX_SPIN_TRIES_PUBLISHER, DEFAULT_RESIZE_TIMEOUT,
};

/// Publishes as if the wait for a slot had timed out whenever there is none.
fn publish(
    publisher: &mut SingleResizingPublisher<usize>,
    memory: &mut ResizingMemory<usize>,
    value: usize,
) {
    if let Err(value) = publisher.publish(memory, value) {
        assert!(publisher.wait_for_slots(memory).is_some());
        assert!(publisher.publish(memory, value).is_ok());
    }
}

#[test]
fn lib_test_resizeable_ring_buffer() {
    // General smoke test
    let mut rb =
        ResizableRingBuffer::new(BoxedRingBufferData::<ReallocationFlag<usize>>::new(2));
    let publisher_rb = 0;
    let mut consumer_rb = publisher_rb;

    // Dummy values
    let v = [123, 231, 312];

    // Hypothetical publisher writes a value, then resizes, then writes 2 more values (3 total,
    // whereas the initial buffer only holds two values)
    let mut s = 0;

    rb.set(publisher_rb, SequenceNumber(s), ReallocationFlag::Item(v[0]));

    s += 1;

    let old_rb = publisher_rb;
    assert_eq!(rb.get_next(old_rb), None);
    let publisher_rb = rb.reallocate(BoxedRingBufferData::new(4));
    rb.set(old_rb, SequenceNumber(s), ReallocationFlag::BufferReallocated);
    rb.set(publisher_rb, SequenceNumber(s), ReallocationFlag::Item(v[1]));
    s += 1;
    rb.set(publisher_rb, SequenceNumber(s), ReallocationFlag::Item(v[2]));

    // The consumer gets all three values, switching to the next buffer as needed
    for (s2, i) in v.iter().enumerate() {
        let mut flag = rb.take(consumer_rb, SequenceNumber(s2));
        let mut switch_occurred = false;
        if !flag.is_item() {
            consumer_rb = rb.get_next(consumer_rb).unwrap();
            switch_occurred = true;
            flag = rb.take(consumer_rb, SequenceNumber(s2));
        }
        let value = flag.unwrap();
        if s2 == 1 {
            assert!(switch_occurred);
        }
        assert_eq!(value, *i);
    }
    assert_eq!(rb.len(0), 2);
    assert_eq!(rb.len(1), 4);
}

#[test]
fn disruptor_test_resizeable_ring_buffer() {
    // General smoke test
    let mut rb = ResizableRingBuffer::new(RingBuffer::<usize>::new(2));
    let mut publisher_rb = 0;
    let mut consumer_rb = publisher_rb;

    // Dummy values
    let v = [123, 231, 312];

    // Hypothetical publisher writes a value, then resizes, then writes 2 more values (3 total,
    // whereas the initial buffer only holds two values)
    let mut s = 0;
    rb.set(publisher_rb, SequenceNumber(s), Slot { payload: Some(v[0]) });
    s += 1;
    rb.set(publisher_rb, SequenceNumber(s), Slot::new());
    publisher_rb = rb.reallocate(RingBuffer::new(4));
    rb.set(publisher_rb, SequenceNumber(s), Slot { payload: Some(v[1]) });
    s += 1;
    rb.set(publisher_rb, SequenceNumber(s), Slot { payload: Some(v[2]) });

    // Consumer gets all three values, switching to the next buffer as needed
    for (s2, i) in v.iter().enumerate() {
        if !rb.get(consumer_rb, SequenceNumber(s2)).is_set() {
            consumer_rb = rb.get_next(consumer_rb).unwrap();
        }
        assert_eq!(rb.replace(consumer_rb, SequenceNumber(s2), Slot::new()).take(), *i);
    }
}

#[test]
fn resizing() {
    const CAPACITY: usize = 8;
    let (mut publisher, mut memory) =
        SingleResizingPublisher::new_resize_after_timeout(CAPACITY);
    let mut final_consumer = publisher.insert_single_consumer(&mut memory);

    let mut consumer = final_consumer.insert_single_consumer(&mut memory);

    let mut next_item_publish = 1;
    let mut next_item_consume = 1;
    let mut next_item_take = 1;

    // Test several simultaneously pending reallocations
    const MAX_CAPACITY: usize = CAPACITY * 2 * 2 * 2;
    const ITEMS_IN_FLIGHT: usize = MAX_CAPACITY + 1;
    for _ in 0..ITEMS_IN_FLIGHT {
        publish(&mut publisher, &mut memory, next_item_publish);
        next_item_publish += 1;
    }
    for _ in 0..ITEMS_IN_FLIGHT {
        assert!(consumer.consume(&mut memory, |item| {
            assert!(*item == next_item_consume);
            next_item_consume += 1;
        }));
    }
    for _ in 0..ITEMS_IN_FLIGHT {
        assert!(next_item_take == final_consumer.take(&mut memory).unwrap());
        next_item_take += 1;
    }

    // Also test wrapping in publisher availability calculation, at some level, by running all
    // three stages in lockstep with each other.
    for _ in 0..wrap_boundary(MAX_CAPACITY) {
        publish(&mut publisher, &mut memory, next_item_publish);
        next_item_publish += 1;
        assert!(consumer.consume(&mut memory, |item| {
            assert!(*item == next_item_consume);
            next_item_consume += 1;
        }));
        assert!(next_item_take == final_consumer.take(&mut memory).unwrap());
        next_item_take += 1;
    }
}

#[test]
fn default_parameters() {
    let (publisher, _memory) = SingleResizingPublisher::<usize>::new_resize_after_timeout(4);
    assert_eq!(
        publisher.p.wait_strategy,
        TimeoutResizeWaitStrategy {
            timeout: DEFAULT_RESIZE_TIMEOUT,
            wait_strategy: BlockingWaitStrategy {
                max_spin_tries_publisher: DEFAULT_MAX_SPIN_TRIES_PUBLISHER,
                max_spin_tries_consumer: DEFAULT_MAX_SPIN_TRIES_CONSUMER,
            },
        }
    );
    assert_eq!(DEFAULT_RESIZE_TIMEOUT, 500);
    let (publisher, _memory) =
        SingleResizingPublisher::<usize>::new_resize_after_timeout_with_params(4, 6, 7, 8);
    assert_eq!(publisher.p.wait_strategy.timeout, 6);
    assert_eq!(publisher.p.wait_strategy.wait_strategy.max_spin_tries_publisher, 7);
    assert_eq!(publisher.p.wait_strategy.wait_strategy.max_spin_tries_consumer, 8);
}

#[test]
fn reallocation_unwraps_the_sequence() {
    // Sixteen items through a buffer of four slots leave the publisher's sequence at 0
    let (mut publisher, mut memory) =
        SingleResizingPublisher::<usize>::new_resize_after_timeout(4);
    let mut consumer = publisher.insert_single_consumer(&mut memory);
    for item in 0..13 {
        assert!(publisher.publish(&mut memory, item).is_ok());
        assert_eq!(consumer.take(&mut memory), Some(item));
    }
    for item in 13..16 {
        assert!(publisher.publish(&mut memory, item).is_ok());
    }
    // One slot is kept in reserve
    assert_eq!(publisher.publish(&mut memory, 16), Err(16));
    let reallocation = publisher.wait_for_slots(&mut memory).unwrap();
    assert_eq!(reallocation.current_size, 4);
    assert_eq!(reallocation.new_size, 8);
    assert_eq!(reallocation.batch_size, 1);
    assert_eq!(reallocation.sequence, 0);
    assert_eq!(reallocation.unwrapped_sequence, 16);
    // Seven slots of the new buffer can be used at once
    assert_eq!(publisher.len_available(), 7);
    for item in 16..23 {
        assert!(publisher.publish(&mut memory, item).is_ok());
    }
    assert_eq!(publisher.publish(&mut memory, 23), Err(23));
    for item in 13..23 {
        assert_eq!(consumer.take(&mut memory), Some(item));
    }
    assert_eq!(consumer.take(&mut memory), None);
}

#[test]
fn a_wait_that_found_a_slot_does_not_reallocate() {
    let (mut publisher, mut memory) =
        SingleResizingPublisher::<usize>::new_resize_after_timeout(4);
    let mut consumer = publisher.insert_single_consumer(&mut memory);
    publisher.poll(&memory);
    assert_eq!(publisher.len_available(), 3);
    assert_eq!(publisher.wait_for_slots(&mut memory), None);
    for item in 0..3 {
        assert!(publisher.publish(&mut memory, item).is_ok());
    }
    assert_eq!(publisher.len_available(), 0);
    publisher.poll(&memory);
    assert_eq!(publisher.len_available(), 0);
    assert_eq!(consumer.take(&mut memory), Some(0));
    publisher.p.poll_while_waiting(&memory);
    assert_eq!(publisher.len_available(), 1);
    consumer.poll(&memory);
    assert_eq!(consumer.len_available(), 2);
}

#[test]
fn a_larger_batch_can_be_waited_for() {
    let (mut publisher, mut memory) =
        SingleResizingPublisher::<usize>::new_resize_after_timeout(4);
    let mut consumer = publisher.insert_single_consumer(&mut memory);
    publisher.poll(&memory);
    assert_eq!(publisher.p.wait_for_slots(&mut memory, 3), None);
    let reallocation = publisher.p.wait_for_slots(&mut memory, 5).unwrap();
    assert_eq!(reallocation.batch_size, 5);
    assert_eq!(publisher.len_available(), 7);
    publisher.p.set(&mut memory, 41);
    assert_eq!(*publisher.p.get(&memory), 41);
    assert_eq!(publisher.p.take(&mut memory), 41);
    publisher.p.set(&mut memory, 42);
    let notification = publisher.p.release_slots_unchecked(&mut memory, 1);
    assert_eq!(notification.phase, NotificationPhase::Start);
    assert_eq!(consumer.take(&mut memory), Some(42));
}

#[test]
fn the_smallest_buffer_grows_at_once() {
    let (mut publisher, mut memory) =
        SingleResizingPublisher::<usize>::new_resize_after_timeout(1);
    let mut consumer = publisher.insert_single_consumer(&mut memory);
    assert_eq!(publisher.publish(&mut memory, 1), Err(1));
    for item in 0..100 {
        publish(&mut publisher, &mut memory, item);
    }
    for item in 0..100 {
        assert_eq!(consumer.take(&mut memory), Some(item));
    }
    assert_eq!(consumer.take(&mut memory), None);
}

#[test]
fn a_shared_consumer_follows_into_larger_buffers() {
    let (mut publisher, mut memory) =
        SingleResizingPublisher::<usize>::new_resize_after_timeout(2);
    let mut shared = publisher.insert_single_consumer(&mut memory).c;
    let mut next = 0;
    for round in 0..10 {
        for item in 0..round {
            publish(&mut publisher, &mut memory, round * 100 + item);
        }
        for item in 0..round {
            shared.poll(&memory);
            assert!(shared.len_available() >= 1);
            assert!(shared.consume(&mut memory, |value| next = *value));
            assert_eq!(next, round * 100 + item);
        }
        assert!(!shared.consume(&mut memory, |_| unreachable!()));
    }
}

#[test]
fn consumers_can_be_inserted_during_a_transition() {
    let (mut publisher, mut memory) =
        SingleResizingPublisher::<usize>::new_resize_after_timeout(2);
    let mut last = publisher.insert_single_consumer(&mut memory);
    for item in 0..9 {
        publish(&mut publisher, &mut memory, item);
    }
    for item in 0..4 {
        assert_eq!(last.take(&mut memory), Some(item));
    }
    let mut first = last.insert_single_consumer(&mut memory);
    assert_eq!(last.take(&mut memory), None);
    for item in 4..9 {
        assert!(first.consume(&mut memory, |value| assert_eq!(*value, item)));
        assert_eq!(last.take(&mut memory), Some(item));
    }
}

#[test]
fn a_consumer_can_replace_its_item() {
    let (mut publisher, mut memory) =
        SingleResizingPublisher::<usize>::new_resize_after_timeout(4);
    let mut last = publisher.insert_single_consumer(&mut memory);
    let mut first = last.insert_single_consumer(&mut memory);
    assert!(publisher.publish(&mut memory, 5).is_ok());
    first.poll(&memory);
    assert_eq!(*first.c.c.get(&memory), 5);
    first.c.c.set(&mut memory, 6);
    assert!(first.consume(&mut memory, |value| assert_eq!(*value, 6)));
    assert_eq!(last.take(&mut memory), Some(6));
}

#[test]
fn the_slot_in_reserve_is_waited_for_too() {
    let (mut publisher, mut memory) =
        SingleResizingPublisher::<usize>::new_resize_after_timeout_with_params(4, 6, 7, 8);
    let consumer = publisher.insert_single_consumer(&mut memory);
    let wait = publisher.p.start_wait(3);
    assert_eq!(wait.min_available, 4);
    assert_eq!(wait, publisher.p.wait_strategy.try_wait_for_consumers(4));
    let wait = consumer.c.c.start_wait(1);
    assert_eq!(wait, ConsumerWait::wait_for_slots(&publisher.p.wait_strategy, 1));
}

#[test]
fn releasing_no_slots_shows_nothing() {
    let (mut publisher, mut memory) =
        SingleResizingPublisher::<usize>::new_resize_after_timeout(2);
    let mut consumer = publisher.insert_single_consumer(&mut memory);
    assert!(publisher.publish(&mut memory, 1).is_ok());
    let notification = publisher.p.release_slots_unchecked(&mut memory, 0);
    assert_eq!(notification.phase, NotificationPhase::Start);
    assert!(publisher.wait_for_slots(&mut memory).is_some());
    // The larger buffer is empty
    let notification = publisher.p.release_slots_unchecked(&mut memory, 0);
    assert_eq!(notification.phase, NotificationPhase::Start);
    assert_eq!(publisher.len_available(), 3);
    assert_eq!(consumer.take(&mut memory), Some(1));
    assert_eq!(consumer.take(&mut memory), None);
    assert!(publisher.publish(&mut memory, 2).is_ok());
    assert_eq!(consumer.take(&mut memory), Some(2));
}
