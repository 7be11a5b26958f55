use disruptor::chain::RingBuffer;
use disruptor::dependency::{
    calculate_available_list, ConsumerDependencies, LenAvailable, Pollable, PollableDependency,
    PollableDependencyAsPollable, PublisherAvailability, PublisherDependencies,
    ResizingPublisherDependencies,
};
use disruptor::owner::{SequenceOwner, SequenceTable};
use disruptor::power::check_power_of_two;
use disruptor::ring_buffer::{
    BoxedRingBufferData, ReallocationFlag, RingBufferAsSlice, RingBufferData, RingBufferOps,
};
use disruptor::sequence::{
    calculate_available_consumer, calculate_available_publisher,
    calculate_available_publisher_resizing, log2, wrap_boundary, SequenceNumber, SEQUENCE_INITIAL,
};

#[test]
fn ring_buffer_size_must_be_power_of_two_7() {
    assert!(!check_power_of_two(7));
}

#[test]
fn disruptor_ring_buffer_size_must_be_power_of_two_1() {
    assert!(check_power_of_two(1));
    assert_eq!(RingBuffer::<()>::new(1).size(), 1);
}

#[test]
fn disruptor_ring_buffer_size_must_be_power_of_two_8() {
    assert!(check_power_of_two(8));
    assert_eq!(RingBuffer::<()>::new(8).size(), 8);
}

#[test]
fn lib_ring_buffer_size_must_be_power_of_two_1() {
    let buffer = RingBufferData::<(), 1>::default();
    assert_eq!(buffer.as_slice().len(), 1);
}

#[test]
fn lib_ring_buffer_size_must_be_power_of_two_8() {
    let buffer = RingBufferData::<(), 8>::default();
    assert_eq!(buffer.as_slice().len(), 8);
}

#[test]
fn powers_of_two_are_recognized() {
    let powers: Vec<usize> = (0..70).filter(|n| check_power_of_two(*n)).collect();
    assert_eq!(powers, vec![1, 2, 4, 8, 16, 32, 64]);
    assert!(check_power_of_two(1 << 62));
    assert!(!check_power_of_two(usize::MAX));
}

#[test]
fn disruptor_test_calculate_available_consumer() {
    // Consumer waiting for publisher or earlier consumer
    assert!(1 == calculate_available_consumer(SequenceNumber(13), SequenceNumber(12), 8));
    assert!(1 == calculate_available_consumer(SequenceNumber(1), SequenceNumber(0), 2));
    assert!(2 == calculate_available_consumer(SequenceNumber(2), SequenceNumber(0), 2));

    // Test a hypothetical sequence of states
    assert!(0 == calculate_available_consumer(SequenceNumber(0), SequenceNumber(0), 8));
    assert!(1 == calculate_available_consumer(SequenceNumber(1), SequenceNumber(0), 8));
    assert!(8 == calculate_available_consumer(SequenceNumber(8), SequenceNumber(0), 8));

    // Test wrapping (publisher wraps to 0 at wrap_boundary(buffer_size) )
    assert!(7 == calculate_available_consumer(SequenceNumber(31), SequenceNumber(24), 8));
    assert!(8 == calculate_available_consumer(SequenceNumber(0), SequenceNumber(24), 8));
    assert!(7 == calculate_available_consumer(SequenceNumber(0), SequenceNumber(25), 8));
}

#[test]
fn lib_test_calculate_available_consumer() {
    // A consumer waiting for publisher or earlier consumer
    assert!(1 == calculate_available_consumer(SequenceNumber(13), SequenceNumber(12), 8));
    assert!(1 == calculate_available_consumer(SequenceNumber(1), SequenceNumber(0), 2));
    assert!(2 == calculate_available_consumer(SequenceNumber(2), SequenceNumber(0), 2));

    // Test a hypothetical sequence of states
    assert!(0 == calculate_available_consumer(SequenceNumber(0), SequenceNumber(0), 8));
    assert!(1 == calculate_available_consumer(SequenceNumber(1), SequenceNumber(0), 8));
    assert!(8 == calculate_available_consumer(SequenceNumber(8), SequenceNumber(0), 8));

    // Test wrapping (publisher wraps to 0 at wrap_boundary(buffer_size) )
    assert!(7 == calculate_available_consumer(SequenceNumber(31), SequenceNumber(24), 8));
    assert!(8 == calculate_available_consumer(SequenceNumber(0), SequenceNumber(24), 8));
    assert!(7 == calculate_available_consumer(SequenceNumber(0), SequenceNumber(25), 8));
}

#[test]
fn disruptor_test_calculate_available_publisher() {
    // Publisher waiting for consumer
    assert!(8 == calculate_available_publisher(SequenceNumber(17), SequenceNumber(17), 8));
    assert!(1 == calculate_available_publisher(SequenceNumber(5), SequenceNumber(12), 8));
    assert!(0 == calculate_available_publisher(SequenceNumber(5), SequenceNumber(13), 8));
    assert!(1 == calculate_available_publisher(SequenceNumber(6), SequenceNumber(13), 8));

    // Test a few in sequence
    assert!(2 == calculate_available_publisher(SequenceNumber(0), SequenceNumber(0), 2));
    assert!(1 == calculate_available_publisher(SequenceNumber(0), SequenceNumber(1), 2));
    assert!(0 == calculate_available_publisher(SequenceNumber(0), SequenceNumber(2), 2));
    assert!(1 == calculate_available_publisher(SequenceNumber(1), SequenceNumber(2), 2));
    assert!(0 == calculate_available_publisher(SequenceNumber(1), SequenceNumber(3), 2));
    assert!(1 == calculate_available_publisher(SequenceNumber(2), SequenceNumber(3), 2));
    assert!(2 == calculate_available_publisher(SequenceNumber(3), SequenceNumber(3), 2));
}

#[test]
fn lib_test_calculate_available_publisher() {
    // Publisher waiting for consumer
    assert!(8 == calculate_available_publisher(SequenceNumber(17), SequenceNumber(17), 8));
    assert!(1 == calculate_available_publisher(SequenceNumber(5), SequenceNumber(12), 8));
    assert!(0 == calculate_available_publisher(SequenceNumber(5), SequenceNumber(13), 8));
    assert!(1 == calculate_available_publisher(SequenceNumber(6), SequenceNumber(13), 8));

    // Test a few in sequence
    assert!(2 == calculate_available_publisher(SequenceNumber(0), SequenceNumber(0), 2));
    assert!(1 == calculate_available_publisher(SequenceNumber(0), SequenceNumber(1), 2));
    assert!(0 == calculate_available_publisher(SequenceNumber(0), SequenceNumber(2), 2));
    assert!(1 == calculate_available_publisher(SequenceNumber(1), SequenceNumber(2), 2));
    assert!(0 == calculate_available_publisher(SequenceNumber(1), SequenceNumber(3), 2));
    assert!(1 == calculate_available_publisher(SequenceNumber(2), SequenceNumber(3), 2));
    assert!(2 == calculate_available_publisher(SequenceNumber(3), SequenceNumber(3), 2));
}

#[test]
fn disruptor_test_calculate_available_publisher_resizing() {
    // Test a few in sequence:
    let test =
        |g, w, s| calculate_available_publisher_resizing(SequenceNumber(g), SequenceNumber(w), s);
    let buffer_size = 4;
    assert_eq!(test(0, 0, buffer_size), 4);
    assert_eq!(test(0, 1, buffer_size), 3);
    assert_eq!(test(0, 2, buffer_size), 2);
    // Publisher stops before using up last slot, last slot is reserved for signal
    assert_eq!(test(0, 3, buffer_size), 1);
    // Consumer catches up
    assert_eq!(test(3, 3, buffer_size), 4);
    // Publisher resizes here, new sequence value is 19 ( (6 % buffer_size) +
    // wrap_boundary(buffer_size) + 1).
    assert_eq!(test(3, 6, buffer_size), 1);
    let new_buffer_size = 8;
    assert_eq!(test(3, 19, new_buffer_size), 0);
}

#[test]
fn lib_test_calculate_available_publisher_resizing() {
    // Test a few in sequence:
    let test =
        |g, w, s| calculate_available_publisher_resizing(SequenceNumber(g), SequenceNumber(w), s);
    let buffer_size = 4;
    assert_eq!(test(0, 0, buffer_size), 4);
    assert_eq!(test(0, 1, buffer_size), 3);
    assert_eq!(test(0, 2, buffer_size), 2);
    // The publisher stops before using up last slot, last slot is reserved for signal
    assert_eq!(test(0, 3, buffer_size), 1);
    // The consumer catches up
    assert_eq!(test(3, 3, buffer_size), 4);
    // The publisher resizes here, new sequence value is 19 ( (6 % buffer_size) +
    // wrap_boundary(buffer_size) + 1).
    assert_eq!(test(3, 6, buffer_size), 1);
    let new_buffer_size = 8;
    assert_eq!(test(3, 19, new_buffer_size), 0);
}

fn sequence_overflow() {
    // The maximum buffer size is (usize::MAX+1) / wrap_boundary(1) (for example, 2^30 with the
    // current boundary of 4*buffer_size). For that size, wrap_boundary(buffer_size) - 1 would
    // evaluate to usize::MAX, and unsigned integer arithmetic will naturally take care of the
    // wrapping. The sequence will wrap to 0 at wrap_boundary(buffer_size), i.e. usize::MAX + 1.
    let exp = log2(wrap_boundary(1));
    let max_buffer_size: usize = 1 << (std::mem::size_of::<usize>() * 8 - exp);

    let mut table = SequenceTable::new();
    let mut s = SequenceOwner::new(&mut table);
    assert_eq!(s.get(&table).value(), SEQUENCE_INITIAL);

    // Add 1
    s.advance_and_flush(&mut table, 1, max_buffer_size);
    let incremented_value = s.get(&table).value();
    assert_eq!(incremented_value, SEQUENCE_INITIAL + 1);

    // Advance to max_buffer_size
    s.advance_and_flush(&mut table, max_buffer_size - incremented_value, max_buffer_size);
    assert_eq!(s.get(&table).value(), max_buffer_size);

    // Overflow to 4*max_buffer_size + 1 and confirm that it wrapped to 1
    s.advance_and_flush(&mut table, 3 * max_buffer_size + 1, max_buffer_size);
    assert_eq!(s.get(&table).value(), 1);
}

#[test]
fn disruptor_test_sequence_overflow() {
    sequence_overflow();
}

#[test]
fn lib_test_sequence_overflow() {
    sequence_overflow();
}

fn sequencereader() {
    // For the purposes of this test, it doesn't matter what the buffer size is, as long as it's
    // larger than the tested sequence numbers
    let buffer_size = 8192;

    let mut table = SequenceTable::new();
    let mut sequence = SequenceOwner::new(&mut table);
    let reader = sequence.clone_immut();
    assert!(0 == reader.get(&table).value());
    sequence.advance_and_flush(&mut table, 1, buffer_size);
    assert!(1 == reader.get(&table).value());
    sequence.advance_and_flush(&mut table, 11, buffer_size);
    assert!(12 == reader.get(&table).value());
}

#[test]
fn disruptor_test_sequencereader() {
    sequencereader();
}

#[test]
fn lib_test_sequencereader() {
    sequencereader();
}

#[test]
fn private_sequence_is_ahead_until_flushed() {
    let mut table = SequenceTable::new();
    let _first = SequenceOwner::new(&mut table);
    let mut second = SequenceOwner::new_from_sequence(&mut table, SequenceNumber(5));
    let reader = second.clone_immut().clone_immut();
    second.advance(2, 8);
    assert_eq!(second.get_owned().value(), 7);
    assert_eq!(reader.get(&table).value(), 5);
    second.flush(&mut table);
    assert_eq!(reader.get(&table).value(), 7);
    assert_eq!(second.get(&table).value(), 7);
}

#[test]
fn unwrapping_keeps_the_slot() {
    // Whether the value was 0, 4, 8 or 12, it will be unwrapped to 16
    for value in vec![0, 4, 8, 12] {
        let unwrapped = SequenceOwner::unwrap_number(SequenceNumber(value), 4);
        assert_eq!(unwrapped.value(), 16);
    }
    let mut table = SequenceTable::new();
    let mut owner = SequenceOwner::new_from_sequence(&mut table, SequenceNumber(6));
    owner.unwrap(4);
    assert_eq!(owner.get_owned().value(), 18);
    assert_eq!(owner.get_owned().as_index(4), SequenceNumber(6).as_index(4));
}

#[test]
fn advancing_wraps_at_four_times_the_size() {
    let mut table = SequenceTable::new();
    let mut owner = SequenceOwner::new(&mut table);
    owner.advance(15, 4);
    assert_eq!(owner.get_owned().value(), 15);
    owner.advance(1, 4);
    assert_eq!(owner.get_owned().value(), 0);
    owner.advance(10, 4);
    owner.advance(10, 4);
    assert_eq!(owner.get_owned().value(), 4);
}

#[test]
fn sequence_numbers_are_reduced_to_slots() {
    assert_eq!(SequenceNumber::initial().value(), 0);
    assert_eq!(SequenceNumber(13).as_index(8), 5);
    assert_eq!(wrap_boundary(8), 32);
    assert_eq!(log2(32), 5);
    assert_eq!(log2(1), 0);
    assert_eq!(SequenceNumber(5).wrapping_sub(3, 32).value(), 2);
    assert_eq!(SequenceNumber(2).wrapping_sub(3, 32).value(), 31);
    assert_eq!(SequenceNumber(2).wrapping_sub(3, 0).value(), usize::MAX);
}

#[test]
fn distances_survive_wrapping() {
    let size = 4;
    for consumer in 0..40 {
        for ahead in 0..size + 1 {
            let publisher = consumer + ahead;
            let gating = SequenceNumber(publisher % wrap_boundary(size));
            let waiting = SequenceNumber(consumer % wrap_boundary(size));
            assert_eq!(calculate_available_consumer(gating, waiting, size), ahead);
            assert_eq!(calculate_available_publisher(waiting, gating, size), size - ahead);
            assert_eq!(
                calculate_available_publisher_resizing(waiting, gating, size),
                size - ahead
            );
        }
    }
}

#[test]
fn the_slowest_dependency_decides() {
    let mut table = SequenceTable::new();
    let fast = SequenceOwner::new_from_sequence(&mut table, SequenceNumber(7));
    let slow = SequenceOwner::new_from_sequence(&mut table, SequenceNumber(5));
    let sequences = vec![fast.clone_immut(), slow.clone_immut()];
    let waiting = SequenceNumber(4);
    let consumer = ConsumerDependencies::from_vec(sequences.clone());
    assert_eq!(consumer.calculate_available(&table, waiting, 8), 1);
    let waiting = SequenceNumber(9);
    let publisher = PublisherDependencies { sequences: sequences.clone() };
    assert_eq!(publisher.calculate_available(&table, waiting, 8), 4);
    let publisher = ResizingPublisherDependencies { sequences: sequences.clone() };
    assert_eq!(publisher.calculate_available(&table, waiting, 8), 4);
    assert_eq!(
        calculate_available_list(waiting, &sequences, &table, 8, &calculate_available_publisher),
        4
    );
    let nothing = PublisherDependencies::default();
    assert_eq!(nothing.calculate_available(&table, SequenceNumber(3), 8), 5);
    let nothing = ResizingPublisherDependencies::default();
    assert_eq!(nothing.calculate_available(&table, SequenceNumber(8), 8), 0);
    let nothing = ConsumerDependencies::default();
    assert_eq!(nothing.calculate_available(&table, SequenceNumber(8), 8), 0);
}

#[test]
fn a_dependency_can_be_polled() {
    let mut table = SequenceTable::new();
    let mut publisher = SequenceOwner::new(&mut table);
    let availability = PublisherAvailability { sequence: publisher.clone_immut() };
    let mut pollable =
        PollableDependencyAsPollable::as_pollable(&availability, SequenceNumber(0), 4);
    assert_eq!(pollable.len_available(), 0);
    publisher.advance_and_flush(&mut table, 3, 4);
    assert_eq!(pollable.len_available(), 0);
    pollable.poll(&table);
    assert_eq!(pollable.len_available(), 3);
}

#[test]
fn ring_buffers_are_indexed_by_sequence() {
    let mut buffer = BoxedRingBufferData::<u8>::new(4);
    assert_eq!(RingBufferOps::len(&buffer), 4);
    buffer.set_sequence(SequenceNumber(6), 9);
    assert_eq!(buffer.as_slice().to_vec(), vec![0, 0, 9, 0]);
    assert_eq!(*buffer.get_sequence(SequenceNumber(2)), 9);
    *buffer.get_sequence_mut(SequenceNumber(15)) = 5;
    assert_eq!(buffer.as_mut_slice().to_vec(), vec![0, 0, 9, 5]);
    let mut fixed = RingBufferData::<u8, 2>::default();
    fixed.set_sequence(SequenceNumber(3), 7);
    assert_eq!(fixed.as_mut_slice().to_vec(), vec![0, 7]);
}

#[test]
fn reallocation_flags_hold_items() {
    let item = ReallocationFlag::Item(3);
    assert!(item.is_item());
    assert_eq!(*item.as_ref().unwrap(), 3);
    assert_eq!(item.unwrap(), 3);
    assert!(!ReallocationFlag::<u8>::BufferReallocated.is_item());
    assert!(!ReallocationFlag::<u8>::BufferReallocated.as_ref().is_item());
    assert_eq!(ReallocationFlag::<u8>::default().unwrap(), 0);
}
