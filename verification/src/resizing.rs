//! Publishers and consumers of a pipeline whose ring buffer is replaced by a larger one when the
//! pipeline does not move.
use crate::barrier;
use crate::barrier::{CommonSingleSequenceBarrier, SingleConsumerSequenceBarrier};
use crate::dependency;
use crate::dependency::{
    ConsumerDependencies, LenAvailable, Pollable, PollableDependency,
    ResizingPublisherDependencies,
};
use crate::memory::PipelineMemory;
use crate::owner::SequenceReader;
use crate::pipeline::{Consumer, ConsumerMut, InsertSingleConsumer, Publisher};
use crate::power;
use crate::protocol;
use crate::protocol::{Epoch, Mark, PipelineState, Stage};
use crate::ring_buffer;
use crate::ring_buffer::{BoxedRingBufferData, ReallocationFlag, RingBufferAsSlice};
use crate::sequence;
use crate::sequence::{SequenceNumber, SEQUENCE_INITIAL};
use crate::steps;
use crate::wait;
use crate::wait::{
    BlockingWaitStrategy, ConsumerWait, Notification, NotificationWaitStrategy, PollingWait,
    PollingWaitStrategy, ResizePhase, ResizeWait, TimeoutResizeWaitStrategy,
    DEFAULT_MAX_SPIN_TRIES_CONSUMER, DEFAULT_MAX_SPIN_TRIES_PUBLISHER, DEFAULT_RESIZE_TIMEOUT,
};
use core::marker::PhantomData;
use vstd::prelude::*;

verus! {

/// The memory of a pipeline with a resizable ring buffer.
pub type ResizingMemory<T> = PipelineMemory<BoxedRingBufferData<ReallocationFlag<T>>>;

/// The items as the publisher gave them.
pub open spec fn plain_items<T>(state: PipelineState<ReallocationFlag<T>>) -> Seq<T> {
    state.items.map_values(|flag: ReallocationFlag<T>| flag->Item_0)
}

/// The slot after the last item in the buffer of an epoch.
pub open spec fn signal_slot<T>(
    state: PipelineState<ReallocationFlag<T>>,
    epoch: int,
) -> ReallocationFlag<T> {
    state.buffers[epoch][state.slot_of(epoch, state.end_of(epoch))]
}

/// Every item is one, and as long as some consumer has not reached a buffer, the slot after the last
/// item in the buffer before it tells that there is a larger one.
pub open spec fn flags_wf<T>(state: PipelineState<ReallocationFlag<T>>) -> bool {
    &&& forall|at: int| 0 <= at < state.items.len() ==> (#[trigger] state.items[at]) is Item
    &&& forall|epoch: int|
        0 <= epoch < state.newest() && state.floor() <= state.end_of(epoch) ==> (
        #[trigger] signal_slot(state, epoch)) is BufferReallocated
}

/// Releasing a slot that holds an item keeps the flags right.
pub proof fn lemma_flags_published<T>(state: PipelineState<ReallocationFlag<T>>, value: T)
    requires
        state.wf(),
        flags_wf(state),
        state.free() >= 1,
    ensures
        ({
            let wrote = state.with_slot(
                state.newest(),
                state.head(),
                ReallocationFlag::Item(value),
            );
            let next = wrote.with_released(1);
            &&& flags_wf(wrote)
            &&& flags_wf(next)
            &&& plain_items(next) == plain_items(state).push(value)
        }),
{
    let item = ReallocationFlag::Item(value);
    let wrote = state.with_slot(state.newest(), state.head(), item);
    let next = wrote.with_released(1);
    steps::lemma_publishes(state, item);
    steps::lemma_publisher_writes(state, item);
    steps::lemma_shape_decides(state, wrote);
    assert forall|epoch: int|
        0 <= epoch < state.newest() && state.floor() <= state.end_of(epoch) implies (
    #[trigger] signal_slot(wrote, epoch)) is BufferReallocated by {
        assert(signal_slot(state, epoch) is BufferReallocated);
        assert(wrote.slot_of(epoch, state.end_of(epoch)) == state.slot_of(
            epoch,
            state.end_of(epoch),
        ));
    }
    assert forall|epoch: int|
        0 <= epoch < state.newest() && state.floor() <= state.end_of(epoch) implies (
    #[trigger] signal_slot(next, epoch)) is BufferReallocated by {
        assert(signal_slot(wrote, epoch) is BufferReallocated);
    }
    assert(plain_items(next) =~= plain_items(state).push(value));
}

/// Replacing the item that a consumer is processing keeps the flags right.
proof fn lemma_flags_replaced<T>(
    state: PipelineState<ReallocationFlag<T>>,
    stage: Stage,
    upstream: int,
    value: ReallocationFlag<T>,
)
    requires
        state.wf(),
        flags_wf(state),
        state.consumer_wf(stage, upstream),
        stage.position < state.end_of(stage.epoch),
        value is Item,
    ensures
        ({
            let next = state.with_item(stage.epoch, stage.position, value);
            &&& flags_wf(next)
            &&& plain_items(next) == plain_items(state).update(stage.position, value->Item_0)
        }),
{
    let next = state.with_item(stage.epoch, stage.position, value);
    steps::lemma_follows(state, stage.id, upstream);
    steps::lemma_consumer_writes(state, stage, upstream, value);
    steps::lemma_shape_decides(state, next);
    assert forall|epoch: int|
        0 <= epoch < state.newest() && state.floor() <= state.end_of(epoch) implies (
    #[trigger] signal_slot(next, epoch)) is BufferReallocated by {
        assert(signal_slot(state, epoch) is BufferReallocated);
        assert(next.slot_of(epoch, state.end_of(epoch)) == state.slot_of(
            epoch,
            state.end_of(epoch),
        ));
        if epoch == stage.epoch {
            assert(state.fits(epoch));
            protocol::lemma_slots_differ(state, epoch, stage.position, state.end_of(epoch));
            protocol::lemma_value_bounds(state, epoch, stage.position);
            protocol::lemma_value_bounds(state, epoch, state.end_of(epoch));
        }
    }
    assert(plain_items(next) =~= plain_items(state).update(stage.position, value->Item_0));
}

/// A consumer that moves on keeps the flags right.
proof fn lemma_flags_passed<T>(state: PipelineState<ReallocationFlag<T>>, id: int, mark: Mark)
    requires
        state.wf(),
        flags_wf(state),
        state.floor() <= state.with_mark(id, mark).floor(),
    ensures
        flags_wf(state.with_mark(id, mark)),
        plain_items(state.with_mark(id, mark)) == plain_items(state),
{
    let next = state.with_mark(id, mark);
    assert forall|epoch: int|
        0 <= epoch < next.newest() && next.floor() <= next.end_of(epoch) implies (
    #[trigger] signal_slot(next, epoch)) is BufferReallocated by {
        assert(signal_slot(state, epoch) is BufferReallocated);
    }
}

/// Adding a consumer keeps the flags right.
proof fn lemma_flags_joined<T>(state: PipelineState<ReallocationFlag<T>>, index: int, mark: Mark)
    requires
        state.wf(),
        flags_wf(state),
        state.floor() <= state.with_consumer(index, mark).floor(),
    ensures
        flags_wf(state.with_consumer(index, mark)),
        plain_items(state.with_consumer(index, mark)) == plain_items(state),
{
    let next = state.with_consumer(index, mark);
    assert forall|epoch: int|
        0 <= epoch < next.newest() && next.floor() <= next.end_of(epoch) implies (
    #[trigger] signal_slot(next, epoch)) is BufferReallocated by {
        assert(signal_slot(state, epoch) is BufferReallocated);
    }
}

/// Going on to a larger buffer keeps the flags right.
proof fn lemma_flags_reallocated<T>(
    state: PipelineState<ReallocationFlag<T>>,
    larger: Seq<ReallocationFlag<T>>,
)
    requires
        state.wf(),
        flags_wf(state),
        state.free() >= 1,
        larger.len() == 2 * state.size(state.newest()),
        2 * sequence::boundary(larger.len() as int) <= power::usize_range(),
        state.newest() >= 1 ==> state.epochs[state.newest()].start < state.head(),
    ensures
        flags_wf(state.with_buffer(ReallocationFlag::BufferReallocated, larger)),
        plain_items(state.with_buffer(ReallocationFlag::BufferReallocated, larger))
            == plain_items(state),
{
    let signal = ReallocationFlag::BufferReallocated;
    let next = state.with_buffer(signal, larger);
    steps::lemma_publisher_reallocates(state, signal, larger);
    assert forall|epoch: int|
        0 <= epoch < next.newest() && next.floor() <= next.end_of(epoch) implies (
    #[trigger] signal_slot(next, epoch)) is BufferReallocated by {
        assert(next.slot_of(epoch, next.end_of(epoch)) == state.slot_of(
            epoch,
            next.end_of(epoch),
        ));
        if epoch < state.newest() {
            assert(signal_slot(state, epoch) is BufferReallocated);
        }
    }
}

/// What is to be said of the allocation of a larger buffer.
#[derive(Debug, Clone, Copy, PartialEq, Eq, Structural)]
pub struct Reallocation {
    pub current_size: usize,
    pub new_size: usize,
    pub batch_size: usize,
    pub sequence: usize,
    pub unwrapped_sequence: usize,
}

/// Resizing variant of
/// [`SinglePublisherSequenceBarrier`](crate::barrier::SinglePublisherSequenceBarrier).
pub struct SingleResizingPublisherSequenceBarrier {
    pub sb: CommonSingleSequenceBarrier<ResizingPublisherDependencies>,
    pub wait_strategy: TimeoutResizeWaitStrategy,
}

impl SingleResizingPublisherSequenceBarrier {
    /// The barrier fits the state of the pipeline. One free slot is always kept in reserve.
    pub open spec fn wf<T>(&self, state: PipelineState<ReallocationFlag<T>>) -> bool {
        &&& state.wf()
        &&& flags_wf(state)
        &&& state.publisher_wf(self.sb.stage())
        &&& barrier::waits_for_last(self.sb.dependencies.sequences@, state)
        &&& state.free() >= 1
        &&& state.newest() >= 1 ==> state.epochs[state.newest()].start < state.head()
            || self.sb.cached_available >= 2
    }

    /// The barrier fits the state of a pipeline with a single buffer, but for the number of slots that
    /// it takes to be free, and the one in reserve.
    pub open spec fn placed<T>(&self, state: PipelineState<ReallocationFlag<T>>) -> bool {
        &&& state.wf()
        &&& flags_wf(state)
        &&& state.publisher_wf(Stage { cached: 0, ..self.sb.stage() })
        &&& barrier::waits_for_last(self.sb.dependencies.sequences@, state)
        &&& state.newest() == 0
    }

    /// The publisher can look at the stages it waits for. A publisher without any consumer cannot
    /// once it has gone on to a larger buffer.
    pub open spec fn can_look<T>(&self, state: PipelineState<ReallocationFlag<T>>) -> bool {
        state.chain.len() == 1 ==> state.newest() == 0
    }

    /// The first stage of a new pipeline.
    pub fn new<T>(
        ring_buffer: BoxedRingBufferData<ReallocationFlag<T>>,
        wait_strategy: TimeoutResizeWaitStrategy,
    ) -> (result: (Self, ResizingMemory<T>))
        requires
            power::is_power_of_two(ring_buffer.slots().len() as int),
            2 * sequence::boundary(ring_buffer.slots().len() as int) <= power::usize_range(),
        ensures
            result.1@ == PipelineState::initial(ring_buffer.slots()),
            result.0.wf(result.1@),
            result.0.sb.cached_available == 0,
            result.0.sb.stage().value == 0,
            result.0.wait_strategy == wait_strategy,
    {
        proof {
            steps::lemma_initial_state(ring_buffer.slots());
            power::lemma_power_of_two_positive(ring_buffer.slots().len() as int);
        }
        let (memory, sequence) = PipelineMemory::new(ring_buffer);
        let sb = CommonSingleSequenceBarrier::new(
            0,
            sequence,
            ResizingPublisherDependencies::default(),
            0,
            Ghost(0int),
        );
        (SingleResizingPublisherSequenceBarrier { sb, wait_strategy }, memory)
    }

    /// What a barrier that fits the state of its pipeline may do there.
    proof fn lemma_refers<T>(&self, state: PipelineState<ReallocationFlag<T>>)
        requires
            self.wf(state),
        ensures
            self.sb.refers_to(state),
            self.sb.stage().value == state.value_at(state.newest(), state.head()),
            0 <= self.sb.stage().value < sequence::boundary(state.size(state.newest())),
            0 <= state.slot_of(state.newest(), state.head()) < state.size(state.newest()),
            1 <= state.size(state.newest()),
    {
        protocol::lemma_value_bounds(state, state.newest(), state.head());
    }

    /// What looking at the last stage shows is never more than the number of free slots, and exactly
    /// that number if the last stage uses the same buffer.
    proof fn lemma_polls<T>(&self, memory: &ResizingMemory<T>)
        requires
            self.wf(memory@),
            self.can_look(memory@),
        ensures
            self.sb.can_poll(memory),
            0 <= self.sb.polled(memory) <= memory@.free(),
            memory@.chain.len() == 1 || memory@.marks[memory@.chain.last()].epoch
                == memory@.newest() ==> self.sb.polled(memory) == memory@.free(),
    {
        let state = memory@;
        self.lemma_refers(state);
        let dependencies = self.sb.dependencies.sequences@;
        let gating = dependency::readings(dependencies, state.published);
        let waiting = SequenceNumber(self.sb.stage().value as usize);
        let size = state.size(state.newest());
        if state.chain.len() == 1 {
            assert(state.fits(0));
            vstd::arithmetic::div_mod::lemma_small_mod(
                state.head() as nat,
                sequence::boundary(state.size(0)) as nat,
            );
        } else {
            steps::lemma_publisher_polls(state);
            assert(state.mark_wf(state.chain.last()));
            let numbers = gating.map_values(
                |number: usize|
                    sequence::available_to_resizing_publisher(
                        number as int,
                        waiting.0 as int,
                        size,
                    ),
            );
            assert(numbers.len() == 1);
            assert(self.sb.polled(memory) == numbers[0]) by {
                assert(gating.map_values(
                    |number: usize|
                        (|g: int|
                            sequence::available_to_resizing_publisher(
                                g,
                                waiting.0 as int,
                                size,
                            ))(number as int),
                ) =~= numbers);
            }
        }
    }

    /// Begins a wait for a number of slots. It counts the slot in reserve, which is needed besides
    /// them.
    pub fn start_wait(&self, min_available: usize) -> (wait: ResizeWait)
        requires
            min_available < usize::MAX,
        ensures
            wait == (ResizeWait {
                min_available: (min_available + 1) as usize,
                timeout: self.wait_strategy.timeout,
                max_spin_tries: self.wait_strategy.wait_strategy.max_spin_tries_consumer,
                end_time: 0,
                previous_available: 0,
                phase: ResizePhase::Start,
            }),
    {
        self.wait_strategy.try_wait_for_consumers(min_available + 1)
    }

    /// What a wait of the publisher looks at, including the slot in reserve.
    pub fn poll_while_waiting<T>(&mut self, memory: &ResizingMemory<T>)
        requires
            old(self).wf(memory@),
            old(self).can_look(memory@),
            old(self).known_available() < 1,
        ensures
            final(self).wf(memory@),
            final(self).sb.cached_available == old(self).sb.polled(memory),
            *final(self) == (SingleResizingPublisherSequenceBarrier {
                sb: CommonSingleSequenceBarrier {
                    cached_available: final(self).sb.cached_available,
                    ..old(self).sb
                },
                ..*old(self)
            }),
    {
        proof {
            self.lemma_polls(memory);
        }
        self.sb.poll(memory);
    }

    /// Ends a wait for a number of slots: if they have not become available, reallocates a larger
    /// buffer, and says so.
    pub fn wait_for_slots<T: Default>(
        &mut self,
        memory: &mut ResizingMemory<T>,
        min_available: usize,
    ) -> (result: Option<Reallocation>)
        requires
            old(self).wf(old(memory)@),
            old(self).known_available() < min_available ==> {
                &&& 2 * sequence::boundary(2 * old(memory)@.size(old(memory)@.newest()))
                    <= power::usize_range()
                &&& old(memory)@.newest() >= 1
                    ==> old(memory)@.epochs[old(memory)@.newest()].start < old(memory)@.head()
            },
        ensures
            final(self).wf(final(memory)@),
            final(self).wait_strategy == old(self).wait_strategy,
            final(self).sb.dependencies == old(self).sb.dependencies,
            result is Some <==> old(self).known_available() < min_available,
            result is None ==> *final(self) == *old(self) && final(memory)@ == old(memory)@,
            result is Some ==> {
                &&& exists|larger: Seq<ReallocationFlag<T>>|
                    {
                        &&& larger.len() == 2 * old(memory)@.size(old(memory)@.newest())
                        &&& ring_buffer::all_default(larger)
                        &&& final(memory)@ == #[trigger] old(memory)@.with_buffer(
                            ReallocationFlag::BufferReallocated,
                            larger,
                        )
                    }
                &&& final(self).sb.cached_available == result->Some_0.new_size
                &&& result->Some_0.current_size == old(memory)@.size(old(memory)@.newest())
                &&& result->Some_0.new_size == 2 * result->Some_0.current_size
                &&& result->Some_0.new_size >= 2
                &&& result->Some_0.batch_size == min_available
                &&& result->Some_0.sequence == old(self).sb.stage().value
                &&& result->Some_0.unwrapped_sequence == final(self).sb.stage().value
            },
            steps::others_keep(old(memory)@, final(memory)@, 0),
            plain_items(final(memory)@) == plain_items(old(memory)@),
    {
        if self.len_available() >= min_available {
            return None;
        }
        // The wait timed out, so allocate a new buffer here.
        let ghost state = memory@;
        let ghost signal = ReallocationFlag::<T>::BufferReallocated;
        proof {
            self.lemma_refers(state);
        }
        let current_size: usize = self.sb.capacity(memory);
        // Make the new buffer twice as large
        let new_size: usize = 2 * current_size;
        // If the sequence has been wrapped, then it is temporarily going to be less than consumer
        // sequence numbers in the other stages of the pipeline. If we allocate a larger buffer and
        // publish into it, then the publisher's sequence can overtake the other sequences in the
        // pipeline, which would break the availability calculations. Unwrapping the publisher's
        // sequence ensures that availability calculations remain correct throughout the reallocation
        // transition.
        let old_sequence = self.sb.current_sequence();
        self.sb.sequence.unwrap(current_size);
        let unwrapped_sequence = self.sb.current_sequence();
        proof {
            crate::owner::law_unwrap_keeps_slot(old_sequence.0 as int, current_size as int);
        }
        // Signal to consumers that there's a larger buffer to transition to.
        self.sb.set(memory, ReallocationFlag::BufferReallocated);
        let larger = BoxedRingBufferData::<ReallocationFlag<T>>::new(new_size);
        let ghost slots = larger.slots();
        let ghost epoch = Epoch {
            start: state.head(),
            base: sequence::boundary(state.size(state.newest())) + state.slot_of(
                state.newest(),
                state.head(),
            ),
        };
        self.sb.ring_buffer = memory.reallocate(larger, Ghost(epoch));
        // Modify the cached availability value to facilitate usage of the entire newly allocated
        // buffer. The safety of this change depends on knowing that the publisher can only reach the
        // wrap boundary after the rest of the pipeline has transitioned to the larger buffer. To
        // facilitate this constraint, the wrap boundary is 4 times the buffer size, and the unwrap
        // function leaves the sequence value in between 2 and 2.5 times the new buffer size. Thus,
        // the publisher will only wrap after publishing more than buffer_size items, and that will
        // require it to wait for consumers to catch up. Alternatively, if consumers don't catch up,
        // the publisher may reallocate another buffer, but in doing so, it will continue to avoid
        // wrapping its sequence number.
        self.sb.set_cached_available(new_size);
        proof {
            let next = state.with_buffer(signal, slots);
            assert(memory@ =~= next);
            steps::lemma_publisher_reallocates(state, signal, slots);
            lemma_flags_reallocated(state, slots);
        }
        Some(
            Reallocation {
                current_size,
                new_size,
                batch_size: min_available,
                sequence: old_sequence.value(),
                unwrapped_sequence: unwrapped_sequence.value(),
            },
        )
    }

    /// Stores a value in the publisher's next slot.
    pub fn set<T>(&mut self, memory: &mut ResizingMemory<T>, value: T)
        requires
            old(self).wf(old(memory)@),
            old(self).known_available() >= 1,
        ensures
            *final(self) == *old(self),
            final(self).wf(final(memory)@),
            final(memory)@ == old(memory)@.with_slot(
                old(memory)@.newest(),
                old(memory)@.head(),
                ReallocationFlag::Item(value),
            ),
            steps::others_keep(old(memory)@, final(memory)@, 0),
    {
        let ghost state = memory@;
        let ghost item = ReallocationFlag::Item(value);
        proof {
            self.lemma_refers(state);
            steps::lemma_publisher_writes(state, item);
            steps::lemma_shape_decides(
                state,
                state.with_slot(state.newest(), state.head(), item),
            );
            lemma_flags_published(state, value);
        }
        self.sb.set(memory, ReallocationFlag::Item(value));
    }

    /// Gets the item stored in the publisher's next slot.
    pub fn get<'a, T>(&self, memory: &'a ResizingMemory<T>) -> (item: &'a T)
        requires
            self.wf(memory@),
            memory@.next_slots(1)[0] is Item,
        ensures
            *item == memory@.next_slots(1)[0]->Item_0,
    {
        proof {
            self.lemma_refers(memory@);
        }
        let flag = self.sb.get(memory);
        flag.as_ref().unwrap()
    }

    /// Takes the item stored in the publisher's next slot, leaving the default value.
    pub fn take<T: Default>(&mut self, memory: &mut ResizingMemory<T>) -> (item: T)
        requires
            old(self).wf(old(memory)@),
            old(self).known_available() >= 1,
            old(memory)@.next_slots(1)[0] is Item,
        ensures
            item == old(memory)@.next_slots(1)[0]->Item_0,
            *final(self) == *old(self),
            final(self).wf(final(memory)@),
            exists|left: T|
                call_ensures(T::default, (), left) && final(memory)@
                    == #[trigger] old(memory)@.with_slot(
                    old(memory)@.newest(),
                    old(memory)@.head(),
                    ReallocationFlag::Item(left),
                ),
            steps::others_keep(old(memory)@, final(memory)@, 0),
    {
        let ghost state = memory@;
        let left = T::default();
        proof {
            let item = ReallocationFlag::Item(left);
            self.lemma_refers(state);
            steps::lemma_publisher_writes(state, item);
            steps::lemma_shape_decides(
                state,
                state.with_slot(state.newest(), state.head(), item),
            );
            lemma_flags_published(state, left);
        }
        let flag = self.sb.replace(memory, ReallocationFlag::Item(left), Ghost(state.items));
        proof {
            assert(memory@ =~= state.with_slot(
                state.newest(),
                state.head(),
                ReallocationFlag::Item(left),
            ));
        }
        flag.unwrap()
    }

    /// Makes the next slots, which hold items, available to downstream consumers, and returns what is
    /// to be done to wake up those that sleep.
    pub fn release_slots_unchecked<T>(&mut self, memory: &mut ResizingMemory<T>, n: usize) -> (
    notification: Notification)
        requires
            old(self).wf(old(memory)@),
            n <= old(self).known_available(),
            forall|i: int|
                0 <= i < n ==> (#[trigger] old(memory)@.next_slots(n as int)[i]) is Item,
        ensures
            wait::owes(notification, true),
            final(self).wf(final(memory)@),
            final(self).known_available() == old(self).known_available() - n,
            final(self).sb.cached_available == old(self).sb.cached_available - n,
            final(self).sb.dependencies == old(self).sb.dependencies,
            final(self).wait_strategy == old(self).wait_strategy,
            final(memory)@ == (if n == 0 {
                old(memory)@
            } else {
                old(memory)@.with_released(n as int)
            }),
            steps::others_keep(old(memory)@, final(memory)@, 0),
    {
        if n == 0 {
            // Consumers must not see the jump of the sequence to a larger buffer before there is an
            // item in it.
            return self.wait_strategy.notify_all_waiters();
        }
        let ghost state = memory@;
        let ghost stage = self.sb.stage();
        let ghost newest = state.newest();
        let ghost items = state.items + state.next_slots(n as int);
        proof {
            self.lemma_refers(state);
            steps::lemma_publisher_releases(state, n as int);
            protocol::lemma_value_advances(state, newest, state.head(), n as int);
            protocol::lemma_value_bounds(state, newest, state.head() + n);
        }
        self.sb.release_slots_unchecked(memory, n, Ghost(items));
        proof {
            let next = state.with_released(n as int);
            assert(memory@ =~= next);
            assert(self.sb.stage() == (Stage {
                position: stage.position + n,
                value: state.value_at(stage.epoch, stage.position + n),
                cached: stage.cached - n,
                ..stage
            }));
            assert forall|at: int| 0 <= at < items.len() implies (#[trigger] items[at]) is Item by {
                if at >= state.items.len() {
                    assert(state.next_slots(n as int)[at - state.items.len()] is Item);
                }
            }
            assert forall|epoch: int|
                0 <= epoch < next.newest() && next.floor() <= next.end_of(epoch) implies (
            #[trigger] signal_slot(next, epoch)) is BufferReallocated by {
                assert(signal_slot(state, epoch) is BufferReallocated);
            }
        }
        self.wait_strategy.notify_all_waiters()
    }

    /// Adds the first consumer of the pipeline.
    ///
    /// For now, this type only supports a single call to this function, before any items have been
    /// published.
    pub fn insert_single_consumer<T>(&mut self, memory: &mut ResizingMemory<T>) -> (consumer:
        SingleResizingConsumerSequenceBarrier)
        requires
            old(self).wf(old(memory)@),
            old(memory)@.chain.len() == 1,
            old(self).sb.stage().value == 0,
        ensures
            final(memory)@ == old(memory)@.with_consumer(1, Mark { at: 0, epoch: 0 }),
            final(memory)@.free() == old(memory)@.free(),
            final(self).wf(final(memory)@),
            final(self).sb.stage() == old(self).sb.stage(),
            final(self).wait_strategy == old(self).wait_strategy,
            consumer.wf(final(memory)@),
            consumer.cb.settled(final(memory)@),
            consumer.cb.sb.stage() == (Stage { id: 1, position: 0, epoch: 0, value: 0, cached: 0 }),
            consumer.cb.upstream() == 0,
            consumer.cb.wait_strategy == old(self).wait_strategy,
            steps::others_keep(old(memory)@, final(memory)@, 1),
            plain_items(final(memory)@) == plain_items(old(memory)@),
    {
        proof {
            if memory@.newest() >= 1 {
                protocol::lemma_values_ahead(memory@, memory@.newest(), memory@.head());
            }
        }
        self.insert_first_consumer(memory)
    }

    /// Adds the first consumer of the pipeline, which gets everything that has been published.
    pub(crate) fn insert_first_consumer<T>(&mut self, memory: &mut ResizingMemory<T>) -> (consumer:
        SingleResizingConsumerSequenceBarrier)
        requires
            old(self).placed(old(memory)@),
            old(memory)@.chain.len() == 1,
        ensures
            final(memory)@ == old(memory)@.with_consumer(1, Mark { at: 0, epoch: 0 }),
            final(memory)@.free() == old(memory)@.free(),
            final(self).placed(final(memory)@),
            final(self).sb.stage() == old(self).sb.stage(),
            final(self).wait_strategy == old(self).wait_strategy,
            consumer.wf(final(memory)@),
            consumer.cb.settled(final(memory)@),
            consumer.cb.sb.stage() == (Stage { id: 1, position: 0, epoch: 0, value: 0, cached: 0 }),
            consumer.cb.upstream() == 0,
            consumer.cb.wait_strategy == old(self).wait_strategy,
            steps::others_keep(old(memory)@, final(memory)@, 1),
            plain_items(final(memory)@) == plain_items(old(memory)@),
    {
        let ghost state = memory@;
        let ghost mark = Mark { at: 0, epoch: 0 };
        proof {
            protocol::lemma_value_bounds(state, 0, 0);
            vstd::arithmetic::div_mod::lemma_small_mod(
                0,
                sequence::boundary(state.size(0)) as nat,
            );
            assert(state.mark_wf(0));
            steps::lemma_consumer_joins(state, 1, mark);
            lemma_flags_joined(state, 1, mark);
        }
        let mut sequences: Vec<SequenceReader> = Vec::new();
        sequences.push(self.sb.sequence.clone_immut());
        let cb = SingleConsumerSequenceBarrier::new(
            memory,
            self.sb.ring_buffer,
            SequenceNumber(SEQUENCE_INITIAL),
            ConsumerDependencies::from_vec(sequences),
            0,
            self.wait_strategy,
            self.sb.sequence.clone_immut(),
            Ghost(1int),
            Ghost(mark),
        );
        // The list of dependencies is an empty Vec now, to be populated with a reference to the new
        // consumer's sequence.
        self.sb.dependencies.sequences.push(cb.sb.sequence.clone_immut());
        assert(memory@ =~= state.with_consumer(1, mark));
        SingleResizingConsumerSequenceBarrier { cb }
    }
}

impl LenAvailable for SingleResizingPublisherSequenceBarrier {
    open spec fn known_available(&self) -> int {
        if self.sb.cached_available >= 1 {
            self.sb.cached_available - 1
        } else {
            0
        }
    }

    fn len_available(&self) -> (available: usize) {
        // Don't expose the reserved slot. This ensures that waiting maintains the extra slot.
        self.sb.len_available().saturating_sub(1)
    }
}

impl<T> Pollable<ResizingMemory<T>> for SingleResizingPublisherSequenceBarrier {
    open spec fn can_poll(&self, memory: &ResizingMemory<T>) -> bool {
        self.wf(memory@) && self.can_look(memory@)
    }

    open spec fn polled(&self, memory: &ResizingMemory<T>) -> int {
        let seen = self.sb.polled(memory);
        if seen - 1 > self.known_available() {
            seen - 1
        } else {
            self.known_available()
        }
    }

    fn poll(&mut self, memory: &ResizingMemory<T>)
        ensures
            final(self).wf(memory@),
            *final(self) == (SingleResizingPublisherSequenceBarrier {
                sb: CommonSingleSequenceBarrier {
                    cached_available: final(self).sb.cached_available,
                    ..old(self).sb
                },
                ..*old(self)
            }),
    {
        proof {
            self.lemma_polls(memory);
        }
        // If `cached_available` was manually set during a reallocation, calls to this function
        // shouldn't overwrite it with a lower value.
        let available: usize = self.sb.dependencies.calculate_available(
            memory.sequences(),
            self.sb.sequence.get_owned(),
            self.sb.capacity(memory),
        );
        if available > self.sb.cached_available {
            self.sb.set_cached_available(available);
        }
    }
}

/// A consumer after it has followed the publisher into the next buffer. What it believes to be
/// available has been inflated by the jump of the publisher's sequence number; where the jump cannot be
/// taken back, the one slot that is certain is left.
pub open spec fn switched<S>(state: PipelineState<S>, stage: Stage) -> Stage {
    let size = state.size(stage.epoch);
    let value = sequence::boundary(size) + stage.value % size;
    let jump = value - stage.value;
    Stage {
        epoch: stage.epoch + 1,
        value,
        cached: if stage.cached > jump {
            stage.cached - jump
        } else {
            1
        },
        ..stage
    }
}

/// A consumer with the buffer that holds its next item.
pub open spec fn caught_up<S>(state: PipelineState<S>, stage: Stage) -> Stage {
    if stage.position < state.end_of(stage.epoch) {
        stage
    } else {
        switched(state, stage)
    }
}

/// A consumer after it has passed its next item, which it may have found in the next buffer.
pub open spec fn passed<S>(state: PipelineState<S>, stage: Stage) -> Stage {
    let ready = caught_up(state, stage);
    Stage {
        position: ready.position + 1,
        value: state.value_at(ready.epoch, ready.position + 1),
        cached: ready.cached - 1,
        ..ready
    }
}

/// Resizing-aware consumer barrier.
pub struct SingleResizingConsumerSequenceBarrier {
    pub cb: SingleConsumerSequenceBarrier<TimeoutResizeWaitStrategy>,
}

impl SingleResizingConsumerSequenceBarrier {
    /// The barrier fits the state of the pipeline.
    pub open spec fn wf<T>(&self, state: PipelineState<ReallocationFlag<T>>) -> bool {
        self.cb.wf(state) && flags_wf(state)
    }

    /// What the consumer knows of itself.
    pub open spec fn stage(&self) -> Stage {
        self.cb.sb.stage()
    }

    /// The stage after it has looked at the stage ahead, if it knew of no available slot.
    pub open spec fn looked<S>(&self, state: PipelineState<S>) -> Stage {
        Stage {
            cached: if self.stage().cached >= 1 {
                self.stage().cached
            } else {
                sequence::available_to_consumer(
                    state.published[self.cb.upstream()] as int,
                    self.stage().value,
                    state.size(self.stage().epoch),
                )
            },
            ..self.stage()
        }
    }

    /// Begins a wait for slots.
    ///
    /// Only a single slot can be waited for, because the next slot could be the last one that was
    /// published in the current buffer.
    pub fn start_wait(&self, min_available: usize) -> (wait: ConsumerWait)
        requires
            min_available == 1,
        ensures
            wait == (ConsumerWait::ForPublisher {
                publisher: self.cb.wait_strategy.publisher_wait(1),
                dependencies: PollingWait {
                    min_available: 1,
                    max_tries: None::<usize>,
                    backoff: self.cb.wait_strategy.dependency_backoff(),
                    tries: 0,
                    polled: false,
                },
            }),
    {
        ConsumerWait::wait_for_slots(&self.cb.wait_strategy, min_available)
    }

    /// A consumer that knows of an available slot has one, and its current slot tells whether the
    /// item is in the next buffer.
    pub proof fn lemma_flag<T>(&self, state: PipelineState<ReallocationFlag<T>>)
        requires
            self.wf(state),
            self.cb.known_available() >= 1,
        ensures
            0 <= self.stage().position < state.marks[self.cb.upstream()].at <= state.items.len(),
            state.buffers[self.stage().epoch][state.slot_of(
                self.stage().epoch,
                self.stage().position,
            )] is Item <==> self.stage().position < state.end_of(self.stage().epoch),
            self.stage().position >= state.end_of(self.stage().epoch) ==> self.stage().epoch
                < state.newest() && self.stage().position == state.epochs[self.stage().epoch
                + 1].start,
    {
        let stage = self.stage();
        let upstream = self.cb.upstream();
        steps::lemma_follows(state, stage.id, upstream);
        if state.marks[upstream].epoch != stage.epoch {
            let later = state.marks[upstream].epoch;
            assert(state.epochs[stage.epoch + 1].start <= state.epochs[later].start) by {
                if stage.epoch + 1 < later {
                    assert(state.epochs[stage.epoch + 1].start < state.epochs[later].start);
                }
            }
        }
        if stage.position < state.end_of(stage.epoch) {
            assert(state.holds(stage.epoch, stage.position));
            assert(state.end_of(stage.epoch) <= state.head()) by {
                if stage.epoch < state.newest() {
                    assert(state.epochs[stage.epoch + 1].start
                        <= state.epochs[state.newest()].start) by {
                        if stage.epoch + 1 < state.newest() {
                            assert(state.epochs[stage.epoch + 1].start
                                < state.epochs[state.newest()].start);
                        }
                    }
                }
            }
            assert(state.items[stage.position] is Item);
        } else {
            assert(signal_slot(state, stage.epoch) is BufferReallocated);
        }
    }

    /// Alters this barrier's sequence to follow the same path that the publisher's took when it
    /// allocated a new buffer. This is necessary when following buffer reallocations to ensure that
    /// downstream consumers take from the same slots that the publisher has written to.
    ///
    /// # Arguments
    ///
    /// * old_buffer_size - The ring buffer's size before the reallocation occurred.
    pub fn unwrap_sequence(&mut self, old_buffer_size: usize)
        requires
            sequence::is_buffer_size(old_buffer_size as int),
            5 * old_buffer_size <= power::usize_range(),
            old(self).stage().value < sequence::boundary(old_buffer_size as int),
        ensures
            final(self).cb.sb.dependencies == old(self).cb.sb.dependencies,
            final(self).cb.publisher_availability == old(self).cb.publisher_availability,
            final(self).cb.wait_strategy == old(self).cb.wait_strategy,
            final(self).stage() == ({
                let stage = old(self).stage();
                let value = sequence::boundary(old_buffer_size as int) + stage.value
                    % (old_buffer_size as int);
                Stage {
                    value,
                    cached: if stage.cached > value - stage.value {
                        stage.cached - (value - stage.value)
                    } else {
                        1
                    },
                    ..stage
                }
            }),
    {
        let original_sequence: usize = self.cb.sb.current_sequence().value();
        proof {
            power::lemma_power_of_two_positive(old_buffer_size as int);
            crate::owner::law_unwrap_keeps_slot(original_sequence as int, old_buffer_size as int);
        }
        self.cb.sb.sequence.unwrap(old_buffer_size);
        // The cached availability number has been artificially inflated, at this point, by the
        // publisher's sequence number being unwrapped. It needs to be adjusted to compensate for
        // this.
        let unwrapped_sequence: usize = self.cb.sb.current_sequence().value();
        // Use the real availability value, including the reserved slot
        let current_available: usize = self.cb.len_available();
        let unwrap_difference: usize = unwrapped_sequence - original_sequence;
        // The current cached availability value may be less than the difference if the consumer's
        // sequence has wrapped since it last re-checked availability: the consumer's sequence value
        // is closer to the publisher's before the wrapping occurs, which results in a less inflated
        // availability value. In this case, the value is reset to 1, which forces the actual number
        // of available slots to be refreshed before the next item is processed.
        let actual_cached_available: usize = if current_available <= unwrap_difference {
            1
        } else {
            current_available - unwrap_difference
        };
        self.cb.sb.set_cached_available(actual_cached_available);
    }

    /// Check for a reallocation flag in the current slot. If so, adjust our sequence to match the
    /// change that would have happened to the publisher's sequence, and adjust the cached
    /// availability value to compensate for that jump.
    pub fn try_switch_next<T>(&mut self, memory: &ResizingMemory<T>)
        requires
            old(self).wf(memory@),
            old(self).cb.known_available() >= 1,
        ensures
            final(self).wf(memory@),
            final(self).stage() == caught_up(memory@, old(self).stage()),
            final(self).cb.known_available() >= 1,
            final(self).stage().position < memory@.end_of(final(self).stage().epoch),
            final(self).cb.sb.dependencies == old(self).cb.sb.dependencies,
            final(self).cb.publisher_availability == old(self).cb.publisher_availability,
            final(self).cb.wait_strategy == old(self).cb.wait_strategy,
    {
        let ghost state = memory@;
        let ghost stage = self.stage();
        let ghost upstream = self.cb.upstream();
        proof {
            self.lemma_flag(state);
            protocol::lemma_value_bounds(state, stage.epoch, stage.position);
        }
        let old_buffer_size: usize = self.cb.sb.capacity(memory);
        let flag = self.cb.get(memory);
        if !flag.is_item() {
            proof {
                steps::lemma_consumer_switches(state, stage, upstream);
            }
            // Switch to newly allocated buffer
            match memory.get_next(self.cb.sb.ring_buffer) {
                Some(next) => {
                    self.cb.sb.ring_buffer = next;
                },
                None => {},
            }
            // This is necessary to dereference the same slots that the publisher has written to. In
            // other words, downstream consumers must retrace the publisher's steps.
            self.unwrap_sequence(old_buffer_size);
        }
    }

    /// Gets the next item, switching to a larger buffer where that is where the item lies.
    pub fn get<'a, T>(&mut self, memory: &'a ResizingMemory<T>) -> (item: &'a T)
        requires
            old(self).wf(memory@),
            old(self).cb.known_available() >= 1,
        ensures
            *item == plain_items(memory@)[old(self).stage().position],
            final(self).wf(memory@),
            final(self).stage() == caught_up(memory@, old(self).stage()),
            final(self).cb.known_available() >= 1,
            final(self).stage().position < memory@.end_of(final(self).stage().epoch),
            final(self).cb.sb.dependencies == old(self).cb.sb.dependencies,
            final(self).cb.publisher_availability == old(self).cb.publisher_availability,
            final(self).cb.wait_strategy == old(self).cb.wait_strategy,
    {
        proof {
            self.lemma_flag(memory@);
        }
        let flag = self.cb.get(memory);
        let reallocation_occurred: bool = !flag.is_item();
        if reallocation_occurred {
            self.try_switch_next(memory);
        }
        let flag = self.cb.get(memory);
        flag.as_ref().unwrap()
    }

    /// Takes the next item, moving it out of the ring buffer and leaving the default value.
    pub fn take<T: Default>(&mut self, memory: &mut ResizingMemory<T>) -> (item: T)
        requires
            old(self).wf(old(memory)@),
            old(self).cb.known_available() >= 1,
        ensures
            item == plain_items(old(memory)@)[old(self).stage().position],
            final(self).wf(final(memory)@),
            final(self).stage() == caught_up(old(memory)@, old(self).stage()),
            final(self).cb.known_available() >= 1,
            final(self).stage().position < final(memory)@.end_of(final(self).stage().epoch),
            final(self).cb.sb.dependencies == old(self).cb.sb.dependencies,
            final(self).cb.publisher_availability == old(self).cb.publisher_availability,
            final(self).cb.wait_strategy == old(self).cb.wait_strategy,
            exists|left: T|
                {
                    &&& call_ensures(T::default, (), left)
                    &&& final(memory)@ == #[trigger] old(memory)@.with_item(
                        final(self).stage().epoch,
                        final(self).stage().position,
                        ReallocationFlag::Item(left),
                    )
                    &&& plain_items(final(memory)@) == plain_items(old(memory)@).update(
                        old(self).stage().position,
                        left,
                    )
                },
            steps::same_shape(old(memory)@, final(memory)@),
            steps::others_keep(old(memory)@, final(memory)@, old(self).stage().id),
    {
        let ghost state = memory@;
        proof {
            self.lemma_flag(state);
        }
        self.try_switch_next(memory);
        let ghost stage = self.stage();
        let flag = self.cb.take(memory);
        proof {
            assert(state.items[stage.position] is Item);
            let left = choose|left: ReallocationFlag<T>|
                call_ensures(ReallocationFlag::<T>::default, (), left) && memory@
                    == #[trigger] state.with_item(stage.epoch, stage.position, left);
            lemma_flags_replaced(state, stage, self.cb.upstream(), left);
            assert(left == ReallocationFlag::Item(left->Item_0));
        }
        // After calling try_switch_next, it should be guaranteed that flag holds a real value,
        // whether or not the slot in the buffer was indicating that a reallocation occurred.
        flag.unwrap()
    }

    /// Stores a value in place of the item that the consumer is processing.
    pub fn set<T>(&mut self, memory: &mut ResizingMemory<T>, value: T)
        requires
            old(self).wf(old(memory)@),
            old(self).stage().position < old(memory)@.end_of(old(self).stage().epoch),
        ensures
            *final(self) == *old(self),
            final(self).wf(final(memory)@),
            final(memory)@ == old(memory)@.with_item(
                old(self).stage().epoch,
                old(self).stage().position,
                ReallocationFlag::Item(value),
            ),
            plain_items(final(memory)@) == plain_items(old(memory)@).update(
                old(self).stage().position,
                value,
            ),
            steps::others_keep(old(memory)@, final(memory)@, old(self).stage().id),
    {
        proof {
            lemma_flags_replaced(
                memory@,
                self.stage(),
                self.cb.upstream(),
                ReallocationFlag::Item(value),
            );
        }
        self.cb.set(memory, ReallocationFlag::Item(value));
    }

    /// Releases the item that the consumer has processed to the stages behind it.
    pub fn release_one_slot<T>(&mut self, memory: &mut ResizingMemory<T>)
        requires
            old(self).wf(old(memory)@),
            old(self).cb.known_available() >= 1,
            old(self).stage().position < old(memory)@.end_of(old(self).stage().epoch),
        ensures
            final(self).wf(final(memory)@),
            final(self).cb.settled(final(memory)@),
            final(self).stage() == (Stage {
                position: old(self).stage().position + 1,
                value: final(self).stage().value,
                cached: old(self).stage().cached - 1,
                ..old(self).stage()
            }),
            final(self).cb.sb.dependencies == old(self).cb.sb.dependencies,
            final(self).cb.publisher_availability == old(self).cb.publisher_availability,
            final(self).cb.wait_strategy == old(self).cb.wait_strategy,
            final(memory)@ == old(memory)@.with_mark(
                old(self).stage().id,
                Mark { at: old(self).stage().position + 1, epoch: old(self).stage().epoch },
            ),
            plain_items(final(memory)@) == plain_items(old(memory)@),
            steps::others_keep(old(memory)@, final(memory)@, old(self).stage().id),
            old(memory)@.free() <= final(memory)@.free(),
    {
        let ghost state = memory@;
        proof {
            self.lemma_flag(state);
        }
        self.cb.release_slots_unchecked(memory, 1);
        proof {
            lemma_flags_passed(
                state,
                old(self).stage().id,
                Mark { at: old(self).stage().position + 1, epoch: old(self).stage().epoch },
            );
        }
    }

    /// Passes the item that the consumer has processed. If it knows of no other item, and will have to
    /// wait, then its progress becomes visible to the stages behind it.
    pub fn pass_one_slot<T>(&mut self, memory: &mut ResizingMemory<T>)
        requires
            old(self).wf(old(memory)@),
            old(self).cb.known_available() >= 1,
            old(self).stage().position < old(memory)@.end_of(old(self).stage().epoch),
        ensures
            final(self).wf(final(memory)@),
            final(self).stage().cached == 0 ==> final(self).cb.settled(final(memory)@),
            final(self).stage() == (Stage {
                position: old(self).stage().position + 1,
                value: final(self).stage().value,
                cached: old(self).stage().cached - 1,
                ..old(self).stage()
            }),
            final(self).cb.sb.dependencies == old(self).cb.sb.dependencies,
            final(self).cb.publisher_availability == old(self).cb.publisher_availability,
            final(self).cb.wait_strategy == old(self).cb.wait_strategy,
            final(memory)@ == (if final(self).stage().cached == 0 {
                old(memory)@.with_mark(
                    old(self).stage().id,
                    Mark { at: old(self).stage().position + 1, epoch: old(self).stage().epoch },
                )
            } else {
                old(memory)@
            }),
            plain_items(final(memory)@) == plain_items(old(memory)@),
            steps::others_keep(old(memory)@, final(memory)@, old(self).stage().id),
            old(memory)@.free() <= final(memory)@.free(),
    {
        let ghost state = memory@;
        proof {
            self.lemma_flag(state);
        }
        self.cb.pass_slots(memory, 1);
        if self.cb.len_available() < 1 {
            self.cb.flush(memory);
            proof {
                lemma_flags_passed(
                    state,
                    old(self).stage().id,
                    Mark { at: old(self).stage().position + 1, epoch: old(self).stage().epoch },
                );
            }
        }
    }

    /// Adds a new pipeline stage directly ahead of this consumer.
    pub fn insert_single_consumer<T>(&mut self, memory: &mut ResizingMemory<T>) -> (consumer: Self)
        requires
            old(self).wf(old(memory)@),
            old(self).cb.settled(old(memory)@),
        ensures
            final(memory)@ == old(memory)@.with_consumer(
                old(memory)@.chain.index_of(old(self).stage().id),
                old(memory)@.marks[old(self).stage().id],
            ),
            final(self).wf(final(memory)@),
            final(self).cb.settled(final(memory)@),
            final(self).stage() == (Stage { cached: 0, ..old(self).stage() }),
            final(self).cb.upstream() == consumer.stage().id,
            final(self).cb.wait_strategy == old(self).cb.wait_strategy,
            consumer.wf(final(memory)@),
            consumer.cb.settled(final(memory)@),
            consumer.stage() == (Stage {
                id: old(memory)@.chain.len() as int,
                ..old(self).stage()
            }),
            consumer.cb.upstream() == old(self).cb.upstream(),
            consumer.cb.wait_strategy == old(self).cb.wait_strategy,
            plain_items(final(memory)@) == plain_items(old(memory)@),
            steps::others_keep(old(memory)@, final(memory)@, old(self).stage().id),
            final(memory)@.free() == old(memory)@.free(),
    {
        let ghost state = memory@;
        let cb = self.cb.insert_single_consumer(memory);
        proof {
            lemma_flags_joined(
                state,
                state.chain.index_of(old(self).stage().id),
                state.marks[old(self).stage().id],
            );
        }
        SingleResizingConsumerSequenceBarrier { cb }
    }
}

impl LenAvailable for SingleResizingConsumerSequenceBarrier {
    open spec fn known_available(&self) -> int {
        self.cb.known_available()
    }

    fn len_available(&self) -> (available: usize) {
        self.cb.len_available()
    }
}

impl<T> Pollable<ResizingMemory<T>> for SingleResizingConsumerSequenceBarrier {
    open spec fn can_poll(&self, memory: &ResizingMemory<T>) -> bool {
        self.wf(memory@)
    }

    open spec fn polled(&self, memory: &ResizingMemory<T>) -> int {
        let seen = sequence::available_to_consumer(
            memory@.published[self.cb.upstream()] as int,
            self.stage().value,
            memory@.size(self.stage().epoch),
        );
        if seen > self.known_available() {
            seen
        } else {
            self.known_available()
        }
    }

    fn poll(&mut self, memory: &ResizingMemory<T>)
        ensures
            final(self).wf(memory@),
            final(self).stage() == (Stage {
                cached: final(self).stage().cached,
                ..old(self).stage()
            }),
            final(self).cb.sb.dependencies == old(self).cb.sb.dependencies,
            final(self).cb.publisher_availability == old(self).cb.publisher_availability,
            final(self).cb.wait_strategy == old(self).cb.wait_strategy,
            final(self).known_available() >= 1 <==> old(self).stage().position
                < memory@.marks[old(self).cb.upstream()].at,
    {
        // If `cached_available` was manually set during a reallocation, calls to this function
        // shouldn't overwrite it with a lower value.
        let before: usize = self.cb.len_available();
        proof {
            if self.cb.known_available() >= 1 {
                self.lemma_flag(memory@);
            }
        }
        self.cb.poll(memory);
        if self.cb.len_available() < before {
            self.cb.sb.set_cached_available(before);
        }
    }
}

/// A publisher that is the only one of its pipeline, and allocates a larger buffer when the pipeline
/// does not move.
pub struct SingleResizingPublisher<T> {
    pub p: SingleResizingPublisherSequenceBarrier,
    pub item: PhantomData<T>,
}

/// A consumer that cannot mutate the items it processes.
pub struct SharedResizingConsumer<T> {
    pub c: SingleResizingConsumerSequenceBarrier,
    pub item: PhantomData<T>,
}

/// A consumer that doesn't share its stage with any concurrent consumers, allowing it to have mutable
/// access to the elements it processes.
pub struct SingleResizingConsumer<T> {
    pub c: SharedResizingConsumer<T>,
}

impl<T> SingleResizingPublisher<T> {
    /// Create a new publisher using a resizable ring buffer, specifying the timeout after which the
    /// publisher will allocate a larger buffer to publish items into.
    ///
    /// # Arguments
    ///
    /// * resize_timeout - How long to wait, in milliseconds, before reallocating a larger buffer
    /// * max_spin_tries_publisher - See `YieldWaitStrategy::new_with_retry_count`
    /// * max_spin_tries_consumer - See `YieldWaitStrategy::new_with_retry_count`
    pub fn new_resize_after_timeout_with_params(
        size: usize,
        resize_timeout: u64,
        max_spin_tries_publisher: usize,
        max_spin_tries_consumer: usize,
    ) -> (result: (SingleResizingPublisher<T>, ResizingMemory<T>)) where T: Default
        requires
            power::is_power_of_two(size as int),
            2 * sequence::boundary(size as int) <= power::usize_range(),
        ensures
            result.0.valid(&result.1),
            result.0.known_available() == 0,
            result.0.p.sb.stage().value == 0,
            result.0.p.wait_strategy == (TimeoutResizeWaitStrategy {
                timeout: resize_timeout,
                wait_strategy: BlockingWaitStrategy {
                    max_spin_tries_publisher,
                    max_spin_tries_consumer,
                },
            }),
            exists|slots: Seq<ReallocationFlag<T>>|
                slots.len() == size && ring_buffer::all_default(slots) && result.1@
                    == #[trigger] PipelineState::initial(slots),
    {
        let ring_buffer = BoxedRingBufferData::<ReallocationFlag<T>>::new(size);
        let blocking_wait_strategy = BlockingWaitStrategy::new_with_retry_count(
            max_spin_tries_publisher,
            max_spin_tries_consumer,
        );
        let wait_strategy = TimeoutResizeWaitStrategy::new_with_timeout(
            resize_timeout,
            blocking_wait_strategy,
        );
        let (p, memory) = SingleResizingPublisherSequenceBarrier::new(ring_buffer, wait_strategy);
        (SingleResizingPublisher { p, item: PhantomData }, memory)
    }

    /// Construct a TimeoutResizeWaitStrategy using the default parameters.
    pub fn new_resize_after_timeout(size: usize) -> (result: (
        SingleResizingPublisher<T>,
        ResizingMemory<T>,
    )) where T: Default
        requires
            power::is_power_of_two(size as int),
            2 * sequence::boundary(size as int) <= power::usize_range(),
        ensures
            result.0.valid(&result.1),
            result.0.known_available() == 0,
            result.0.p.sb.stage().value == 0,
            result.0.p.wait_strategy == (TimeoutResizeWaitStrategy {
                timeout: DEFAULT_RESIZE_TIMEOUT,
                wait_strategy: BlockingWaitStrategy {
                    max_spin_tries_publisher: DEFAULT_MAX_SPIN_TRIES_PUBLISHER,
                    max_spin_tries_consumer: DEFAULT_MAX_SPIN_TRIES_CONSUMER,
                },
            }),
            exists|slots: Seq<ReallocationFlag<T>>|
                slots.len() == size && ring_buffer::all_default(slots) && result.1@
                    == #[trigger] PipelineState::initial(slots),
    {
        SingleResizingPublisher::new_resize_after_timeout_with_params(
            size,
            DEFAULT_RESIZE_TIMEOUT,
            DEFAULT_MAX_SPIN_TRIES_PUBLISHER,
            DEFAULT_MAX_SPIN_TRIES_CONSUMER,
        )
    }

    /// Ends a wait for a slot: if none has become available, reallocates a larger buffer to hold it,
    /// and says so.
    pub fn wait_for_slots(&mut self, memory: &mut ResizingMemory<T>) -> (result: Option<
        Reallocation,
    >) where T: Default
        requires
            old(self).valid(old(memory)),
            old(self).known_available() < 1 ==> 2 * sequence::boundary(
                2 * old(memory)@.size(old(memory)@.newest()),
            ) <= power::usize_range(),
        ensures
            final(self).valid(final(memory)),
            final(self).known_available() >= 1,
            final(self).p.wait_strategy == old(self).p.wait_strategy,
            result is Some <==> old(self).known_available() < 1,
            result is None ==> *final(self) == *old(self) && final(memory)@ == old(memory)@,
            result is Some ==> {
                &&& exists|larger: Seq<ReallocationFlag<T>>|
                    {
                        &&& larger.len() == 2 * old(memory)@.size(old(memory)@.newest())
                        &&& ring_buffer::all_default(larger)
                        &&& final(memory)@ == #[trigger] old(memory)@.with_buffer(
                            ReallocationFlag::BufferReallocated,
                            larger,
                        )
                    }
                &&& final(self).known_available() == result->Some_0.new_size - 1
                &&& result->Some_0.batch_size == 1
                &&& result->Some_0.current_size == old(memory)@.size(old(memory)@.newest())
                &&& result->Some_0.new_size == 2 * result->Some_0.current_size
                &&& result->Some_0.sequence == old(self).p.sb.stage().value
                &&& result->Some_0.unwrapped_sequence == final(self).p.sb.stage().value
            },
            steps::others_keep(old(memory)@, final(memory)@, 0),
            Self::published(final(memory)) == Self::published(old(memory)),
    {
        self.p.wait_for_slots(memory, 1)
    }
}

impl<T> LenAvailable for SingleResizingPublisher<T> {
    open spec fn known_available(&self) -> int {
        self.p.known_available()
    }

    fn len_available(&self) -> (available: usize) {
        self.p.len_available()
    }
}

impl<T> Pollable<ResizingMemory<T>> for SingleResizingPublisher<T> {
    open spec fn can_poll(&self, memory: &ResizingMemory<T>) -> bool {
        self.p.wf(memory@) && self.p.can_look(memory@)
    }

    open spec fn polled(&self, memory: &ResizingMemory<T>) -> int {
        self.p.polled(memory)
    }

    fn poll(&mut self, memory: &ResizingMemory<T>)
        ensures
            final(self).p.wf(memory@),
            final(self).p.wait_strategy == old(self).p.wait_strategy,
    {
        self.p.poll(memory);
    }
}

impl<T> Publisher<T> for SingleResizingPublisher<T> {
    type Memory = ResizingMemory<T>;

    open spec fn valid(&self, memory: &ResizingMemory<T>) -> bool {
        self.p.wf(memory@)
    }

    open spec fn published(memory: &ResizingMemory<T>) -> Seq<T> {
        plain_items(memory@)
    }

    /// The publisher knows, or can see, that a slot besides the one in reserve is free.
    open spec fn has_room(&self, memory: &ResizingMemory<T>) -> bool {
        self.p.known_available() >= 1 || self.p.sb.polled(memory) >= 2
    }

    open spec fn may_publish(&self, memory: &ResizingMemory<T>) -> bool {
        self.p.known_available() >= 1 || self.p.can_look(memory@)
    }

    open spec fn signals(&self) -> bool {
        true
    }

    fn publish(&mut self, memory: &mut ResizingMemory<T>, value: T) -> (result: Result<
        Notification,
        T,
    >)
        ensures
            result is Ok ==> final(memory)@ == old(memory)@.with_slot(
                old(memory)@.newest(),
                old(memory)@.head(),
                ReallocationFlag::Item(value),
            ).with_released(1),
            result is Err ==> final(memory)@ == old(memory)@,
            final(self).p.sb.cached_available == (if old(self).known_available() >= 1 {
                old(self).p.sb.cached_available as int
            } else {
                old(self).p.sb.polled(old(memory))
            }) - (if result is Ok {
                1int
            } else {
                0int
            }),
            steps::others_keep(old(memory)@, final(memory)@, 0),
            final(self).p.wait_strategy == old(self).p.wait_strategy,
    {
        if self.p.len_available() < 1 {
            self.p.poll_while_waiting(memory);
        }
        if self.p.len_available() < 1 {
            return Err(value);
        }
        proof {
            steps::lemma_publishes(memory@, ReallocationFlag::Item(value));
            steps::lemma_publisher_writes(memory@, ReallocationFlag::Item(value));
            lemma_flags_published(memory@, value);
        }
        self.p.set(memory, value);
        // Make the item available to downstream consumers
        Ok(self.p.release_slots_unchecked(memory, 1))
    }
}

/// Once the last consumer uses the same buffer as the publisher, or while there is no consumer, the
/// publisher has room exactly if a slot besides the one in reserve is free.
pub proof fn law_room_is_a_free_slot<T>(
    publisher: &SingleResizingPublisher<T>,
    memory: &ResizingMemory<T>,
)
    requires
        publisher.valid(memory),
        publisher.p.can_look(memory@),
        memory@.chain.len() == 1 || memory@.marks[memory@.chain.last()].epoch == memory@.newest(),
    ensures
        publisher.has_room(memory) <==> memory@.free() >= 2,
{
    publisher.p.lemma_polls(memory);
}

impl<T> InsertSingleConsumer for SingleResizingPublisher<T> {
    type Memory = ResizingMemory<T>;

    type SingleConsumer = SingleResizingConsumer<T>;

    /// The resizing variant only supports a single insertion, before any items have been published.
    open spec fn can_insert(&self, memory: &ResizingMemory<T>) -> bool {
        self.valid(memory) && memory@.chain.len() == 1 && self.p.sb.stage().value == 0
    }

    open spec fn inserted(
        before: (&Self, &ResizingMemory<T>),
        after: (&Self, &ResizingMemory<T>),
        consumer: &SingleResizingConsumer<T>,
    ) -> bool {
        let state = before.1@;
        &&& after.1@ == state.with_consumer(1, Mark { at: 0, epoch: 0 })
        &&& after.0.valid(after.1)
        &&& after.0.p.sb.stage() == before.0.p.sb.stage()
        &&& after.0.p.wait_strategy == before.0.p.wait_strategy
        &&& consumer.valid(after.1)
        &&& consumer.stage() == (Stage { id: 1, position: 0, epoch: 0, value: 0, cached: 0 })
        &&& consumer.upstream() == 0
        &&& consumer.c.c.cb.wait_strategy == before.0.p.wait_strategy
        &&& steps::others_keep(state, after.1@, 1)
        &&& plain_items(after.1@) == plain_items(state)
    }

    fn insert_single_consumer(&mut self, memory: &mut ResizingMemory<T>) -> (consumer:
        SingleResizingConsumer<T>) {
        let c = self.p.insert_single_consumer(memory);
        SingleResizingConsumer { c: SharedResizingConsumer { c, item: PhantomData } }
    }
}

impl<T> SharedResizingConsumer<T> {
    /// What the consumer knows of itself.
    pub open spec fn stage(&self) -> Stage {
        self.c.stage()
    }

    /// The stage that the consumer waits for.
    pub open spec fn upstream(&self) -> int {
        self.c.cb.upstream()
    }

    /// The state after the consumer has passed its next item, which it may have found in the next
    /// buffer.
    pub open spec fn passed(
        &self,
        state: PipelineState<ReallocationFlag<T>>,
        next: PipelineState<ReallocationFlag<T>>,
    ) -> PipelineState<ReallocationFlag<T>> {
        next.with_mark(
            self.stage().id,
            Mark { at: self.stage().position + 1, epoch: caught_up(state, self.stage()).epoch },
        )
    }
}

impl<T> LenAvailable for SharedResizingConsumer<T> {
    open spec fn known_available(&self) -> int {
        self.c.known_available()
    }

    fn len_available(&self) -> (available: usize) {
        self.c.len_available()
    }
}

impl<T> Pollable<ResizingMemory<T>> for SharedResizingConsumer<T> {
    open spec fn can_poll(&self, memory: &ResizingMemory<T>) -> bool {
        self.c.wf(memory@) && self.c.cb.settled(memory@)
    }

    open spec fn polled(&self, memory: &ResizingMemory<T>) -> int {
        self.c.polled(memory)
    }

    fn poll(&mut self, memory: &ResizingMemory<T>)
        ensures
            final(self).c.wf(memory@),
            final(self).c.cb.settled(memory@),
            final(self).stage() == (Stage {
                cached: final(self).stage().cached,
                ..old(self).stage()
            }),
            final(self).upstream() == old(self).upstream(),
            final(self).c.cb.wait_strategy == old(self).c.cb.wait_strategy,
            final(self).known_available() >= 1 <==> old(self).stage().position
                < memory@.marks[old(self).upstream()].at,
    {
        self.c.poll(memory);
    }
}

impl<T> Consumer<T> for SharedResizingConsumer<T> {
    type Memory = ResizingMemory<T>;

    open spec fn valid(&self, memory: &ResizingMemory<T>) -> bool {
        self.c.wf(memory@) && self.c.cb.settled(memory@)
    }

    open spec fn items(memory: &ResizingMemory<T>) -> Seq<T> {
        plain_items(memory@)
    }

    open spec fn position(&self) -> int {
        self.stage().position
    }

    open spec fn released(&self, memory: &ResizingMemory<T>) -> int {
        memory@.marks[self.upstream()].at
    }

    fn consume<C: FnOnce(&T)>(&mut self, memory: &mut ResizingMemory<T>, consume_callback: C) -> (
    result: bool)
        ensures
            final(memory)@ == (if result {
                old(self).passed(old(memory)@, old(memory)@)
            } else {
                old(memory)@
            }),
            final(self).stage() == (if result {
                passed(old(memory)@, old(self).c.looked(old(memory)@))
            } else {
                old(self).c.looked(old(memory)@)
            }),
            final(self).upstream() == old(self).upstream(),
            final(self).c.cb.wait_strategy == old(self).c.cb.wait_strategy,
            steps::others_keep(old(memory)@, final(memory)@, old(self).stage().id),
            old(memory)@.free() <= final(memory)@.free(),
    {
        proof {
            if self.c.cb.known_available() >= 1 {
                self.c.lemma_flag(memory@);
            }
        }
        if self.c.cb.len_available() < 1 {
            self.c.cb.poll(memory);
        }
        if self.c.cb.len_available() < 1 {
            return false;
        }
        let item = self.c.get(memory);
        consume_callback(item);
        self.c.release_one_slot(memory);
        true
    }
}

impl<T> SingleResizingConsumer<T> {
    /// What the consumer knows of itself.
    pub open spec fn stage(&self) -> Stage {
        self.c.stage()
    }

    /// The stage that the consumer waits for.
    pub open spec fn upstream(&self) -> int {
        self.c.upstream()
    }
}

impl<T> LenAvailable for SingleResizingConsumer<T> {
    open spec fn known_available(&self) -> int {
        self.c.known_available()
    }

    fn len_available(&self) -> (available: usize) {
        self.c.len_available()
    }
}

impl<T> Pollable<ResizingMemory<T>> for SingleResizingConsumer<T> {
    open spec fn can_poll(&self, memory: &ResizingMemory<T>) -> bool {
        self.c.c.wf(memory@) && self.c.c.cb.settled(memory@)
    }

    open spec fn polled(&self, memory: &ResizingMemory<T>) -> int {
        self.c.polled(memory)
    }

    fn poll(&mut self, memory: &ResizingMemory<T>)
        ensures
            final(self).c.c.wf(memory@),
            final(self).c.c.cb.settled(memory@),
            final(self).stage() == (Stage {
                cached: final(self).stage().cached,
                ..old(self).stage()
            }),
            final(self).upstream() == old(self).upstream(),
            final(self).c.c.cb.wait_strategy == old(self).c.c.cb.wait_strategy,
            final(self).known_available() >= 1 <==> old(self).stage().position
                < memory@.marks[old(self).upstream()].at,
    {
        self.c.poll(memory);
    }
}

impl<T> Consumer<T> for SingleResizingConsumer<T> {
    type Memory = ResizingMemory<T>;

    open spec fn valid(&self, memory: &ResizingMemory<T>) -> bool {
        self.c.valid(memory)
    }

    open spec fn items(memory: &ResizingMemory<T>) -> Seq<T> {
        plain_items(memory@)
    }

    open spec fn position(&self) -> int {
        self.stage().position
    }

    open spec fn released(&self, memory: &ResizingMemory<T>) -> int {
        memory@.marks[self.upstream()].at
    }

    fn consume<C: FnOnce(&T)>(&mut self, memory: &mut ResizingMemory<T>, consume_callback: C) -> (
    result: bool)
        ensures
            final(memory)@ == (if result {
                old(self).c.passed(old(memory)@, old(memory)@)
            } else {
                old(memory)@
            }),
            final(self).stage() == (if result {
                passed(old(memory)@, old(self).c.c.looked(old(memory)@))
            } else {
                old(self).c.c.looked(old(memory)@)
            }),
            final(self).upstream() == old(self).upstream(),
            final(self).c.c.cb.wait_strategy == old(self).c.c.cb.wait_strategy,
            steps::others_keep(old(memory)@, final(memory)@, old(self).stage().id),
            old(memory)@.free() <= final(memory)@.free(),
    {
        self.c.consume(memory, consume_callback)
    }
}

impl<T: Default> ConsumerMut<T> for SingleResizingConsumer<T> {
    fn take(&mut self, memory: &mut ResizingMemory<T>) -> (result: Option<T>)
        ensures
            result is Some ==> exists|left: T|
                call_ensures(T::default, (), left) && final(memory)@ == old(self).c.passed(
                    old(memory)@,
                    #[trigger] old(memory)@.with_item(
                        caught_up(old(memory)@, old(self).stage()).epoch,
                        old(self).position(),
                        ReallocationFlag::Item(left),
                    ),
                ),
            result is None ==> final(memory)@ == old(memory)@,
            final(self).stage() == (if result is Some {
                passed(old(memory)@, old(self).c.c.looked(old(memory)@))
            } else {
                old(self).c.c.looked(old(memory)@)
            }),
            final(self).upstream() == old(self).upstream(),
            final(self).c.c.cb.wait_strategy == old(self).c.c.cb.wait_strategy,
            steps::others_keep(old(memory)@, final(memory)@, old(self).stage().id),
            old(memory)@.free() <= final(memory)@.free(),
    {
        proof {
            if self.c.c.cb.known_available() >= 1 {
                self.c.c.lemma_flag(memory@);
            }
        }
        if self.c.c.cb.len_available() < 1 {
            self.c.c.cb.poll(memory);
        }
        if self.c.c.cb.len_available() < 1 {
            return None;
        }
        let ghost state = memory@;
        let ghost epoch = caught_up(state, old(self).stage()).epoch;
        let ghost position = old(self).position();
        let value = self.c.c.take(memory);
        proof {
            assert(self.stage().epoch == epoch && self.stage().position == position);
            let left = choose|left: T|
                {
                    &&& call_ensures(T::default, (), left)
                    &&& memory@ == #[trigger] state.with_item(
                        self.stage().epoch,
                        self.stage().position,
                        ReallocationFlag::Item(left),
                    )
                    &&& plain_items(memory@) == plain_items(state).update(position, left)
                };
            assert(memory@ == state.with_item(epoch, position, ReallocationFlag::Item(left)));
        }
        self.c.c.release_one_slot(memory);
        Some(value)
    }
}

impl<T> InsertSingleConsumer for SingleResizingConsumer<T> {
    type Memory = ResizingMemory<T>;

    type SingleConsumer = Self;

    open spec fn can_insert(&self, memory: &ResizingMemory<T>) -> bool {
        self.valid(memory)
    }

    /// The new consumer is directly ahead of this one, and takes over what this one knew to be
    /// available.
    open spec fn inserted(
        before: (&Self, &ResizingMemory<T>),
        after: (&Self, &ResizingMemory<T>),
        consumer: &Self,
    ) -> bool {
        let state = before.1@;
        &&& after.1@ == state.with_consumer(
            state.chain.index_of(before.0.stage().id),
            Mark { at: before.0.position(), epoch: before.0.stage().epoch },
        )
        &&& after.0.valid(after.1)
        &&& after.0.stage() == (Stage { cached: 0, ..before.0.stage() })
        &&& after.0.upstream() == consumer.stage().id
        &&& after.0.c.c.cb.wait_strategy == before.0.c.c.cb.wait_strategy
        &&& consumer.valid(after.1)
        &&& consumer.stage() == (Stage { id: state.chain.len() as int, ..before.0.stage() })
        &&& consumer.upstream() == before.0.upstream()
        &&& consumer.c.c.cb.wait_strategy == before.0.c.c.cb.wait_strategy
        &&& steps::others_keep(state, after.1@, before.0.stage().id)
        &&& plain_items(after.1@) == plain_items(state)
        &&& after.1@.free() == state.free()
    }

    fn insert_single_consumer(&mut self, memory: &mut ResizingMemory<T>) -> (consumer: Self) {
        let c = self.c.c.insert_single_consumer(memory);
        SingleResizingConsumer { c: SharedResizingConsumer { c, item: PhantomData } }
    }
}

/// Looking for slots never makes the publisher forget any that it knows of, and never shows it the slot
/// in reserve, or one that is not free. Once the last consumer uses the same buffer, or while there is
/// no consumer, it shows all of them.
pub proof fn law_looking_keeps_what_is_known<T>(
    publisher: &SingleResizingPublisherSequenceBarrier,
    memory: &ResizingMemory<T>,
)
    requires
        publisher.wf(memory@),
        publisher.can_look(memory@),
    ensures
        publisher.known_available() <= publisher.polled(memory) <= memory@.free() - 1,
        memory@.chain.len() == 1 || memory@.marks[memory@.chain.last()].epoch == memory@.newest()
            ==> publisher.polled(memory) == memory@.free() - 1,
{
    publisher.lemma_polls(memory);
}

/// A consumer that knows of no item and looks gets to know of all that the stage ahead has released, if
/// both use the same buffer. If it has reached the end of its buffer, and the stage ahead uses the next
/// one, it knows of all of them once it has followed into that buffer.
pub proof fn law_looking_shows_all_released<T>(
    consumer: &SingleResizingConsumerSequenceBarrier,
    state: PipelineState<ReallocationFlag<T>>,
)
    requires
        consumer.wf(state),
        consumer.stage().cached == 0,
    ensures
        ({
            let stage = consumer.stage();
            let ahead = state.marks[consumer.cb.upstream()];
            let looked = consumer.looked(state);
            &&& looked == (Stage { cached: looked.cached, ..stage })
            &&& looked.cached >= 1 <==> stage.position < ahead.at
            &&& ahead.epoch == stage.epoch ==> looked.cached == ahead.at - stage.position
            &&& ahead.epoch == stage.epoch + 1 && stage.position == state.end_of(stage.epoch)
                ==> caught_up(state, looked).cached == ahead.at - stage.position && caught_up(
                state,
                looked,
            ).epoch == ahead.epoch
        }),
{
    let stage = consumer.stage();
    let upstream = consumer.cb.upstream();
    let ahead = state.marks[upstream];
    consumer.cb.lemma_refers(state);
    steps::lemma_follows(state, stage.id, upstream);
    steps::lemma_consumer_polls(state, stage, upstream);
    if ahead.epoch == stage.epoch + 1 && stage.position == state.end_of(stage.epoch) {
        let start = state.epochs[ahead.epoch].start;
        assert(stage.position == start);
        assert(state.mark_wf(upstream));
        protocol::lemma_values_ahead(state, ahead.epoch, ahead.at);
        protocol::lemma_value_bounds(state, stage.epoch, stage.position);
        assert(state.continues(ahead.epoch));
    }
}

/// A consumer that passes an item moves on by one, and knows of one item less. Where it finds the item
/// in the next buffer, it continues in the same slot there, and knows of that item at least.
pub proof fn law_passing_moves_on_by_one<S>(state: PipelineState<S>, stage: Stage)
    requires
        state.epochs_wf(),
        0 <= stage.epoch < state.epochs.len(),
        stage.value == state.value_at(stage.epoch, stage.position),
        stage.cached >= 1,
    ensures
        passed(state, stage).id == stage.id,
        passed(state, stage).position == stage.position + 1,
        passed(state, stage).cached >= 0,
        stage.position < state.end_of(stage.epoch) ==> {
            &&& passed(state, stage).epoch == stage.epoch
            &&& passed(state, stage).cached == stage.cached - 1
        },
        stage.position >= state.end_of(stage.epoch) ==> {
            &&& passed(state, stage).epoch == stage.epoch + 1
            &&& switched(state, stage).value % state.size(stage.epoch) == stage.value % state.size(
                stage.epoch,
            )
            &&& switched(state, stage).value >= sequence::boundary(state.size(stage.epoch))
            &&& switched(state, stage).value - switched(state, stage).cached >= stage.value
                - stage.cached || passed(state, stage).cached == 0
        },
{
    protocol::lemma_value_bounds(state, stage.epoch, stage.position);
    crate::owner::law_unwrap_keeps_slot(stage.value, state.size(stage.epoch));
}

} // verus!
