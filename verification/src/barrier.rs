//! Sequence barriers: what lets a stage proceed only when the stages ahead have finished working with
//! the slots it needs next.
use crate::dependency;
use crate::dependency::{
    ConsumerDependencies, LenAvailable, Pollable, PollableDependency,
    PollableDependencyAsPollable, PublisherAvailability, PublisherDependencies,
};
use crate::memory::PipelineMemory;
use crate::owner::{SequenceOwner, SequenceReader};
use crate::power;
use crate::protocol;
use crate::protocol::{Mark, PipelineState, Stage};
use crate::ring_buffer::RingBufferOps;
use crate::sequence;
use crate::sequence::{wrap_boundary, SequenceNumber, SEQUENCE_INITIAL};
use crate::steps;
use crate::wait;
use crate::wait::{Notification, NotificationWaitStrategy};
use vstd::prelude::*;

verus! {

/// A common definition of the fields that are shared between non-concurrent publisher or consumer
/// pipeline stages.
pub struct CommonSingleSequenceBarrier<D> {
    /// The number of the ring buffer that the stage works with.
    pub ring_buffer: usize,
    pub sequence: SequenceOwner,
    pub dependencies: D,
    /// Contains the number of available items as of the last time the dependent sequence values were
    /// retrieved.
    pub cached_available: usize,
    /// How many items have passed the stage.
    pub position: Ghost<int>,
}

impl<D> CommonSingleSequenceBarrier<D> {
    /// What the stage knows of itself.
    pub open spec fn stage(&self) -> Stage {
        Stage {
            id: self.sequence.id(),
            position: self.position@,
            epoch: self.ring_buffer as int,
            value: self.sequence.private(),
            cached: self.cached_available as int,
        }
    }

    /// The stage refers to a ring buffer and a sequence of the pipeline.
    pub open spec fn refers_to<S>(&self, state: PipelineState<S>) -> bool {
        &&& self.ring_buffer < state.buffers.len()
        &&& 0 <= self.sequence.id() < state.published.len()
        &&& sequence::is_buffer_size(state.size(self.ring_buffer as int))
        &&& state.size(self.ring_buffer as int) <= usize::MAX
    }

    /// The stage is the publisher of a pipeline with a single buffer and without any consumer.
    pub open spec fn alone<S>(&self, state: PipelineState<S>) -> bool {
        &&& state.epochs_wf()
        &&& state.chain_wf()
        &&& state.epochs.len() == 1
        &&& state.chain.len() == 1
        &&& self.stage().id == 0
        &&& self.stage().position == state.head()
        &&& self.stage().epoch == 0
        &&& self.stage().value == state.value_at(0, state.head())
    }

    /// What a publisher without any consumer may do.
    pub proof fn lemma_alone<S>(&self, state: PipelineState<S>)
        requires
            self.alone(state),
        ensures
            self.refers_to(state),
            0 <= self.stage().value < sequence::boundary(state.size(0)),
            0 <= state.slot_of(0, state.head()) < state.size(0),
            1 <= state.size(0),
    {
        protocol::lemma_value_bounds(state, 0, state.head());
    }

    /// A publisher without any consumer may overwrite its next slot.
    pub proof fn lemma_alone_writes<S>(&self, state: PipelineState<S>, value: S)
        requires
            self.alone(state),
        ensures
            self.alone(state.with_slot(0, state.head(), value)),
            steps::others_keep(state, state.with_slot(0, state.head(), value), 0),
            state.with_slot(0, state.head(), value).next_slots(1) == seq![value],
    {
        let next = state.with_slot(0, state.head(), value);
        self.lemma_alone(state);
        assert(next.size(0) == state.size(0));
        steps::lemma_same_epochs(state, next);
        assert(state.mark_wf(0));
        assert(next.value_at(0, state.head()) == state.value_at(0, state.head()));
        assert(next.mark_wf(0));
        assert(next.slot_of(0, state.head()) == state.slot_of(0, state.head()));
        assert(next.next_slots(1) =~= seq![value]);
    }

    /// A publisher without any consumer may release slots.
    pub proof fn lemma_alone_releases<S>(&self, state: PipelineState<S>, n: int)
        requires
            self.alone(state),
            0 <= n,
        ensures
            steps::others_keep(state, state.with_released(n), 0),
            forall|next: Self|
                #[trigger] next.stage().id == 0 && next.stage().epoch == 0
                    && next.stage().position == state.head() + n && next.stage().value
                    == state.value_at(0, state.head() + n) ==> next.alone(state.with_released(n)),
    {
        let next = state.with_released(n);
        self.lemma_alone(state);
        assert(next.size(0) == state.size(0));
        assert(next.head() == state.head() + n);
        steps::lemma_same_epochs(state, next);
        protocol::lemma_value_bounds(state, 0, state.head() + n);
        assert(next.value_at(0, state.head() + n) == state.value_at(0, state.head() + n));
        assert(next.mark_wf(0));
    }

    /// A barrier made of the given parts.
    pub(crate) fn new(
        ring_buffer: usize,
        sequence: SequenceOwner,
        dependencies: D,
        cached_available: usize,
        position: Ghost<int>,
    ) -> (barrier: Self)
        ensures
            barrier == (CommonSingleSequenceBarrier {
                ring_buffer,
                sequence,
                dependencies,
                cached_available,
                position,
            }),
    {
        CommonSingleSequenceBarrier {
            ring_buffer,
            sequence,
            dependencies,
            cached_available,
            position,
        }
    }

    /// Replaces what is known of the number of available slots.
    pub fn set_cached_available(&mut self, available: usize)
        ensures
            *final(self) == (CommonSingleSequenceBarrier {
                cached_available: available,
                ..*old(self)
            }),
    {
        self.cached_available = available;
    }

    /// Get the current sequence number associated with this reference into a pipeline.
    pub fn current_sequence(&self) -> (number: SequenceNumber)
        ensures
            number.0 == self.stage().value,
    {
        self.sequence.get_owned()
    }

    /// Returns the size of the underlying ring buffer.
    pub fn capacity<RB: RingBufferOps>(&self, memory: &PipelineMemory<RB>) -> (size: usize)
        requires
            self.ring_buffer < memory@.buffers.len(),
        ensures
            size == memory@.size(self.ring_buffer as int),
    {
        memory.capacity(self.ring_buffer)
    }

    /// Stores a value in the sequence barrier's current slot.
    pub fn set<RB: RingBufferOps>(&mut self, memory: &mut PipelineMemory<RB>, value: RB::T)
        requires
            old(self).refers_to(old(memory)@),
        ensures
            *final(self) == *old(self),
            final(memory)@ == old(memory)@.with_value(
                old(self).ring_buffer as int,
                old(self).stage().value,
                value,
            ),
    {
        let current_sequence = self.current_sequence();
        memory.set(self.ring_buffer, current_sequence, value)
    }

    /// Gets the value stored in the sequence barrier's current slot.
    pub fn get<'a, RB: RingBufferOps>(&self, memory: &'a PipelineMemory<RB>) -> (value: &'a RB::T)
        requires
            self.refers_to(memory@),
        ensures
            *value == memory@.value_in(self.ring_buffer as int, self.stage().value),
    {
        let current_sequence = self.current_sequence();
        memory.get(self.ring_buffer, current_sequence)
    }

    /// Replaces the value stored in the sequence barrier's current slot, and returns the old value.
    /// The released items are then `items`.
    pub(crate) fn replace<RB: RingBufferOps>(
        &mut self,
        memory: &mut PipelineMemory<RB>,
        value: RB::T,
        items: Ghost<Seq<RB::T>>,
    ) -> (replaced: RB::T)
        requires
            old(self).refers_to(old(memory)@),
        ensures
            *final(self) == *old(self),
            replaced == old(memory)@.value_in(
                old(self).ring_buffer as int,
                old(self).stage().value,
            ),
            final(memory)@ == (PipelineState {
                items: items@,
                ..old(memory)@.with_value(
                    old(self).ring_buffer as int,
                    old(self).stage().value,
                    value,
                )
            }),
    {
        let current_sequence = self.current_sequence();
        memory.replace(self.ring_buffer, current_sequence, value, items)
    }

    /// Passes the given number of slots, without making that visible to the other stages.
    pub(crate) fn advance<RB: RingBufferOps>(&mut self, memory: &PipelineMemory<RB>, n: usize)
        requires
            old(self).refers_to(memory@),
            n <= old(self).cached_available,
        ensures
            final(self).stage() == (Stage {
                position: old(self).stage().position + n,
                value: (old(self).stage().value + n) % sequence::boundary(
                    memory@.size(old(self).ring_buffer as int),
                ),
                cached: old(self).stage().cached - n,
                ..old(self).stage()
            }),
            final(self).dependencies == old(self).dependencies,
    {
        self.cached_available = self.cached_available - n;
        self.sequence.advance(n, memory.capacity(self.ring_buffer));
        self.position = Ghost(self.position@ + n);
    }

    /// Release the given number of slots to downstream stages of the pipeline. The released items are
    /// `items`.
    pub(crate) fn release_slots_unchecked<RB: RingBufferOps>(
        &mut self,
        memory: &mut PipelineMemory<RB>,
        n: usize,
        items: Ghost<Seq<RB::T>>,
    )
        requires
            old(self).refers_to(old(memory)@),
            n <= old(self).cached_available,
        ensures
            final(self).stage() == (Stage {
                position: old(self).stage().position + n,
                value: (old(self).stage().value + n) % sequence::boundary(
                    old(memory)@.size(old(self).ring_buffer as int),
                ),
                cached: old(self).stage().cached - n,
                ..old(self).stage()
            }),
            final(self).dependencies == old(self).dependencies,
            final(memory)@ == (PipelineState {
                published: old(memory)@.published.update(
                    old(self).stage().id,
                    final(self).stage().value as usize,
                ),
                marks: old(memory)@.marks.update(
                    old(self).stage().id,
                    Mark {
                        at: old(self).stage().position + n,
                        epoch: old(self).stage().epoch,
                    },
                ),
                items: items@,
                ..old(memory)@
            }),
    {
        self.cached_available = self.cached_available - n;
        let size: usize = memory.capacity(self.ring_buffer);
        let ghost mark = Mark { at: self.position@ + n, epoch: self.ring_buffer as int };
        memory.advance_and_flush(&mut self.sequence, n, size, Ghost(mark), items);
        self.position = Ghost(self.position@ + n);
    }
}

impl<D> LenAvailable for CommonSingleSequenceBarrier<D> {
    open spec fn known_available(&self) -> int {
        self.cached_available as int
    }

    fn len_available(&self) -> (available: usize) {
        assert(self.known_available() == self.cached_available);
        self.cached_available
    }
}

impl<RB: RingBufferOps, D: PollableDependency> Pollable<
    PipelineMemory<RB>,
> for CommonSingleSequenceBarrier<D> {
    open spec fn can_poll(&self, memory: &PipelineMemory<RB>) -> bool {
        &&& self.refers_to(memory@)
        &&& self.dependencies.countable(
            memory@.published,
            SequenceNumber(self.stage().value as usize),
            memory@.size(self.ring_buffer as int) as usize,
        )
    }

    open spec fn polled(&self, memory: &PipelineMemory<RB>) -> int {
        self.dependencies.available(
            memory@.published,
            SequenceNumber(self.stage().value as usize),
            memory@.size(self.ring_buffer as int) as usize,
        )
    }

    fn poll(&mut self, memory: &PipelineMemory<RB>)
        ensures
            *final(self) == (CommonSingleSequenceBarrier {
                cached_available: final(self).cached_available,
                ..*old(self)
            }),
    {
        let waiting = self.sequence.get_owned();
        let size: usize = memory.capacity(self.ring_buffer);
        self.cached_available =
        self.dependencies.calculate_available(memory.sequences(), waiting, size);
    }
}

impl<D: PollableDependency> CommonSingleSequenceBarrier<D> {
    /// Returns how many slots the dependencies leave, without remembering it.
    pub fn count<RB: RingBufferOps>(&self, memory: &PipelineMemory<RB>) -> (available: usize)
        requires
            self.refers_to(memory@),
            self.dependencies.countable(
                memory@.published,
                SequenceNumber(self.stage().value as usize),
                memory@.size(self.ring_buffer as int) as usize,
            ),
        ensures
            available == self.dependencies.available(
                memory@.published,
                SequenceNumber(self.stage().value as usize),
                memory@.size(self.ring_buffer as int) as usize,
            ),
    {
        let waiting = self.sequence.get_owned();
        let size: usize = memory.capacity(self.ring_buffer);
        self.dependencies.calculate_available(memory.sequences(), waiting, size)
    }
}

/// The publisher waits for the last stage of the pipeline, or for none if there is none.
pub open spec fn waits_for_last<S>(
    dependencies: Seq<SequenceReader>,
    state: PipelineState<S>,
) -> bool {
    if state.chain.len() == 1 {
        dependencies.len() == 0
    } else {
        dependencies.len() == 1 && dependencies[0].id() == state.chain.last()
    }
}

/// Implements a sequence barrier for publishers in situations where there's only one concurrent
/// publisher.
pub struct SinglePublisherSequenceBarrier<W> {
    pub sb: CommonSingleSequenceBarrier<PublisherDependencies>,
    pub wait_strategy: W,
}

impl<W> SinglePublisherSequenceBarrier<W> {
    /// The barrier fits the state of the pipeline.
    pub open spec fn wf<S>(&self, state: PipelineState<S>) -> bool {
        &&& state.wf()
        &&& state.epochs.len() == 1
        &&& state.publisher_wf(self.sb.stage())
        &&& waits_for_last(self.sb.dependencies.sequences@, state)
    }

    /// The barrier fits the state of the pipeline, but for the number of slots that it takes to be
    /// free.
    pub open spec fn placed<S>(&self, state: PipelineState<S>) -> bool {
        &&& state.wf()
        &&& state.epochs.len() == 1
        &&& state.publisher_wf(Stage { cached: 0, ..self.sb.stage() })
        &&& waits_for_last(self.sb.dependencies.sequences@, state)
    }

    /// The first stage of a new pipeline.
    pub fn new<RB: RingBufferOps>(ring_buffer: RB, wait_strategy: W) -> (result: (
        Self,
        PipelineMemory<RB>,
    ))
        requires
            power::is_power_of_two(ring_buffer.slots().len() as int),
            2 * sequence::boundary(ring_buffer.slots().len() as int) <= power::usize_range(),
        ensures
            result.1@ == PipelineState::initial(ring_buffer.slots()),
            result.0.wf(result.1@),
            result.0.sb.cached_available == 0,
            result.0.wait_strategy == wait_strategy,
    {
        proof {
            steps::lemma_initial_state(ring_buffer.slots());
        }
        let (memory, sequence) = PipelineMemory::new(ring_buffer);
        let sb = CommonSingleSequenceBarrier::new(
            0,
            sequence,
            PublisherDependencies::default(),
            0,
            Ghost(0int),
        );
        (SinglePublisherSequenceBarrier { sb, wait_strategy }, memory)
    }

    /// What a barrier that fits the state of its pipeline may do there.
    pub proof fn lemma_refers<S>(&self, state: PipelineState<S>)
        requires
            self.placed(state),
        ensures
            self.sb.refers_to(state),
            self.sb.ring_buffer == 0,
            self.sb.stage().value == state.value_at(0, state.head()),
            0 <= self.sb.stage().value < sequence::boundary(state.size(0)),
    {
        protocol::lemma_value_bounds(state, 0, state.head());
    }

    /// What looking at the last stage shows is the number of free slots.
    proof fn lemma_polls<RB: RingBufferOps>(&self, memory: &PipelineMemory<RB>)
        requires
            self.placed(memory@),
        ensures
            self.sb.can_poll(memory),
            self.sb.polled(memory) == memory@.free(),
    {
        let state = memory@;
        self.lemma_refers(state);
        let dependencies = self.sb.dependencies.sequences@;
        let gating = dependency::readings(dependencies, state.published);
        let waiting = SequenceNumber(self.sb.stage().value as usize);
        if state.chain.len() == 1 {
            assert(state.fits(0));
            vstd::arithmetic::div_mod::lemma_small_mod(
                state.head() as nat,
                sequence::boundary(state.size(0)) as nat,
            );
        } else {
            steps::lemma_publisher_polls(state);
            assert(state.mark_wf(state.chain.last()));
            let numbers = gating.map_values(
                |number: usize|
                    sequence::available_to_publisher(
                        number as int,
                        waiting.0 as int,
                        state.size(0),
                    ),
            );
            assert(numbers.len() == 1);
            assert(self.sb.polled(memory) == numbers[0]) by {
                assert(gating.map_values(
                    |number: usize|
                        (|g: int|
                            sequence::available_to_publisher(
                                g,
                                waiting.0 as int,
                                state.size(0),
                            ))(number as int),
                ) =~= numbers);
            }
        }
    }

    /// Returns how many slots are free, without remembering it.
    pub fn count<RB: RingBufferOps>(&self, memory: &PipelineMemory<RB>) -> (available: usize)
        requires
            self.placed(memory@),
        ensures
            available == memory@.free(),
    {
        proof {
            self.lemma_polls(memory);
        }
        self.sb.count(memory)
    }

    /// Returns the earliest sequence that may not yet be handled by the rest of the pipeline.
    ///
    /// This is used in the insertion of new consumers as their initial sequence number.
    pub fn calculate_earliest_consumer_sequence<RB: RingBufferOps>(
        &mut self,
        memory: &PipelineMemory<RB>,
    ) -> (earliest: SequenceNumber)
        requires
            old(self).wf(memory@),
        ensures
            earliest.0 == memory@.value_at(0, memory@.floor()),
            final(self).wf(memory@),
            final(self).sb.stage() == (Stage {
                cached: if memory@.chain.len() == 1 {
                    old(self).sb.stage().cached
                } else {
                    memory@.free()
                },
                ..old(self).sb.stage()
            }),
            final(self).sb.sequence == old(self).sb.sequence,
            final(self).sb.dependencies == old(self).sb.dependencies,
            final(self).wait_strategy == old(self).wait_strategy,
    {
        let ghost state = memory@;
        proof {
            self.lemma_refers(state);
            self.lemma_polls(memory);
            assert(state.fits(0));
            assert(state.mark_wf(state.chain.last()));
        }
        if self.sb.dependencies.sequences.len() == 0 {
            assert(state.value_at(0, 0) == 0) by {
                vstd::arithmetic::div_mod::lemma_small_mod(
                    0,
                    sequence::boundary(state.size(0)) as nat,
                );
            }
            SequenceNumber(SEQUENCE_INITIAL)
        } else {
            // Poll dependencies once, to ensure the latest possible information is used in this
            // calculation.
            self.sb.poll(memory);
            let capacity: usize = self.sb.capacity(memory);
            let slots_in_progress: usize = capacity - self.sb.cached_available;
            proof {
                let period = sequence::boundary(state.size(0));
                power::lemma_remainder_distance(state.floor(), state.head(), period);
                assert(slots_in_progress == state.head() - state.floor());
                assert(state.value_at(0, state.floor()) == state.floor() % period);
                assert(self.sb.stage().value == state.head() % period);
            }
            self.sb.sequence.get_owned().wrapping_sub(slots_in_progress, wrap_boundary(capacity))
        }
    }

    /// Insert a new consumer, behind what was the last stage of the pipeline.
    ///
    /// While most users will want to call this before emitting any events into the pipeline, it's
    /// safe to call even while events are partially handled by the rest of the pipeline. The newly
    /// inserted consumer will process any items that were previously inserted into the pipeline, but
    /// not yet observed by the publisher to be fully handled as of when the new consumer is inserted.
    pub fn insert_single_consumer<RB: RingBufferOps>(
        &mut self,
        memory: &mut PipelineMemory<RB>,
    ) -> (consumer: SingleConsumerSequenceBarrier<W>) where W: Clone
        requires
            old(self).wf(old(memory)@),
        ensures
            final(memory)@ == old(memory)@.with_consumer(
                old(memory)@.chain.len() as int,
                Mark { at: old(memory)@.floor(), epoch: 0 },
            ),
            final(self).wf(final(memory)@),
            consumer.wf(final(memory)@),
            consumer.settled(final(memory)@),
            consumer.sb.stage().id == old(memory)@.chain.len(),
            consumer.sb.stage().position == old(memory)@.floor(),
            consumer.sb.cached_available == 0,
            consumer.upstream() == old(memory)@.chain.last(),
            steps::others_keep(old(memory)@, final(memory)@, consumer.sb.stage().id),
            final(memory)@.free() == old(memory)@.free(),
            final(self).sb.stage() == (Stage {
                cached: if old(memory)@.chain.len() == 1 {
                    old(self).sb.stage().cached
                } else {
                    old(memory)@.free()
                },
                ..old(self).sb.stage()
            }),
            final(self).wait_strategy == old(self).wait_strategy,
            call_ensures(W::clone, (&old(self).wait_strategy,), consumer.wait_strategy),
    {
        let ghost state = memory@;
        let ghost index = state.chain.len() as int;
        let ghost mark = Mark { at: state.floor(), epoch: 0 };
        let new_sequence = self.calculate_earliest_consumer_sequence(memory);
        proof {
            self.lemma_refers(state);
            assert(state.mark_wf(state.chain.last()));
            assert(state.fits(0));
            steps::lemma_consumer_joins(state, index, mark);
        }
        let mut sequences: Vec<SequenceReader> = Vec::new();
        if self.sb.dependencies.sequences.len() == 0 {
            // This is the first addition to the pipeline, so use this publisher's sequence as its
            // dependency.
            sequences.push(self.sb.sequence.clone_immut());
        } else {
            // A newly inserted consumer needs to wait for what was previously the last stage in the
            // pipeline, so give the new consumer the existing dependency list.
            core::mem::swap(&mut sequences, &mut self.sb.dependencies.sequences);
        }
        let dependencies = ConsumerDependencies::from_vec(sequences);
        let new_consumer = SingleConsumerSequenceBarrier::new(
            memory,
            0,
            new_sequence,
            dependencies,
            0,
            self.wait_strategy.clone(),
            // Our sequence is the publisher's sequence (aka the cursor)
            self.sb.sequence.clone_immut(),
            Ghost(index),
            Ghost(mark),
        );
        // The list of dependencies is an empty Vec now, to be populated with a reference to the new
        // consumer's sequence.
        self.sb.dependencies.sequences.push(new_consumer.sb.sequence.clone_immut());
        assert(memory@ =~= state.with_consumer(index, mark));
        new_consumer
    }

    /// Stores a value in the publisher's next slot.
    pub fn set<RB: RingBufferOps>(&mut self, memory: &mut PipelineMemory<RB>, value: RB::T)
        requires
            old(self).placed(old(memory)@),
            old(memory)@.free() >= 1,
        ensures
            *final(self) == *old(self),
            final(self).placed(final(memory)@),
            final(memory)@.free() == old(memory)@.free(),
            final(memory)@ == old(memory)@.with_slot(0, old(memory)@.head(), value),
            steps::others_keep(old(memory)@, final(memory)@, 0),
    {
        let ghost state = memory@;
        proof {
            self.lemma_refers(state);
            steps::lemma_publisher_writes(state, value);
            steps::lemma_shape_decides(state, state.with_slot(0, state.head(), value));
        }
        self.sb.set(memory, value);
    }

    /// Moves a value into the publisher's next slot, and the old value out of it.
    pub fn replace<RB: RingBufferOps>(
        &mut self,
        memory: &mut PipelineMemory<RB>,
        value: RB::T,
    ) -> (replaced: RB::T)
        requires
            old(self).placed(old(memory)@),
            old(memory)@.free() >= 1,
        ensures
            *final(self) == *old(self),
            final(self).placed(final(memory)@),
            final(memory)@.free() == old(memory)@.free(),
            replaced == old(memory)@.buffers[0][old(memory)@.slot_of(0, old(memory)@.head())],
            final(memory)@ == old(memory)@.with_slot(0, old(memory)@.head(), value),
            steps::others_keep(old(memory)@, final(memory)@, 0),
    {
        let ghost state = memory@;
        proof {
            self.lemma_refers(state);
            steps::lemma_publisher_writes(state, value);
            steps::lemma_shape_decides(state, state.with_slot(0, state.head(), value));
        }
        let replaced = self.sb.replace(memory, value, Ghost(state.items));
        assert(memory@ =~= state.with_slot(0, state.head(), value));
        replaced
    }

    /// Makes the next slots available to downstream consumers, and returns what is to be done to wake
    /// up those that sleep.
    pub fn release_slots_unchecked<RB: RingBufferOps>(
        &mut self,
        memory: &mut PipelineMemory<RB>,
        n: usize,
    ) -> (notification: Notification) where W: NotificationWaitStrategy
        requires
            old(self).wf(old(memory)@),
            n <= old(self).known_available(),
        ensures
            wait::owes(notification, old(self).wait_strategy.signals()),
            final(self).wf(final(memory)@),
            final(self).known_available() == old(self).known_available() - n,
            final(self).sb.dependencies == old(self).sb.dependencies,
            final(self).wait_strategy == old(self).wait_strategy,
            final(memory)@ == old(memory)@.with_released(n as int),
            final(memory)@.free() == old(memory)@.free() - n,
            steps::others_keep(old(memory)@, final(memory)@, 0),
    {
        self.release_quietly(memory, n);
        self.wait_strategy.notify_all_waiters()
    }

    /// Makes the next slots available to downstream consumers.
    pub(crate) fn release_quietly<RB: RingBufferOps>(
        &mut self,
        memory: &mut PipelineMemory<RB>,
        n: usize,
    )
        requires
            old(self).placed(old(memory)@),
            n <= old(self).known_available(),
            n <= old(memory)@.free(),
        ensures
            final(self).sb.stage().position == old(self).sb.stage().position + n,
            final(self).sb.stage().id == old(self).sb.stage().id,
            final(self).placed(final(memory)@),
            final(self).known_available() == old(self).known_available() - n,
            final(self).sb.dependencies == old(self).sb.dependencies,
            final(self).wait_strategy == old(self).wait_strategy,
            final(memory)@ == old(memory)@.with_released(n as int),
            final(memory)@.free() == old(memory)@.free() - n,
            steps::others_keep(old(memory)@, final(memory)@, 0),
    {
        let ghost state = memory@;
        proof {
            self.lemma_refers(state);
            steps::lemma_publisher_releases(state, n as int);
            protocol::lemma_value_advances(state, 0, state.head(), n as int);
            protocol::lemma_value_bounds(state, 0, state.head() + n);
        }
        let ghost stage = Stage { cached: n as int, ..self.sb.stage() };
        self.sb.release_slots_unchecked(memory, n, Ghost(state.items + state.next_slots(n as int)));
        assert(memory@ =~= state.with_released(n as int));
        assert((Stage { cached: 0, ..self.sb.stage() }) == (Stage {
            position: stage.position + n,
            value: state.value_at(stage.epoch, stage.position + n),
            cached: stage.cached - n,
            ..stage
        }));
    }
}

impl<W> LenAvailable for SinglePublisherSequenceBarrier<W> {
    open spec fn known_available(&self) -> int {
        self.sb.cached_available as int
    }

    fn len_available(&self) -> (available: usize) {
        self.sb.len_available()
    }
}

impl<RB: RingBufferOps, W> Pollable<PipelineMemory<RB>> for SinglePublisherSequenceBarrier<W> {
    open spec fn can_poll(&self, memory: &PipelineMemory<RB>) -> bool {
        self.wf(memory@)
    }

    open spec fn polled(&self, memory: &PipelineMemory<RB>) -> int {
        memory@.free()
    }

    fn poll(&mut self, memory: &PipelineMemory<RB>)
        ensures
            final(self).wf(memory@),
            final(self).sb.dependencies == old(self).sb.dependencies,
            final(self).wait_strategy == old(self).wait_strategy,
    {
        proof {
            self.lemma_polls(memory);
        }
        self.sb.poll(memory);
    }
}

/// Implements a sequence barrier for consumers.
pub struct SingleConsumerSequenceBarrier<W> {
    pub sb: CommonSingleSequenceBarrier<ConsumerDependencies>,
    /// A reference to the publisher's sequence.
    pub publisher_availability: PublisherAvailability,
    pub wait_strategy: W,
}

impl<W> SingleConsumerSequenceBarrier<W> {
    /// The stage that the consumer waits for.
    pub open spec fn upstream(&self) -> int {
        self.sb.dependencies.sequences@[0].id()
    }

    /// The barrier fits the state of the pipeline.
    pub open spec fn wf<S>(&self, state: PipelineState<S>) -> bool {
        &&& state.wf()
        &&& self.sb.dependencies.sequences@.len() == 1
        &&& self.publisher_availability.sequence.id() == 0
        &&& state.consumer_wf(self.sb.stage(), self.upstream())
    }

    /// The other stages know how far this one has got.
    pub open spec fn settled<S>(&self, state: PipelineState<S>) -> bool {
        state.marks[self.sb.stage().id] == (Mark {
            at: self.sb.stage().position,
            epoch: self.sb.stage().epoch,
        })
    }

    /// A new consumer, whose place in the chain is `index`, and which starts at the position `mark`.
    pub(crate) fn new<RB: RingBufferOps>(
        memory: &mut PipelineMemory<RB>,
        ring_buffer: usize,
        initial_sequence: SequenceNumber,
        dependencies: ConsumerDependencies,
        cached_available: usize,
        wait_strategy: W,
        publisher_sequence: SequenceReader,
        index: Ghost<int>,
        mark: Ghost<Mark>,
    ) -> (consumer: Self)
        ensures
            consumer.sb.stage() == (Stage {
                id: old(memory)@.published.len() as int,
                position: mark@.at,
                epoch: ring_buffer as int,
                value: initial_sequence.0 as int,
                cached: cached_available as int,
            }),
            consumer.sb.dependencies == dependencies,
            consumer.publisher_availability.sequence == publisher_sequence,
            consumer.wait_strategy == wait_strategy,
            final(memory)@ == (PipelineState {
                published: old(memory)@.published.push(initial_sequence.0),
                marks: old(memory)@.marks.push(mark@),
                chain: old(memory)@.chain.insert(index@, old(memory)@.chain.len() as int),
                ..old(memory)@
            }),
    {
        let sequence = memory.add_sequence(initial_sequence, index, mark);
        let sb = CommonSingleSequenceBarrier::new(
            ring_buffer,
            sequence,
            dependencies,
            cached_available,
            Ghost(mark@.at),
        );
        SingleConsumerSequenceBarrier {
            sb,
            publisher_availability: PublisherAvailability { sequence: publisher_sequence },
            wait_strategy,
        }
    }

    /// What a barrier that fits the state of its pipeline may do there.
    pub proof fn lemma_refers<S>(&self, state: PipelineState<S>)
        requires
            self.wf(state),
        ensures
            self.sb.refers_to(state),
            1 <= self.sb.stage().id < state.chain.len(),
            0 <= self.upstream() < state.chain.len(),
            self.sb.stage().value == state.value_at(
                self.sb.stage().epoch,
                self.sb.stage().position,
            ),
            0 <= self.sb.stage().value < sequence::boundary(state.size(self.sb.stage().epoch)),
            forall|at: int|
                state.floor() <= at < state.end_of(self.sb.stage().epoch)
                    && state.epochs[self.sb.stage().epoch].start <= at
                    ==> #[trigger] state.items[at] == state.buffers[self.sb.stage().epoch][state.slot_of(
                    self.sb.stage().epoch,
                    at,
                )],
            state.floor() <= self.sb.stage().position,
    {
        let stage = self.sb.stage();
        steps::lemma_follows(state, stage.id, self.upstream());
        protocol::lemma_value_bounds(state, stage.epoch, stage.position);
        assert forall|at: int|
            state.floor() <= at < state.end_of(stage.epoch) && state.epochs[stage.epoch].start
                <= at implies #[trigger] state.items[at]
            == state.buffers[stage.epoch][state.slot_of(stage.epoch, at)] by {
            assert(state.holds(stage.epoch, at));
        }
    }

    /// What looking at the stage ahead shows.
    proof fn lemma_polls<RB: RingBufferOps>(&self, memory: &PipelineMemory<RB>)
        requires
            self.wf(memory@),
        ensures
            self.sb.can_poll(memory),
            self.sb.polled(memory) == sequence::available_to_consumer(
                memory@.published[self.upstream()] as int,
                self.sb.stage().value,
                memory@.size(self.sb.stage().epoch),
            ),
            self.publisher_availability.countable(
                memory@.published,
                SequenceNumber(self.sb.stage().value as usize),
                memory@.size(self.sb.stage().epoch) as usize,
            ),
    {
        let state = memory@;
        self.lemma_refers(state);
        steps::lemma_consumer_polls(state, self.sb.stage(), self.upstream());
        let gating = dependency::readings(self.sb.dependencies.sequences@, state.published);
        let waiting = SequenceNumber(self.sb.stage().value as usize);
        let size = state.size(self.sb.stage().epoch);
        let numbers = gating.map_values(
            |number: usize|
                sequence::available_to_consumer(number as int, waiting.0 as int, size),
        );
        assert(numbers.len() == 1);
        assert(self.sb.polled(memory) == numbers[0]) by {
            assert(gating.map_values(
                |number: usize|
                    (|g: int| sequence::available_to_consumer(g, waiting.0 as int, size))(
                        number as int,
                    ),
            ) =~= numbers);
        }
    }

    /// Returns how many slots the stage ahead has released, without remembering it.
    pub fn count<RB: RingBufferOps>(&self, memory: &PipelineMemory<RB>) -> (available: usize)
        requires
            self.wf(memory@),
        ensures
            available == sequence::available_to_consumer(
                memory@.published[self.upstream()] as int,
                self.sb.stage().value,
                memory@.size(self.sb.stage().epoch),
            ),
            available >= 1 <==> self.sb.stage().position < memory@.marks[self.upstream()].at,
            memory@.marks[self.upstream()].epoch == self.sb.stage().epoch ==> available
                == memory@.marks[self.upstream()].at - self.sb.stage().position,
    {
        proof {
            self.lemma_polls(memory);
            steps::lemma_consumer_polls(memory@, self.sb.stage(), self.upstream());
        }
        self.sb.count(memory)
    }

    /// What a consumer believes to be available in a pipeline with a single buffer is so.
    pub proof fn lemma_offered<S>(&self, state: PipelineState<S>)
        requires
            self.wf(state),
            state.epochs.len() == 1,
        ensures
            0 <= self.sb.stage().position,
            self.sb.stage().position + self.sb.cached_available <= state.marks[self.upstream()].at
                <= state.end_of(0),
            state.marks[self.upstream()].epoch == 0,
            state.items.len() == state.end_of(0),
            self.sb.stage().epoch == 0,
            self.sb.refers_to(state),
    {
        self.lemma_refers(state);
        steps::lemma_follows(state, self.sb.stage().id, self.upstream());
    }

    /// What the consumer looks at while it waits for the publisher: how many slots the publisher has
    /// released that this consumer has not passed.
    pub fn publisher_pollable<RB: RingBufferOps>(&self, memory: &PipelineMemory<RB>) -> (pollable:
        PollableDependencyAsPollable<'_, PublisherAvailability>)
        requires
            self.wf(memory@),
        ensures
            pollable == (PollableDependencyAsPollable {
                dependency: &self.publisher_availability,
                waiting_sequence: SequenceNumber(self.sb.stage().value as usize),
                buffer_size: memory@.size(self.sb.stage().epoch) as usize,
                cached_available: 0,
            }),
            pollable.dependency.countable(
                memory@.published,
                pollable.waiting_sequence,
                pollable.buffer_size,
            ),
            0 <= pollable.dependency.available(
                memory@.published,
                pollable.waiting_sequence,
                pollable.buffer_size,
            ),
            pollable.dependency.available(
                memory@.published,
                pollable.waiting_sequence,
                pollable.buffer_size,
            ) >= 1 <==> self.sb.stage().position < memory@.head(),
    {
        proof {
            self.lemma_refers(memory@);
            self.lemma_polls(memory);
            steps::lemma_consumer_polls(memory@, self.sb.stage(), self.upstream());
        }
        PollableDependencyAsPollable::as_pollable(
            &self.publisher_availability,
            self.sb.current_sequence(),
            self.sb.capacity(memory),
        )
    }

    /// Returns how many slots the publisher has released that this consumer has not passed, as far as
    /// the sequence numbers show; none if and only if there are none.
    pub fn poll_publisher<RB: RingBufferOps>(&self, memory: &PipelineMemory<RB>) -> (available:
        usize)
        requires
            self.wf(memory@),
        ensures
            available == sequence::available_to_consumer(
                memory@.published[0] as int,
                self.sb.stage().value,
                memory@.size(self.sb.stage().epoch),
            ),
            available >= 1 <==> self.sb.stage().position < memory@.head(),
    {
        proof {
            self.lemma_refers(memory@);
        }
        let mut pollable = self.publisher_pollable(memory);
        pollable.poll(memory.sequences());
        pollable.len_available()
    }

    /// Gets the value stored in the consumer's current slot, which is the next item unless it tells
    /// that a larger buffer follows.
    pub fn get<'a, RB: RingBufferOps>(&self, memory: &'a PipelineMemory<RB>) -> (value: &'a RB::T)
        requires
            self.wf(memory@),
        ensures
            *value == memory@.buffers[self.sb.stage().epoch][memory@.slot_of(
                self.sb.stage().epoch,
                self.sb.stage().position,
            )],
            self.sb.stage().position < memory@.end_of(self.sb.stage().epoch) ==> *value
                == memory@.items[self.sb.stage().position],
    {
        proof {
            self.lemma_refers(memory@);
        }
        self.sb.get(memory)
    }

    /// Replaces the item that the consumer is processing, and returns it.
    pub fn replace<RB: RingBufferOps>(
        &mut self,
        memory: &mut PipelineMemory<RB>,
        value: RB::T,
    ) -> (replaced: RB::T)
        requires
            old(self).wf(old(memory)@),
            old(self).sb.stage().position < old(memory)@.end_of(old(self).sb.stage().epoch),
        ensures
            *final(self) == *old(self),
            final(self).wf(final(memory)@),
            replaced == old(memory)@.items[old(self).sb.stage().position],
            final(memory)@ == old(memory)@.with_item(
                old(self).sb.stage().epoch,
                old(self).sb.stage().position,
                value,
            ),
            steps::same_shape(old(memory)@, final(memory)@),
            steps::others_keep(old(memory)@, final(memory)@, old(self).sb.stage().id),
    {
        let ghost state = memory@;
        let ghost stage = self.sb.stage();
        proof {
            self.lemma_refers(state);
            steps::lemma_consumer_writes(state, stage, self.upstream(), value);
            steps::lemma_shape_decides(
                state,
                state.with_item(stage.epoch, stage.position, value),
            );
        }
        let ghost items = state.items.update(stage.position, value);
        let replaced = self.sb.replace(memory, value, Ghost(items));
        assert(memory@ =~= state.with_item(stage.epoch, stage.position, value));
        replaced
    }

    /// Stores a value in the consumer's current slot, in place of the item that it is processing.
    pub fn set<RB: RingBufferOps>(&mut self, memory: &mut PipelineMemory<RB>, value: RB::T)
        requires
            old(self).wf(old(memory)@),
            old(self).sb.stage().position < old(memory)@.end_of(old(self).sb.stage().epoch),
        ensures
            *final(self) == *old(self),
            final(self).wf(final(memory)@),
            final(memory)@ == old(memory)@.with_item(
                old(self).sb.stage().epoch,
                old(self).sb.stage().position,
                value,
            ),
            steps::same_shape(old(memory)@, final(memory)@),
            steps::others_keep(old(memory)@, final(memory)@, old(self).sb.stage().id),
    {
        let _replaced = self.replace(memory, value);
    }

    /// Takes the item that the consumer is processing, moving it out of the ring buffer and leaving
    /// the default value.
    pub fn take<RB: RingBufferOps>(&mut self, memory: &mut PipelineMemory<RB>) -> (taken:
        RB::T) where RB::T: Default
        requires
            old(self).wf(old(memory)@),
            old(self).sb.stage().position < old(memory)@.end_of(old(self).sb.stage().epoch),
        ensures
            *final(self) == *old(self),
            final(self).wf(final(memory)@),
            taken == old(memory)@.items[old(self).sb.stage().position],
            exists|left: RB::T|
                call_ensures(RB::T::default, (), left) && final(memory)@
                    == #[trigger] old(memory)@.with_item(
                    old(self).sb.stage().epoch,
                    old(self).sb.stage().position,
                    left,
                ),
            steps::same_shape(old(memory)@, final(memory)@),
            steps::others_keep(old(memory)@, final(memory)@, old(self).sb.stage().id),
    {
        self.replace(memory, RB::T::default())
    }

    /// Releases slots to the stages behind this one.
    pub fn release_slots_unchecked<RB: RingBufferOps>(
        &mut self,
        memory: &mut PipelineMemory<RB>,
        n: usize,
    )
        requires
            old(self).wf(old(memory)@),
            n <= old(self).known_available(),
            old(self).sb.stage().position + n <= old(memory)@.end_of(old(self).sb.stage().epoch),
            old(self).sb.stage().position + n <= old(memory)@.marks[old(self).upstream()].at,
            old(self).sb.stage().epoch >= 1
                ==> old(memory)@.epochs[old(self).sb.stage().epoch].start
                < old(self).sb.stage().position + n,
        ensures
            final(self).wf(final(memory)@),
            final(self).settled(final(memory)@),
            final(self).sb.stage() == (Stage {
                position: old(self).sb.stage().position + n,
                value: final(self).sb.stage().value,
                cached: old(self).sb.stage().cached - n,
                ..old(self).sb.stage()
            }),
            final(self).sb.dependencies == old(self).sb.dependencies,
            final(self).publisher_availability == old(self).publisher_availability,
            final(self).wait_strategy == old(self).wait_strategy,
            final(memory)@ == old(memory)@.with_mark(
                old(self).sb.stage().id,
                Mark {
                    at: old(self).sb.stage().position + n,
                    epoch: old(self).sb.stage().epoch,
                },
            ),
            steps::others_keep(old(memory)@, final(memory)@, old(self).sb.stage().id),
            old(memory)@.floor() <= final(memory)@.floor(),
            old(memory)@.free() <= final(memory)@.free(),
    {
        let ghost state = memory@;
        let ghost stage = self.sb.stage();
        let ghost upstream = self.upstream();
        proof {
            self.lemma_refers(state);
            steps::lemma_follows(state, stage.id, upstream);
            steps::lemma_consumer_advances(state, stage, upstream, n as int);
            protocol::lemma_value_advances(state, stage.epoch, stage.position, n as int);
            protocol::lemma_value_bounds(state, stage.epoch, stage.position + n);
        }
        self.sb.release_slots_unchecked(memory, n, Ghost(state.items));
        proof {
            let next = state.with_mark(
                stage.id,
                Mark { at: stage.position + n, epoch: stage.epoch },
            );
            assert(memory@ =~= next);
            if state.marks[upstream].epoch != stage.epoch {
                vstd::arithmetic::div_mod::lemma_mod_decreases(
                    (stage.value + n) as nat,
                    sequence::boundary(state.size(stage.epoch)) as nat,
                );
            }
        }
    }

    /// Passes slots, without making that visible to the stages behind this one.
    pub fn pass_slots<RB: RingBufferOps>(&mut self, memory: &PipelineMemory<RB>, n: usize)
        requires
            old(self).wf(memory@),
            n <= old(self).known_available(),
            old(self).sb.stage().position + n <= memory@.end_of(old(self).sb.stage().epoch),
            old(self).sb.stage().position + n <= memory@.marks[old(self).upstream()].at,
        ensures
            final(self).wf(memory@),
            final(self).sb.stage() == (Stage {
                position: old(self).sb.stage().position + n,
                value: final(self).sb.stage().value,
                cached: old(self).sb.stage().cached - n,
                ..old(self).sb.stage()
            }),
            final(self).sb.dependencies == old(self).sb.dependencies,
            final(self).publisher_availability == old(self).publisher_availability,
            final(self).wait_strategy == old(self).wait_strategy,
    {
        let ghost state = memory@;
        let ghost stage = self.sb.stage();
        proof {
            self.lemma_refers(state);
            protocol::lemma_value_advances(state, stage.epoch, stage.position, n as int);
            protocol::lemma_value_bounds(state, stage.epoch, stage.position + n);
        }
        self.sb.advance(memory, n);
        proof {
            if state.marks[self.upstream()].epoch != stage.epoch {
                vstd::arithmetic::div_mod::lemma_mod_decreases(
                    (stage.value + n) as nat,
                    sequence::boundary(state.size(stage.epoch)) as nat,
                );
            }
        }
    }

    /// Makes the slots that have been passed available to the stages behind this one.
    pub fn flush<RB: RingBufferOps>(&mut self, memory: &mut PipelineMemory<RB>)
        requires
            old(self).wf(old(memory)@),
            old(self).sb.stage().epoch >= 1
                ==> old(memory)@.epochs[old(self).sb.stage().epoch].start
                < old(self).sb.stage().position,
        ensures
            *final(self) == *old(self),
            final(self).wf(final(memory)@),
            final(self).settled(final(memory)@),
            final(memory)@ == old(memory)@.with_mark(
                old(self).sb.stage().id,
                Mark { at: old(self).sb.stage().position, epoch: old(self).sb.stage().epoch },
            ),
            steps::others_keep(old(memory)@, final(memory)@, old(self).sb.stage().id),
            old(memory)@.free() <= final(memory)@.free(),
    {
        let ghost state = memory@;
        let ghost stage = self.sb.stage();
        let ghost mark = Mark { at: stage.position, epoch: stage.epoch };
        proof {
            self.lemma_refers(state);
            steps::lemma_follows(state, stage.id, self.upstream());
            steps::lemma_consumer_advances(state, stage, self.upstream(), 0);
        }
        memory.flush(&mut self.sb.sequence, Ghost(mark));
        assert(memory@ =~= state.with_mark(stage.id, mark));
    }

    /// Adds a new pipeline stage directly ahead of this consumer. The new consumer waits for whatever
    /// this one was waiting for, while this one now depends on the new consumer.
    pub fn insert_single_consumer<RB: RingBufferOps>(
        &mut self,
        memory: &mut PipelineMemory<RB>,
    ) -> (consumer: Self) where W: Clone
        requires
            old(self).wf(old(memory)@),
            old(self).settled(old(memory)@),
        ensures
            final(memory)@ == old(memory)@.with_consumer(
                old(memory)@.chain.index_of(old(self).sb.stage().id),
                old(memory)@.marks[old(self).sb.stage().id],
            ),
            final(self).wf(final(memory)@),
            final(self).settled(final(memory)@),
            final(self).sb.stage() == (Stage { cached: 0, ..old(self).sb.stage() }),
            final(self).upstream() == consumer.sb.stage().id,
            final(self).wait_strategy == old(self).wait_strategy,
            consumer.wf(final(memory)@),
            consumer.settled(final(memory)@),
            consumer.sb.stage() == (Stage {
                id: old(memory)@.chain.len() as int,
                ..old(self).sb.stage()
            }),
            consumer.upstream() == old(self).upstream(),
            steps::others_keep(old(memory)@, final(memory)@, old(self).sb.stage().id),
            final(memory)@.floor() == old(memory)@.floor(),
            call_ensures(W::clone, (&old(self).wait_strategy,), consumer.wait_strategy),
    {
        let ghost state = memory@;
        let ghost stage = self.sb.stage();
        let ghost index = state.chain.index_of(stage.id);
        let ghost mark = state.marks[stage.id];
        proof {
            self.lemma_refers(state);
            steps::lemma_follows(state, stage.id, self.upstream());
            let i = choose|i: int|
                1 <= i < state.chain.len() && #[trigger] state.chain[i] == stage.id
                    && state.chain[i - 1] == self.upstream();
            assert(state.chain[i] == stage.id);
            assert(state.chain.contains(stage.id));
            assert(index == i) by {
                if index < i {
                    assert(state.chain[index] != state.chain[i]);
                } else if i < index {
                    assert(state.chain[i] != state.chain[index]);
                }
            }
            steps::lemma_consumer_joins(state, index, mark);
        }
        // Reuse self's dependencies, and populate its replacement below, after constructing the new
        // consumer.
        let mut new_dependencies = ConsumerDependencies::default();
        core::mem::swap(&mut new_dependencies, &mut self.sb.dependencies);
        let new_consumer = SingleConsumerSequenceBarrier::new(
            memory,
            self.sb.ring_buffer,
            self.sb.sequence.get_owned(),
            new_dependencies,
            self.sb.cached_available,
            self.wait_strategy.clone(),
            self.publisher_availability.sequence.clone_immut(),
            Ghost(index),
            Ghost(mark),
        );
        // Wait for the new consumer to process the events that would otherwise have been available
        // to self.
        self.sb.dependencies.sequences.push(new_consumer.sb.sequence.clone_immut());
        self.sb.cached_available = 0;
        assert(memory@ =~= state.with_consumer(index, mark));
        new_consumer
    }
}

impl<W> LenAvailable for SingleConsumerSequenceBarrier<W> {
    open spec fn known_available(&self) -> int {
        self.sb.cached_available as int
    }

    fn len_available(&self) -> (available: usize) {
        self.sb.len_available()
    }
}

impl<RB: RingBufferOps, W> Pollable<PipelineMemory<RB>> for SingleConsumerSequenceBarrier<W> {
    open spec fn can_poll(&self, memory: &PipelineMemory<RB>) -> bool {
        self.wf(memory@)
    }

    open spec fn polled(&self, memory: &PipelineMemory<RB>) -> int {
        sequence::available_to_consumer(
            memory@.published[self.upstream()] as int,
            self.sb.stage().value,
            memory@.size(self.sb.stage().epoch),
        )
    }

    fn poll(&mut self, memory: &PipelineMemory<RB>)
        ensures
            *final(self) == (SingleConsumerSequenceBarrier {
                sb: CommonSingleSequenceBarrier {
                    cached_available: final(self).sb.cached_available,
                    ..old(self).sb
                },
                ..*old(self)
            }),
            final(self).wf(memory@),
            final(self).known_available() >= 1 <==> old(self).sb.stage().position
                < memory@.marks[old(self).upstream()].at,
            memory@.marks[old(self).upstream()].epoch == old(self).sb.stage().epoch
                ==> final(self).known_available() == memory@.marks[old(self).upstream()].at
                - old(self).sb.stage().position,
    {
        proof {
            self.lemma_polls(memory);
            steps::lemma_consumer_polls(memory@, self.sb.stage(), self.upstream());
        }
        self.sb.poll(memory);
    }
}

} // verus!
