//! Pipelines whose consumers are created together, as a chain.
//!
//! The slots of the ring buffer may be empty, so that items need no default value; only the last
//! consumer of the chain can move items out. Consumers make their progress visible to the stages
//! behind them only when they would have to wait otherwise.
use crate::barrier::{SingleConsumerSequenceBarrier, SinglePublisherSequenceBarrier};
use crate::chain_wait::PublishingWaitStrategy;
use crate::dependency::LenAvailable;
use crate::memory::PipelineMemory;
use crate::owner::SequenceReader;
use crate::power;
use crate::protocol;
use crate::protocol::{Mark, PipelineState, Stage};
use crate::ring_buffer;
use crate::ring_buffer::{RingBufferAsSlice, RingBufferOps};
use crate::sequence;
use crate::sequence::SequenceNumber;
use crate::steps;
use crate::wait;
use crate::wait::{Notification, NotificationPhase};
use vstd::prelude::*;

verus! {

/// A single nullable element.
pub struct Slot<T> {
    pub payload: Option<T>,
}

impl<T> Default for Slot<T> {
    /// An empty slot.
    fn default() -> (slot: Self)
        ensures
            slot.payload is None,
    {
        Slot { payload: None }
    }
}

impl<T> Slot<T> {
    /// An empty slot.
    pub fn new() -> (slot: Slot<T>)
        ensures
            slot.payload is None,
    {
        Slot { payload: None }
    }

    /// Overwrites the slot's value with `value`.
    pub fn set(&mut self, value: T)
        ensures
            final(self).payload == Some(value),
    {
        self.payload = Some(value);
    }

    /// Retrieves an immutable reference to the slot's value.
    pub fn get(&self) -> (value: &T)
        requires
            self.payload is Some,
        ensures
            Some(*value) == self.payload,
    {
        match &self.payload {
            Some(value) => value,
            None => vstd::pervasive::unreached(),
        }
    }

    /// Moves the value out of the slot and returns it.
    pub fn take(&mut self) -> (value: T)
        requires
            old(self).payload is Some,
        ensures
            Some(value) == old(self).payload,
            final(self).payload is None,
    {
        let mut payload: Option<T> = None;
        core::mem::swap(&mut payload, &mut self.payload);
        match payload {
            Some(value) => value,
            None => vstd::pervasive::unreached(),
        }
    }

    /// Destroys the value, if present, and assigns a null value. This can be used with `is_set` as a
    /// signalling mechanism.
    pub fn unset(&mut self)
        ensures
            final(self).payload is None,
    {
        self.payload = None;
    }

    /// Checks if a value is set in the slot.
    pub fn is_set(&self) -> (result: bool)
        ensures
            result == (self.payload is Some),
    {
        self.payload.is_some()
    }
}

/// A ring buffer of slots that may be empty.
pub struct RingBuffer<T> {
    entries: Vec<Slot<T>>,
}

impl<T> RingBufferAsSlice for RingBuffer<T> {
    type T = Slot<T>;

    closed spec fn slots(&self) -> Seq<Slot<T>> {
        self.entries@
    }

    fn as_slice(&self) -> (slice: &[Slot<T>]) {
        self.entries.as_slice()
    }

    fn as_mut_slice(&mut self) -> (slice: &mut [Slot<T>]) {
        self.entries.as_mut_slice()
    }
}

impl<T> RingBuffer<T> {
    /// The slot that a sequence number denotes.
    pub open spec fn index(&self, sequence: SequenceNumber) -> int {
        ring_buffer::index_of(sequence, self.slots().len() as int)
    }

    /// Constructs a new ring buffer with empty slots. The size must be a power of two.
    pub fn new(size: usize) -> (buffer: RingBuffer<T>)
        requires
            power::is_power_of_two(size as int),
        ensures
            buffer.slots().len() == size,
            forall|i: int| 0 <= i < size ==> (#[trigger] buffer.slots()[i]).payload is None,
    {
        let mut entries: Vec<Slot<T>> = Vec::new();
        while entries.len() < size
            invariant
                entries@.len() <= size,
                forall|i: int| 0 <= i < entries@.len() ==> (#[trigger] entries@[i]).payload is None,
            decreases size - entries@.len(),
        {
            entries.push(Slot::new());
        }
        RingBuffer { entries }
    }

    /// Get the size of the underlying buffer.
    pub fn size(&self) -> (size: usize)
        ensures
            size == self.slots().len(),
    {
        RingBufferOps::len(self)
    }

    /// Write a value into the ring buffer. The given sequence number is converted into an index into
    /// the buffer, and the value is moved in into that element of the buffer.
    pub fn set(&mut self, sequence: SequenceNumber, value: T)
        requires
            power::is_power_of_two(old(self).slots().len() as int),
        ensures
            final(self).slots() == old(self).slots().update(
                old(self).index(sequence),
                Slot { payload: Some(value) },
            ),
    {
        self.get_sequence_mut(sequence).set(value);
    }

    /// Get an immutable reference to the value pointed to by `sequence`.
    pub fn get(&self, sequence: SequenceNumber) -> (value: &T)
        requires
            power::is_power_of_two(self.slots().len() as int),
            self.slots()[self.index(sequence)].payload is Some,
        ensures
            Some(*value) == self.slots()[self.index(sequence)].payload,
    {
        self.get_sequence(sequence).get()
    }

    /// Take the value pointed to by `sequence`, moving it out of the ring buffer. This function
    /// should only be called once for a given sequence value.
    pub fn take(&mut self, sequence: SequenceNumber) -> (value: T)
        requires
            power::is_power_of_two(old(self).slots().len() as int),
            old(self).slots()[old(self).index(sequence)].payload is Some,
        ensures
            Some(value) == old(self).slots()[old(self).index(sequence)].payload,
            final(self).slots() == old(self).slots().update(
                old(self).index(sequence),
                Slot { payload: None },
            ),
    {
        self.get_sequence_mut(sequence).take()
    }

    /// Assigns a special null value to the slot pointed to by `sequence`, which can be checked using
    /// the `is_set` method.
    pub fn unset(&mut self, sequence: SequenceNumber)
        requires
            power::is_power_of_two(old(self).slots().len() as int),
        ensures
            final(self).slots() == old(self).slots().update(
                old(self).index(sequence),
                Slot { payload: None },
            ),
    {
        self.get_sequence_mut(sequence).unset();
    }

    /// Checks whether the slot corresponding to `sequence` contains a value or not.
    pub fn is_set(&self, sequence: SequenceNumber) -> (result: bool)
        requires
            power::is_power_of_two(self.slots().len() as int),
        ensures
            result == (self.slots()[self.index(sequence)].payload is Some),
    {
        self.get_sequence(sequence).is_set()
    }
}

/// The memory of a pipeline with slots that may be empty.
pub type ChainMemory<T> = PipelineMemory<RingBuffer<T>>;

/// From some position on, no item has been moved out.
pub open spec fn filled<T>(items: Seq<Slot<T>>, from: int) -> bool {
    forall|at: int| from <= at < items.len() ==> (#[trigger] items[at]).payload is Some
}

/// Responsible for ensuring that the caller does not proceed until one or more dependent sequences
/// have finished working with the subsequent slots.
pub trait SequenceBarrier<T>: Sized {
    /// The barrier fits the state of the pipeline.
    spec fn fits(&self, state: PipelineState<Slot<T>>) -> bool;

    /// The barrier fits the state of the pipeline, but that its current slot may be empty.
    spec fn fits_emptied(&self, state: PipelineState<Slot<T>>) -> bool;

    /// What the stage knows of itself.
    spec fn stage(&self) -> Stage;

    /// How many slots the stages ahead leave to this one.
    spec fn offered(&self, state: PipelineState<Slot<T>>) -> int;

    /// The next `n` slots may be changed.
    spec fn owns(&self, state: PipelineState<Slot<T>>, n: int) -> bool;

    /// Another barrier waits for the same stages in the same way.
    spec fn waits_like(&self, other: &Self) -> bool;

    /// The state of the pipeline after the stage's current slot has been overwritten.
    spec fn stored(&self, state: PipelineState<Slot<T>>, slot: Slot<T>) -> PipelineState<Slot<T>>;

    /// Releasing slots may wake up consumers that sleep.
    spec fn signals(&self) -> bool;

    /// The state of the pipeline after `n` slots have been released.
    spec fn released(&self, state: PipelineState<Slot<T>>, n: int) -> PipelineState<Slot<T>>;

    /// Get the current value of the sequence associated with this barrier.
    fn get_current(&self) -> (number: SequenceNumber)
        ensures
            number.0 == self.stage().value,
    ;

    /// Return the number of known-available slots as of the last read from the sequence barrier's
    /// gating sequence.
    fn get_cached_available(&self) -> (available: usize)
        ensures
            available == self.stage().cached,
    ;

    /// Wait for a single slot to be available. Returns whether one is.
    fn next(&mut self, memory: &ChainMemory<T>) -> (ready: bool)
        requires
            old(self).fits(memory@),
        ensures
            final(self).fits(memory@),
            final(self).waits_like(old(self)),
            ready == (old(self).stage().cached >= 1 || old(self).offered(memory@) >= 1),
            final(self).stage() == (Stage {
                cached: if old(self).stage().cached >= 1 || !ready {
                    old(self).stage().cached
                } else {
                    old(self).offered(memory@)
                },
                ..old(self).stage()
            }),
    {
        self.next_n(memory, 1)
    }

    /// Wait for N slots to be available. Returns whether they are.
    ///
    /// # Arguments
    ///
    /// * batch_size - How many slots should be available before returning.
    ///
    /// Note that if N is greater than the size of the ring buffer minus the total number of slots the
    /// rest of the pipeline is waiting for, then the slots may never be available. A size of 1 should
    /// always be safe.
    fn next_n(&mut self, memory: &ChainMemory<T>, batch_size: usize) -> (ready: bool)
        requires
            old(self).fits(memory@),
        ensures
            final(self).fits(memory@),
            final(self).waits_like(old(self)),
            ready == (old(self).stage().cached >= batch_size || old(self).offered(memory@)
                >= batch_size),
            final(self).stage() == (Stage {
                cached: if old(self).stage().cached >= batch_size || !ready {
                    old(self).stage().cached
                } else {
                    old(self).offered(memory@)
                },
                ..old(self).stage()
            }),
    ;

    /// Returns the number of available slots, as the stages ahead show it now. This is called only as
    /// a last resort. If extra slots were available as of the last wait, this function will not be
    /// called.
    fn next_n_real(&self, memory: &ChainMemory<T>) -> (available: usize)
        requires
            self.fits(memory@),
        ensures
            available == self.offered(memory@),
    ;

    /// Release a single slot for downstream consumers. Returns what is to be done to wake up those that
    /// sleep.
    fn release(&mut self, memory: &mut ChainMemory<T>) -> (notification: Notification)
        requires
            old(self).fits(old(memory)@) || old(self).fits_emptied(old(memory)@),
            old(self).stage().cached >= 1,
            old(self).owns(old(memory)@, 1),
        ensures
            wait::owes(notification, old(self).signals()),
            final(self).fits(final(memory)@),
            final(self).waits_like(old(self)),
            final(memory)@ == old(self).released(old(memory)@, 1),
            final(self).stage() == (Stage {
                position: old(self).stage().position + 1,
                value: final(self).stage().value,
                cached: old(self).stage().cached - 1,
                ..old(self).stage()
            }),
            steps::others_keep(old(memory)@, final(memory)@, old(self).stage().id),
    {
        self.release_n(memory, 1)
    }

    /// Release n slots for downstream consumers. Returns what is to be done to wake up those that
    /// sleep.
    fn release_n(&mut self, memory: &mut ChainMemory<T>, batch_size: usize) -> (notification:
        Notification)
        requires
            old(self).fits(old(memory)@) || (batch_size >= 1 && old(self).fits_emptied(
                old(memory)@,
            )),
            batch_size <= old(self).stage().cached,
            old(self).owns(old(memory)@, batch_size as int),
        ensures
            wait::owes(notification, old(self).signals()),
            final(self).fits(final(memory)@),
            final(self).waits_like(old(self)),
            final(memory)@ == old(self).released(old(memory)@, batch_size as int),
            final(self).stage() == (Stage {
                position: old(self).stage().position + batch_size,
                value: final(self).stage().value,
                cached: old(self).stage().cached - batch_size,
                ..old(self).stage()
            }),
            steps::others_keep(old(memory)@, final(memory)@, old(self).stage().id),
    ;

    /// Returns a read-only reference to this barrier's sequence number.
    fn get_sequence(&self) -> (reader: SequenceReader)
        ensures
            reader.id() == self.stage().id,
    ;

    /// Returns the size of the underlying ring buffer.
    fn size(&self, memory: &ChainMemory<T>) -> (size: usize)
        requires
            self.fits(memory@),
        ensures
            size == memory@.size(0),
    ;

    /// Stores a value in the sequence barrier's current slot.
    fn set(&mut self, memory: &mut ChainMemory<T>, value: T)
        requires
            old(self).fits(old(memory)@),
            old(self).stage().cached >= 1,
            old(self).owns(old(memory)@, 1),
        ensures
            *final(self) == *old(self),
            final(self).fits(final(memory)@),
            final(memory)@ == old(self).stored(old(memory)@, Slot { payload: Some(value) }),
            steps::others_keep(old(memory)@, final(memory)@, old(self).stage().id),
    ;

    /// Gets the value stored in the sequence barrier's current slot, which would have been stored
    /// there by a different task, in most cases.
    fn get<'a>(&self, memory: &'a ChainMemory<T>) -> (value: &'a T)
        requires
            self.fits(memory@),
            current(memory@, self.stage()).payload is Some,
        ensures
            Some(*value) == current(memory@, self.stage()).payload,
    ;

    /// Takes the value stored in the sequence barrier's current slot, moving it out of the ring
    /// buffer.
    fn take(&mut self, memory: &mut ChainMemory<T>) -> (value: T)
        requires
            old(self).fits(old(memory)@),
            old(self).stage().cached >= 1,
            old(self).owns(old(memory)@, 1),
            current(old(memory)@, old(self).stage()).payload is Some,
        ensures
            Some(value) == current(old(memory)@, old(self).stage()).payload,
            *final(self) == *old(self),
            final(self).fits_emptied(final(memory)@),
            final(memory)@ == old(self).stored(old(memory)@, Slot { payload: None }),
            steps::others_keep(old(memory)@, final(memory)@, old(self).stage().id),
    ;
}

/// What the current slot of a stage holds.
pub open spec fn current<T>(state: PipelineState<Slot<T>>, stage: Stage) -> Slot<T> {
    state.buffers[0][state.slot_of(0, stage.position)]
}

impl<T, W: PublishingWaitStrategy> SequenceBarrier<T> for SinglePublisherSequenceBarrier<W> {
    /// A publisher without any consumer has nothing to wait for.
    open spec fn fits(&self, state: PipelineState<Slot<T>>) -> bool {
        if state.chain.len() == 1 {
            self.sb.alone(state) && self.sb.dependencies.sequences@.len() == 0
        } else {
            self.placed(state)
        }
    }

    open spec fn fits_emptied(&self, state: PipelineState<Slot<T>>) -> bool {
        if state.chain.len() == 1 {
            self.sb.alone(state) && self.sb.dependencies.sequences@.len() == 0
        } else {
            self.placed(state)
        }
    }

    open spec fn stage(&self) -> Stage {
        self.sb.stage()
    }

    open spec fn offered(&self, state: PipelineState<Slot<T>>) -> int {
        if state.chain.len() == 1 {
            usize::MAX as int
        } else {
            state.free()
        }
    }

    /// A publisher that has published without consumers before it got them may take slots to be free
    /// that are not.
    open spec fn owns(&self, state: PipelineState<Slot<T>>, n: int) -> bool {
        state.chain.len() > 1 ==> n <= state.free()
    }

    open spec fn signals(&self) -> bool {
        self.wait_strategy.blocks()
    }

    open spec fn waits_like(&self, other: &Self) -> bool {
        &&& self.wait_strategy == other.wait_strategy
        &&& self.sb.dependencies == other.sb.dependencies
    }

    open spec fn stored(&self, state: PipelineState<Slot<T>>, slot: Slot<T>) -> PipelineState<
        Slot<T>,
    > {
        state.with_slot(0, state.head(), slot)
    }

    open spec fn released(&self, state: PipelineState<Slot<T>>, n: int) -> PipelineState<Slot<T>> {
        state.with_released(n)
    }

    fn get_current(&self) -> (number: SequenceNumber) {
        self.sb.current_sequence()
    }

    fn get_cached_available(&self) -> (available: usize) {
        self.sb.len_available()
    }

    fn next_n(&mut self, memory: &ChainMemory<T>, batch_size: usize) -> (ready: bool) {
        // Avoid waiting if the necessary slots were already available as of the last read. Calls
        // next_n_real if the slots are not available.
        if self.sb.len_available() < batch_size {
            let available: usize = SequenceBarrier::next_n_real(self, memory);
            if available < batch_size {
                return false;
            }
            self.sb.set_cached_available(available);
        }
        true
    }

    fn next_n_real(&self, memory: &ChainMemory<T>) -> (available: usize) {
        if self.sb.dependencies.sequences.len() == 0 {
            usize::MAX
        } else {
            self.count(memory)
        }
    }

    fn release_n(&mut self, memory: &mut ChainMemory<T>, batch_size: usize) -> (notification:
        Notification) {
        let ghost state = memory@;
        if self.sb.dependencies.sequences.len() == 0 {
            let ghost n = batch_size as int;
            proof {
                self.sb.lemma_alone(state);
                self.sb.lemma_alone_releases(state, n);
                protocol::lemma_value_advances(state, 0, state.head(), n);
                protocol::lemma_value_bounds(state, 0, state.head() + n);
            }
            self.sb.release_slots_unchecked(
                memory,
                batch_size,
                Ghost(state.items + state.next_slots(n)),
            );
            assert(memory@ =~= state.with_released(n));
        } else {
            self.release_quietly(memory, batch_size);
        }
        PublishingWaitStrategy::notify_all_waiters(&self.wait_strategy)
    }

    fn get_sequence(&self) -> (reader: SequenceReader) {
        self.sb.sequence.clone_immut()
    }

    fn size(&self, memory: &ChainMemory<T>) -> (size: usize) {
        self.sb.capacity(memory)
    }

    fn set(&mut self, memory: &mut ChainMemory<T>, value: T) {
        if self.sb.dependencies.sequences.len() == 0 {
            proof {
                self.sb.lemma_alone(memory@);
                self.sb.lemma_alone_writes(memory@, Slot { payload: Some(value) });
            }
            self.sb.set(memory, Slot { payload: Some(value) });
        } else {
            SinglePublisherSequenceBarrier::set(self, memory, Slot { payload: Some(value) });
        }
    }

    fn get<'a>(&self, memory: &'a ChainMemory<T>) -> (value: &'a T) {
        proof {
            if memory@.chain.len() == 1 {
                self.sb.lemma_alone(memory@);
            } else {
                self.lemma_refers(memory@);
            }
        }
        self.sb.get(memory).get()
    }

    fn take(&mut self, memory: &mut ChainMemory<T>) -> (value: T) {
        let ghost state = memory@;
        let mut slot = if self.sb.dependencies.sequences.len() == 0 {
            proof {
                self.sb.lemma_alone(state);
                self.sb.lemma_alone_writes(state, Slot { payload: None });
            }
            let slot = self.sb.replace(memory, Slot::new(), Ghost(state.items));
            assert(memory@ =~= state.with_slot(0, state.head(), Slot { payload: None }));
            slot
        } else {
            self.replace(memory, Slot::new())
        };
        slot.take()
    }
}

impl<T, W> SequenceBarrier<T> for SingleConsumerSequenceBarrier<W> {
    /// What the consumer has passed is visible to the stages behind it, unless it knows of more
    /// slots.
    open spec fn fits(&self, state: PipelineState<Slot<T>>) -> bool {
        &&& self.wf(state)
        &&& state.epochs.len() == 1
        &&& filled(state.items, self.sb.stage().position)
        &&& self.sb.cached_available == 0 ==> self.settled(state)
    }

    open spec fn fits_emptied(&self, state: PipelineState<Slot<T>>) -> bool {
        &&& self.wf(state)
        &&& state.epochs.len() == 1
        &&& filled(state.items, self.sb.stage().position + 1)
        &&& self.sb.cached_available == 0 ==> self.settled(state)
    }

    open spec fn stage(&self) -> Stage {
        self.sb.stage()
    }

    open spec fn offered(&self, state: PipelineState<Slot<T>>) -> int {
        state.marks[self.upstream()].at - self.sb.stage().position
    }

    open spec fn owns(&self, state: PipelineState<Slot<T>>, n: int) -> bool {
        true
    }

    open spec fn waits_like(&self, other: &Self) -> bool {
        &&& self.wait_strategy == other.wait_strategy
        &&& self.sb.dependencies == other.sb.dependencies
        &&& self.publisher_availability == other.publisher_availability
    }

    open spec fn stored(&self, state: PipelineState<Slot<T>>, slot: Slot<T>) -> PipelineState<
        Slot<T>,
    > {
        state.with_item(0, self.sb.stage().position, slot)
    }

    /// Only the publisher wakes up consumers.
    open spec fn signals(&self) -> bool {
        false
    }

    /// If the next wait will result in more waiting, then the progress is made visible to downstream
    /// consumers now.
    open spec fn released(&self, state: PipelineState<Slot<T>>, n: int) -> PipelineState<Slot<T>> {
        if self.sb.cached_available - n < n {
            state.with_mark(
                self.sb.stage().id,
                Mark { at: self.sb.stage().position + n, epoch: 0 },
            )
        } else {
            state
        }
    }

    fn get_current(&self) -> (number: SequenceNumber) {
        self.sb.current_sequence()
    }

    fn get_cached_available(&self) -> (available: usize) {
        self.sb.len_available()
    }

    fn next_n(&mut self, memory: &ChainMemory<T>, batch_size: usize) -> (ready: bool) {
        proof {
            self.lemma_offered(memory@);
        }
        if self.sb.len_available() < batch_size {
            let available: usize = self.count(memory);
            if available < batch_size {
                return false;
            }
            self.sb.set_cached_available(available);
        }
        true
    }

    fn next_n_real(&self, memory: &ChainMemory<T>) -> (available: usize) {
        proof {
            self.lemma_offered(memory@);
        }
        self.count(memory)
    }

    fn release_n(&mut self, memory: &mut ChainMemory<T>, batch_size: usize) -> (notification:
        Notification) {
        proof {
            self.lemma_offered(memory@);
        }
        self.pass_slots(memory, batch_size);
        // If the next call to next_n will result in more waiting, then make our progress visible to
        // downstream consumers now.
        if self.sb.len_available() < batch_size {
            self.flush(memory);
        }
        Notification { phase: NotificationPhase::Done }
    }

    fn get_sequence(&self) -> (reader: SequenceReader) {
        self.sb.sequence.clone_immut()
    }

    fn size(&self, memory: &ChainMemory<T>) -> (size: usize) {
        proof {
            self.lemma_offered(memory@);
        }
        self.sb.capacity(memory)
    }

    fn set(&mut self, memory: &mut ChainMemory<T>, value: T) {
        proof {
            self.lemma_offered(memory@);
        }
        SingleConsumerSequenceBarrier::set(self, memory, Slot { payload: Some(value) });
    }

    fn get<'a>(&self, memory: &'a ChainMemory<T>) -> (value: &'a T) {
        SingleConsumerSequenceBarrier::get(self, memory).get()
    }

    fn take(&mut self, memory: &mut ChainMemory<T>) -> (value: T) {
        proof {
            self.lemma_offered(memory@);
            self.lemma_refers(memory@);
            assert(self.fits(memory@));
        }
        let mut slot = SingleConsumerSequenceBarrier::replace(self, memory, Slot::new());
        slot.take()
    }
}

/// Allows callers to wire up dependencies, then send values down the pipeline of dependent consumers.
pub struct Publisher<SB> {
    pub sequence_barrier: SB,
}

/// Allows callers to retrieve values from upstream tasks in the pipeline.
pub struct Consumer<SB> {
    pub sequence_barrier: SB,
}

/// The last consumer in a disruptor pipeline. Being the last consumer in the pipeline makes it
/// possible to move values out of the ring buffer, in addition to the functionality available from a
/// normal [`Consumer`].
pub struct FinalConsumer<SB> {
    pub sc: Consumer<SB>,
}

/// The state of a pipeline after a chain of consumers has been added to a publisher without any. All
/// of them start at the first item.
pub open spec fn with_chain<S>(state: PipelineState<S>, count: int) -> PipelineState<S> {
    PipelineState {
        chain: Seq::new((count + 1) as nat, |i: int| i),
        marks: state.marks + Seq::new(count as nat, |i: int| Mark { at: 0, epoch: 0 }),
        published: state.published + Seq::new(count as nat, |i: int| 0usize),
        ..state
    }
}

/// A consumer is the stage with a certain number in a chain that has just been created.
pub open spec fn starts_chain<T, W>(
    barrier: SingleConsumerSequenceBarrier<W>,
    state: PipelineState<Slot<T>>,
    number: int,
) -> bool {
    &&& barrier.fits(state)
    &&& barrier.sb.stage() == (Stage { id: number, position: 0, epoch: 0, value: 0, cached: 0 })
    &&& barrier.upstream() == number - 1
}

/// A publisher has no consumers, and nothing that it has published has been overwritten or moved out.
pub open spec fn can_create<T, W: PublishingWaitStrategy>(
    barrier: SinglePublisherSequenceBarrier<W>,
    state: PipelineState<Slot<T>>,
) -> bool {
    &&& barrier.fits(state)
    &&& state.chain.len() == 1
    &&& state.wf()
    &&& filled(state.items, 0)
}

/// A publisher takes no slot to be free that is not.
pub open spec fn cautious<T, W>(
    barrier: SinglePublisherSequenceBarrier<W>,
    state: PipelineState<Slot<T>>,
) -> bool {
    state.chain.len() > 1 ==> barrier.sb.cached_available <= state.free()
}

impl<W: PublishingWaitStrategy> Publisher<SinglePublisherSequenceBarrier<W>> {
    /// Constructs a new (non-resizeable) ring buffer with _size_ elements and wraps it into a new
    /// Publisher object.
    pub fn new<T>(size: usize, wait_strategy: W) -> (result: (Self, ChainMemory<T>))
        requires
            power::is_power_of_two(size as int),
            2 * sequence::boundary(size as int) <= power::usize_range(),
        ensures
            can_create(result.0.sequence_barrier, result.1@),
            result.0.sequence_barrier.wait_strategy == wait_strategy,
            result.0.sequence_barrier.sb.cached_available == 0,
            exists|slots: Seq<Slot<T>>|
                {
                    &&& slots.len() == size
                    &&& forall|i: int| 0 <= i < size ==> (#[trigger] slots[i]).payload is None
                    &&& result.1@ == #[trigger] PipelineState::initial(slots)
                },
    {
        let ring_buffer = RingBuffer::<T>::new(size);
        let (sb, memory) = SinglePublisherSequenceBarrier::new(ring_buffer, wait_strategy);
        (Publisher::new_common(sb), memory)
    }

    /// Wraps a barrier.
    fn new_common(sb: SinglePublisherSequenceBarrier<W>) -> (publisher: Self)
        ensures
            publisher.sequence_barrier == sb,
    {
        Publisher { sequence_barrier: sb }
    }

    /// Sends a single item into the pipeline, if a slot is free for it, and returns what is to be done
    /// to wake up consumers that sleep; gives the item back otherwise. As long as there are no
    /// consumers, every slot is free.
    ///
    /// A publisher that has published without consumers before it got them goes on to take every slot
    /// to be free, so that one has to be.
    pub fn publish<T>(&mut self, memory: &mut ChainMemory<T>, value: T) -> (result: Result<
        Notification,
        T,
    >)
        requires
            old(self).sequence_barrier.fits(old(memory)@),
            cautious(old(self).sequence_barrier, old(memory)@) || old(memory)@.free() >= 1,
        ensures
            final(self).sequence_barrier.fits(final(memory)@),
            cautious(old(self).sequence_barrier, old(memory)@) ==> cautious(
                final(self).sequence_barrier,
                final(memory)@,
            ),
            final(self).sequence_barrier.wait_strategy == old(self).sequence_barrier.wait_strategy,
            result is Ok <==> old(memory)@.chain.len() == 1 || old(memory)@.free() >= 1,
            result is Ok ==> wait::owes(
                result->Ok_0,
                old(self).sequence_barrier.wait_strategy.blocks(),
            ),
            result is Err ==> result->Err_0 == value && final(memory)@ == old(memory)@,
            final(self).sequence_barrier.sb.cached_available == (if result is Err {
                0
            } else if old(self).sequence_barrier.sb.cached_available >= 1 {
                old(self).sequence_barrier.sb.cached_available - 1
            } else if old(memory)@.chain.len() == 1 {
                usize::MAX - 1
            } else {
                old(memory)@.free() - 1
            }),
            result is Ok ==> {
                &&& final(memory)@ == old(memory)@.with_slot(
                    0,
                    old(memory)@.head(),
                    Slot { payload: Some(value) },
                ).with_released(1)
                &&& final(memory)@.items == old(memory)@.items.push(Slot { payload: Some(value) })
                &&& old(memory)@.wf() && old(memory)@.free() >= 1 ==> final(memory)@.wf()
                    && final(memory)@.free() == old(memory)@.free() - 1
            },
            steps::others_keep(old(memory)@, final(memory)@, 0),
    {
        // Wait for available slot
        let ready: bool = self.sequence_barrier.next(memory);
        if !ready {
            return Err(value);
        }
        let ghost state = memory@;
        proof {
            if state.wf() && state.free() >= 1 {
                steps::lemma_publishes(state, Slot { payload: Some(value) });
            }
            if state.chain.len() == 1 {
                let slot = Slot { payload: Some(value) };
                self.sequence_barrier.sb.lemma_alone_writes(state, slot);
                assert(state.items + seq![slot] =~= state.items.push(slot));
            }
        }
        SequenceBarrier::set(&mut self.sequence_barrier, memory, value);
        // Make the item available to downstream consumers
        Ok(SequenceBarrier::<T>::release(&mut self.sequence_barrier, memory))
    }

    /// Creates and returns a single consumer, which will receive items sent through the publisher.
    pub fn create_single_consumer_pipeline<T>(&mut self, memory: &mut ChainMemory<T>) -> (consumer:
        FinalConsumer<SingleConsumerSequenceBarrier<W>>)
        requires
            can_create(old(self).sequence_barrier, old(memory)@),
        ensures
            final(memory)@ == with_chain(old(memory)@, 1),
            final(self).sequence_barrier.fits(final(memory)@),
            final(memory)@.free() == old(memory)@.free(),
            final(self).sequence_barrier.sb.stage() == old(self).sequence_barrier.sb.stage(),
            final(self).sequence_barrier.wait_strategy == old(self).sequence_barrier.wait_strategy,
            starts_chain(consumer.sc.sequence_barrier, final(memory)@, 1),
            call_ensures(
                W::clone,
                (&old(self).sequence_barrier.wait_strategy,),
                consumer.sc.sequence_barrier.wait_strategy,
            ),
    {
        let (_consumers, c) = self.create_consumer_pipeline(memory, 1);
        c
    }

    /// Create a chain of dependent consumers, and then add the final consumer in the chain as a
    /// dependency of the publisher. This can only be done once.
    pub fn create_consumer_pipeline<T>(
        &mut self,
        memory: &mut ChainMemory<T>,
        count_consumers: usize,
    ) -> (result: (
        Vec<Consumer<SingleConsumerSequenceBarrier<W>>>,
        FinalConsumer<SingleConsumerSequenceBarrier<W>>,
    ))
        requires
            can_create(old(self).sequence_barrier, old(memory)@),
            count_consumers >= 1,
        ensures
            final(memory)@ == with_chain(old(memory)@, count_consumers as int),
            final(self).sequence_barrier.fits(final(memory)@),
            final(memory)@.free() == old(memory)@.free(),
            final(self).sequence_barrier.sb.stage() == old(self).sequence_barrier.sb.stage(),
            final(self).sequence_barrier.wait_strategy == old(self).sequence_barrier.wait_strategy,
            result.0@.len() == count_consumers - 1,
            forall|i: int|
                #![trigger result.0@[i]]
                0 <= i < count_consumers - 1 ==> starts_chain(
                    result.0@[i].sequence_barrier,
                    final(memory)@,
                    i + 1,
                ) && call_ensures(
                    W::clone,
                    (&old(self).sequence_barrier.wait_strategy,),
                    result.0@[i].sequence_barrier.wait_strategy,
                ),
            starts_chain(
                result.1.sc.sequence_barrier,
                final(memory)@,
                count_consumers as int,
            ),
            call_ensures(
                W::clone,
                (&old(self).sequence_barrier.wait_strategy,),
                result.1.sc.sequence_barrier.wait_strategy,
            ),
    {
        let ghost state = memory@;
        let ghost own = self.sequence_barrier;
        proof {
            own.sb.lemma_alone(state);
            assert(state.fits(0));
        }
        // Create each stage in the chain, adding the previous stage as a gating dependency
        let count_nonfinal_consumers: usize = count_consumers - 1;
        let mut nonfinal_consumers: Vec<Consumer<SingleConsumerSequenceBarrier<W>>> = Vec::new();
        assert(memory@ =~= with_chain(state, 0));
        while nonfinal_consumers.len() < count_nonfinal_consumers
            invariant
                nonfinal_consumers@.len() <= count_nonfinal_consumers,
                state.wf(),
                state.chain.len() == 1,
                filled(state.items, 0),
                memory@ == with_chain(state, nonfinal_consumers@.len() as int),
                self.sequence_barrier.placed(memory@),
                memory@.free() == state.free(),
                self.sequence_barrier.sb.stage() == own.sb.stage(),
                self.sequence_barrier.wait_strategy == own.wait_strategy,
                forall|i: int|
                    #![trigger nonfinal_consumers@[i]]
                    0 <= i < nonfinal_consumers@.len() ==> starts_chain(
                        nonfinal_consumers@[i].sequence_barrier,
                        memory@,
                        i + 1,
                    ) && call_ensures(
                        W::clone,
                        (&own.wait_strategy,),
                        nonfinal_consumers@[i].sequence_barrier.wait_strategy,
                    ),
            decreases count_nonfinal_consumers - nonfinal_consumers@.len(),
        {
            let sb = self.append(memory, Ghost(state), Ghost(nonfinal_consumers@.len() as int));
            nonfinal_consumers.push(Consumer::new(sb));
        }
        // Last consumer gets the ability to take ownership
        let sb = self.append(memory, Ghost(state), Ghost(nonfinal_consumers@.len() as int));
        (nonfinal_consumers, FinalConsumer::new(Consumer::new(sb)))
    }

    /// Adds one consumer to a chain that is being created, and has the given length.
    fn append<T>(
        &mut self,
        memory: &mut ChainMemory<T>,
        state: Ghost<PipelineState<Slot<T>>>,
        length: Ghost<int>,
    ) -> (sb: SingleConsumerSequenceBarrier<W>)
        requires
            length@ >= 0,
            state@.wf(),
            state@.chain.len() == 1,
            filled(state@.items, 0),
            old(memory)@ == with_chain(state@, length@),
            old(self).sequence_barrier.placed(old(memory)@),
        ensures
            final(memory)@ == with_chain(state@, length@ + 1),
            final(self).sequence_barrier.placed(final(memory)@),
            final(memory)@.free() == old(memory)@.free(),
            final(self).sequence_barrier.sb.stage() == old(self).sequence_barrier.sb.stage(),
            final(self).sequence_barrier.wait_strategy == old(self).sequence_barrier.wait_strategy,
            starts_chain(sb, final(memory)@, length@ + 1),
            call_ensures(
                W::clone,
                (&old(self).sequence_barrier.wait_strategy,),
                sb.wait_strategy,
            ),
            forall|other: SingleConsumerSequenceBarrier<W>, number: int|
                number <= length@ && starts_chain(other, old(memory)@, number)
                    ==> #[trigger] starts_chain(other, final(memory)@, number),
    {
        let ghost before = memory@;
        proof {
            assert(before.chain.last() == length@);
            assert(before.floor() == 0);
            protocol::lemma_value_bounds(before, 0, 0);
            vstd::arithmetic::div_mod::lemma_small_mod(
                0,
                sequence::boundary(before.size(0)) as nat,
            );
        }
        let known: usize = self.sequence_barrier.sb.len_available();
        self.sequence_barrier.sb.set_cached_available(0);
        let sb = self.sequence_barrier.insert_single_consumer(memory);
        // The publisher looks at its consumers only when it has to wait
        self.sequence_barrier.sb.set_cached_available(known);
        proof {
            assert(memory@ =~= with_chain(state@, length@ + 1));
            assert forall|other: SingleConsumerSequenceBarrier<W>, number: int|
                number <= length@ && starts_chain(other, before, number) implies
                #[trigger] starts_chain(other, memory@, number) by {
                steps::lemma_follows(before, other.sb.stage().id, other.upstream());
                assert(memory@.consumer_wf(other.sb.stage(), other.upstream()));
            }
        }
        sb
    }
}

/// The value that a consumer processes next.
pub open spec fn next_item<T, W>(
    barrier: &SingleConsumerSequenceBarrier<W>,
    state: PipelineState<Slot<T>>,
) -> T {
    state.items[barrier.sb.stage().position].payload->Some_0
}

/// What a consumer knows of itself after it has passed an item, or found none. Where it knew of no
/// slot, it has looked at the stage ahead.
pub open spec fn passed<T, W>(
    before: &SingleConsumerSequenceBarrier<W>,
    after: &SingleConsumerSequenceBarrier<W>,
    state: PipelineState<Slot<T>>,
    found: bool,
) -> bool {
    after.sb.stage() == (if found {
        Stage {
            position: before.sb.stage().position + 1,
            value: after.sb.stage().value,
            cached: if before.sb.cached_available >= 1 {
                before.sb.cached_available - 1
            } else {
                SequenceBarrier::<T>::offered(before, state) - 1
            },
            ..before.sb.stage()
        }
    } else {
        before.sb.stage()
    })
}

/// The state after a consumer has passed an item. Its progress becomes visible to the stages behind
/// it if it knows of no more slots.
pub open spec fn progress<T, W>(
    before: &SingleConsumerSequenceBarrier<W>,
    after: &SingleConsumerSequenceBarrier<W>,
    state: PipelineState<Slot<T>>,
) -> PipelineState<Slot<T>> {
    if after.sb.cached_available == 0 {
        state.with_mark(
            before.sb.stage().id,
            Mark { at: before.sb.stage().position + 1, epoch: 0 },
        )
    } else {
        state
    }
}

impl<W> Consumer<SingleConsumerSequenceBarrier<W>> {
    /// Wraps a barrier.
    fn new(sb: SingleConsumerSequenceBarrier<W>) -> (consumer: Self)
        ensures
            consumer.sequence_barrier == sb,
    {
        Consumer { sequence_barrier: sb }
    }

    /// Calls the given function to process the next value, if the stage ahead has released it.
    pub fn consume<T, C: FnOnce(&T)>(
        &mut self,
        memory: &mut ChainMemory<T>,
        consume_callback: C,
    ) -> (result: bool)
        requires
            old(self).sequence_barrier.fits(old(memory)@),
            SequenceBarrier::<T>::offered(&old(self).sequence_barrier, old(memory)@) >= 1
                ==> consume_callback.requires(
                (&next_item(&old(self).sequence_barrier, old(memory)@),),
            ),
        ensures
            final(self).sequence_barrier.fits(final(memory)@),
            SequenceBarrier::<T>::waits_like(
                &final(self).sequence_barrier,
                &old(self).sequence_barrier,
            ),
            result == (SequenceBarrier::<T>::offered(&old(self).sequence_barrier, old(memory)@)
                >= 1),
            result ==> consume_callback.ensures(
                (&next_item(&old(self).sequence_barrier, old(memory)@),),
                (),
            ),
            passed(
                &old(self).sequence_barrier,
                &final(self).sequence_barrier,
                old(memory)@,
                result,
            ),
            final(memory)@ == (if result {
                progress(
                    &old(self).sequence_barrier,
                    &final(self).sequence_barrier,
                    old(memory)@,
                )
            } else {
                old(memory)@
            }),
            steps::others_keep(
                old(memory)@,
                final(memory)@,
                old(self).sequence_barrier.sb.stage().id,
            ),
    {
        let ready: bool = self.sequence_barrier.next(memory);
        proof {
            self.sequence_barrier.lemma_offered(memory@);
            self.sequence_barrier.lemma_refers(memory@);
        }
        if !ready {
            return false;
        }
        let item = SequenceBarrier::get(&self.sequence_barrier, memory);
        consume_callback(item);
        let _nothing = SequenceBarrier::<T>::release(&mut self.sequence_barrier, memory);
        true
    }
}

impl<W> FinalConsumer<SingleConsumerSequenceBarrier<W>> {
    /// Return a new FinalConsumer instance wrapped around a given Consumer instance. In addition to
    /// existing Consumer features, this object also allows the caller to take ownership of the items
    /// that it accesses.
    fn new(sc: Consumer<SingleConsumerSequenceBarrier<W>>) -> (consumer: Self)
        ensures
            consumer.sc == sc,
    {
        FinalConsumer { sc }
    }

    /// See [`Consumer::consume`].
    pub fn consume<T, C: FnOnce(&T)>(
        &mut self,
        memory: &mut ChainMemory<T>,
        consume_callback: C,
    ) -> (result: bool)
        requires
            old(self).sc.sequence_barrier.fits(old(memory)@),
            SequenceBarrier::<T>::offered(&old(self).sc.sequence_barrier, old(memory)@) >= 1
                ==> consume_callback.requires(
                (&next_item(&old(self).sc.sequence_barrier, old(memory)@),),
            ),
        ensures
            final(self).sc.sequence_barrier.fits(final(memory)@),
            SequenceBarrier::<T>::waits_like(
                &final(self).sc.sequence_barrier,
                &old(self).sc.sequence_barrier,
            ),
            result == (SequenceBarrier::<T>::offered(&old(self).sc.sequence_barrier, old(memory)@)
                >= 1),
            result ==> consume_callback.ensures(
                (&next_item(&old(self).sc.sequence_barrier, old(memory)@),),
                (),
            ),
            passed(
                &old(self).sc.sequence_barrier,
                &final(self).sc.sequence_barrier,
                old(memory)@,
                result,
            ),
            final(memory)@ == (if result {
                progress(
                    &old(self).sc.sequence_barrier,
                    &final(self).sc.sequence_barrier,
                    old(memory)@,
                )
            } else {
                old(memory)@
            }),
            steps::others_keep(
                old(memory)@,
                final(memory)@,
                old(self).sc.sequence_barrier.sb.stage().id,
            ),
    {
        self.sc.consume(memory, consume_callback)
    }

    /// Moves the next value out of the ring buffer, and returns it, if the stage ahead has released
    /// it. The slot stays empty until it is published into again.
    pub fn take<T>(&mut self, memory: &mut ChainMemory<T>) -> (result: Option<T>)
        requires
            old(self).sc.sequence_barrier.fits(old(memory)@),
        ensures
            final(self).sc.sequence_barrier.fits(final(memory)@),
            SequenceBarrier::<T>::waits_like(
                &final(self).sc.sequence_barrier,
                &old(self).sc.sequence_barrier,
            ),
            result is Some <==> SequenceBarrier::<T>::offered(
                &old(self).sc.sequence_barrier,
                old(memory)@,
            ) >= 1,
            result is Some ==> result->Some_0 == next_item(
                &old(self).sc.sequence_barrier,
                old(memory)@,
            ),
            passed(
                &old(self).sc.sequence_barrier,
                &final(self).sc.sequence_barrier,
                old(memory)@,
                result is Some,
            ),
            final(memory)@ == (if result is Some {
                progress(
                    &old(self).sc.sequence_barrier,
                    &final(self).sc.sequence_barrier,
                    old(memory)@.with_item(
                        0,
                        old(self).sc.sequence_barrier.sb.stage().position,
                        Slot { payload: None },
                    ),
                )
            } else {
                old(memory)@
            }),
            steps::others_keep(
                old(memory)@,
                final(memory)@,
                old(self).sc.sequence_barrier.sb.stage().id,
            ),
    {
        let ready: bool = self.sc.sequence_barrier.next(memory);
        proof {
            self.sc.sequence_barrier.lemma_offered(memory@);
            self.sc.sequence_barrier.lemma_refers(memory@);
        }
        if !ready {
            return None;
        }
        assert(memory@.items[self.sc.sequence_barrier.sb.stage().position].payload is Some);
        let value = SequenceBarrier::take(&mut self.sc.sequence_barrier, memory);
        let _nothing = SequenceBarrier::<T>::release(&mut self.sc.sequence_barrier, memory);
        Some(value)
    }
}

/// The last consumer of a chain moves an item out only after every other consumer has passed it.
pub proof fn law_last_takes_last<S>(
    state: PipelineState<S>,
    last: Stage,
    last_upstream: int,
    other: Stage,
    other_upstream: int,
)
    requires
        state.wf(),
        state.consumer_wf(last, last_upstream),
        state.consumer_wf(other, other_upstream),
        last.id == state.chain.last(),
        other.id != last.id,
        last.position < state.marks[last_upstream].at,
    ensures
        last.position < other.position,
{
    let i = choose|i: int|
        1 <= i < state.chain.len() && #[trigger] state.chain[i] == last.id && state.chain[i - 1]
            == last_upstream;
    let j = choose|j: int|
        1 <= j < state.chain.len() && #[trigger] state.chain[j] == other.id && state.chain[j - 1]
            == other_upstream;
    let end = state.chain.len() - 1;
    assert(i == end) by {
        if i < end {
            assert(state.chain[i] != state.chain[end]);
        }
    }
    if j < i - 1 {
        assert(state.chain[j] != state.chain[i - 1]);
    }
}

/// A consumer that has passed an item, and knows of another one, tells nobody; one that knows of no more
/// tells the stages behind it how far it has got.
pub proof fn law_progress_is_told_before_waiting<T, W>(
    before: &SingleConsumerSequenceBarrier<W>,
    after: &SingleConsumerSequenceBarrier<W>,
    state: PipelineState<Slot<T>>,
)
    requires
        passed(before, after, state, true),
        before.sb.cached_available >= 1,
    ensures
        after.sb.stage().position == before.sb.stage().position + 1,
        after.sb.cached_available + 1 == before.sb.cached_available,
        before.sb.cached_available >= 2 ==> progress(before, after, state) == state,
        before.sb.cached_available == 1 ==> progress(before, after, state) == state.with_mark(
            before.sb.stage().id,
            Mark { at: before.sb.stage().position + 1, epoch: 0 },
        ),
{
    assert(after.sb.cached_available == after.sb.stage().cached);
}

/// A consumer that releases a batch tells the stages behind it if and only if it knows of fewer slots
/// than another such batch.
pub proof fn law_batches_are_told_before_waiting<T, W>(
    barrier: &SingleConsumerSequenceBarrier<W>,
    state: PipelineState<Slot<T>>,
    n: int,
)
    requires
        0 <= n <= barrier.sb.cached_available,
    ensures
        barrier.sb.cached_available >= 2 * n ==> SequenceBarrier::<T>::released(barrier, state, n)
            == state,
        barrier.sb.cached_available < 2 * n ==> SequenceBarrier::<T>::released(barrier, state, n)
            == state.with_mark(
            barrier.sb.stage().id,
            Mark { at: barrier.sb.stage().position + n, epoch: 0 },
        ),
{
}

/// A publisher without any consumer sees no limit; with consumers it sees the slots that are free, and a
/// consumer sees the items between itself and the stage ahead.
pub proof fn law_what_stages_see<T, W: PublishingWaitStrategy>(
    publisher: &SinglePublisherSequenceBarrier<W>,
    consumer: &SingleConsumerSequenceBarrier<W>,
    state: PipelineState<Slot<T>>,
)
    ensures
        state.chain.len() == 1 ==> SequenceBarrier::<T>::offered(publisher, state) == usize::MAX,
        state.chain.len() > 1 ==> SequenceBarrier::<T>::offered(publisher, state) == state.free(),
        SequenceBarrier::<T>::offered(consumer, state) + consumer.sb.stage().position
            == state.marks[consumer.upstream()].at,
{
}

} // verus!
