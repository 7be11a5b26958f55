//! Publishers and consumers of a pipeline whose ring buffer has a fixed size.
use crate::barrier::{SingleConsumerSequenceBarrier, SinglePublisherSequenceBarrier};
use crate::dependency::{LenAvailable, Pollable};
use crate::memory::PipelineMemory;
use crate::power;
use crate::protocol::{Mark, PipelineState, Stage};
use crate::ring_buffer;
use crate::ring_buffer::RingBufferData;
use crate::sequence;
use crate::steps;
use crate::wait;
use crate::wait::{Notification, NotificationWaitStrategy};
use core::marker::PhantomData;
use vstd::prelude::*;

verus! {

/// Allows callers to send items through a disruptor pipeline.
pub trait Publisher<T>: Sized {
    /// What the stages of the pipeline share.
    type Memory;

    /// The publisher and the memory belong together.
    spec fn valid(&self, memory: &Self::Memory) -> bool;

    /// Every item that has been published, in order, as it stands now.
    spec fn published(memory: &Self::Memory) -> Seq<T>;

    /// A slot is free, so that the publisher does not have to wait.
    spec fn has_room(&self, memory: &Self::Memory) -> bool;

    /// The pipeline is in a state in which the publisher can find out whether a slot is free.
    spec fn may_publish(&self, memory: &Self::Memory) -> bool;

    /// Consumers may sleep until the publisher signals.
    spec fn signals(&self) -> bool;

    /// Sends a single item into the pipeline. The value will be exposed to each consumer downstream
    /// in the pipeline. Returns what is to be done to wake up those that sleep. If there is no free
    /// slot, the value is given back.
    fn publish(&mut self, memory: &mut Self::Memory, value: T) -> (result: Result<Notification, T>)
        requires
            old(self).valid(old(memory)),
            old(self).may_publish(old(memory)),
        ensures
            final(self).valid(final(memory)),
            result is Ok <==> old(self).has_room(old(memory)),
            result is Ok ==> wait::owes(result->Ok_0, old(self).signals()),
            result is Ok ==> Self::published(final(memory)) == Self::published(old(memory)).push(
                value,
            ),
            result is Err ==> result->Err_0 == value && Self::published(final(memory))
                == Self::published(old(memory)),
    ;
}

/// Provides access to values that are passing through the pipeline.
pub trait Consumer<T>: Sized {
    /// What the stages of the pipeline share.
    type Memory;

    /// The consumer and the memory belong together.
    spec fn valid(&self, memory: &Self::Memory) -> bool;

    /// Every item that has been published, in order, as it stands now.
    spec fn items(memory: &Self::Memory) -> Seq<T>;

    /// How many items the consumer has processed.
    spec fn position(&self) -> int;

    /// How many items the stage ahead has released.
    spec fn released(&self, memory: &Self::Memory) -> int;

    /// Calls the given function to process the next value, if the stage ahead has released it.
    fn consume<C: FnOnce(&T)>(&mut self, memory: &mut Self::Memory, consume_callback: C) -> (result:
        bool)
        requires
            old(self).valid(old(memory)),
            old(self).position() < old(self).released(old(memory)) ==> consume_callback.requires(
                (&Self::items(old(memory))[old(self).position()],),
            ),
        ensures
            final(self).valid(final(memory)),
            result == (old(self).position() < old(self).released(old(memory))),
            result ==> consume_callback.ensures(
                (&Self::items(old(memory))[old(self).position()],),
                (),
            ),
            final(self).position() == old(self).position() + (if result {
                1int
            } else {
                0int
            }),
            Self::items(final(memory)) == Self::items(old(memory)),
    ;
}

/// Consumers that aren't sharing a pipeline stage with other consumers can mutate items.
pub trait ConsumerMut<T: Default>: Consumer<T> {
    /// Moves the next value out of the ring buffer, and returns it, if the stage ahead has released
    /// it. The default value is left in its place.
    fn take(&mut self, memory: &mut Self::Memory) -> (result: Option<T>)
        requires
            old(self).valid(old(memory)),
        ensures
            final(self).valid(final(memory)),
            result is Some <==> old(self).position() < old(self).released(old(memory)),
            result is Some ==> {
                &&& result->Some_0 == Self::items(old(memory))[old(self).position()]
                &&& final(self).position() == old(self).position() + 1
                &&& exists|left: T|
                    call_ensures(T::default, (), left) && Self::items(final(memory))
                        == #[trigger] Self::items(old(memory)).update(old(self).position(), left)
            },
            result is None ==> {
                &&& final(self).position() == old(self).position()
                &&& Self::items(final(memory)) == Self::items(old(memory))
            },
    ;
}

/// Stages that a consumer can be inserted next to.
pub trait InsertSingleConsumer: Sized {
    /// What the stages of the pipeline share.
    type Memory;

    /// The type of the consumer that is inserted.
    type SingleConsumer;

    /// The pipeline is in a state in which a consumer may be inserted here.
    spec fn can_insert(&self, memory: &Self::Memory) -> bool;

    /// What an insertion makes of the stage and the memory.
    spec fn inserted(
        before: (&Self, &Self::Memory),
        after: (&Self, &Self::Memory),
        consumer: &Self::SingleConsumer,
    ) -> bool;

    /// Adds a new pipeline stage, consisting of a single consumer that has exclusive access to the
    /// items it processes. The new consumer waits for elements to be released by whatever
    /// dependencies self was previously waiting on, while self now depends on the new consumer to
    /// release elements.
    fn insert_single_consumer(&mut self, memory: &mut Self::Memory) -> (consumer:
        Self::SingleConsumer)
        requires
            old(self).can_insert(old(memory)),
        ensures
            Self::inserted(
                (&*old(self), &*old(memory)),
                (&*final(self), &*final(memory)),
                &consumer,
            ),
    ;
}

/// The memory of a pipeline with a ring buffer of `N` slots.
pub type FixedMemory<T, const N: usize> = PipelineMemory<RingBufferData<T, N>>;

/// A publisher that is the only one of its pipeline, with a ring buffer of `N` slots.
pub struct SinglePublisher<T, const N: usize, W> {
    pub p: SinglePublisherSequenceBarrier<W>,
    pub item: PhantomData<T>,
}

/// A consumer that cannot mutate the items it processes.
pub struct SharedConsumer<T, const N: usize, W> {
    pub c: SingleConsumerSequenceBarrier<W>,
    pub item: PhantomData<T>,
}

/// A consumer that doesn't share its stage with any concurrent consumers, allowing it to have mutable
/// access to the elements it processes.
pub struct SingleConsumer<T, const N: usize, W> {
    pub c: SharedConsumer<T, N, W>,
}

impl<T: Default, const N: usize, W: NotificationWaitStrategy> SinglePublisher<T, N, W> {
    /// Constructs a new (non-resizing) ring buffer with N elements, and a publisher for it.
    pub fn new(wait_strategy: W) -> (result: (SinglePublisher<T, N, W>, FixedMemory<T, N>))
        requires
            power::is_power_of_two(N as int),
            2 * sequence::boundary(N as int) <= power::usize_range(),
        ensures
            result.0.valid(&result.1),
            result.0.p.wait_strategy == wait_strategy,
            result.0.known_available() == 0,
            exists|slots: Seq<T>|
                slots.len() == N && ring_buffer::all_default(slots) && result.1@
                    == #[trigger] PipelineState::initial(slots),
    {
        let ring_buffer = RingBufferData::<T, N>::default();
        let (p, memory) = SinglePublisherSequenceBarrier::new(ring_buffer, wait_strategy);
        (SinglePublisher { p, item: PhantomData }, memory)
    }
}

impl<T, const N: usize, W> LenAvailable for SinglePublisher<T, N, W> {
    open spec fn known_available(&self) -> int {
        self.p.known_available()
    }

    fn len_available(&self) -> (available: usize) {
        self.p.len_available()
    }
}

impl<T, const N: usize, W> Pollable<FixedMemory<T, N>> for SinglePublisher<T, N, W> {
    open spec fn can_poll(&self, memory: &FixedMemory<T, N>) -> bool {
        self.p.wf(memory@)
    }

    open spec fn polled(&self, memory: &FixedMemory<T, N>) -> int {
        memory@.free()
    }

    fn poll(&mut self, memory: &FixedMemory<T, N>)
        ensures
            final(self).p.wf(memory@),
            final(self).p.wait_strategy == old(self).p.wait_strategy,
    {
        self.p.poll(memory);
    }
}

impl<T, const N: usize, W: NotificationWaitStrategy> Publisher<T> for SinglePublisher<T, N, W> {
    type Memory = FixedMemory<T, N>;

    open spec fn valid(&self, memory: &FixedMemory<T, N>) -> bool {
        self.p.wf(memory@) && memory@.size(0) == N
    }

    open spec fn published(memory: &FixedMemory<T, N>) -> Seq<T> {
        memory@.items
    }

    open spec fn has_room(&self, memory: &FixedMemory<T, N>) -> bool {
        memory@.free() >= 1
    }

    open spec fn may_publish(&self, memory: &FixedMemory<T, N>) -> bool {
        true
    }

    open spec fn signals(&self) -> bool {
        self.p.wait_strategy.signals()
    }

    fn publish(&mut self, memory: &mut FixedMemory<T, N>, value: T) -> (result: Result<
        Notification,
        T,
    >)
        ensures
            result is Ok ==> final(memory)@ == old(memory)@.with_slot(
                0,
                old(memory)@.head(),
                value,
            ).with_released(1) && final(memory)@.free() == old(memory)@.free() - 1,
            result is Err ==> final(memory)@ == old(memory)@,
            final(self).known_available() == (if result is Err {
                0
            } else if old(self).known_available() >= 1 {
                old(self).known_available() - 1
            } else {
                old(memory)@.free() - 1
            }),
            steps::others_keep(old(memory)@, final(memory)@, 0),
            final(self).p.wait_strategy == old(self).p.wait_strategy,
    {
        if self.p.len_available() < 1 {
            self.p.poll(memory);
        }
        if self.p.len_available() < 1 {
            return Err(value);
        }
        proof {
            steps::lemma_publishes(memory@, value);
        }
        self.p.set(memory, value);
        // Make the item available to downstream consumers
        Ok(self.p.release_slots_unchecked(memory, 1))
    }
}

impl<T, const N: usize, W: NotificationWaitStrategy> InsertSingleConsumer for SinglePublisher<
    T,
    N,
    W,
> {
    type Memory = FixedMemory<T, N>;

    type SingleConsumer = SingleConsumer<T, N, W>;

    open spec fn can_insert(&self, memory: &FixedMemory<T, N>) -> bool {
        self.valid(memory)
    }

    /// The new consumer is the last stage, and starts with the first item that not every other stage
    /// has passed.
    open spec fn inserted(
        before: (&Self, &FixedMemory<T, N>),
        after: (&Self, &FixedMemory<T, N>),
        consumer: &SingleConsumer<T, N, W>,
    ) -> bool {
        let state = before.1@;
        &&& after.1@ == state.with_consumer(
            state.chain.len() as int,
            Mark { at: state.floor(), epoch: 0 },
        )
        &&& after.0.valid(after.1)
        &&& after.0.known_available() == (if state.chain.len() == 1 {
            before.0.known_available()
        } else {
            state.free()
        })
        &&& after.0.p.wait_strategy == before.0.p.wait_strategy
        &&& consumer.valid(after.1)
        &&& consumer.stage() == (Stage {
            id: state.chain.len() as int,
            position: state.floor(),
            epoch: 0,
            value: state.value_at(0, state.floor()),
            cached: 0,
        })
        &&& consumer.upstream() == state.chain.last()
        &&& call_ensures(W::clone, (&before.0.p.wait_strategy,), consumer.c.c.wait_strategy)
        &&& steps::others_keep(state, after.1@, state.chain.len() as int)
        &&& after.1@.free() == state.free()
    }

    fn insert_single_consumer(&mut self, memory: &mut FixedMemory<T, N>) -> (consumer:
        SingleConsumer<T, N, W>) {
        let c = self.p.insert_single_consumer(memory);
        SingleConsumer { c: SharedConsumer { c, item: PhantomData } }
    }
}

/// A consumer after it has passed its next item.
pub open spec fn passed<S>(state: PipelineState<S>, stage: Stage) -> Stage {
    Stage {
        position: stage.position + 1,
        value: state.value_at(stage.epoch, stage.position + 1),
        cached: stage.cached - 1,
        ..stage
    }
}

impl<T, const N: usize, W> SharedConsumer<T, N, W> {
    /// What the consumer knows of itself.
    pub open spec fn stage(&self) -> Stage {
        self.c.sb.stage()
    }

    /// The stage that the consumer waits for.
    pub open spec fn upstream(&self) -> int {
        self.c.upstream()
    }

    /// What the consumer knows of itself after it has looked at the stage ahead, if it knew of no
    /// available slot.
    pub open spec fn looked<S>(&self, state: PipelineState<S>) -> Stage {
        Stage {
            cached: if self.stage().cached >= 1 {
                self.stage().cached
            } else {
                state.marks[self.upstream()].at - self.stage().position
            },
            ..self.stage()
        }
    }

    /// The consumer fits the state of the pipeline.
    pub open spec fn fits<S>(&self, state: PipelineState<S>) -> bool {
        &&& self.c.wf(state)
        &&& self.c.settled(state)
        &&& state.epochs.len() == 1
        &&& state.size(0) == N
    }

    /// What the consumer believes to be available is so.
    proof fn lemma_available<S>(&self, state: PipelineState<S>)
        requires
            self.fits(state),
        ensures
            self.stage().position + self.c.known_available() <= state.marks[self.upstream()].at
                <= state.end_of(0),
            self.stage().position <= state.marks[self.upstream()].at,
            state.marks[self.upstream()].epoch == 0,
            state.items.len() == state.end_of(0),
            self.stage().epoch == 0,
            0 <= self.stage().position,
    {
        steps::lemma_follows(state, self.stage().id, self.upstream());
    }
}

impl<T, const N: usize, W> LenAvailable for SharedConsumer<T, N, W> {
    open spec fn known_available(&self) -> int {
        self.c.known_available()
    }

    fn len_available(&self) -> (available: usize) {
        self.c.len_available()
    }
}

impl<T, const N: usize, W> Pollable<FixedMemory<T, N>> for SharedConsumer<T, N, W> {
    open spec fn can_poll(&self, memory: &FixedMemory<T, N>) -> bool {
        self.fits(memory@)
    }

    open spec fn polled(&self, memory: &FixedMemory<T, N>) -> int {
        memory@.marks[self.upstream()].at - self.stage().position
    }

    fn poll(&mut self, memory: &FixedMemory<T, N>)
        ensures
            final(self).fits(memory@),
            final(self).stage() == (Stage {
                cached: old(self).polled(memory),
                ..old(self).stage()
            }),
            final(self).upstream() == old(self).upstream(),
            final(self).c.wait_strategy == old(self).c.wait_strategy,
    {
        proof {
            self.lemma_available(memory@);
        }
        self.c.poll(memory);
    }
}

impl<T, const N: usize, W> Consumer<T> for SharedConsumer<T, N, W> {
    type Memory = FixedMemory<T, N>;

    open spec fn valid(&self, memory: &FixedMemory<T, N>) -> bool {
        self.fits(memory@)
    }

    open spec fn items(memory: &FixedMemory<T, N>) -> Seq<T> {
        memory@.items
    }

    open spec fn position(&self) -> int {
        self.stage().position
    }

    open spec fn released(&self, memory: &FixedMemory<T, N>) -> int {
        memory@.marks[self.upstream()].at
    }

    fn consume<C: FnOnce(&T)>(&mut self, memory: &mut FixedMemory<T, N>, consume_callback: C) -> (
    result: bool)
        ensures
            final(memory)@ == (if result {
                old(memory)@.with_mark(
                    old(self).stage().id,
                    Mark { at: old(self).position() + 1, epoch: 0 },
                )
            } else {
                old(memory)@
            }),
            final(self).stage() == (if result {
                passed(old(memory)@, old(self).looked(old(memory)@))
            } else {
                old(self).looked(old(memory)@)
            }),
            final(self).upstream() == old(self).upstream(),
            final(self).c.wait_strategy == old(self).c.wait_strategy,
            steps::others_keep(old(memory)@, final(memory)@, old(self).stage().id),
    {
        proof {
            self.lemma_available(memory@);
        }
        if self.c.len_available() < 1 {
            self.c.poll(memory);
        }
        proof {
            self.lemma_available(memory@);
        }
        if self.c.len_available() < 1 {
            return false;
        }
        let item = self.c.get(memory);
        consume_callback(item);
        self.c.release_slots_unchecked(memory, 1);
        true
    }
}

impl<T, const N: usize, W> SingleConsumer<T, N, W> {
    /// What the consumer knows of itself.
    pub open spec fn stage(&self) -> Stage {
        self.c.stage()
    }

    /// The stage that the consumer waits for.
    pub open spec fn upstream(&self) -> int {
        self.c.upstream()
    }
}

impl<T, const N: usize, W> LenAvailable for SingleConsumer<T, N, W> {
    open spec fn known_available(&self) -> int {
        self.c.known_available()
    }

    fn len_available(&self) -> (available: usize) {
        self.c.len_available()
    }
}

impl<T, const N: usize, W> Pollable<FixedMemory<T, N>> for SingleConsumer<T, N, W> {
    open spec fn can_poll(&self, memory: &FixedMemory<T, N>) -> bool {
        self.valid(memory)
    }

    open spec fn polled(&self, memory: &FixedMemory<T, N>) -> int {
        self.released(memory) - self.position()
    }

    fn poll(&mut self, memory: &FixedMemory<T, N>)
        ensures
            final(self).valid(memory),
            final(self).stage() == (Stage {
                cached: old(self).polled(memory),
                ..old(self).stage()
            }),
            final(self).upstream() == old(self).upstream(),
            final(self).c.c.wait_strategy == old(self).c.c.wait_strategy,
    {
        self.c.poll(memory);
    }
}

impl<T, const N: usize, W> Consumer<T> for SingleConsumer<T, N, W> {
    type Memory = FixedMemory<T, N>;

    open spec fn valid(&self, memory: &FixedMemory<T, N>) -> bool {
        self.c.valid(memory)
    }

    open spec fn items(memory: &FixedMemory<T, N>) -> Seq<T> {
        memory@.items
    }

    open spec fn position(&self) -> int {
        self.c.position()
    }

    open spec fn released(&self, memory: &FixedMemory<T, N>) -> int {
        self.c.released(memory)
    }

    fn consume<C: FnOnce(&T)>(&mut self, memory: &mut FixedMemory<T, N>, consume_callback: C) -> (
    result: bool)
        ensures
            final(memory)@ == (if result {
                old(memory)@.with_mark(
                    old(self).stage().id,
                    Mark { at: old(self).position() + 1, epoch: 0 },
                )
            } else {
                old(memory)@
            }),
            final(self).stage() == (if result {
                passed(old(memory)@, old(self).c.looked(old(memory)@))
            } else {
                old(self).c.looked(old(memory)@)
            }),
            final(self).upstream() == old(self).upstream(),
            final(self).c.c.wait_strategy == old(self).c.c.wait_strategy,
            steps::others_keep(old(memory)@, final(memory)@, old(self).stage().id),
    {
        self.c.consume(memory, consume_callback)
    }
}

impl<T: Default, const N: usize, W> ConsumerMut<T> for SingleConsumer<T, N, W> {
    fn take(&mut self, memory: &mut FixedMemory<T, N>) -> (result: Option<T>)
        ensures
            result is Some ==> exists|left: T|
                call_ensures(T::default, (), left) && final(memory)@ == (#[trigger] old(memory)@.with_item(
                    0,
                    old(self).position(),
                    left,
                )).with_mark(
                    old(self).stage().id,
                    Mark { at: old(self).position() + 1, epoch: 0 },
                ),
            result is None ==> final(memory)@ == old(memory)@,
            final(self).stage() == (if result is Some {
                passed(old(memory)@, old(self).c.looked(old(memory)@))
            } else {
                old(self).c.looked(old(memory)@)
            }),
            final(self).upstream() == old(self).upstream(),
            final(self).c.c.wait_strategy == old(self).c.c.wait_strategy,
            steps::others_keep(old(memory)@, final(memory)@, old(self).stage().id),
    {
        proof {
            self.c.lemma_available(memory@);
        }
        if self.c.c.len_available() < 1 {
            self.c.c.poll(memory);
        }
        proof {
            self.c.lemma_available(memory@);
        }
        if self.c.c.len_available() < 1 {
            return None;
        }
        let ghost state = memory@;
        let value = self.c.c.take(memory);
        proof {
            let left = choose|left: T|
                call_ensures(T::default, (), left) && memory@ == #[trigger] state.with_item(
                    0,
                    self.position(),
                    left,
                );
            assert(memory@.items == state.items.update(self.position(), left));
        }
        self.c.c.release_slots_unchecked(memory, 1);
        Some(value)
    }
}

impl<T, const N: usize, W: Clone> InsertSingleConsumer for SingleConsumer<T, N, W> {
    type Memory = FixedMemory<T, N>;

    type SingleConsumer = Self;

    open spec fn can_insert(&self, memory: &FixedMemory<T, N>) -> bool {
        self.valid(memory)
    }

    /// The new consumer is directly ahead of this one, and takes over what this one knew to be
    /// available.
    open spec fn inserted(
        before: (&Self, &FixedMemory<T, N>),
        after: (&Self, &FixedMemory<T, N>),
        consumer: &Self,
    ) -> bool {
        let state = before.1@;
        &&& after.1@ == state.with_consumer(
            state.chain.index_of(before.0.stage().id),
            Mark { at: before.0.position(), epoch: 0 },
        )
        &&& after.0.valid(after.1)
        &&& after.0.stage() == (Stage { cached: 0, ..before.0.stage() })
        &&& after.0.upstream() == consumer.stage().id
        &&& after.0.c.c.wait_strategy == before.0.c.c.wait_strategy
        &&& consumer.valid(after.1)
        &&& consumer.stage() == (Stage { id: state.chain.len() as int, ..before.0.stage() })
        &&& consumer.upstream() == before.0.upstream()
        &&& call_ensures(W::clone, (&before.0.c.c.wait_strategy,), consumer.c.c.wait_strategy)
        &&& steps::others_keep(state, after.1@, before.0.stage().id)
        &&& after.1@.free() == state.free()
    }

    fn insert_single_consumer(&mut self, memory: &mut FixedMemory<T, N>) -> (consumer: Self) {
        let c = self.c.c.insert_single_consumer(memory);
        SingleConsumer { c: SharedConsumer { c, item: PhantomData } }
    }
}

} // verus!
