//! Chains of consumers that are created together, in a pipeline whose ring buffer can grow.
//!
//! The slots of the ring buffers may be empty, so that items need no default value.
use crate::chain::{Consumer, FinalConsumer, Publisher, Slot};
use crate::dependency::{LenAvailable, Pollable};
use crate::power;
use crate::protocol;
use crate::protocol::{Mark, PipelineState, Stage};
use crate::resizing;
use crate::resizing::{
    ResizingMemory, SingleResizingConsumerSequenceBarrier, SingleResizingPublisherSequenceBarrier,
};
use crate::ring_buffer::{BoxedRingBufferData, ReallocationFlag};
use crate::sequence;
use crate::steps;
use crate::wait;
use crate::wait::{
    BlockingWaitStrategy, Notification, NotificationWaitStrategy, TimeoutResizeWaitStrategy,
    DEFAULT_MAX_SPIN_TRIES_CONSUMER, DEFAULT_MAX_SPIN_TRIES_PUBLISHER, DEFAULT_RESIZE_TIMEOUT,
};
use vstd::prelude::*;

verus! {

/// The memory of a pipeline with slots that may be empty, and a resizable ring buffer.
pub type GrowingMemory<T> = ResizingMemory<Slot<T>>;

/// What a slot that may be empty holds in a ring buffer that may be replaced.
pub type GrowingSlot<T> = ReallocationFlag<Slot<T>>;

/// A publisher fits the state of its pipeline. One without any consumer has nothing to wait for. One
/// that has published without consumers before it got them goes on to take every slot to be free.
pub open spec fn publisher_fits<T>(
    barrier: &SingleResizingPublisherSequenceBarrier,
    state: PipelineState<GrowingSlot<T>>,
) -> bool {
    if state.chain.len() == 1 {
        &&& barrier.sb.alone(state)
        &&& barrier.sb.dependencies.sequences@.len() == 0
        &&& resizing::flags_wf(state)
    } else {
        barrier.wf(state) || barrier.placed(state)
    }
}

/// A publisher takes no slot to be free that is not.
pub open spec fn cautious<T>(
    barrier: &SingleResizingPublisherSequenceBarrier,
    state: PipelineState<GrowingSlot<T>>,
) -> bool {
    state.chain.len() > 1 ==> barrier.wf(state)
}

/// From some position on, no item has been moved out.
pub open spec fn filled<T>(state: PipelineState<GrowingSlot<T>>, from: int) -> bool {
    forall|at: int|
        from <= at < state.items.len() ==> (#[trigger] resizing::plain_items(
            state,
        )[at]).payload is Some
}

/// How many slots, with the one in reserve, a publisher sees when it looks for them.
pub open spec fn seen<T>(
    barrier: &SingleResizingPublisherSequenceBarrier,
    memory: &GrowingMemory<T>,
) -> int {
    if memory@.chain.len() == 1 {
        usize::MAX as int
    } else {
        barrier.sb.polled(memory)
    }
}

/// A publisher knows, or can see, that a slot besides the one in reserve is free. As long as there are
/// no consumers, every slot is.
pub open spec fn has_room<T>(
    barrier: &SingleResizingPublisherSequenceBarrier,
    memory: &GrowingMemory<T>,
) -> bool {
    barrier.known_available() >= 1 || seen(barrier, memory) >= 2
}

/// A publisher has no consumers, and nothing that it has published has been overwritten or moved out.
pub open spec fn can_create<T>(
    barrier: &SingleResizingPublisherSequenceBarrier,
    state: PipelineState<GrowingSlot<T>>,
) -> bool {
    &&& publisher_fits(barrier, state)
    &&& state.chain.len() == 1
    &&& state.wf()
    &&& filled(state, 0)
}

/// A pipeline has just been created, with the given parameters.
pub open spec fn fresh<T>(
    barrier: &SingleResizingPublisherSequenceBarrier,
    memory: &GrowingMemory<T>,
    size: usize,
    strategy: TimeoutResizeWaitStrategy,
) -> bool {
    &&& can_create(barrier, memory@)
    &&& barrier.sb.cached_available == 0
    &&& barrier.wait_strategy == strategy
    &&& exists|slots: Seq<GrowingSlot<T>>|
        {
            &&& slots.len() == size
            &&& forall|i: int|
                0 <= i < size ==> (#[trigger] slots[i]) == GrowingSlot::Item(
                    Slot { payload: None::<T> },
                )
            &&& memory@ == #[trigger] PipelineState::initial(slots)
        }
}

/// A consumer fits the state of its pipeline. The other stages know how far it has got if it knows of
/// no more items.
pub open spec fn consumer_fits<T>(
    barrier: &SingleResizingConsumerSequenceBarrier,
    state: PipelineState<GrowingSlot<T>>,
) -> bool {
    &&& barrier.wf(state)
    &&& barrier.stage().cached == 0 ==> barrier.cb.settled(state)
    &&& filled(state, barrier.stage().position)
}

/// A consumer fits the state of its pipeline, has not processed anything, waits for the given stage,
/// and waits like the given strategy.
pub open spec fn starts_behind<T>(
    barrier: &SingleResizingConsumerSequenceBarrier,
    state: PipelineState<GrowingSlot<T>>,
    upstream: int,
    strategy: TimeoutResizeWaitStrategy,
) -> bool {
    &&& consumer_fits(barrier, state)
    &&& barrier.cb.settled(state)
    &&& barrier.stage() == (Stage {
        id: barrier.stage().id,
        position: 0,
        epoch: 0,
        value: 0,
        cached: 0,
    })
    &&& barrier.cb.upstream() == upstream
    &&& barrier.cb.wait_strategy == strategy
}

/// The stage that the consumer after the first `i` of a chain waits for.
pub open spec fn stage_before(
    consumers: Seq<Consumer<SingleResizingConsumerSequenceBarrier>>,
    i: int,
) -> int {
    if i == 0 {
        0
    } else {
        consumers[i - 1].sequence_barrier.stage().id
    }
}

/// Two states that differ only in that the second has more stages, and they have not processed
/// anything.
pub open spec fn only_stages_added<S>(state: PipelineState<S>, next: PipelineState<S>) -> bool {
    &&& next.buffers == state.buffers
    &&& next.epochs == state.epochs
    &&& next.items == state.items
    &&& next.free() == state.free()
    &&& next.marks[0] == state.marks[0]
    &&& next.published[0] == state.published[0]
    &&& forall|id: int|
        1 <= id < next.marks.len() ==> (#[trigger] next.marks[id]).at == 0
            && next.marks[id].epoch == 0
    &&& forall|id: int| 1 <= id < next.published.len() ==> #[trigger] next.published[id] == 0
}

/// Consumers follow one another in a chain that begins with the publisher, and all wait like the given
/// strategy.
pub open spec fn chained<T>(
    consumers: Seq<Consumer<SingleResizingConsumerSequenceBarrier>>,
    state: PipelineState<GrowingSlot<T>>,
    strategy: TimeoutResizeWaitStrategy,
) -> bool {
    forall|i: int|
        #![trigger consumers[i]]
        0 <= i < consumers.len() ==> starts_behind(
            &consumers[i].sequence_barrier,
            state,
            stage_before(consumers, i),
            strategy,
        )
}

impl Publisher<SingleResizingPublisherSequenceBarrier> {
    /// Create a new Publisher using a resizable ring buffer, specifying the timeout after which the
    /// publisher will allocate a larger buffer to publish items into.
    ///
    /// # Arguments
    ///
    /// * resize_timeout - How long to wait, in milliseconds, before reallocating a larger buffer
    /// * max_spin_tries_publisher - See YieldWaitStrategy::new_with_retry_count
    /// * max_spin_tries_consumer - See YieldWaitStrategy::new_with_retry_count
    pub fn new_resize_after_timeout_with_params<T>(
        size: usize,
        resize_timeout: u64,
        max_spin_tries_publisher: usize,
        max_spin_tries_consumer: usize,
    ) -> (result: (Self, GrowingMemory<T>))
        requires
            power::is_power_of_two(size as int),
            2 * sequence::boundary(size as int) <= power::usize_range(),
        ensures
            fresh(
                &result.0.sequence_barrier,
                &result.1,
                size,
                TimeoutResizeWaitStrategy {
                    timeout: resize_timeout,
                    wait_strategy: BlockingWaitStrategy {
                        max_spin_tries_publisher,
                        max_spin_tries_consumer,
                    },
                },
            ),
    {
        let ring_buffer = BoxedRingBufferData::<GrowingSlot<T>>::new(size);
        let blocking_wait_strategy = BlockingWaitStrategy::new_with_retry_count(
            max_spin_tries_publisher,
            max_spin_tries_consumer,
        );
        let wait_strategy = TimeoutResizeWaitStrategy::new_with_timeout(
            resize_timeout,
            blocking_wait_strategy,
        );
        let (sb, memory) = SingleResizingPublisherSequenceBarrier::new(ring_buffer, wait_strategy);
        (Publisher { sequence_barrier: sb }, memory)
    }

    /// Construct a TimeoutResizeWaitStrategy using the default parameters.
    pub fn new_resize_after_timeout<T>(size: usize) -> (result: (Self, GrowingMemory<T>))
        requires
            power::is_power_of_two(size as int),
            2 * sequence::boundary(size as int) <= power::usize_range(),
        ensures
            fresh(
                &result.0.sequence_barrier,
                &result.1,
                size,
                TimeoutResizeWaitStrategy {
                    timeout: DEFAULT_RESIZE_TIMEOUT,
                    wait_strategy: BlockingWaitStrategy {
                        max_spin_tries_publisher: DEFAULT_MAX_SPIN_TRIES_PUBLISHER,
                        max_spin_tries_consumer: DEFAULT_MAX_SPIN_TRIES_CONSUMER,
                    },
                },
            ),
    {
        Publisher::new_resize_after_timeout_with_params(
            size,
            DEFAULT_RESIZE_TIMEOUT,
            DEFAULT_MAX_SPIN_TRIES_PUBLISHER,
            DEFAULT_MAX_SPIN_TRIES_CONSUMER,
        )
    }

    /// Sends a single item into the pipeline, if a slot is free for it, and returns what is to be done
    /// to wake up consumers that sleep; gives the item back otherwise. As long as there are no
    /// consumers, every slot is free.
    ///
    /// A publisher that has published without consumers before it got them goes on to take every slot
    /// to be free, so that one has to be.
    pub fn publish<T>(&mut self, memory: &mut GrowingMemory<T>, value: T) -> (result: Result<
        Notification,
        T,
    >)
        requires
            publisher_fits(&old(self).sequence_barrier, old(memory)@),
            cautious(&old(self).sequence_barrier, old(memory)@) || old(memory)@.free() >= 1,
        ensures
            publisher_fits(&final(self).sequence_barrier, final(memory)@),
            cautious(&old(self).sequence_barrier, old(memory)@) ==> cautious(
                &final(self).sequence_barrier,
                final(memory)@,
            ),
            final(self).sequence_barrier.wait_strategy == old(self).sequence_barrier.wait_strategy,
            result is Ok <==> has_room(&old(self).sequence_barrier, old(memory)),
            result is Ok ==> {
                &&& wait::owes(result->Ok_0, true)
                &&& final(memory)@ == old(memory)@.with_slot(
                    old(memory)@.newest(),
                    old(memory)@.head(),
                    GrowingSlot::Item(Slot { payload: Some(value) }),
                ).with_released(1)
                &&& resizing::plain_items(final(memory)@) == resizing::plain_items(
                    old(memory)@,
                ).push(Slot { payload: Some(value) })
                &&& old(memory)@.wf() && old(memory)@.free() >= 1 ==> final(memory)@.wf()
                    && final(memory)@.free() == old(memory)@.free() - 1
            },
            result is Err ==> result->Err_0 == value && final(memory)@ == old(memory)@,
            final(self).sequence_barrier.sb.cached_available == (if old(
                self).sequence_barrier.known_available() >= 1 {
                old(self).sequence_barrier.sb.cached_available as int
            } else {
                seen(&old(self).sequence_barrier, old(memory))
            }) - (if result is Ok {
                1int
            } else {
                0int
            }),
            steps::others_keep(old(memory)@, final(memory)@, 0),
    {
        let ghost state = memory@;
        let ghost alone = state.chain.len() == 1;
        // Wait for available slot
        if self.sequence_barrier.len_available() < 1 {
            if self.sequence_barrier.sb.dependencies.sequences.len() == 0 {
                self.sequence_barrier.sb.set_cached_available(usize::MAX);
            } else {
                self.sequence_barrier.poll_while_waiting(memory);
            }
        }
        if self.sequence_barrier.len_available() < 1 {
            return Err(value);
        }
        let ghost known = self.sequence_barrier.sb;
        let ghost slot = Slot { payload: Some(value) };
        let ghost item = GrowingSlot::Item(slot);
        let ghost newest = state.newest();
        proof {
            protocol::lemma_value_bounds(state, newest, state.head());
            if alone {
                known.lemma_alone_writes(state, item);
            }
            if state.wf() && state.free() >= 1 {
                steps::lemma_publishes(state, item);
                steps::lemma_publisher_writes(state, item);
                steps::lemma_shape_decides(state, state.with_slot(newest, state.head(), item));
                resizing::lemma_flags_published(state, slot);
            }
        }
        self.sequence_barrier.sb.set(memory, ReallocationFlag::Item(Slot { payload: Some(value) }));
        let ghost wrote = memory@;
        proof {
            if alone {
                known.lemma_alone_releases(wrote, 1);
            } else {
                steps::lemma_publisher_releases(wrote, 1);
            }
            assert(wrote.next_slots(1) =~= seq![item]);
            protocol::lemma_value_advances(wrote, newest, wrote.head(), 1);
            protocol::lemma_value_bounds(wrote, newest, wrote.head() + 1);
        }
        // Make the item available to downstream consumers
        self.sequence_barrier.sb.release_slots_unchecked(
            memory,
            1,
            Ghost(wrote.items + wrote.next_slots(1)),
        );
        proof {
            assert(memory@ =~= wrote.with_released(1));
            assert(memory@.items =~= state.items.push(item));
            assert(resizing::plain_items(memory@) =~= resizing::plain_items(state).push(slot));
        }
        Ok(self.sequence_barrier.wait_strategy.notify_all_waiters())
    }

    /// Creates and returns a single consumer, which will receive items sent through the publisher.
    pub fn create_single_consumer_pipeline<T>(&mut self, memory: &mut GrowingMemory<T>) -> (consumer:
        FinalConsumer<SingleResizingConsumerSequenceBarrier>)
        requires
            can_create(&old(self).sequence_barrier, old(memory)@),
        ensures
            publisher_fits(&final(self).sequence_barrier, final(memory)@),
            final(self).sequence_barrier.sb.stage() == old(self).sequence_barrier.sb.stage(),
            final(self).sequence_barrier.wait_strategy == old(self).sequence_barrier.wait_strategy,
            only_stages_added(old(memory)@, final(memory)@),
            starts_behind(
                &consumer.sc.sequence_barrier,
                final(memory)@,
                0,
                old(self).sequence_barrier.wait_strategy,
            ),
            final(memory)@.chain.len() == 2,
            final(memory)@.chain.last() == consumer.sc.sequence_barrier.stage().id,
    {
        let (_consumers, c) = self.create_consumer_pipeline(memory, 1);
        c
    }

    /// Create a chain of dependent consumers, and then add the final consumer in the chain as a
    /// dependency of the publisher. This can only be done once.
    pub fn create_consumer_pipeline<T>(
        &mut self,
        memory: &mut GrowingMemory<T>,
        count_consumers: usize,
    ) -> (result: (
        Vec<Consumer<SingleResizingConsumerSequenceBarrier>>,
        FinalConsumer<SingleResizingConsumerSequenceBarrier>,
    ))
        requires
            can_create(&old(self).sequence_barrier, old(memory)@),
            count_consumers >= 1,
        ensures
            publisher_fits(&final(self).sequence_barrier, final(memory)@),
            final(self).sequence_barrier.sb.stage() == old(self).sequence_barrier.sb.stage(),
            final(self).sequence_barrier.wait_strategy == old(self).sequence_barrier.wait_strategy,
            only_stages_added(old(memory)@, final(memory)@),
            result.0@.len() == count_consumers - 1,
            chained(result.0@, final(memory)@, old(self).sequence_barrier.wait_strategy),
            starts_behind(
                &result.1.sc.sequence_barrier,
                final(memory)@,
                stage_before(result.0@, count_consumers - 1),
                old(self).sequence_barrier.wait_strategy,
            ),
            final(memory)@.chain.len() == count_consumers + 1,
            final(memory)@.chain.last() == result.1.sc.sequence_barrier.stage().id,
    {
        let ghost first = memory@;
        let ghost strategy = self.sequence_barrier.wait_strategy;
        proof {
            self.sequence_barrier.sb.lemma_alone(first);
            assert(first.fits(0));
        }
        let mut last = self.sequence_barrier.insert_first_consumer(memory);
        let mut nonfinal_consumers: Vec<Consumer<SingleResizingConsumerSequenceBarrier>> =
            Vec::new();
        let ghost own = self.sequence_barrier;
        while nonfinal_consumers.len() < count_consumers - 1
            invariant
                nonfinal_consumers@.len() <= count_consumers - 1,
                count_consumers >= 1,
                own == self.sequence_barrier,
                own.placed(memory@),
                chained(nonfinal_consumers@, memory@, strategy),
                starts_behind(
                    &last,
                    memory@,
                    stage_before(nonfinal_consumers@, nonfinal_consumers@.len() as int),
                    strategy,
                ),
                only_stages_added(first, memory@),
                memory@.chain.len() == nonfinal_consumers@.len() + 2,
                memory@.chain.last() == last.stage().id,
                forall|i: int|
                    0 <= i < nonfinal_consumers@.len()
                        ==> (#[trigger] nonfinal_consumers@[i]).sequence_barrier.stage().id
                        != last.stage().id,
            decreases count_consumers - nonfinal_consumers@.len(),
        {
            let ghost before = memory@;
            let ghost consumers = nonfinal_consumers@;
            let ghost id = last.stage().id;
            let consumer = last.insert_single_consumer(memory);
            proof {
                steps::lemma_follows(before, id, stage_before(consumers, consumers.len() as int));
                assert forall|i: int|
                    #![trigger consumers[i]]
                    0 <= i < consumers.len() implies starts_behind(
                    &consumers[i].sequence_barrier,
                    memory@,
                    stage_before(consumers, i),
                    strategy,
                ) by {
                    let stage = consumers[i].sequence_barrier.stage();
                    steps::lemma_follows(before, stage.id, stage_before(consumers, i));
                    assert(memory@.consumer_wf(stage, stage_before(consumers, i)));
                }
            }
            nonfinal_consumers.push(Consumer { sequence_barrier: consumer });
            proof {
                assert forall|i: int|
                    #![trigger nonfinal_consumers@[i]]
                    0 <= i < nonfinal_consumers@.len() implies starts_behind(
                    &nonfinal_consumers@[i].sequence_barrier,
                    memory@,
                    stage_before(nonfinal_consumers@, i),
                    strategy,
                ) by {
                    assert(stage_before(nonfinal_consumers@, i) == stage_before(consumers, i));
                    if i < consumers.len() {
                        assert(nonfinal_consumers@[i] == consumers[i]);
                    }
                }
            }
        }
        // Last consumer gets the ability to take ownership
        (nonfinal_consumers, FinalConsumer { sc: Consumer { sequence_barrier: last } })
    }
}

/// The stage ahead of a consumer has released the next item.
pub open spec fn next_is_released<T>(
    barrier: &SingleResizingConsumerSequenceBarrier,
    state: PipelineState<GrowingSlot<T>>,
) -> bool {
    barrier.stage().position < state.marks[barrier.cb.upstream()].at
}

/// The value that a consumer processes next.
pub open spec fn next_item<T>(
    barrier: &SingleResizingConsumerSequenceBarrier,
    state: PipelineState<GrowingSlot<T>>,
) -> T {
    resizing::plain_items(state)[barrier.stage().position].payload->Some_0
}

/// A consumer has passed an item, which it may have found in the next buffer, or found none. Where it
/// knew of no item, it has looked at the stage ahead. Nothing else of it has changed.
pub open spec fn moved<T>(
    before: &SingleResizingConsumerSequenceBarrier,
    after: &SingleResizingConsumerSequenceBarrier,
    state: PipelineState<GrowingSlot<T>>,
    found: bool,
) -> bool {
    &&& after.stage() == (if found {
        resizing::passed(state, before.looked(state))
    } else {
        before.looked(state)
    })
    &&& after.cb.upstream() == before.cb.upstream()
    &&& after.cb.wait_strategy == before.cb.wait_strategy
}

/// The state after a consumer has passed an item. Its progress becomes visible to the stages behind it
/// if it knows of no more items.
pub open spec fn progress<T>(
    after: &SingleResizingConsumerSequenceBarrier,
    state: PipelineState<GrowingSlot<T>>,
) -> PipelineState<GrowingSlot<T>> {
    if after.stage().cached == 0 {
        state.with_mark(
            after.stage().id,
            Mark { at: after.stage().position, epoch: after.stage().epoch },
        )
    } else {
        state
    }
}

impl Consumer<SingleResizingConsumerSequenceBarrier> {
    /// Calls the given function to process the next value, if the stage ahead has released it.
    pub fn consume<T, C: FnOnce(&T)>(
        &mut self,
        memory: &mut GrowingMemory<T>,
        consume_callback: C,
    ) -> (result: bool)
        requires
            consumer_fits(&old(self).sequence_barrier, old(memory)@),
            next_is_released(&old(self).sequence_barrier, old(memory)@)
                ==> consume_callback.requires(
                (&next_item(&old(self).sequence_barrier, old(memory)@),),
            ),
        ensures
            consumer_fits(&final(self).sequence_barrier, final(memory)@),
            result == next_is_released(&old(self).sequence_barrier, old(memory)@),
            result ==> consume_callback.ensures(
                (&next_item(&old(self).sequence_barrier, old(memory)@),),
                (),
            ),
            moved(
                &old(self).sequence_barrier,
                &final(self).sequence_barrier,
                old(memory)@,
                result,
            ),
            final(memory)@ == (if result {
                progress(&final(self).sequence_barrier, old(memory)@)
            } else {
                old(memory)@
            }),
            steps::others_keep(
                old(memory)@,
                final(memory)@,
                old(self).sequence_barrier.stage().id,
            ),
    {
        proof {
            if self.sequence_barrier.cb.known_available() >= 1 {
                self.sequence_barrier.lemma_flag(memory@);
            }
        }
        if self.sequence_barrier.cb.len_available() < 1 {
            self.sequence_barrier.cb.poll(memory);
        }
        if self.sequence_barrier.cb.len_available() < 1 {
            return false;
        }
        let item = self.sequence_barrier.get(memory).get();
        consume_callback(item);
        self.sequence_barrier.pass_one_slot(memory);
        true
    }
}

impl FinalConsumer<SingleResizingConsumerSequenceBarrier> {
    /// See [`Consumer::consume`].
    pub fn consume<T, C: FnOnce(&T)>(
        &mut self,
        memory: &mut GrowingMemory<T>,
        consume_callback: C,
    ) -> (result: bool)
        requires
            consumer_fits(&old(self).sc.sequence_barrier, old(memory)@),
            next_is_released(&old(self).sc.sequence_barrier, old(memory)@)
                ==> consume_callback.requires(
                (&next_item(&old(self).sc.sequence_barrier, old(memory)@),),
            ),
        ensures
            consumer_fits(&final(self).sc.sequence_barrier, final(memory)@),
            result == next_is_released(&old(self).sc.sequence_barrier, old(memory)@),
            result ==> consume_callback.ensures(
                (&next_item(&old(self).sc.sequence_barrier, old(memory)@),),
                (),
            ),
            moved(
                &old(self).sc.sequence_barrier,
                &final(self).sc.sequence_barrier,
                old(memory)@,
                result,
            ),
            final(memory)@ == (if result {
                progress(&final(self).sc.sequence_barrier, old(memory)@)
            } else {
                old(memory)@
            }),
            steps::others_keep(
                old(memory)@,
                final(memory)@,
                old(self).sc.sequence_barrier.stage().id,
            ),
    {
        self.sc.consume(memory, consume_callback)
    }

    /// Moves the next value out of the ring buffer, and returns it, if the stage ahead has released
    /// it. The slot stays empty until it is published into again.
    pub fn take<T>(&mut self, memory: &mut GrowingMemory<T>) -> (result: Option<T>)
        requires
            consumer_fits(&old(self).sc.sequence_barrier, old(memory)@),
        ensures
            consumer_fits(&final(self).sc.sequence_barrier, final(memory)@),
            result is Some <==> next_is_released(&old(self).sc.sequence_barrier, old(memory)@),
            result is Some ==> {
                &&& result->Some_0 == next_item(&old(self).sc.sequence_barrier, old(memory)@)
                &&& final(memory)@ == progress(
                    &final(self).sc.sequence_barrier,
                    old(memory)@.with_item(
                        final(self).sc.sequence_barrier.stage().epoch,
                        old(self).sc.sequence_barrier.stage().position,
                        GrowingSlot::Item(Slot { payload: None }),
                    ),
                )
            },
            result is None ==> final(memory)@ == old(memory)@,
            moved(
                &old(self).sc.sequence_barrier,
                &final(self).sc.sequence_barrier,
                old(memory)@,
                result is Some,
            ),
            steps::others_keep(
                old(memory)@,
                final(memory)@,
                old(self).sc.sequence_barrier.stage().id,
            ),
    {
        let ghost state = memory@;
        proof {
            if self.sc.sequence_barrier.cb.known_available() >= 1 {
                self.sc.sequence_barrier.lemma_flag(state);
            }
        }
        if self.sc.sequence_barrier.cb.len_available() < 1 {
            self.sc.sequence_barrier.cb.poll(memory);
        }
        if self.sc.sequence_barrier.cb.len_available() < 1 {
            return None;
        }
        proof {
            self.sc.sequence_barrier.lemma_flag(state);
        }
        let mut slot = self.sc.sequence_barrier.take(memory);
        let ghost taken = memory@;
        let ghost stage = self.sc.sequence_barrier.stage();
        proof {
            let left = choose|left: Slot<T>|
                {
                    &&& call_ensures(Slot::<T>::default, (), left)
                    &&& taken == #[trigger] state.with_item(
                        stage.epoch,
                        stage.position,
                        GrowingSlot::Item(left),
                    )
                    &&& resizing::plain_items(taken) == resizing::plain_items(state).update(
                        stage.position,
                        left,
                    )
                };
            assert(left == Slot { payload: None::<T> });
            steps::lemma_shape_decides(state, taken);
        }
        self.sc.sequence_barrier.pass_one_slot(memory);
        Some(slot.take())
    }
}

/// A publisher without any consumer always has room, and sees no limit.
pub proof fn law_no_consumers_no_limit<T>(
    barrier: &SingleResizingPublisherSequenceBarrier,
    memory: &GrowingMemory<T>,
)
    requires
        memory@.chain.len() == 1,
    ensures
        has_room(barrier, memory),
        seen(barrier, memory) == usize::MAX,
{
}

/// A consumer that has passed an item, and knows of another one in the same buffer, tells nobody; one
/// that knows of no more tells the stages behind it how far it has got.
pub proof fn law_progress_is_told_before_waiting<T>(
    before: &SingleResizingConsumerSequenceBarrier,
    after: &SingleResizingConsumerSequenceBarrier,
    state: PipelineState<GrowingSlot<T>>,
)
    requires
        moved(before, after, state, true),
        before.stage().cached >= 1,
        before.stage().position < state.end_of(before.stage().epoch),
    ensures
        before.stage().cached >= 2 ==> progress(after, state) == state,
        before.stage().cached == 1 ==> progress(after, state) == state.with_mark(
            before.stage().id,
            Mark { at: before.stage().position + 1, epoch: before.stage().epoch },
        ),
{
}

} // verus!
