//! The state that all stages of a pipeline share, and the rules by which they change it.
//!
//! Positions count the items that have passed a stage since the pipeline was built. They never wrap:
//! a position is the number of which a sequence value is the wrapped form. Each time the publisher
//! moves to a larger buffer a new epoch begins, with its own buffer and its own numbering.
use crate::power;
use crate::sequence;
use vstd::arithmetic::div_mod::*;
use vstd::prelude::*;

verus! {

/// Where the numbering of one buffer begins: the item at position `start` is the first one in it,
/// and has the sequence value `base`.
pub struct Epoch {
    pub start: int,
    pub base: int,
}

/// A position that a stage has made visible to the others, with the epoch whose numbering it used.
pub struct Mark {
    pub at: int,
    pub epoch: int,
}

/// What one stage knows of itself: its place in the pipeline, the sequence value by which it is
/// known to itself, and how many slots it believes to be available.
pub struct Stage {
    pub id: int,
    pub position: int,
    pub epoch: int,
    pub value: int,
    pub cached: int,
}

/// Everything that the stages of a pipeline share.
#[verifier::ext_equal]
pub struct PipelineState<S> {
    /// The ring buffers, from the first to the largest.
    pub buffers: Seq<Seq<S>>,
    /// The sequence value that each stage has published.
    pub published: Seq<usize>,
    /// Every item that the publisher has released, in order, as it stands now.
    pub items: Seq<S>,
    /// The position behind each published sequence value.
    pub marks: Seq<Mark>,
    /// The stages in the order in which an item passes them; the publisher comes first.
    pub chain: Seq<int>,
    /// The numbering of each buffer.
    pub epochs: Seq<Epoch>,
}

impl<S> PipelineState<S> {
    /// The number of slots of a buffer.
    pub open spec fn size(self, epoch: int) -> int {
        self.buffers[epoch].len() as int
    }

    /// The epoch of the largest buffer, into which the publisher writes.
    pub open spec fn newest(self) -> int {
        self.epochs.len() - 1
    }

    /// The position of the publisher: the number of items released so far.
    pub open spec fn head(self) -> int {
        self.items.len() as int
    }

    /// The sequence value of a position in the numbering of an epoch.
    pub open spec fn value_at(self, epoch: int, at: int) -> int {
        (self.epochs[epoch].base + (at - self.epochs[epoch].start)) % sequence::boundary(
            self.size(epoch),
        )
    }

    /// The slot in which the item at a position lies.
    pub open spec fn slot_of(self, epoch: int, at: int) -> int {
        self.value_at(epoch, at) % self.size(epoch)
    }

    /// The position after the last item that lies in the buffer of an epoch.
    pub open spec fn end_of(self, epoch: int) -> int {
        if epoch < self.newest() {
            self.epochs[epoch + 1].start
        } else {
            self.head()
        }
    }

    /// The position that every consumer has passed; what lies before it may be overwritten.
    pub open spec fn floor(self) -> int {
        if self.chain.len() <= 1 {
            0
        } else {
            self.marks[self.chain.last()].at
        }
    }

    /// The first position in the buffer of an epoch that is still needed.
    pub open spec fn first_live(self, epoch: int) -> int {
        if self.floor() <= self.epochs[epoch].start {
            self.epochs[epoch].start
        } else {
            self.floor()
        }
    }

    /// How many slots of the newest buffer the publisher may fill.
    pub open spec fn free(self) -> int {
        self.size(self.newest()) - (self.head() - self.first_live(self.newest()))
    }

    /// A position is one that the numbering of an epoch gives to a stage that has released the item
    /// before it.
    pub open spec fn in_epoch(self, mark: Mark) -> bool {
        &&& 0 <= mark.epoch < self.epochs.len()
        &&& self.epochs[mark.epoch].start <= mark.at <= self.end_of(mark.epoch)
        &&& mark.epoch >= 1 ==> self.epochs[mark.epoch].start < mark.at
    }

    /// An epoch continues the numbering of the one before it in a buffer twice as large.
    pub open spec fn continues(self, epoch: int) -> bool {
        &&& self.size(epoch) == 2 * self.size(epoch - 1)
        &&& self.epochs[epoch].base == sequence::boundary(self.size(epoch - 1)) + self.slot_of(
            epoch - 1,
            self.epochs[epoch].start,
        )
    }

    /// The buffers and their numberings follow one another.
    pub open spec fn epochs_wf(self) -> bool {
        &&& self.epochs.len() >= 1
        &&& self.buffers.len() == self.epochs.len()
        &&& self.epochs[0] == (Epoch { start: 0, base: 0 })
        &&& forall|epoch: int|
            #![trigger self.buffers[epoch]]
            0 <= epoch < self.epochs.len() ==> power::is_power_of_two(self.size(epoch)) && 2
                * sequence::boundary(self.size(epoch)) <= power::usize_range()
        &&& forall|epoch: int|
            1 <= epoch < self.epochs.len() ==> #[trigger] self.continues(epoch)
        &&& forall|earlier: int, later: int|
            #![trigger self.epochs[earlier], self.epochs[later]]
            0 <= earlier < later < self.epochs.len() ==> {
                &&& self.epochs[earlier].start <= self.epochs[later].start
                &&& earlier >= 1 ==> self.epochs[earlier].start < self.epochs[later].start
                &&& 2 * self.size(earlier) <= self.size(later)
            }
        &&& self.epochs[self.newest()].start <= self.head()
    }

    /// What a stage has published is the sequence value of the position it has reached.
    pub open spec fn mark_wf(self, id: int) -> bool {
        &&& self.in_epoch(self.marks[id])
        &&& self.published[id] == self.value_at(self.marks[id].epoch, self.marks[id].at)
    }

    /// The stages follow one another in the order of the chain.
    pub open spec fn chain_wf(self) -> bool {
        &&& self.chain.len() >= 1
        &&& self.marks.len() == self.chain.len()
        &&& self.published.len() == self.chain.len()
        &&& self.chain[0] == 0
        &&& self.marks[0].at == self.head()
        &&& forall|i: int| 0 <= i < self.chain.len() ==> 0 <= #[trigger] self.chain[i] < self.chain.len()
        &&& forall|i: int, j: int|
            #![trigger self.chain[i], self.chain[j]]
            0 <= i < j < self.chain.len() ==> {
                &&& self.chain[i] != self.chain[j]
                &&& self.marks[self.chain[j]].at <= self.marks[self.chain[i]].at
            }
        &&& forall|id: int| 0 <= id < self.marks.len() ==> #[trigger] self.mark_wf(id)
    }

    /// The items that are still needed fit into a buffer. One slot of each buffer but the newest
    /// holds no item, but tells that a larger buffer follows.
    pub open spec fn fits(self, epoch: int) -> bool {
        self.end_of(epoch) - self.first_live(epoch) <= self.size(epoch) - (if epoch < self.newest() {
            1int
        } else {
            0int
        })
    }

    /// Each item that is still needed lies in its slot.
    pub open spec fn holds(self, epoch: int, at: int) -> bool {
        self.first_live(epoch) <= at < self.end_of(epoch) ==> self.buffers[epoch][self.slot_of(
            epoch,
            at,
        )] == self.items[at]
    }

    /// What is true of the shared state of a pipeline at all times.
    pub open spec fn wf(self) -> bool {
        &&& self.epochs_wf()
        &&& self.chain_wf()
        &&& forall|epoch: int| 0 <= epoch < self.epochs.len() ==> #[trigger] self.fits(epoch)
        &&& forall|epoch: int, at: int|
            0 <= epoch < self.epochs.len() ==> #[trigger] self.holds(epoch, at)
    }

    /// The slots that a consumer believes to be available are so. Where the stage ahead has moved
    /// on to a larger buffer, the belief counts in sequence values, and everything up to the end of
    /// the consumer's own buffer is available.
    pub open spec fn belief_holds(self, stage: Stage, upstream: int) -> bool {
        if self.marks[upstream].epoch == stage.epoch {
            stage.position + stage.cached <= self.marks[upstream].at
        } else {
            stage.cached <= self.published[upstream] - stage.value
        }
    }

    /// A consumer's knowledge of itself is right, given that it waits for the stage `upstream`.
    pub open spec fn consumer_behind(self, stage: Stage, upstream: int) -> bool {
        &&& 0 <= stage.epoch < self.epochs.len()
        &&& self.epochs[stage.epoch].start <= stage.position <= self.end_of(stage.epoch)
        &&& self.marks[stage.id].at <= stage.position <= self.marks[upstream].at
        &&& self.marks[stage.id].epoch <= stage.epoch <= self.marks[upstream].epoch
        &&& stage.value == self.value_at(stage.epoch, stage.position)
        &&& 0 <= stage.cached
        &&& self.belief_holds(stage, upstream)
    }

    /// The place of a stage in the chain is directly behind another.
    pub open spec fn follows(self, id: int, upstream: int) -> bool {
        exists|i: int|
            1 <= i < self.chain.len() && #[trigger] self.chain[i] == id && self.chain[i - 1]
                == upstream
    }

    /// A consumer's knowledge of itself is right.
    pub open spec fn consumer_wf(self, stage: Stage, upstream: int) -> bool {
        self.follows(stage.id, upstream) && self.consumer_behind(stage, upstream)
    }

    /// The publisher's knowledge of itself is right.
    pub open spec fn publisher_wf(self, stage: Stage) -> bool {
        &&& stage.id == 0
        &&& stage.position == self.head()
        &&& stage.epoch == self.newest()
        &&& stage.value == self.value_at(stage.epoch, stage.position)
        &&& 0 <= stage.cached <= self.free()
    }

    /// The state of a pipeline that consists of a publisher alone, and an empty buffer.
    pub open spec fn initial(slots: Seq<S>) -> Self {
        PipelineState {
            buffers: seq![slots],
            published: seq![sequence::SEQUENCE_INITIAL],
            items: Seq::empty(),
            marks: seq![Mark { at: 0, epoch: 0 }],
            chain: seq![0],
            epochs: seq![Epoch { start: 0, base: 0 }],
        }
    }

    /// What the slot of a sequence value holds.
    pub open spec fn value_in(self, epoch: int, number: int) -> S {
        self.buffers[epoch][number % self.size(epoch)]
    }

    /// The state after the slot of a sequence value has been overwritten.
    pub open spec fn with_value(self, epoch: int, number: int, value: S) -> Self {
        PipelineState {
            buffers: self.buffers.update(
                epoch,
                self.buffers[epoch].update(number % self.size(epoch), value),
            ),
            ..self
        }
    }

    /// The state after the slot of a position has been overwritten.
    pub open spec fn with_slot(self, epoch: int, at: int, value: S) -> Self {
        PipelineState {
            buffers: self.buffers.update(
                epoch,
                self.buffers[epoch].update(self.slot_of(epoch, at), value),
            ),
            ..self
        }
    }

    /// The state after a consumer has replaced the item that it is processing.
    pub open spec fn with_item(self, epoch: int, at: int, value: S) -> Self {
        PipelineState {
            items: self.items.update(at, value),
            ..self.with_slot(epoch, at, value)
        }
    }

    /// The state after a stage has published a new position.
    pub open spec fn with_mark(self, id: int, mark: Mark) -> Self {
        PipelineState {
            marks: self.marks.update(id, mark),
            published: self.published.update(id, self.value_at(mark.epoch, mark.at) as usize),
            ..self
        }
    }

    /// What the next slots of the newest buffer hold.
    pub open spec fn next_slots(self, n: int) -> Seq<S> {
        Seq::new(
            n as nat,
            |i: int| self.buffers[self.newest()][self.slot_of(self.newest(), self.head() + i)],
        )
    }

    /// The state after the publisher has released the next `n` slots.
    pub open spec fn with_released(self, n: int) -> Self {
        PipelineState {
            items: self.items + self.next_slots(n),
            ..self.with_mark(0, Mark { at: self.head() + n, epoch: self.newest() })
        }
    }

    /// The state after the publisher has marked its next slot and gone on to a larger buffer.
    pub open spec fn with_buffer(self, signal: S, larger: Seq<S>) -> Self {
        PipelineState {
            buffers: self.with_slot(self.newest(), self.head(), signal).buffers.push(larger),
            epochs: self.epochs.push(
                Epoch {
                    start: self.head(),
                    base: sequence::boundary(self.size(self.newest())) + self.slot_of(
                        self.newest(),
                        self.head(),
                    ),
                },
            ),
            ..self
        }
    }

    /// The state after a consumer has been added to the chain.
    pub open spec fn with_consumer(self, index: int, mark: Mark) -> Self {
        PipelineState {
            chain: self.chain.insert(index, self.chain.len() as int),
            marks: self.marks.push(mark),
            published: self.published.push(self.value_at(mark.epoch, mark.at) as usize),
            ..self
        }
    }
}

/// A sequence value lies below the boundary of its buffer, and its slot within the buffer.
pub proof fn lemma_value_bounds<S>(state: PipelineState<S>, epoch: int, at: int)
    requires
        state.epochs_wf(),
        0 <= epoch < state.epochs.len(),
    ensures
        1 <= state.size(epoch),
        0 <= state.value_at(epoch, at) < sequence::boundary(state.size(epoch)),
        2 * sequence::boundary(state.size(epoch)) <= power::usize_range(),
        0 <= state.slot_of(epoch, at) < state.size(epoch),
        state.slot_of(epoch, at) == (state.epochs[epoch].base + (at - state.epochs[epoch].start))
            % state.size(epoch),
{
    let size = state.size(epoch);
    assert(state.buffers[epoch].len() == size);
    power::lemma_power_of_two_positive(size);
    power::lemma_remainder_of_remainder(
        state.epochs[epoch].base + (at - state.epochs[epoch].start),
        size,
        4,
    );
}

/// Advancing a sequence value by a number of slots gives the value of the position so much later.
pub proof fn lemma_value_advances<S>(state: PipelineState<S>, epoch: int, at: int, n: int)
    requires
        state.epochs_wf(),
        0 <= epoch < state.epochs.len(),
    ensures
        (state.value_at(epoch, at) + n) % sequence::boundary(state.size(epoch)) == state.value_at(
            epoch,
            at + n,
        ),
{
    lemma_value_bounds(state, epoch, at);
    power::lemma_remainder_of_sum(
        state.epochs[epoch].base + (at - state.epochs[epoch].start),
        n,
        sequence::boundary(state.size(epoch)),
    );
}

/// Two positions in one buffer, less than its size apart, have different slots.
pub proof fn lemma_slots_differ<S>(state: PipelineState<S>, epoch: int, at: int, other: int)
    requires
        state.epochs_wf(),
        0 <= epoch < state.epochs.len(),
        -state.size(epoch) < at - other < state.size(epoch),
        at != other,
    ensures
        state.slot_of(epoch, at) != state.slot_of(epoch, other),
{
    lemma_value_bounds(state, epoch, at);
    lemma_value_bounds(state, epoch, other);
    let base = state.epochs[epoch].base - state.epochs[epoch].start;
    if state.slot_of(epoch, at) == state.slot_of(epoch, other) {
        power::lemma_same_remainder(base + at, base + other, state.size(epoch));
    }
}

/// As long as some stage has not reached a later buffer, no sequence value in that buffer wraps.
pub proof fn lemma_values_ahead<S>(state: PipelineState<S>, epoch: int, at: int)
    requires
        state.wf(),
        1 <= epoch < state.epochs.len(),
        state.floor() <= state.epochs[epoch].start <= at <= state.end_of(epoch),
    ensures
        state.value_at(epoch, at) == state.epochs[epoch].base + (at - state.epochs[epoch].start),
        2 * state.size(epoch) <= state.value_at(epoch, at),
        forall|earlier: int|
            0 <= earlier < epoch ==> sequence::boundary(#[trigger] state.size(earlier))
                <= state.value_at(epoch, at),
{
    assert(state.fits(epoch));
    assert(state.continues(epoch));
    lemma_value_bounds(state, epoch - 1, state.epochs[epoch].start);
    let value = state.epochs[epoch].base + (at - state.epochs[epoch].start);
    assert(0 <= value < sequence::boundary(state.size(epoch)));
    lemma_small_mod(value as nat, sequence::boundary(state.size(epoch)) as nat);
    assert forall|earlier: int| 0 <= earlier < epoch implies sequence::boundary(
        #[trigger] state.size(earlier),
    ) <= state.value_at(epoch, at) by {
        assert(state.epochs[earlier].start <= state.epochs[epoch].start);
    }
}

/// Of two published positions the later one belongs to the same epoch or a later one.
pub proof fn lemma_marks_ordered<S>(state: PipelineState<S>, earlier: Mark, later: Mark)
    requires
        state.epochs_wf(),
        state.in_epoch(earlier),
        state.in_epoch(later),
        earlier.at <= later.at,
    ensures
        earlier.epoch <= later.epoch,
{
    if later.epoch < earlier.epoch {
        assert(state.epochs[later.epoch + 1].start <= state.epochs[earlier.epoch].start) by {
            if later.epoch + 1 < earlier.epoch {
                assert(state.epochs[later.epoch + 1].start <= state.epochs[earlier.epoch].start);
            }
        }
    }
}

} // verus!
