//! The memory that all stages of a pipeline share.
use crate::owner::{SequenceOwner, SequenceTable};
use crate::power;
use crate::protocol::{Epoch, Mark, PipelineState};
use crate::ring_buffer::{ResizableRingBuffer, RingBufferOps};
use crate::sequence;
use crate::sequence::{SequenceNumber, SEQUENCE_INITIAL};
use vstd::prelude::*;

verus! {

/// The ring buffers of a pipeline, from the first to the largest, and the sequences that its stages
/// have published.
pub struct PipelineMemory<RB: RingBufferOps> {
    buffers: ResizableRingBuffer<RB>,
    sequences: SequenceTable,
    items: Ghost<Seq<RB::T>>,
    marks: Ghost<Seq<Mark>>,
    chain: Ghost<Seq<int>>,
    epochs: Ghost<Seq<Epoch>>,
}

impl<RB: RingBufferOps> View for PipelineMemory<RB> {
    type V = PipelineState<RB::T>;

    closed spec fn view(&self) -> PipelineState<RB::T> {
        PipelineState {
            buffers: self.buffers@,
            published: self.sequences@,
            items: self.items@,
            marks: self.marks@,
            chain: self.chain@,
            epochs: self.epochs@,
        }
    }
}

impl<RB: RingBufferOps> PipelineMemory<RB> {
    /// A pipeline that consists of a ring buffer and a publisher, whose sequence is returned.
    pub(crate) fn new(ring_buffer: RB) -> (result: (PipelineMemory<RB>, SequenceOwner))
        ensures
            result.0@ == PipelineState::initial(ring_buffer.slots()),
            result.1.id() == 0,
            result.1.private() == SEQUENCE_INITIAL,
    {
        let mut sequences = SequenceTable::new();
        let owner = SequenceOwner::new(&mut sequences);
        let ghost first = PipelineState::initial(ring_buffer.slots());
        let memory = PipelineMemory {
            buffers: ResizableRingBuffer::new(ring_buffer),
            sequences,
            items: Ghost(first.items),
            marks: Ghost(first.marks),
            chain: Ghost(first.chain),
            epochs: Ghost(first.epochs),
        };
        assert(memory@ =~= first);
        (memory, owner)
    }

    /// The sequences that the stages have published.
    pub(crate) fn sequences(&self) -> (table: &SequenceTable)
        ensures
            table@ == self@.published,
    {
        &self.sequences
    }

    /// Returns the size of the ring buffer with the given number.
    pub(crate) fn capacity(&self, buffer: usize) -> (size: usize)
        requires
            buffer < self@.buffers.len(),
        ensures
            size == self@.size(buffer as int),
    {
        self.buffers.len(buffer)
    }

    /// Stores a value in the slot that a sequence number denotes.
    pub(crate) fn set(&mut self, buffer: usize, sequence: SequenceNumber, value: RB::T)
        requires
            buffer < old(self)@.buffers.len(),
            power::is_power_of_two(old(self)@.size(buffer as int)),
        ensures
            final(self)@ == old(self)@.with_value(buffer as int, sequence.0 as int, value),
    {
        self.buffers.set(buffer, sequence, value);
        assert(self@ =~= old(self)@.with_value(buffer as int, sequence.0 as int, value));
    }

    /// Gets the value stored in the slot that a sequence number denotes.
    pub(crate) fn get(&self, buffer: usize, sequence: SequenceNumber) -> (value: &RB::T)
        requires
            buffer < self@.buffers.len(),
            power::is_power_of_two(self@.size(buffer as int)),
        ensures
            *value == self@.value_in(buffer as int, sequence.0 as int),
    {
        self.buffers.get(buffer, sequence)
    }

    /// Replaces the value stored in the slot that a sequence number denotes, and returns the old
    /// value. The released items are then `items`.
    pub(crate) fn replace(
        &mut self,
        buffer: usize,
        sequence: SequenceNumber,
        value: RB::T,
        items: Ghost<Seq<RB::T>>,
    ) -> (replaced: RB::T)
        requires
            buffer < old(self)@.buffers.len(),
            power::is_power_of_two(old(self)@.size(buffer as int)),
        ensures
            replaced == old(self)@.value_in(buffer as int, sequence.0 as int),
            final(self)@ == (PipelineState {
                items: items@,
                ..old(self)@.with_value(buffer as int, sequence.0 as int, value)
            }),
    {
        let replaced = self.buffers.replace(buffer, sequence, value);
        self.items = items;
        assert(self@ =~= PipelineState {
            items: items@,
            ..old(self)@.with_value(buffer as int, sequence.0 as int, value)
        });
        replaced
    }

    /// Advances a sequence, then makes it visible to the other stages: it has reached the position
    /// `mark`, and the released items are `items`.
    pub(crate) fn advance_and_flush(
        &mut self,
        sequence: &mut SequenceOwner,
        n: usize,
        buffer_size: usize,
        mark: Ghost<Mark>,
        items: Ghost<Seq<RB::T>>,
    )
        requires
            sequence::is_buffer_size(buffer_size as int),
            old(sequence).id() < old(self)@.published.len(),
        ensures
            final(sequence).id() == old(sequence).id(),
            final(sequence).private() == (old(sequence).private() + n) % sequence::boundary(
                buffer_size as int,
            ),
            final(self)@ == (PipelineState {
                published: old(self)@.published.update(
                    old(sequence).id(),
                    final(sequence).private() as usize,
                ),
                marks: old(self)@.marks.update(old(sequence).id(), mark@),
                items: items@,
                ..old(self)@
            }),
    {
        sequence.advance_and_flush(&mut self.sequences, n, buffer_size);
        self.marks = Ghost(self.marks@.update(old(sequence).id(), mark@));
        self.items = items;
    }

    /// Makes a sequence visible to the other stages: it has reached the position `mark`.
    pub(crate) fn flush(&mut self, sequence: &mut SequenceOwner, mark: Ghost<Mark>)
        requires
            old(sequence).id() < old(self)@.published.len(),
        ensures
            *final(sequence) == *old(sequence),
            final(self)@ == (PipelineState {
                published: old(self)@.published.update(
                    old(sequence).id(),
                    old(sequence).private() as usize,
                ),
                marks: old(self)@.marks.update(old(sequence).id(), mark@),
                ..old(self)@
            }),
    {
        sequence.flush(&mut self.sequences);
        self.marks = Ghost(self.marks@.update(old(sequence).id(), mark@));
    }

    /// Adds a sequence for a new consumer, whose place in the chain is `index`.
    pub(crate) fn add_sequence(
        &mut self,
        sequence: SequenceNumber,
        index: Ghost<int>,
        mark: Ghost<Mark>,
    ) -> (owner: SequenceOwner)
        ensures
            owner.id() == old(self)@.published.len(),
            owner.private() == sequence.0,
            final(self)@ == (PipelineState {
                published: old(self)@.published.push(sequence.0),
                marks: old(self)@.marks.push(mark@),
                chain: old(self)@.chain.insert(index@, old(self)@.chain.len() as int),
                ..old(self)@
            }),
    {
        self.marks = Ghost(self.marks@.push(mark@));
        self.chain = Ghost(self.chain@.insert(index@, self.chain@.len() as int));
        SequenceOwner::new_from_sequence(&mut self.sequences, sequence)
    }

    /// Adds a ring buffer, with which a new epoch begins, and returns its number.
    pub(crate) fn reallocate(&mut self, ring_buffer: RB, epoch: Ghost<Epoch>) -> (number: usize)
        ensures
            number == old(self)@.buffers.len(),
            final(self)@ == (PipelineState {
                buffers: old(self)@.buffers.push(ring_buffer.slots()),
                epochs: old(self)@.epochs.push(epoch@),
                ..old(self)@
            }),
    {
        self.epochs = Ghost(self.epochs@.push(epoch@));
        self.buffers.reallocate(ring_buffer)
    }

    /// Returns the number of the ring buffer that replaces another, if there is one.
    pub(crate) fn get_next(&self, buffer: usize) -> (next: Option<usize>)
        ensures
            next is Some <==> buffer + 1 < self@.buffers.len(),
            next is Some ==> next->Some_0 == buffer + 1,
    {
        self.buffers.get_next(buffer)
    }
}

} // verus!
