//! The sequence of each stage: what the stage itself knows of it, and what the others can read.
use crate::power;
use crate::sequence;
use crate::sequence::{wrap_boundary, SequenceNumber, SEQUENCE_INITIAL};
use vstd::prelude::*;

verus! {

/// The published sequence values of all stages of a pipeline.
pub struct SequenceTable {
    values: Vec<usize>,
}

impl View for SequenceTable {
    type V = Seq<usize>;

    closed spec fn view(&self) -> Seq<usize> {
        self.values@
    }
}

impl SequenceTable {
    /// A table without any sequence.
    pub fn new() -> (table: SequenceTable)
        ensures
            table@ == Seq::<usize>::empty(),
    {
        SequenceTable { values: Vec::new() }
    }
}

/// Read-only reference to a sequence. Can be given to other stages.
#[derive(Debug, Clone, Copy)]
pub struct SequenceReader {
    index: usize,
}

impl SequenceReader {
    /// The place of the sequence in its table.
    pub closed spec fn id(&self) -> int {
        self.index as int
    }

    /// Gets the published value of the sequence. For use by publishers/consumers to confirm that
    /// slots have been released by the stages ahead of them in the pipeline.
    pub fn get(&self, table: &SequenceTable) -> (number: SequenceNumber)
        requires
            self.id() < table@.len(),
        ensures
            number.0 == table@[self.id()],
    {
        SequenceNumber(table.values[self.index])
    }

    /// Get another reference to the sequence.
    pub fn clone_immut(&self) -> (reader: SequenceReader)
        ensures
            reader == *self,
    {
        SequenceReader { index: self.index }
    }
}

/// A reference to a sequence that allows the owner to change it, and can generate read-only
/// references using [`clone_immut`](SequenceOwner::clone_immut). Returns values as `SequenceNumber`
/// to disambiguate from indices and other `usize` values.
#[derive(Debug)]
pub struct SequenceOwner {
    index: usize,
    /// A copy of the sequence for use by the owner, ahead of what the other stages can read.
    private_value: usize,
}

impl SequenceOwner {
    /// The place of the sequence in its table.
    pub closed spec fn id(&self) -> int {
        self.index as int
    }

    /// The value that the owner itself works with.
    pub closed spec fn private(&self) -> int {
        self.private_value as int
    }

    /// Allocates a new sequence.
    pub fn new(table: &mut SequenceTable) -> (owner: SequenceOwner)
        ensures
            owner.id() == old(table)@.len(),
            owner.private() == SEQUENCE_INITIAL,
            final(table)@ == old(table)@.push(SEQUENCE_INITIAL),
    {
        SequenceOwner::new_from_sequence(table, SequenceNumber(SEQUENCE_INITIAL))
    }

    /// Allocates a new sequence that starts at a given value.
    pub fn new_from_sequence(table: &mut SequenceTable, sequence: SequenceNumber) -> (owner:
        SequenceOwner)
        ensures
            owner.id() == old(table)@.len(),
            owner.private() == sequence.0,
            final(table)@ == old(table)@.push(sequence.0),
    {
        let index: usize = table.values.len();
        table.values.push(sequence.value());
        SequenceOwner { index, private_value: sequence.value() }
    }

    /// See [`SequenceReader::get`].
    pub fn get(&self, table: &SequenceTable) -> (number: SequenceNumber)
        requires
            self.id() < table@.len(),
        ensures
            number.0 == table@[self.id()],
    {
        SequenceNumber(table.values[self.index])
    }

    /// Gets the owner's copy of the sequence.
    pub fn get_owned(&self) -> (number: SequenceNumber)
        ensures
            number.0 == self.private(),
    {
        SequenceNumber(self.private_value)
    }

    /// Return a read-only reference to the same sequence.
    pub fn clone_immut(&self) -> (reader: SequenceReader)
        ensures
            reader.id() == self.id(),
    {
        SequenceReader { index: self.index }
    }

    /// Add n to the private version of the sequence, without making the new value visible to other
    /// stages.
    ///
    /// This function also wraps the sequence number around when it reaches
    /// `wrap_boundary(buffer_size)`. This results in two easily distinguishable states for the
    /// availability calculations to handle. Consumer sequences are normally behind gating sequences,
    /// whether they are owned by other consumers or the publisher. However, the gating sequence will
    /// wrap first, and remain behind until consumers reach the wrapping boundary, at which point they
    /// will also wrap. The publisher is normally ahead of the sequence it depends on, but after
    /// wrapping, it will be temporarily behind the gating sequence.
    pub fn advance(&mut self, n: usize, buffer_size: usize)
        requires
            sequence::is_buffer_size(buffer_size as int),
        ensures
            final(self).id() == old(self).id(),
            final(self).private() == (old(self).private() + n) % sequence::boundary(
                buffer_size as int,
            ),
    {
        let sum: usize = self.private_value.wrapping_add(n);
        // Given that the boundary is a power of two, wrap by masking out the high bits. This
        // operation is a noop if the value is less than the boundary, so it's unnecessary to check
        // before wrapping.
        let wrap_mask: usize = wrap_boundary(buffer_size).wrapping_sub(1);
        proof {
            let period = sequence::boundary(buffer_size as int);
            let total = self.private_value + n;
            power::lemma_power_of_two_positive(buffer_size as int);
            power::lemma_power_of_two_doubles(buffer_size as int);
            power::lemma_power_of_two_doubles(2 * buffer_size);
            assert(sum as int == total % power::usize_range()) by {
                if total >= power::usize_range() {
                    power::lemma_reduced_difference(total - power::usize_range());
                    vstd::arithmetic::div_mod::lemma_mod_sub_multiples_vanish(
                        total,
                        power::usize_range(),
                    );
                } else {
                    power::lemma_reduced_difference(total as int);
                }
            }
            let quotient = power::lemma_four_times_divides_range(buffer_size as int);
            power::lemma_remainder_of_remainder(total as int, period, quotient);
            if period < power::usize_range() {
                power::lemma_mask_is_remainder(sum, period as usize);
            } else {
                assert(quotient == 1) by (nonlinear_arith)
                    requires
                        quotient * period == period,
                        period > 0,
                ;
                assert(power::usize_range() % power::usize_range() == 0);
                let largest = usize::MAX;
                assert(largest <= !0usize) by (bit_vector);
                assert(sum & !0usize == sum) by (bit_vector);
            }
        }
        self.private_value = sum & wrap_mask;
    }

    /// Publishes the private sequence value to other stages.
    pub fn flush(&mut self, table: &mut SequenceTable)
        requires
            old(self).id() < old(table)@.len(),
        ensures
            *final(self) == *old(self),
            final(table)@ == old(table)@.update(old(self).id(), old(self).private() as usize),
    {
        table.values[self.index] = self.private_value;
    }

    /// Advance, then immediately make the change visible to other stages.
    pub fn advance_and_flush(&mut self, table: &mut SequenceTable, n: usize, buffer_size: usize)
        requires
            sequence::is_buffer_size(buffer_size as int),
            old(self).id() < old(table)@.len(),
        ensures
            final(self).id() == old(self).id(),
            final(self).private() == (old(self).private() + n) % sequence::boundary(
                buffer_size as int,
            ),
            final(table)@ == old(table)@.update(old(self).id(), final(self).private() as usize),
    {
        self.advance(n, buffer_size);
        self.flush(table);
    }

    /// Reverses the effects of wrapping that occur in the advance function.
    pub fn unwrap(&mut self, buffer_size: usize)
        requires
            sequence::is_buffer_size(buffer_size as int),
            old(self).private() < sequence::boundary(buffer_size as int),
            5 * buffer_size <= power::usize_range(),
        ensures
            final(self).id() == old(self).id(),
            final(self).private() == old(self).private() % (buffer_size as int)
                + sequence::boundary(buffer_size as int),
    {
        let unwrapped = SequenceOwner::unwrap_number(
            SequenceNumber(self.private_value),
            buffer_size,
        );
        self.private_value = unwrapped.value();
    }

    /// Like unwrap, but for standalone `SequenceNumber` values. The slot stays the same, and the
    /// result is at least as large as the wrap boundary.
    pub fn unwrap_number(sn: SequenceNumber, buffer_size: usize) -> (result: SequenceNumber)
        requires
            sequence::is_buffer_size(buffer_size as int),
            sn.0 < sequence::boundary(buffer_size as int),
            5 * buffer_size <= power::usize_range(),
        ensures
            result.0 == sn.0 % buffer_size + sequence::boundary(buffer_size as int),
    {
        // The value is in the interval [0, 4*buffer_size). This ensures that it will be within
        // [4*buffer_size, 5*buffer_size) instead.
        let offset: usize = sn.as_index(buffer_size);
        SequenceNumber(offset + wrap_boundary(buffer_size))
    }
}

/// Unwrapping gives a number of the same slot in the next buffer as in the old one, above every
/// number that the old buffer has used and so far below the boundary of the next buffer that a whole
/// buffer of items fits in between.
pub proof fn law_unwrap_keeps_slot(number: int, buffer_size: int)
    requires
        buffer_size >= 1,
        0 <= number < sequence::boundary(buffer_size),
    ensures
        (number % buffer_size + sequence::boundary(buffer_size)) % buffer_size == number
            % buffer_size,
        number < number % buffer_size + sequence::boundary(buffer_size),
        2 * (2 * buffer_size) <= number % buffer_size + sequence::boundary(buffer_size),
        2 * (number % buffer_size + sequence::boundary(buffer_size)) < 5 * (2 * buffer_size),
        number % buffer_size + sequence::boundary(buffer_size) + 2 * buffer_size
            < sequence::boundary(2 * buffer_size),
{
    vstd::arithmetic::div_mod::lemma_mod_multiples_vanish(4, number % buffer_size, buffer_size);
    vstd::arithmetic::div_mod::lemma_mod_twice(number, buffer_size);
    assert(buffer_size * 4 == sequence::boundary(buffer_size));
}

/// Advancing step by step is advancing at once.
pub proof fn law_advances_add_up(from: int, first: int, second: int, buffer_size: int)
    requires
        buffer_size >= 1,
    ensures
        ((from + first) % sequence::boundary(buffer_size) + second) % sequence::boundary(
            buffer_size,
        ) == (from + first + second) % sequence::boundary(buffer_size),
{
    power::lemma_remainder_of_sum(from + first, second, sequence::boundary(buffer_size));
}

} // verus!
