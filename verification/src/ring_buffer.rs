//! Ring buffers: fixed numbers of slots that are found by sequence number.
use crate::power;
use crate::sequence::SequenceNumber;
use vstd::prelude::*;

verus! {

/// Implementation of this trait facilitates use of a given type as a ring buffer with the disruptor
/// implementation in this crate.
pub trait RingBufferAsSlice: Sized {
    /// The type of each slot.
    type T;

    /// What the slots of the buffer hold.
    spec fn slots(&self) -> Seq<Self::T>;

    /// Returns a slice containing the entire buffer.
    fn as_slice(&self) -> (slice: &[Self::T])
        ensures
            slice@ == self.slots(),
    ;

    /// Returns a mutable slice containing the entire buffer.
    fn as_mut_slice(&mut self) -> (slice: &mut [Self::T])
        ensures
            slice@ == old(self).slots(),
            final(self).slots() == final(slice)@,
    ;
}

/// The slot that a sequence number denotes in a buffer of a given size.
pub open spec fn index_of(sequence: SequenceNumber, size: int) -> int {
    sequence.0 as int % size
}

/// Operations that index via [`SequenceNumber`], and automatically handle wrapping.
pub trait RingBufferOps: RingBufferAsSlice {
    /// Writes a value into the ring buffer.
    ///
    /// The given sequence number is converted into an index into the buffer, and the value is moved
    /// into that element of the buffer.
    fn set_sequence(&mut self, sequence: SequenceNumber, value: Self::T)
        requires
            power::is_power_of_two(old(self).slots().len() as int),
        ensures
            final(self).slots() == old(self).slots().update(
                index_of(sequence, old(self).slots().len() as int),
                value,
            ),
    ;

    /// Returns the length of the underlying buffer.
    fn len(&self) -> (length: usize)
        ensures
            length == self.slots().len(),
    ;

    /// Returns an immutable reference to the value pointed to by `sequence`.
    fn get_sequence(&self, sequence: SequenceNumber) -> (value: &Self::T)
        requires
            power::is_power_of_two(self.slots().len() as int),
        ensures
            *value == self.slots()[index_of(sequence, self.slots().len() as int)],
    ;

    /// Returns a mutable reference to the value pointed to by `sequence`.
    fn get_sequence_mut(&mut self, sequence: SequenceNumber) -> (value: &mut Self::T)
        requires
            power::is_power_of_two(old(self).slots().len() as int),
        ensures
            *value == old(self).slots()[index_of(sequence, old(self).slots().len() as int)],
            final(self).slots() == old(self).slots().update(
                index_of(sequence, old(self).slots().len() as int),
                *final(value),
            ),
    ;
}

/// Blanket implementation for anything that implements [`RingBufferAsSlice`].
impl<S: RingBufferAsSlice> RingBufferOps for S {
    fn set_sequence(&mut self, sequence: SequenceNumber, value: Self::T) {
        let index: usize = sequence.as_index(RingBufferOps::len(self));
        self.as_mut_slice()[index] = value;
    }

    fn len(&self) -> (length: usize) {
        self.as_slice().len()
    }

    fn get_sequence(&self, sequence: SequenceNumber) -> (value: &Self::T) {
        let index: usize = sequence.as_index(RingBufferOps::len(self));
        &self.as_slice()[index]
    }

    fn get_sequence_mut(&mut self, sequence: SequenceNumber) -> (value: &mut Self::T) {
        let index: usize = sequence.as_index(RingBufferOps::len(self));
        &mut self.as_mut_slice()[index]
    }
}

/// Each of a number of values is one that `T::default` may return.
pub open spec fn all_default<T: Default>(values: Seq<T>) -> bool {
    forall|i: int| 0 <= i < values.len() ==> call_ensures(T::default, (), #[trigger] values[i])
}

/// Returns a number of default values.
fn default_entries<T: Default>(size: usize) -> (entries: Vec<T>)
    ensures
        entries@.len() == size,
        all_default(entries@),
{
    let mut entries: Vec<T> = Vec::new();
    while entries.len() < size
        invariant
            entries@.len() <= size,
            all_default(entries@),
        decreases size - entries@.len(),
    {
        entries.push(T::default());
    }
    entries
}

/// A buffer whose size is known at compile time.
pub struct RingBufferData<T, const N: usize> {
    entries: Vec<T>,
}

impl<T: Default, const N: usize> Default for RingBufferData<T, N> {
    /// A buffer of `N` default values.
    fn default() -> (buffer: Self)
        ensures
            buffer.slots().len() == N,
            all_default(buffer.slots()),
    {
        RingBufferData { entries: default_entries(N) }
    }
}

impl<T, const N: usize> RingBufferAsSlice for RingBufferData<T, N> {
    type T = T;

    closed spec fn slots(&self) -> Seq<T> {
        self.entries@
    }

    fn as_slice(&self) -> (slice: &[T]) {
        self.entries.as_slice()
    }

    fn as_mut_slice(&mut self) -> (slice: &mut [T]) {
        self.entries.as_mut_slice()
    }
}

/// A buffer whose size is chosen when it is made.
pub struct BoxedRingBufferData<T> {
    entries: Vec<T>,
}

impl<T: Default> BoxedRingBufferData<T> {
    /// Given a size, initialize a new instance
    pub fn new(size: usize) -> (buffer: BoxedRingBufferData<T>)
        ensures
            buffer.slots().len() == size,
            all_default(buffer.slots()),
    {
        BoxedRingBufferData { entries: default_entries(size) }
    }
}

impl<T> RingBufferAsSlice for BoxedRingBufferData<T> {
    type T = T;

    closed spec fn slots(&self) -> Seq<T> {
        self.entries@
    }

    fn as_slice(&self) -> (slice: &[T]) {
        self.entries.as_slice()
    }

    fn as_mut_slice(&mut self) -> (slice: &mut [T]) {
        self.entries.as_mut_slice()
    }
}

/// A ring buffer that can be replaced by larger ones. The buffers are numbered from 0 in the order in
/// which they were allocated; a stage refers to the one that it works with by its number.
pub struct ResizableRingBuffer<RB: RingBufferOps> {
    buffers: Vec<RB>,
}

impl<RB: RingBufferOps> View for ResizableRingBuffer<RB> {
    type V = Seq<Seq<RB::T>>;

    closed spec fn view(&self) -> Seq<Seq<RB::T>> {
        Seq::new(self.buffers@.len(), |number: int| self.buffers@[number].slots())
    }
}

/// What the slots hold after one of them, in one of several buffers, has been overwritten.
pub open spec fn overwritten<S>(
    buffers: Seq<Seq<S>>,
    number: int,
    sequence: SequenceNumber,
    value: S,
) -> Seq<Seq<S>> {
    buffers.update(
        number,
        buffers[number].update(index_of(sequence, buffers[number].len() as int), value),
    )
}

impl<RB: RingBufferOps> ResizableRingBuffer<RB> {
    /// Starts with a given buffer, whose number is 0.
    pub fn new(first: RB) -> (ring_buffer: Self)
        ensures
            ring_buffer@ == seq![first.slots()],
    {
        let mut buffers: Vec<RB> = Vec::new();
        buffers.push(first);
        let ring_buffer = ResizableRingBuffer { buffers };
        assert(ring_buffer@ =~= seq![first.slots()]);
        ring_buffer
    }

    /// Returns the length of a buffer.
    pub fn len(&self, number: usize) -> (length: usize)
        requires
            number < self@.len(),
        ensures
            length == self@[number as int].len(),
    {
        RingBufferOps::len(&self.buffers[number])
    }

    /// See [`RingBufferOps::set_sequence`].
    pub fn set(&mut self, number: usize, sequence: SequenceNumber, value: RB::T)
        requires
            number < old(self)@.len(),
            power::is_power_of_two(old(self)@[number as int].len() as int),
        ensures
            final(self)@ == overwritten(old(self)@, number as int, sequence, value),
    {
        self.buffers[number].set_sequence(sequence, value);
        assert(self@ =~= overwritten(old(self)@, number as int, sequence, value));
    }

    /// See [`RingBufferOps::get_sequence`].
    pub fn get(&self, number: usize, sequence: SequenceNumber) -> (value: &RB::T)
        requires
            number < self@.len(),
            power::is_power_of_two(self@[number as int].len() as int),
        ensures
            *value == self@[number as int][index_of(sequence, self@[number as int].len() as int)],
    {
        self.buffers[number].get_sequence(sequence)
    }

    /// Moves a value into the slot that a sequence number denotes, and the old value out of it.
    pub fn replace(&mut self, number: usize, sequence: SequenceNumber, value: RB::T) -> (replaced:
        RB::T)
        requires
            number < old(self)@.len(),
            power::is_power_of_two(old(self)@[number as int].len() as int),
        ensures
            replaced == old(self)@[number as int][index_of(
                sequence,
                old(self)@[number as int].len() as int,
            )],
            final(self)@ == overwritten(old(self)@, number as int, sequence, value),
    {
        let mut taken = value;
        core::mem::swap(self.buffers[number].get_sequence_mut(sequence), &mut taken);
        assert(self@ =~= overwritten(old(self)@, number as int, sequence, value));
        taken
    }

    /// Takes the value out of the slot that a sequence number denotes, leaving the default value.
    pub fn take(&mut self, number: usize, sequence: SequenceNumber) -> (taken: RB::T) where
        RB::T: Default,
        requires
            number < old(self)@.len(),
            power::is_power_of_two(old(self)@[number as int].len() as int),
        ensures
            taken == old(self)@[number as int][index_of(
                sequence,
                old(self)@[number as int].len() as int,
            )],
            exists|left: RB::T|
                call_ensures(RB::T::default, (), left) && final(self)@ == #[trigger] overwritten(
                    old(self)@,
                    number as int,
                    sequence,
                    left,
                ),
    {
        self.replace(number, sequence, RB::T::default())
    }

    /// Adds a larger buffer, and returns its number.
    pub fn reallocate(&mut self, larger: RB) -> (number: usize)
        ensures
            number == old(self)@.len(),
            final(self)@ == old(self)@.push(larger.slots()),
    {
        let number: usize = self.buffers.len();
        self.buffers.push(larger);
        assert(self@ =~= old(self)@.push(larger.slots()));
        number
    }

    /// Returns the number of the buffer that replaces another, if a reallocation has occurred.
    pub fn get_next(&self, number: usize) -> (next: Option<usize>)
        ensures
            next is Some <==> number + 1 < self@.len(),
            next is Some ==> next->Some_0 == number + 1,
    {
        if self.buffers.len() > 0 && number < self.buffers.len() - 1 {
            Some(number + 1)
        } else {
            None
        }
    }
}

/// Used to implement in-band signalling about buffer reallocations. Will nearly always contain an
/// [`Item`](Self::Item), but during buffer reallocation, the last slot in the old buffer will contain
/// [`BufferReallocated`](Self::BufferReallocated) instead.
#[derive(Debug, Copy, Clone)]
pub enum ReallocationFlag<T> {
    BufferReallocated,
    Item(T),
}

impl<T> ReallocationFlag<T> {
    /// Returns `true` if this flag contains an [`Item`](Self::Item), like [`Option::is_some`].
    pub fn is_item(&self) -> (result: bool)
        ensures
            result == (self is Item),
    {
        matches!(self, ReallocationFlag::Item(_))
    }

    /// Converts from `&ReallocationFlag<T>` to `ReallocationFlag<&T>`, like [`Option::as_ref`].
    pub fn as_ref(&self) -> (result: ReallocationFlag<&T>)
        ensures
            result is Item == (self is Item),
            self is Item ==> *result->Item_0 == self->Item_0,
    {
        match self {
            ReallocationFlag::BufferReallocated => ReallocationFlag::BufferReallocated,
            ReallocationFlag::Item(x) => ReallocationFlag::Item(x),
        }
    }

    /// Similar to [`Option::unwrap`].
    pub fn unwrap(self) -> (item: T)
        requires
            self is Item,
        ensures
            self == ReallocationFlag::Item(item),
    {
        match self {
            ReallocationFlag::BufferReallocated => vstd::pervasive::unreached(),
            ReallocationFlag::Item(x) => x,
        }
    }
}

impl<T: Default> Default for ReallocationFlag<T> {
    /// Returns an [`Item(T)`](Self::Item) containing `T`'s default value.
    fn default() -> (flag: Self)
        ensures
            flag is Item,
            call_ensures(T::default, (), flag->Item_0),
    {
        ReallocationFlag::Item(T::default())
    }
}

} // verus!
