//! How many slots the stages ahead in the pipeline have made available.
use crate::owner::{SequenceReader, SequenceTable};
use crate::power;
use crate::sequence;
use crate::sequence::{
    calculate_available_consumer, calculate_available_publisher,
    calculate_available_publisher_resizing, SequenceNumber,
};
use vstd::prelude::*;

verus! {

/// A shorthand for availability calculation functions: given the sequence of a stage ahead, the
/// waiting stage's own sequence and the buffer size, they return how many slots are available.
pub trait AvailabilityFn: Fn(SequenceNumber, SequenceNumber, usize) -> usize {

}

impl<F> AvailabilityFn for F where F: Fn(SequenceNumber, SequenceNumber, usize) -> usize {

}

/// What a list of readers finds in a table.
pub open spec fn readings(dependencies: Seq<SequenceReader>, table: Seq<usize>) -> Seq<usize> {
    Seq::new(dependencies.len(), |i: int| table[dependencies[i].id()])
}

/// Each of a list of readers refers to a sequence of a table.
pub open spec fn readable(dependencies: Seq<SequenceReader>, table: Seq<usize>) -> bool {
    forall|i: int|
        0 <= i < dependencies.len() ==> 0 <= (#[trigger] dependencies[i]).id() < table.len()
}

/// The smallest of some numbers.
pub open spec fn is_minimum(counts: Seq<usize>, least: usize) -> bool {
    counts.contains(least) && forall|i: int| 0 <= i < counts.len() ==> least <= #[trigger] counts[i]
}

/// Each count is one that the function may return for the sequence it belongs to.
pub open spec fn counted<F: AvailabilityFn>(
    f: F,
    gating: Seq<usize>,
    waiting: SequenceNumber,
    buffer_size: usize,
    counts: Seq<usize>,
) -> bool {
    &&& counts.len() == gating.len()
    &&& forall|i: int|
        0 <= i < gating.len() ==> call_ensures(
            f,
            (SequenceNumber(gating[i]), waiting, buffer_size),
            #[trigger] counts[i],
        )
}

/// Given a list of dependencies, retrieves the current value of each and returns the minimum number
/// of available items out of all the dependencies.
pub fn calculate_available_list<F>(
    waiting_sequence: SequenceNumber,
    dependencies: &[SequenceReader],
    table: &SequenceTable,
    buffer_size: usize,
    calculate_available: &F,
) -> (available: usize) where F: AvailabilityFn
    requires
        readable(dependencies@, table@),
        dependencies@.len() == 0 ==> waiting_sequence.0 <= buffer_size,
        forall|i: int|
            0 <= i < dependencies@.len() ==> call_requires(
                *calculate_available,
                (
                    SequenceNumber(#[trigger] readings(dependencies@, table@)[i]),
                    waiting_sequence,
                    buffer_size,
                ),
            ),
    ensures
        dependencies@.len() == 0 ==> available == buffer_size - waiting_sequence.0,
        dependencies@.len() > 0 ==> exists|counts: Seq<usize>|
            counted(
                *calculate_available,
                readings(dependencies@, table@),
                waiting_sequence,
                buffer_size,
                counts,
            ) && #[trigger] is_minimum(counts, available),
{
    if dependencies.len() == 0 {
        // The corresponding stage of the pipeline has ownership of all elements in the buffer. In
        // practice, this can only happen with the publisher, and only if the caller starts setting
        // or mutating elements before constructing the rest of the pipeline.
        buffer_size - waiting_sequence.value()
    } else {
        let mut available: usize = usize::MAX;
        let mut i: usize = 0;
        let ghost gating = readings(dependencies@, table@);
        let ghost mut counts = Seq::<usize>::empty();
        while i < dependencies.len()
            invariant
                i <= dependencies@.len(),
                gating == readings(dependencies@, table@),
                readable(dependencies@, table@),
                forall|j: int|
                    0 <= j < dependencies@.len() ==> call_requires(
                        *calculate_available,
                        (
                            SequenceNumber(#[trigger] readings(dependencies@, table@)[j]),
                            waiting_sequence,
                            buffer_size,
                        ),
                    ),
                counted(
                    *calculate_available,
                    gating.take(i as int),
                    waiting_sequence,
                    buffer_size,
                    counts,
                ),
                i > 0 ==> is_minimum(counts, available),
                i == 0 ==> available == usize::MAX,
            decreases dependencies@.len() - i,
        {
            assert(dependencies@[i as int].id() < table@.len());
            let gate = dependencies[i].get(table);
            assert(gating[i as int] == gate.0);
            let a: usize = calculate_available(gate, waiting_sequence, buffer_size);
            let ghost before = counts;
            proof {
                counts = counts.push(a);
                assert(gating.take(i + 1) =~= gating.take(i as int).push(gate.0));
                assert(counts[i as int] == a);
                assert(forall|j: int| 0 <= j < i ==> #[trigger] counts[j] == before[j]);
                if i > 0 {
                    let k = before.index_of(available);
                    assert(counts[k] == available);
                }
            }
            if a < available {
                available = a;
            } else {
                assert(i == 0 ==> available == a);
            }
            i += 1;
        }
        assert(gating.take(i as int) =~= gating);
        available
    }
}

/// The smallest number of slots that any of some sequences leaves, each counted by `count`; all slots
/// that have not been passed yet where there is no sequence to wait for.
pub open spec fn least_available(
    gating: Seq<usize>,
    waiting: SequenceNumber,
    buffer_size: usize,
    count: spec_fn(int) -> int,
) -> int {
    if gating.len() == 0 {
        buffer_size - waiting.0
    } else {
        gating.map_values(|number: usize| count(number as int)).min()
    }
}

/// The smallest of a list of counts is the smallest of the numbers that they have been counted to be.
proof fn lemma_least(
    gating: Seq<usize>,
    counts: Seq<usize>,
    least: usize,
    waiting: SequenceNumber,
    buffer_size: usize,
    count: spec_fn(int) -> int,
)
    requires
        gating.len() > 0,
        counts.len() == gating.len(),
        forall|i: int| 0 <= i < counts.len() ==> #[trigger] counts[i] == count(gating[i] as int),
        is_minimum(counts, least),
    ensures
        least == least_available(gating, waiting, buffer_size, count),
{
    let numbers = gating.map_values(|number: usize| count(number as int));
    numbers.min_ensures();
    let place = counts.index_of(least);
    assert(numbers[place] == least);
    let other = numbers.index_of(numbers.min());
    assert(counts[other] == numbers[other]);
}

/// Abstraction over availability calculation, allowing the upstream pipeline stage to define the
/// synchronization protocol it'll use.
pub trait PollableDependency: Send {
    /// The published sequences are such that the stage waiting for them may count its slots.
    spec fn countable(
        &self,
        table: Seq<usize>,
        waiting: SequenceNumber,
        buffer_size: usize,
    ) -> bool;

    /// How many slots are available to the waiting stage.
    spec fn available(&self, table: Seq<usize>, waiting: SequenceNumber, buffer_size: usize) -> int;

    /// Retrieves the current value of each sequence that is waited for, and returns the number of
    /// slots available to the stage that waits.
    fn calculate_available(
        &self,
        table: &SequenceTable,
        waiting_sequence: SequenceNumber,
        buffer_size: usize,
    ) -> (available: usize)
        requires
            self.countable(table@, waiting_sequence, buffer_size),
        ensures
            available == self.available(table@, waiting_sequence, buffer_size),
    ;
}

/// A list of consumer sequences, used by the publisher stage to calculate availability.
#[derive(Debug)]
pub struct PublisherDependencies {
    pub sequences: Vec<SequenceReader>,
}

impl Default for PublisherDependencies {
    /// An empty list.
    fn default() -> (dependencies: Self)
        ensures
            dependencies.sequences@ == Seq::<SequenceReader>::empty(),
    {
        PublisherDependencies { sequences: Vec::new() }
    }
}

impl PollableDependency for PublisherDependencies {
    open spec fn countable(
        &self,
        table: Seq<usize>,
        waiting: SequenceNumber,
        buffer_size: usize,
    ) -> bool {
        &&& readable(self.sequences@, table)
        &&& self.sequences@.len() == 0 ==> waiting.0 <= buffer_size
        &&& power::is_power_of_two(buffer_size as int)
        &&& forall|i: int|
            #![trigger self.sequences@[i]]
            0 <= i < self.sequences@.len() ==> waiting.0 <= readings(self.sequences@, table)[i]
                + buffer_size < power::usize_range()
    }

    open spec fn available(
        &self,
        table: Seq<usize>,
        waiting: SequenceNumber,
        buffer_size: usize,
    ) -> int {
        least_available(
            readings(self.sequences@, table),
            waiting,
            buffer_size,
            |gating: int|
                sequence::available_to_publisher(gating, waiting.0 as int, buffer_size as int),
        )
    }

    fn calculate_available(
        &self,
        table: &SequenceTable,
        waiting_sequence: SequenceNumber,
        buffer_size: usize,
    ) -> (available: usize) {
        let ghost gating = readings(self.sequences@, table@);
        assert forall|i: int| 0 <= i < self.sequences@.len() implies call_requires(
            calculate_available_publisher,
            (SequenceNumber(#[trigger] gating[i]), waiting_sequence, buffer_size),
        ) by {
            let reader = self.sequences@[i];
        }
        let available: usize = calculate_available_list(
            waiting_sequence,
            self.sequences.as_slice(),
            table,
            buffer_size,
            &calculate_available_publisher,
        );
        proof {
            if gating.len() > 0 {
                let counts = choose|counts: Seq<usize>|
                    counted(
                        calculate_available_publisher,
                        gating,
                        waiting_sequence,
                        buffer_size,
                        counts,
                    ) && #[trigger] is_minimum(counts, available);
                lemma_least(
                    gating,
                    counts,
                    available,
                    waiting_sequence,
                    buffer_size,
                    |number: int|
                        sequence::available_to_publisher(
                            number,
                            waiting_sequence.0 as int,
                            buffer_size as int,
                        ),
                );
            }
        }
        available
    }
}

/// A list of publisher or consumer sequences, used by consumer stages to calculate availability.
#[derive(Debug)]
pub struct ConsumerDependencies {
    pub sequences: Vec<SequenceReader>,
}

/// A consumer may count the slots up to a sequence: that sequence is not behind its own, as far as
/// wrapping shows.
pub open spec fn is_ahead(gating: int, waiting: int, buffer_size: int) -> bool {
    gating < waiting ==> {
        &&& sequence::is_buffer_size(buffer_size)
        &&& gating + sequence::boundary(buffer_size) < power::usize_range()
        &&& waiting <= gating + sequence::boundary(buffer_size)
    }
}

impl Default for ConsumerDependencies {
    /// An empty list.
    fn default() -> (dependencies: Self)
        ensures
            dependencies.sequences@ == Seq::<SequenceReader>::empty(),
    {
        ConsumerDependencies { sequences: Vec::new() }
    }
}

impl ConsumerDependencies {
    /// Waits for the given sequences.
    pub fn from_vec(sequences: Vec<SequenceReader>) -> (dependencies: Self)
        ensures
            dependencies.sequences == sequences,
    {
        ConsumerDependencies { sequences }
    }
}

impl PollableDependency for ConsumerDependencies {
    open spec fn countable(
        &self,
        table: Seq<usize>,
        waiting: SequenceNumber,
        buffer_size: usize,
    ) -> bool {
        &&& readable(self.sequences@, table)
        &&& self.sequences@.len() == 0 ==> waiting.0 <= buffer_size
        &&& forall|i: int|
            #![trigger self.sequences@[i]]
            0 <= i < self.sequences@.len() ==> is_ahead(
                readings(self.sequences@, table)[i] as int,
                waiting.0 as int,
                buffer_size as int,
            )
    }

    open spec fn available(
        &self,
        table: Seq<usize>,
        waiting: SequenceNumber,
        buffer_size: usize,
    ) -> int {
        least_available(
            readings(self.sequences@, table),
            waiting,
            buffer_size,
            |gating: int|
                sequence::available_to_consumer(gating, waiting.0 as int, buffer_size as int),
        )
    }

    fn calculate_available(
        &self,
        table: &SequenceTable,
        waiting_sequence: SequenceNumber,
        buffer_size: usize,
    ) -> (available: usize) {
        let ghost gating = readings(self.sequences@, table@);
        assert forall|i: int| 0 <= i < self.sequences@.len() implies call_requires(
            calculate_available_consumer,
            (SequenceNumber(#[trigger] gating[i]), waiting_sequence, buffer_size),
        ) by {
            let reader = self.sequences@[i];
        }
        let available: usize = calculate_available_list(
            waiting_sequence,
            self.sequences.as_slice(),
            table,
            buffer_size,
            &calculate_available_consumer,
        );
        proof {
            if gating.len() > 0 {
                let counts = choose|counts: Seq<usize>|
                    counted(
                        calculate_available_consumer,
                        gating,
                        waiting_sequence,
                        buffer_size,
                        counts,
                    ) && #[trigger] is_minimum(counts, available);
                lemma_least(
                    gating,
                    counts,
                    available,
                    waiting_sequence,
                    buffer_size,
                    |number: int|
                        sequence::available_to_consumer(
                            number,
                            waiting_sequence.0 as int,
                            buffer_size as int,
                        ),
                );
            }
        }
        available
    }
}

/// A resizing-flavoured version of [`PublisherDependencies`].
#[derive(Debug)]
pub struct ResizingPublisherDependencies {
    pub sequences: Vec<SequenceReader>,
}

impl Default for ResizingPublisherDependencies {
    /// An empty list.
    fn default() -> (dependencies: Self)
        ensures
            dependencies.sequences@ == Seq::<SequenceReader>::empty(),
    {
        ResizingPublisherDependencies { sequences: Vec::new() }
    }
}

impl PollableDependency for ResizingPublisherDependencies {
    open spec fn countable(
        &self,
        table: Seq<usize>,
        waiting: SequenceNumber,
        buffer_size: usize,
    ) -> bool {
        &&& readable(self.sequences@, table)
        &&& self.sequences@.len() == 0 ==> waiting.0 <= buffer_size
        &&& forall|i: int|
            #![trigger self.sequences@[i]]
            0 <= i < self.sequences@.len() ==> {
                &&& readings(self.sequences@, table)[i] + buffer_size < power::usize_range()
                &&& waiting.0 < readings(self.sequences@, table)[i] ==> {
                    &&& sequence::is_buffer_size(buffer_size as int)
                    &&& waiting.0 + sequence::boundary(buffer_size as int) < power::usize_range()
                }
            }
    }

    open spec fn available(
        &self,
        table: Seq<usize>,
        waiting: SequenceNumber,
        buffer_size: usize,
    ) -> int {
        least_available(
            readings(self.sequences@, table),
            waiting,
            buffer_size,
            |gating: int|
                sequence::available_to_resizing_publisher(
                    gating,
                    waiting.0 as int,
                    buffer_size as int,
                ),
        )
    }

    fn calculate_available(
        &self,
        table: &SequenceTable,
        waiting_sequence: SequenceNumber,
        buffer_size: usize,
    ) -> (available: usize) {
        let ghost gating = readings(self.sequences@, table@);
        assert forall|i: int| 0 <= i < self.sequences@.len() implies call_requires(
            calculate_available_publisher_resizing,
            (SequenceNumber(#[trigger] gating[i]), waiting_sequence, buffer_size),
        ) by {
            let reader = self.sequences@[i];
        }
        let available: usize = calculate_available_list(
            waiting_sequence,
            self.sequences.as_slice(),
            table,
            buffer_size,
            &calculate_available_publisher_resizing,
        );
        proof {
            if gating.len() > 0 {
                let counts = choose|counts: Seq<usize>|
                    counted(
                        calculate_available_publisher_resizing,
                        gating,
                        waiting_sequence,
                        buffer_size,
                        counts,
                    ) && #[trigger] is_minimum(counts, available);
                lemma_least(
                    gating,
                    counts,
                    available,
                    waiting_sequence,
                    buffer_size,
                    |number: int|
                        sequence::available_to_resizing_publisher(
                            number,
                            waiting_sequence.0 as int,
                            buffer_size as int,
                        ),
                );
            }
        }
        available
    }
}

/// Separate struct definition for the reference to the publisher, which can only refer to a single
/// [`SequenceReader`].
#[derive(Debug)]
pub struct PublisherAvailability {
    pub sequence: SequenceReader,
}

impl PollableDependency for PublisherAvailability {
    open spec fn countable(
        &self,
        table: Seq<usize>,
        waiting: SequenceNumber,
        buffer_size: usize,
    ) -> bool {
        &&& 0 <= self.sequence.id() < table.len()
        &&& is_ahead(table[self.sequence.id()] as int, waiting.0 as int, buffer_size as int)
    }

    open spec fn available(
        &self,
        table: Seq<usize>,
        waiting: SequenceNumber,
        buffer_size: usize,
    ) -> int {
        sequence::available_to_consumer(
            table[self.sequence.id()] as int,
            waiting.0 as int,
            buffer_size as int,
        )
    }

    fn calculate_available(
        &self,
        table: &SequenceTable,
        waiting_sequence: SequenceNumber,
        buffer_size: usize,
    ) -> (available: usize) {
        calculate_available_consumer(self.sequence.get(table), waiting_sequence, buffer_size)
    }
}

/// A helper trait for expressing availability.
///
/// This is defined separately because all of the other pipeline related functionality depends on
/// it.
pub trait LenAvailable {
    /// What [`len_available`](LenAvailable::len_available) returns.
    spec fn known_available(&self) -> int;

    /// Returns the number of slots in the buffer known to be available for handling by the
    /// corresponding stage of the pipeline, as of the last call to [`Pollable::poll`].
    fn len_available(&self) -> (available: usize)
        ensures
            available == self.known_available(),
    ;
}

/// The minimal functionality needed to implement polling wait strategies. `M` is where the
/// dependencies publish their state.
pub trait Pollable<M>: LenAvailable {
    /// The stage may look at the state that its dependencies have published.
    spec fn can_poll(&self, memory: &M) -> bool;

    /// The number of available slots that a look at the dependencies shows.
    spec fn polled(&self, memory: &M) -> int;

    /// Synchronize with dependencies to gain an updated view of how many slots in the buffer are
    /// available for the owner to reference. A call to this method may increase the number of
    /// elements returned by the [`len_available`](LenAvailable::len_available) method, and can be
    /// retried indefinitely until that happens.
    fn poll(&mut self, memory: &M)
        requires
            old(self).can_poll(memory),
        ensures
            final(self).known_available() == old(self).polled(memory),
    ;
}

/// Implements currying and result caching for a reference to a type that implements
/// [`PollableDependency`], adapting it into an implementation of [`Pollable`].
pub struct PollableDependencyAsPollable<'a, P> {
    pub dependency: &'a P,
    pub waiting_sequence: SequenceNumber,
    pub buffer_size: usize,
    pub cached_available: usize,
}

impl<'a, P> PollableDependencyAsPollable<'a, P> {
    /// Return a value that implements [`Pollable`], using a shared reference to a dependency.
    pub fn as_pollable(dependency: &'a P, waiting_sequence: SequenceNumber, buffer_size: usize) -> (
    pollable: Self)
        ensures
            pollable == (PollableDependencyAsPollable {
                dependency,
                waiting_sequence,
                buffer_size,
                cached_available: 0,
            }),
    {
        PollableDependencyAsPollable {
            dependency,
            waiting_sequence,
            buffer_size,
            cached_available: 0,
        }
    }
}

impl<'a, P> LenAvailable for PollableDependencyAsPollable<'a, P> {
    open spec fn known_available(&self) -> int {
        self.cached_available as int
    }

    fn len_available(&self) -> (available: usize) {
        self.cached_available
    }
}

impl<'a, P: PollableDependency> Pollable<SequenceTable> for PollableDependencyAsPollable<'a, P> {
    open spec fn can_poll(&self, table: &SequenceTable) -> bool {
        self.dependency.countable(table@, self.waiting_sequence, self.buffer_size)
    }

    open spec fn polled(&self, table: &SequenceTable) -> int {
        self.dependency.available(table@, self.waiting_sequence, self.buffer_size)
    }

    fn poll(&mut self, table: &SequenceTable)
        ensures
            *final(self) == (PollableDependencyAsPollable {
                cached_available: final(self).cached_available,
                ..*old(self)
            }),
    {
        self.cached_available =
        self.dependency.calculate_available(table, self.waiting_sequence, self.buffer_size);
    }
}

/// The slowest of several sequences decides: no more slots are available than it leaves, and exactly as
/// many.
pub proof fn law_slowest_decides(
    gating: Seq<usize>,
    waiting: SequenceNumber,
    buffer_size: usize,
    count: spec_fn(int) -> int,
    place: int,
)
    requires
        0 <= place < gating.len(),
    ensures
        least_available(gating, waiting, buffer_size, count) <= count(gating[place] as int),
        (forall|i: int|
            0 <= i < gating.len() ==> count(gating[place] as int) <= count(
                #[trigger] gating[i] as int,
            )) ==> least_available(gating, waiting, buffer_size, count) == count(
            gating[place] as int,
        ),
{
    let numbers = gating.map_values(|number: usize| count(number as int));
    numbers.min_ensures();
    assert(numbers[place] == count(gating[place] as int));
    let other = numbers.index_of(numbers.min());
    assert(numbers[other] == count(gating[other] as int));
}

} // verus!
