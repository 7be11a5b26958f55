//! Sequence numbers, and how many slots lie between two of them.
use crate::power;
use vstd::arithmetic::div_mod::*;
use vstd::arithmetic::power2::*;
use vstd::prelude::*;

verus! {

/// Represents an initial state where no slots have been published or consumed.
pub const SEQUENCE_INITIAL: usize = 0;

/// Values of this object are used as indices into the ring buffer (modulo the buffer size). The
/// current value represents the latest slot that a publisher or consumer is still processing. In
/// other words, a value of 0 means that no slots have been published or consumed, and that 0 is the
/// current slot being processed. A value of 1 means that slot 0 has been released for processing by
/// downstream consumers, while a value of 18 would mean that slots 0-17 are available for
/// processing.
#[derive(Debug, Clone, Copy, PartialEq, Eq, Structural)]
pub struct SequenceNumber(pub usize);

/// The number at which sequence values are wrapped back to 0.
pub open spec fn boundary(buffer_size: int) -> int {
    4 * buffer_size
}

/// The sizes a ring buffer may have: a power of two whose wrap boundary is at most one above the
/// largest `usize`.
pub open spec fn is_buffer_size(buffer_size: int) -> bool {
    power::is_power_of_two(buffer_size) && boundary(buffer_size) <= power::usize_range()
}

/// Returns the number at which sequence values will be wrapped back to 0 using a mod operation.
/// The boundary is a power of two, and a multiple of `buffer_size`; that of the largest buffer size
/// is one above `usize::MAX`, and comes out as 0.
pub fn wrap_boundary(buffer_size: usize) -> (result: usize)
    requires
        is_buffer_size(buffer_size as int),
    ensures
        result as int == boundary(buffer_size as int) % power::usize_range(),
        boundary(buffer_size as int) < power::usize_range() ==> result == boundary(
            buffer_size as int,
        ),
{
    let result: usize = buffer_size.wrapping_mul(4);
    proof {
        assert(buffer_size * 4 == boundary(buffer_size as int));
        if boundary(buffer_size as int) < power::usize_range() {
            lemma_small_mod(boundary(buffer_size as int) as nat, power::usize_range() as nat);
        }
    }
    result
}

/// Returns the exponent of a power of two.
pub fn log2(power_of_2: usize) -> (exponent: usize)
    requires
        power::is_power_of_two(power_of_2 as int),
    ensures
        pow2(exponent as nat) == power_of_2,
{
    let ghost target = choose|e: nat| power_of_2 as int == #[trigger] pow2(e);
    let mut rest: usize = power_of_2;
    let mut exponent: usize = 0;
    proof {
        power::lemma_power_of_two_positive(power_of_2 as int);
        power::lemma_exponent_below_bits(power_of_2, target);
    }
    while rest > 1
        invariant
            rest >= 1,
            exponent <= target,
            target < usize::BITS,
            rest as int == pow2((target - exponent) as nat),
        decreases rest,
    {
        proof {
            if target == exponent {
                lemma2_to64();
            }
            lemma_pow2_unfold((target - exponent) as nat);
            assert(rest >> 1 == rest / 2) by (bit_vector);
        }
        exponent += 1;
        rest >>= 1;
    }
    proof {
        if target > exponent {
            lemma_pow2_unfold((target - exponent) as nat);
            lemma_pow2_pos((target - exponent - 1) as nat);
        }
    }
    exponent
}

impl SequenceNumber {
    /// The sequence number before any slot has been published or consumed.
    pub fn initial() -> (result: SequenceNumber)
        ensures
            result.0 == 0,
    {
        SequenceNumber(SEQUENCE_INITIAL)
    }

    /// Returns self modulo `buffer_size`, exploiting the assumption that the size will always be a
    /// power of two by using a masking operation instead of the modulo operator.
    pub fn as_index(self, buffer_size: usize) -> (index: usize)
        requires
            power::is_power_of_two(buffer_size as int),
        ensures
            index == self.0 % buffer_size,
            index < buffer_size,
    {
        proof {
            power::lemma_mask_is_remainder(self.0, buffer_size);
            power::lemma_power_of_two_positive(buffer_size as int);
        }
        let index_mask: usize = buffer_size - 1;
        self.0 & index_mask
    }

    /// Return the `SequenceNumber`'s `usize` value.
    pub fn value(self) -> (value: usize)
        ensures
            value == self.0,
    {
        self.0
    }

    /// Performs a subtraction, unwrapping with respect to the given `wrap_boundary` when `rhs` is
    /// the larger number. If `wrap_boundary` is 0, the subtraction will wrap across `usize::MAX`.
    pub fn wrapping_sub(self, rhs: usize, wrap_boundary: usize) -> (result: SequenceNumber)
        ensures
            rhs <= self.0 ==> result.0 == self.0 - rhs,
            rhs > self.0 ==> result.0 as int == (self.0 + wrap_boundary - rhs)
                % power::usize_range(),
            rhs > self.0 && rhs - self.0 <= wrap_boundary ==> result.0 == self.0 + wrap_boundary
                - rhs,
    {
        let mut value: usize = self.0;
        if rhs > self.0 {
            value = value.wrapping_add(wrap_boundary);
        }
        proof {
            if rhs > self.0 {
                power::lemma_reduced_difference(self.0 + wrap_boundary - rhs);
            }
        }
        value = value.wrapping_sub(rhs);
        SequenceNumber(value)
    }
}

/// How many slots a consumer may process: those between its own sequence and the one it waits for,
/// which has wrapped around if it is the smaller number.
pub open spec fn available_to_consumer(gating: int, waiting: int, buffer_size: int) -> int {
    if gating < waiting {
        gating + boundary(buffer_size) - waiting
    } else {
        gating - waiting
    }
}

/// How many slots the publisher may fill before it catches up with the sequence it waits for.
pub open spec fn available_to_publisher(gating: int, waiting: int, buffer_size: int) -> int {
    let slots = gating + buffer_size - waiting;
    if slots > buffer_size {
        slots % buffer_size
    } else {
        slots
    }
}

/// How many slots the publisher may fill where the sequence it waits for may belong to a smaller,
/// earlier buffer; none if that sequence is more than a buffer behind.
pub open spec fn available_to_resizing_publisher(
    gating: int,
    waiting: int,
    buffer_size: int,
) -> int {
    let unwrapped = if waiting < gating {
        waiting + boundary(buffer_size)
    } else {
        waiting
    };
    if gating + buffer_size < unwrapped {
        0
    } else {
        gating + buffer_size - unwrapped
    }
}

/// Returns how many slots are open between the publisher's sequence and the consumer's sequence,
/// taking into account the effects of wrapping. In this case, the waiting task is a consumer, and
/// the gating task is either a consumer or a publisher. If the gating sequence (in other words, the
/// publisher or upstream consumer) has the same value as the waiting sequence (the consumer), then
/// no slots are available for consumption.
pub fn calculate_available_consumer(
    gating_sequence: SequenceNumber,
    waiting_sequence: SequenceNumber,
    buffer_size: usize,
) -> (available: usize)
    requires
        gating_sequence.0 < waiting_sequence.0 ==> {
            &&& is_buffer_size(buffer_size as int)
            &&& gating_sequence.0 + boundary(buffer_size as int) < power::usize_range()
            &&& waiting_sequence.0 <= gating_sequence.0 + boundary(buffer_size as int)
        },
    ensures
        available == available_to_consumer(
            gating_sequence.0 as int,
            waiting_sequence.0 as int,
            buffer_size as int,
        ),
{
    let mut gating: usize = gating_sequence.value();
    let waiting: usize = waiting_sequence.value();
    // Handle wrapping. Also, if the publisher has reallocated a larger buffer, it won't wrap until
    // all consumers have reached the largest buffer, so this is not reached while the consumer is
    // working with the old buffer size.
    if gating < waiting {
        gating += wrap_boundary(buffer_size);
    }
    gating - waiting
}

/// Returns how many slots are open between the publisher's sequence and the consumer's sequence,
/// taking into account the effects of wrapping.
pub fn calculate_available_publisher(
    gating_sequence: SequenceNumber,
    waiting_sequence: SequenceNumber,
    buffer_size: usize,
) -> (available: usize)
    requires
        gating_sequence.0 + buffer_size < power::usize_range(),
        waiting_sequence.0 <= gating_sequence.0 + buffer_size,
        waiting_sequence.0 < gating_sequence.0 ==> power::is_power_of_two(buffer_size as int),
    ensures
        available == available_to_publisher(
            gating_sequence.0 as int,
            waiting_sequence.0 as int,
            buffer_size as int,
        ),
{
    let mut available: usize = gating_sequence.value() + buffer_size - waiting_sequence.value();
    // Handle wrapping
    if available > buffer_size {
        proof {
            power::lemma_mask_is_remainder(available, buffer_size);
            power::lemma_power_of_two_positive(buffer_size as int);
        }
        // The number is exactly one wrap boundary more than it should be. Mask out the extra slots.
        let index_mask: usize = buffer_size - 1;
        available &= index_mask;
    }
    available
}

/// Returns how many slots are open between the publisher's sequence and the consumer's sequence,
/// taking into account the effects of wrapping, and also resizing.
pub fn calculate_available_publisher_resizing(
    gating_sequence: SequenceNumber,
    waiting_sequence: SequenceNumber,
    buffer_size: usize,
) -> (available: usize)
    requires
        gating_sequence.0 + buffer_size < power::usize_range(),
        waiting_sequence.0 < gating_sequence.0 ==> {
            &&& is_buffer_size(buffer_size as int)
            &&& waiting_sequence.0 + boundary(buffer_size as int) < power::usize_range()
        },
    ensures
        available == available_to_resizing_publisher(
            gating_sequence.0 as int,
            waiting_sequence.0 as int,
            buffer_size as int,
        ),
{
    let gating: usize = gating_sequence.value();
    let mut waiting: usize = waiting_sequence.value();
    // Handle wrapping
    if waiting < gating {
        waiting += wrap_boundary(buffer_size);
    }
    let first_unavailable_slot: usize = gating + buffer_size;
    // Handle resizing
    if first_unavailable_slot < waiting {
        return 0;
    }
    first_unavailable_slot - waiting
}

/// However often both sequences have wrapped, a consumer sees exactly the slots between its own
/// position and that of the stage ahead of it.
pub proof fn law_consumer_sees_distance(gating: int, waiting: int, buffer_size: int)
    requires
        buffer_size > 0,
        0 <= gating - waiting < boundary(buffer_size),
    ensures
        available_to_consumer(
            gating % boundary(buffer_size),
            waiting % boundary(buffer_size),
            buffer_size,
        ) == gating - waiting,
{
    power::lemma_remainder_distance(waiting, gating, boundary(buffer_size));
}

/// However often both sequences have wrapped, the publisher sees exactly the slots that the stage it
/// waits for has released and it has not filled again.
pub proof fn law_publisher_sees_free_slots(gating: int, waiting: int, buffer_size: int)
    requires
        buffer_size > 0,
        0 <= waiting - gating <= buffer_size,
    ensures
        available_to_publisher(
            gating % boundary(buffer_size),
            waiting % boundary(buffer_size),
            buffer_size,
        ) == buffer_size - (waiting - gating),
        available_to_resizing_publisher(
            gating % boundary(buffer_size),
            waiting % boundary(buffer_size),
            buffer_size,
        ) == buffer_size - (waiting - gating),
{
    power::lemma_remainder_distance(gating, waiting, boundary(buffer_size));
    let distance = waiting - gating;
    if waiting % boundary(buffer_size) < gating % boundary(buffer_size) {
        lemma_mod_multiples_vanish(4, buffer_size - distance, buffer_size);
        lemma_small_mod((buffer_size - distance) as nat, buffer_size as nat);
        assert(buffer_size * 4 + (buffer_size - distance) == 5 * buffer_size - distance);
    }
}

/// Where the sequence that a publisher waits for may belong to an earlier buffer, the slots it may fill
/// and the distance between the sequences make up the buffer; none are left at a larger distance.
pub proof fn law_resizing_publisher_counts_by_distance(gating: int, waiting: int, buffer_size: int)
    requires
        buffer_size > 0,
        0 <= gating <= waiting,
    ensures
        waiting - gating <= buffer_size ==> available_to_resizing_publisher(
            gating,
            waiting,
            buffer_size,
        ) + (waiting - gating) == buffer_size,
        waiting - gating > buffer_size ==> available_to_resizing_publisher(
            gating,
            waiting,
            buffer_size,
        ) == 0,
{
}

} // verus!
