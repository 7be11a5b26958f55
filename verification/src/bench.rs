//! What the throughput benchmarks compute: the numbers that are sent, what the receiving side makes
//! of them, and how the time taken is turned into a rate.
use vstd::prelude::*;

verus! {

/// Default number of iterations to use on all benchmarks
pub const NUM_ITERATIONS: u64 = 99_999_999;

/// The in-band value that tells the receiving side to finish.
pub const END_OF_NUMBERS: u64 = 0xffff_ffff_ffff_ffff;

/// The sum of the numbers from 1 to n.
pub open spec fn triangle(n: int) -> int {
    n * (n + 1) / 2
}

/// The next triangle number is larger by its index.
proof fn lemma_triangle_grows(n: int)
    requires
        n >= 0,
    ensures
        triangle(n + 1) == triangle(n) + n + 1,
        0 <= triangle(n),
{
    assert((n + 1) * (n + 2) == n * (n + 1) + 2 * (n + 1)) by (nonlinear_arith);
    assert(0 <= n * (n + 1)) by (nonlinear_arith)
        requires
            n >= 0,
    ;
}

/// A later triangle number is larger.
proof fn lemma_triangle_monotone(m: int, n: int)
    requires
        0 <= m <= n,
    ensures
        triangle(m) <= triangle(n),
{
    assert(m * (m + 1) <= n * (n + 1)) by (nonlinear_arith)
        requires
            0 <= m <= n,
    ;
}

/// Returns whether the nth triangle number fits.
pub fn triangle_fits(n: u64) -> (result: bool)
    ensures
        result == (triangle(n as int) <= u64::MAX),
{
    assert(n as int * (n as int + 1) <= u64::MAX as int * (u64::MAX as int + 1)) by (nonlinear_arith)
        requires
            0 <= n as int <= u64::MAX as int,
    ;
    let twice: u128 = n as u128 * (n as u128 + 1);
    twice / 2 <= u64::MAX as u128
}

/// Calculates the nth triangle number by summing the numbers from 1 to n in a loop.
pub fn triangle_number(n: u64) -> (sum: u64)
    requires
        triangle(n as int) <= u64::MAX,
    ensures
        sum == triangle(n as int),
{
    let mut sum: u64 = 0;
    let mut num: u64 = 0;
    while num < n
        invariant
            num <= n,
            sum == triangle(num as int),
            triangle(n as int) <= u64::MAX,
        decreases n - num,
    {
        proof {
            lemma_triangle_grows(num as int);
            lemma_triangle_monotone(num + 1, n as int);
        }
        num += 1;
        sum += num;
    }
    sum
}

/// Given a start time, finish time (both in nanoseconds), and number of iterations, calculates and
/// returns the number of operations per second.
pub fn calculate_ops_per_second(before: u64, after: u64, iterations: u64) -> (ops: u64)
    requires
        before < after,
        1_000_000_000 * iterations <= u64::MAX,
    ensures
        ops == 1_000_000_000 * iterations / (after - before),
{
    1000 * 1000 * 1000 * iterations / (after - before)
}

/// The numbers that a benchmark sends: from 1 to the number of iterations, and then the value that
/// tells the receiving side to finish.
pub open spec fn numbers(iterations: u64) -> Seq<u64> {
    Seq::new(
        (iterations + 1) as nat,
        |i: int|
            if i < iterations {
                (i + 1) as u64
            } else {
                END_OF_NUMBERS
            },
    )
}

/// Returns what to send after a number of values have been sent, if anything.
pub fn next_number(sent: u64, iterations: u64) -> (number: Option<u64>)
    ensures
        number is Some <==> sent < numbers(iterations).len(),
        number is Some ==> number->Some_0 == numbers(iterations)[sent as int],
{
    if sent < iterations {
        Some(sent + 1)
    } else if sent == iterations {
        Some(END_OF_NUMBERS)
    } else {
        None
    }
}

/// What the receiving side makes of a value.
#[derive(Debug, Clone, Copy, PartialEq, Eq, Structural)]
pub enum Received {
    /// The value was the next number, and has been added.
    Counted,
    /// The value was not the next number.
    Unexpected,
    /// No more numbers follow; this is their sum.
    Finished(u64),
}

/// The receiving side of a benchmark, which sums up the numbers and checks that they come in order.
#[derive(Debug, Clone, Copy, PartialEq, Eq, Structural)]
pub struct Tally {
    pub sum: u64,
    pub expected_value: u64,
}

impl Tally {
    /// The numbers below the expected one have been added.
    pub open spec fn wf(self) -> bool {
        &&& self.expected_value >= 1
        &&& self.sum == triangle(self.expected_value - 1)
    }

    /// Nothing has been received yet.
    pub fn new() -> (tally: Tally)
        ensures
            tally.wf(),
            tally.sum == 0,
            tally.expected_value == 1,
    {
        assert(triangle(0) == 0);
        Tally { sum: 0, expected_value: 1 }
    }

    /// Takes in the next value.
    pub fn receive(&mut self, value: u64) -> (received: Received)
        requires
            old(self).wf(),
            value == old(self).expected_value && value != END_OF_NUMBERS ==> triangle(value as int)
                <= u64::MAX,
        ensures
            final(self).wf(),
            received == (if value == END_OF_NUMBERS {
                Received::Finished(old(self).sum)
            } else if value != old(self).expected_value {
                Received::Unexpected
            } else {
                Received::Counted
            }),
            received is Counted ==> {
                &&& final(self).sum == old(self).sum + value
                &&& final(self).expected_value == value + 1
            },
            !(received is Counted) ==> *final(self) == *old(self),
    {
        // In-band magic number value tells us when to finish
        if value == END_OF_NUMBERS {
            return Received::Finished(self.sum);
        }
        if value != self.expected_value {
            return Received::Unexpected;
        }
        proof {
            lemma_triangle_grows(self.expected_value - 1);
        }
        self.expected_value += 1;
        self.sum += value;
        Received::Counted
    }
}

/// Adds a value to a sum, without checking the order, unless the value says that no more follow.
pub fn add_received(sum: u64, value: u64) -> (result: Option<u64>)
    requires
        value != END_OF_NUMBERS ==> sum + value <= u64::MAX,
    ensures
        result is Some <==> value != END_OF_NUMBERS,
        result is Some ==> result->Some_0 == sum + value,
{
    if value == END_OF_NUMBERS {
        None
    } else {
        Some(sum + value)
    }
}

/// What a receiving side that adds up values has at the end of them.
pub open spec fn total(values: Seq<u64>) -> int
    decreases values.len(),
{
    if values.len() == 0 {
        0
    } else {
        total(values.drop_last()) + values.last()
    }
}

/// The numbers that a benchmark sends come in the order in which they are expected, and add up to the
/// triangle number of the iterations before the end is announced.
pub proof fn law_numbers_add_up(iterations: u64, received: int)
    requires
        0 <= received <= iterations,
    ensures
        numbers(iterations).len() == iterations + 1,
        total(numbers(iterations).take(received)) == triangle(received),
        2 * triangle(received) == received * (received + 1),
        numbers(iterations)[received] == (if received < iterations {
            (received + 1) as u64
        } else {
            END_OF_NUMBERS
        }),
    decreases received,
{
    let values = numbers(iterations).take(received);
    if received > 0 {
        law_numbers_add_up(iterations, received - 1);
        lemma_triangle_grows(received - 1);
        assert(values.drop_last() =~= numbers(iterations).take(received - 1));
        assert(received * (received + 1) == (received - 1) * received + 2 * received)
            by (nonlinear_arith);
    } else {
        assert(triangle(0) == 0);
    }
}

} // verus!
