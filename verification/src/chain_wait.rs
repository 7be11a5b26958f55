//! How the stages of a chain wait. These waits look at the stages ahead, whatever was known before; a
//! publisher without consumers has nothing to wait for.
use crate::dependency;
use crate::dependency::AvailabilityFn;
use crate::owner::{SequenceReader, SequenceTable};
use crate::sequence::SequenceNumber;
use crate::wait;
use crate::wait::{
    BlockingWaitStrategy, Notification, NotificationPhase, SpinWaitStrategy,
    TimeoutResizeWaitStrategy, WaitAction, YieldWaitStrategy,
};
use vstd::prelude::*;

verus! {

/// When a wait looks at the stages ahead.
#[derive(Debug, Clone, Copy, PartialEq, Eq, Structural)]
pub enum Looks {
    /// There are no stages ahead, so that there is no limit to the slots.
    Never,
    /// Once in any case, and then as long as fewer slots are known than are wanted.
    AtLeastOnce,
}

impl Looks {
    /// How a publisher looks at the consumers it depends on.
    pub open spec fn over(dependencies: Seq<SequenceReader>) -> Looks {
        if dependencies.len() == 0 {
            Looks::Never
        } else {
            Looks::AtLeastOnce
        }
    }

    /// Returns how a publisher looks at the consumers it depends on.
    fn at(dependencies: &[SequenceReader]) -> (looks: Looks)
        ensures
            looks == Looks::over(dependencies@),
    {
        if dependencies.len() == 0 {
            Looks::Never
        } else {
            Looks::AtLeastOnce
        }
    }

    /// How many slots a wait has found, given how many the last look has shown.
    pub open spec fn found(self, available: int) -> int {
        match self {
            Looks::Never => usize::MAX as int,
            Looks::AtLeastOnce => available,
        }
    }

    /// Returns how many slots a wait has found, given how many the last look has shown.
    fn count(&self, available: usize) -> (found: usize)
        ensures
            found == self.found(available as int),
    {
        match self {
            Looks::Never => usize::MAX,
            Looks::AtLeastOnce => available,
        }
    }
}

/// Given a list of dependencies, retrieves the current value of each and returns the minimum number
/// of available items out of all the dependencies: `usize::MAX` if there are none.
pub fn look<F>(
    waiting_sequence: SequenceNumber,
    dependencies: &[SequenceReader],
    table: &SequenceTable,
    buffer_size: usize,
    calculate_available: &F,
) -> (available: usize) where F: AvailabilityFn
    requires
        dependency::readable(dependencies@, table@),
        forall|i: int|
            0 <= i < dependencies@.len() ==> call_requires(
                *calculate_available,
                (
                    SequenceNumber(#[trigger] dependency::readings(dependencies@, table@)[i]),
                    waiting_sequence,
                    buffer_size,
                ),
            ),
    ensures
        dependencies@.len() == 0 ==> available == usize::MAX,
        dependencies@.len() > 0 ==> exists|counts: Seq<usize>|
            dependency::counted(
                *calculate_available,
                dependency::readings(dependencies@, table@),
                waiting_sequence,
                buffer_size,
                counts,
            ) && #[trigger] dependency::is_minimum(counts, available),
{
    if dependencies.len() == 0 {
        usize::MAX
    } else {
        dependency::calculate_available_list(
            waiting_sequence,
            dependencies,
            table,
            buffer_size,
            calculate_available,
        )
    }
}

/// How far a wait that polls has got.
#[derive(Debug, Clone, Copy, PartialEq, Eq, Structural)]
pub enum LookPhase {
    /// Nothing has been done yet.
    Start,
    /// Looking for slots, without any pause.
    Spinning,
    /// Looking for slots, before other tasks get a chance to run.
    Looking,
    /// Other tasks get a chance to run.
    Yielding,
    /// At the end.
    Done,
}

/// A wait that looks for slots a number of times without any pause, and then lets other tasks run
/// after each look. Without a limit on the number of times it never lets other tasks run.
#[derive(Debug, Clone, Copy, PartialEq, Eq, Structural)]
pub struct LookWait {
    pub n: usize,
    pub max_spin_tries: Option<usize>,
    pub looks: Looks,
    /// How many looks without any pause there have been, up to the limit.
    pub tries: usize,
    pub phase: LookPhase,
}

impl LookWait {
    /// Another look without a pause is allowed. One that is only for the number of slots needs no
    /// pause.
    pub open spec fn may_spin(self) -> bool {
        self.max_spin_tries is None || self.tries < self.max_spin_tries->Some_0 || self.n == 0
    }

    /// The wait with another look.
    pub open spec fn looking(self) -> LookWait {
        LookWait {
            tries: if self.max_spin_tries is Some && self.tries < self.max_spin_tries->Some_0 {
                (self.tries + 1) as usize
            } else {
                self.tries
            },
            phase: if self.may_spin() {
                LookPhase::Spinning
            } else {
                LookPhase::Looking
            },
            ..self
        }
    }

    /// The wait after the next step, given how many slots the last look has shown.
    pub open spec fn after(self, available: int) -> LookWait {
        match self.phase {
            LookPhase::Start => if self.looks is AtLeastOnce {
                self.looking()
            } else {
                LookWait { phase: LookPhase::Done, ..self }
            },
            LookPhase::Spinning => if available >= self.n {
                LookWait { phase: LookPhase::Done, ..self }
            } else {
                self.looking()
            },
            LookPhase::Looking => LookWait { phase: LookPhase::Yielding, ..self },
            LookPhase::Yielding => if available >= self.n {
                LookWait { phase: LookPhase::Done, ..self }
            } else {
                LookWait { phase: LookPhase::Looking, ..self }
            },
            LookPhase::Done => self,
        }
    }

    /// What to do next.
    pub open spec fn action(self, available: int) -> WaitAction {
        match self.after(available).phase {
            LookPhase::Start => WaitAction::Done,
            LookPhase::Spinning => WaitAction::Poll,
            LookPhase::Looking => WaitAction::Poll,
            LookPhase::Yielding => WaitAction::YieldNow,
            LookPhase::Done => WaitAction::Done,
        }
    }

    /// The state of a wait that has not begun yet.
    pub open spec fn fresh(n: usize, max_spin_tries: Option<usize>, looks: Looks) -> LookWait {
        LookWait { n, max_spin_tries, looks, tries: 0, phase: LookPhase::Start }
    }

    /// A wait that has not begun yet.
    pub fn new(n: usize, max_spin_tries: Option<usize>, looks: Looks) -> (wait: LookWait)
        ensures
            wait == LookWait::fresh(n, max_spin_tries, looks),
    {
        LookWait { n, max_spin_tries, looks, tries: 0, phase: LookPhase::Start }
    }

    /// Returns the number of slots that a wait which is done has found, given how many the last look
    /// has shown: `usize::MAX` if there is nothing to look at.
    pub fn found(&self, available: usize) -> (found: usize)
        ensures
            found == self.looks.found(available as int),
    {
        self.looks.count(available)
    }

    /// Decides on another look.
    fn look(&mut self) -> (action: WaitAction)
        ensures
            action is Poll,
            *final(self) == old(self).looking(),
    {
        match self.max_spin_tries {
            None => {
                self.phase = LookPhase::Spinning;
            },
            Some(max_spin_tries) => {
                if self.tries < max_spin_tries {
                    self.tries = self.tries + 1;
                    self.phase = LookPhase::Spinning;
                } else if self.n == 0 {
                    self.phase = LookPhase::Spinning;
                } else {
                    self.phase = LookPhase::Looking;
                }
            },
        }
        WaitAction::Poll
    }

    /// Decides what to do next, given how many slots the last look has shown.
    pub fn step(&mut self, available: usize) -> (action: WaitAction)
        ensures
            action == old(self).action(available as int),
            *final(self) == old(self).after(available as int),
    {
        match self.phase {
            LookPhase::Start => if matches!(self.looks, Looks::AtLeastOnce) {
                self.look()
            } else {
                self.phase = LookPhase::Done;
                WaitAction::Done
            },
            LookPhase::Spinning => if available >= self.n {
                self.phase = LookPhase::Done;
                WaitAction::Done
            } else {
                self.look()
            },
            LookPhase::Looking => {
                self.phase = LookPhase::Yielding;
                WaitAction::YieldNow
            },
            LookPhase::Yielding => if available >= self.n {
                self.phase = LookPhase::Done;
                WaitAction::Done
            } else {
                self.phase = LookPhase::Looking;
                WaitAction::Poll
            },
            LookPhase::Done => WaitAction::Done,
        }
    }
}

/// Helps the publisher wait to avoid overwriting values that are still being consumed.
pub trait PublishingWaitStrategy: Clone + Send {
    /// How many looks at the consumers there are without any pause.
    spec fn consumer_tries(&self) -> Option<usize>;

    /// Consumers may sleep until the publisher signals.
    spec fn blocks(&self) -> bool;

    /// Wait for upstream consumers to finish processing items that have already been published, until
    /// at least `n` items are available. The wait finds `usize::MAX` of them, without any look, if
    /// there are no dependencies.
    fn wait_for_consumers(&self, n: usize, dependencies: &[SequenceReader]) -> (wait: LookWait)
        ensures
            wait == LookWait::fresh(n, self.consumer_tries(), Looks::over(dependencies@)),
    ;

    /// Wakes up any consumers that have blocked waiting for new items to be published.
    ///
    /// This must be called only after signalling that the slot is published, or it will not always
    /// work, and consumers waiting using a blocking wait strategy may sleep indefinitely (until a
    /// second item is published).
    fn notify_all_waiters(&self) -> (notification: Notification)
        ensures
            wait::owes(notification, self.blocks()),
    ;
}

/// Helps consumers wait on upstream dependencies.
pub trait ProcessingWaitStrategy: PublishingWaitStrategy {
    /// How the strategy waits for the publisher.
    spec fn processing_wait(&self, n: usize) -> ProcessingWait;

    /// Wait for the publisher to release the next `n` slots.
    ///
    /// For strategies that block, only the publisher will attempt to wake the task. Once the publisher
    /// has advanced sufficiently, the task will stop blocking and busy-wait on its immediate
    /// dependencies for the event to become available for processing. Once the publisher has released
    /// the necessary slots, the rest of the pipeline should release them in a relatively bounded
    /// amount of time, so it's probably worth wasting some CPU time to achieve lower latency.
    fn wait_for_publisher(&self, n: usize) -> (wait: ProcessingWait)
        ensures
            wait == self.processing_wait(n),
    ;
}

/// How far a consumer's wait for the publisher has got.
#[derive(Debug, Clone, Copy, PartialEq, Eq, Structural)]
pub enum ProcessingPhase {
    /// Only looking.
    Looking(LookWait),
    /// Looking for some time before blocking.
    Spinning,
    /// The lock is being acquired.
    Locking,
    /// The signal is being requested.
    Requesting,
    /// Looking for slots that were released before the publisher could see the request.
    Verifying,
    /// Asleep, or about to be.
    Sleeping,
    /// Looking for the slots that the publisher has signalled.
    Waking,
    /// The lock is being released.
    Unlocking,
    /// At the end.
    Done,
}

/// A consumer's wait for the publisher. One that blocks looks a number of times at first, and then
/// keeps the lock, but for the time that it sleeps, until it is done.
#[derive(Debug, Clone, Copy, PartialEq, Eq, Structural)]
pub struct ProcessingWait {
    pub n: usize,
    /// How many looks there are before blocking.
    pub max_spin_tries: usize,
    /// How many looks there have been before blocking.
    pub tries: usize,
    pub phase: ProcessingPhase,
}

impl ProcessingWait {
    /// A wait that only looks, before it begins.
    pub open spec fn only_looking(n: usize, max_spin_tries: Option<usize>) -> ProcessingWait {
        ProcessingWait {
            n,
            max_spin_tries: 0,
            tries: 0,
            phase: ProcessingPhase::Looking(LookWait::fresh(n, max_spin_tries, Looks::AtLeastOnce)),
        }
    }

    /// A wait that blocks, before it begins.
    pub open spec fn blocking(n: usize, max_spin_tries: usize) -> ProcessingWait {
        ProcessingWait { n, max_spin_tries, tries: 0, phase: ProcessingPhase::Spinning }
    }

    /// Nothing has been looked at yet.
    pub open spec fn unseeing(self) -> bool {
        self.phase is Spinning && self.tries == 0
    }

    /// Another look before blocking is allowed. There is always one where no slots are wanted, but
    /// only their number.
    pub open spec fn may_spin(self) -> bool {
        self.tries < self.max_spin_tries || (self.n == 0 && self.tries == 0)
    }

    /// The wait after the next step, given how many slots the last look has shown.
    pub open spec fn after(self, available: int) -> ProcessingWait {
        let enough = !self.unseeing() && available >= self.n;
        match self.phase {
            ProcessingPhase::Looking(wait) => ProcessingWait {
                phase: ProcessingPhase::Looking(wait.after(available)),
                ..self
            },
            ProcessingPhase::Spinning => if enough {
                ProcessingWait { phase: ProcessingPhase::Done, ..self }
            } else if self.may_spin() {
                ProcessingWait { tries: (self.tries + 1) as usize, ..self }
            } else {
                ProcessingWait { phase: ProcessingPhase::Locking, ..self }
            },
            ProcessingPhase::Locking => ProcessingWait {
                phase: ProcessingPhase::Requesting,
                ..self
            },
            ProcessingPhase::Requesting => ProcessingWait {
                phase: ProcessingPhase::Verifying,
                ..self
            },
            ProcessingPhase::Verifying => ProcessingWait {
                phase: if enough {
                    ProcessingPhase::Unlocking
                } else {
                    ProcessingPhase::Sleeping
                },
                ..self
            },
            ProcessingPhase::Sleeping => ProcessingWait { phase: ProcessingPhase::Waking, ..self },
            ProcessingPhase::Waking => ProcessingWait {
                phase: if enough {
                    ProcessingPhase::Unlocking
                } else {
                    ProcessingPhase::Requesting
                },
                ..self
            },
            ProcessingPhase::Unlocking => ProcessingWait { phase: ProcessingPhase::Done, ..self },
            ProcessingPhase::Done => self,
        }
    }

    /// What to do next.
    pub open spec fn action(self, available: int) -> WaitAction {
        match self.after(available).phase {
            ProcessingPhase::Looking(_) => self.phase->Looking_0.action(available),
            ProcessingPhase::Spinning => WaitAction::Poll,
            ProcessingPhase::Locking => WaitAction::LockMutex,
            ProcessingPhase::Requesting => WaitAction::RequestSignal,
            ProcessingPhase::Verifying => WaitAction::Poll,
            ProcessingPhase::Sleeping => WaitAction::WaitForSignal,
            ProcessingPhase::Waking => WaitAction::Poll,
            ProcessingPhase::Unlocking => WaitAction::UnlockMutex,
            ProcessingPhase::Done => WaitAction::Done,
        }
    }

    /// Decides what to do next, given how many slots the last look has shown.
    pub fn step(&mut self, available: usize) -> (action: WaitAction)
        ensures
            action == old(self).action(available as int),
            *final(self) == old(self).after(available as int),
    {
        match self.phase {
            ProcessingPhase::Looking(mut wait) => {
                let action = wait.step(available);
                self.phase = ProcessingPhase::Looking(wait);
                action
            },
            ProcessingPhase::Spinning => {
                if self.tries > 0 && available >= self.n {
                    self.phase = ProcessingPhase::Done;
                    WaitAction::Done
                } else if self.tries < self.max_spin_tries || (self.n == 0 && self.tries == 0) {
                    self.tries = self.tries + 1;
                    WaitAction::Poll
                } else {
                    // Transition to blocking on wait condition
                    self.phase = ProcessingPhase::Locking;
                    WaitAction::LockMutex
                }
            },
            ProcessingPhase::Locking => {
                // Communicate intent to wait to publisher
                self.phase = ProcessingPhase::Requesting;
                WaitAction::RequestSignal
            },
            ProcessingPhase::Requesting => {
                // Verify that no slot was published
                self.phase = ProcessingPhase::Verifying;
                WaitAction::Poll
            },
            ProcessingPhase::Verifying => if available >= self.n {
                self.phase = ProcessingPhase::Unlocking;
                WaitAction::UnlockMutex
            } else {
                self.phase = ProcessingPhase::Sleeping;
                WaitAction::WaitForSignal
            },
            ProcessingPhase::Sleeping => {
                self.phase = ProcessingPhase::Waking;
                WaitAction::Poll
            },
            ProcessingPhase::Waking => if available >= self.n {
                self.phase = ProcessingPhase::Unlocking;
                WaitAction::UnlockMutex
            } else {
                self.phase = ProcessingPhase::Requesting;
                WaitAction::RequestSignal
            },
            ProcessingPhase::Unlocking => {
                self.phase = ProcessingPhase::Done;
                WaitAction::Done
            },
            ProcessingPhase::Done => WaitAction::Done,
        }
    }
}

impl PublishingWaitStrategy for SpinWaitStrategy {
    open spec fn consumer_tries(&self) -> Option<usize> {
        None
    }

    open spec fn blocks(&self) -> bool {
        false
    }

    fn wait_for_consumers(&self, n: usize, dependencies: &[SequenceReader]) -> (wait: LookWait) {
        LookWait::new(n, None, Looks::at(dependencies))
    }

    fn notify_all_waiters(&self) -> (notification: Notification) {
        Notification { phase: NotificationPhase::Done }
    }
}

impl ProcessingWaitStrategy for SpinWaitStrategy {
    open spec fn processing_wait(&self, n: usize) -> ProcessingWait {
        ProcessingWait::only_looking(n, None)
    }

    fn wait_for_publisher(&self, n: usize) -> (wait: ProcessingWait) {
        ProcessingWait {
            n,
            max_spin_tries: 0,
            tries: 0,
            phase: ProcessingPhase::Looking(LookWait::new(n, None, Looks::AtLeastOnce)),
        }
    }
}

impl PublishingWaitStrategy for YieldWaitStrategy {
    open spec fn consumer_tries(&self) -> Option<usize> {
        Some(self.max_spin_tries_consumer)
    }

    open spec fn blocks(&self) -> bool {
        false
    }

    fn wait_for_consumers(&self, n: usize, dependencies: &[SequenceReader]) -> (wait: LookWait) {
        LookWait::new(n, Some(self.max_spin_tries_consumer), Looks::at(dependencies))
    }

    fn notify_all_waiters(&self) -> (notification: Notification) {
        Notification { phase: NotificationPhase::Done }
    }
}

impl ProcessingWaitStrategy for YieldWaitStrategy {
    open spec fn processing_wait(&self, n: usize) -> ProcessingWait {
        ProcessingWait::only_looking(n, Some(self.max_spin_tries_publisher))
    }

    fn wait_for_publisher(&self, n: usize) -> (wait: ProcessingWait) {
        ProcessingWait {
            n,
            max_spin_tries: 0,
            tries: 0,
            phase: ProcessingPhase::Looking(
                LookWait::new(n, Some(self.max_spin_tries_publisher), Looks::AtLeastOnce),
            ),
        }
    }
}

impl PublishingWaitStrategy for BlockingWaitStrategy {
    open spec fn consumer_tries(&self) -> Option<usize> {
        Some(self.max_spin_tries_consumer)
    }

    open spec fn blocks(&self) -> bool {
        true
    }

    fn wait_for_consumers(&self, n: usize, dependencies: &[SequenceReader]) -> (wait: LookWait) {
        let w = YieldWaitStrategy::new_with_retry_count(
            self.max_spin_tries_publisher,
            self.max_spin_tries_consumer,
        );
        w.wait_for_consumers(n, dependencies)
    }

    fn notify_all_waiters(&self) -> (notification: Notification) {
        Notification { phase: NotificationPhase::Start }
    }
}

impl ProcessingWaitStrategy for BlockingWaitStrategy {
    open spec fn processing_wait(&self, n: usize) -> ProcessingWait {
        ProcessingWait::blocking(n, self.max_spin_tries_publisher)
    }

    fn wait_for_publisher(&self, n: usize) -> (wait: ProcessingWait) {
        ProcessingWait {
            n,
            max_spin_tries: self.max_spin_tries_publisher,
            tries: 0,
            phase: ProcessingPhase::Spinning,
        }
    }
}

impl PublishingWaitStrategy for TimeoutResizeWaitStrategy {
    open spec fn consumer_tries(&self) -> Option<usize> {
        self.wait_strategy.consumer_tries()
    }

    open spec fn blocks(&self) -> bool {
        true
    }

    fn wait_for_consumers(&self, n: usize, dependencies: &[SequenceReader]) -> (wait: LookWait) {
        self.wait_strategy.wait_for_consumers(n, dependencies)
    }

    fn notify_all_waiters(&self) -> (notification: Notification) {
        PublishingWaitStrategy::notify_all_waiters(&self.wait_strategy)
    }
}

impl ProcessingWaitStrategy for TimeoutResizeWaitStrategy {
    open spec fn processing_wait(&self, n: usize) -> ProcessingWait {
        self.wait_strategy.processing_wait(n)
    }

    fn wait_for_publisher(&self, n: usize) -> (wait: ProcessingWait) {
        // Consumers wait as normal
        ProcessingWaitStrategy::wait_for_publisher(&self.wait_strategy, n)
    }
}

/// Policy decisions regarding how long to wait before reallocating a larger buffer.
pub trait ResizingWaitStrategy: ProcessingWaitStrategy {
    /// How the strategy waits for consumers.
    spec fn timed_wait(&self, n: usize, looks: Looks) -> TimedWait;

    /// Like a wait for consumers, except that it may finish before the requested number of slots are
    /// available. If this happens, the caller should reallocate a larger buffer and start publishing
    /// items into that buffer instead of waiting. It also always keeps a single extra slot free in the
    /// background, for use in communicating to consumers that a reallocation has occurred.
    fn try_wait_for_consumers(&self, n: usize, dependencies: &[SequenceReader]) -> (wait: TimedWait)
        requires
            n < usize::MAX,
        ensures
            wait == self.timed_wait((n + 1) as usize, Looks::over(dependencies@)),
    ;
}

impl ResizingWaitStrategy for TimeoutResizeWaitStrategy {
    open spec fn timed_wait(&self, n: usize, looks: Looks) -> TimedWait {
        TimedWait {
            n,
            timeout: self.timeout,
            max_spin_tries: self.wait_strategy.max_spin_tries_consumer,
            looks,
            tries: 0,
            end_time: 0,
            phase: TimedPhase::Start,
        }
    }

    fn try_wait_for_consumers(&self, n: usize, dependencies: &[SequenceReader]) -> (wait:
        TimedWait) {
        // Always leave an extra slot available, for use being marked if we decide to allocate a
        // larger buffer.
        TimedWait::try_wait_for_consumers_real(
            n + 1,
            self.timeout,
            self.wait_strategy.max_spin_tries_consumer,
            Looks::at(dependencies),
        )
    }
}

/// How far a wait with a time limit has got.
#[derive(Debug, Clone, Copy, PartialEq, Eq, Structural)]
pub enum TimedPhase {
    /// Nothing has been done yet.
    Start,
    /// Looking once before the clock is read.
    Trying,
    /// The clock is being read, to set the time limit.
    Starting,
    /// Looking a number of times, whatever the clock says.
    Spinning,
    /// The clock is being read, to see whether the limit has been reached.
    Timing,
    /// Looking for slots, before other tasks get a chance to run.
    Looking,
    /// Other tasks get a chance to run.
    Yielding,
    /// At the end.
    Done,
}

/// A publisher's wait for consumers that ends when enough slots are available, or when the time is
/// over.
#[derive(Debug, Clone, Copy, PartialEq, Eq, Structural)]
pub struct TimedWait {
    pub n: usize,
    /// How long to wait, in milliseconds.
    pub timeout: u64,
    pub max_spin_tries: usize,
    pub looks: Looks,
    /// How many looks there have been after the time limit was set, up to the maximum.
    pub tries: usize,
    /// When to give up, in nanoseconds of the clock.
    pub end_time: u128,
    pub phase: TimedPhase,
}

/// How many of the slots that are available the publisher may use, where one is kept in reserve.
pub fn exposed_slots(available: usize) -> (exposed: usize)
    ensures
        exposed == (if available >= 1 {
            available - 1
        } else {
            0
        }),
{
    // Don't expose the extra slot to callers, so it remains unused
    if available >= 1 {
        available - 1
    } else {
        0
    }
}

impl TimedWait {
    /// The wait after it has been decided that nothing has been found without a pause so far.
    pub open spec fn spinning(self) -> TimedWait {
        if self.tries < self.max_spin_tries {
            TimedWait {
                tries: (self.tries + 1) as usize,
                phase: TimedPhase::Spinning,
                ..self
            }
        } else {
            TimedWait { phase: TimedPhase::Timing, ..self }
        }
    }

    /// The wait after the next step, given how many slots the last look has shown. If the last action
    /// was to read the clock, then `now` is the time that has been read.
    pub open spec fn after(self, available: int, now: int) -> TimedWait {
        let enough = available >= self.n;
        match self.phase {
            TimedPhase::Start => TimedWait {
                phase: if self.looks is AtLeastOnce {
                    TimedPhase::Trying
                } else {
                    TimedPhase::Done
                },
                ..self
            },
            TimedPhase::Trying => TimedWait {
                phase: if enough {
                    TimedPhase::Done
                } else {
                    TimedPhase::Starting
                },
                ..self
            },
            TimedPhase::Starting => TimedWait {
                end_time: (now + self.timeout * 1_000_000) as u128,
                ..self
            }.spinning(),
            TimedPhase::Spinning => if enough {
                TimedWait { phase: TimedPhase::Done, ..self }
            } else {
                self.spinning()
            },
            TimedPhase::Timing => TimedWait {
                phase: if now < self.end_time {
                    TimedPhase::Looking
                } else {
                    TimedPhase::Done
                },
                ..self
            },
            TimedPhase::Looking => TimedWait { phase: TimedPhase::Yielding, ..self },
            TimedPhase::Yielding => TimedWait {
                phase: if enough {
                    TimedPhase::Done
                } else {
                    TimedPhase::Timing
                },
                ..self
            },
            TimedPhase::Done => self,
        }
    }

    /// What to do next.
    pub open spec fn action(self, available: int, now: int) -> WaitAction {
        match self.after(available, now).phase {
            TimedPhase::Start => WaitAction::Done,
            TimedPhase::Trying => WaitAction::Poll,
            TimedPhase::Starting => WaitAction::ReadClock,
            TimedPhase::Spinning => WaitAction::Poll,
            TimedPhase::Timing => WaitAction::ReadClock,
            TimedPhase::Looking => WaitAction::Poll,
            TimedPhase::Yielding => WaitAction::YieldNow,
            TimedPhase::Done => WaitAction::Done,
        }
    }

    /// A wait that has not begun yet. The issue of reserving an extra slot is left to the caller.
    pub fn try_wait_for_consumers_real(
        n: usize,
        timeout: u64,
        max_spin_tries: usize,
        looks: Looks,
    ) -> (wait: TimedWait)
        ensures
            wait == (TimedWait {
                n,
                timeout,
                max_spin_tries,
                looks,
                tries: 0,
                end_time: 0,
                phase: TimedPhase::Start,
            }),
    {
        TimedWait {
            n,
            timeout,
            max_spin_tries,
            looks,
            tries: 0,
            end_time: 0,
            phase: TimedPhase::Start,
        }
    }

    /// Returns the number of slots that a wait which is done has found, given how many the last look
    /// has shown, but for the one in reserve.
    pub fn found(&self, available: usize) -> (found: usize)
        ensures
            self.looks.found(available as int) >= 1 ==> found == self.looks.found(
                available as int,
            ) - 1,
            self.looks.found(available as int) == 0 ==> found == 0,
    {
        exposed_slots(self.looks.count(available))
    }

    /// Decides on another look without a pause.
    fn spin(&mut self) -> (action: WaitAction)
        ensures
            *final(self) == old(self).spinning(),
            action == (if final(self).phase is Spinning {
                WaitAction::Poll
            } else {
                WaitAction::ReadClock
            }),
    {
        if self.tries < self.max_spin_tries {
            self.tries = self.tries + 1;
            self.phase = TimedPhase::Spinning;
            WaitAction::Poll
        } else {
            self.phase = TimedPhase::Timing;
            WaitAction::ReadClock
        }
    }

    /// Decides what to do next, given how many slots the last look has shown. If the last action was
    /// to read the clock, then `now` is the time that has been read, in nanoseconds.
    ///
    /// The wait gives up only when the clock has been read and shows that the limit has been reached.
    pub fn step(&mut self, available: usize, now: u64) -> (action: WaitAction)
        ensures
            action == old(self).action(available as int, now as int),
            *final(self) == old(self).after(available as int, now as int),
            !(old(self).phase is Start) && !(old(self).phase is Done) && action is Done
                && available < old(self).n ==> old(self).phase is Timing && old(self).end_time
                <= now,
    {
        let enough: bool = available >= self.n;
        match self.phase {
            // Try once before querying the current time, in case the slots have become available
            // since the last wait.
            TimedPhase::Start => if matches!(self.looks, Looks::AtLeastOnce) {
                self.phase = TimedPhase::Trying;
                WaitAction::Poll
            } else {
                self.phase = TimedPhase::Done;
                WaitAction::Done
            },
            TimedPhase::Trying => if enough {
                self.phase = TimedPhase::Done;
                WaitAction::Done
            } else {
                self.phase = TimedPhase::Starting;
                WaitAction::ReadClock
            },
            TimedPhase::Starting => {
                // Not enough slots are available. Spin up to max_spin_tries times, then yield
                // repeatedly until either the items become available, or the timeout is reached.
                assert(0 <= self.timeout * 1_000_000 <= u64::MAX * 1_000_000);
                self.end_time = now as u128 + self.timeout as u128 * 1_000_000;
                self.spin()
            },
            TimedPhase::Spinning => if enough {
                self.phase = TimedPhase::Done;
                WaitAction::Done
            } else {
                self.spin()
            },
            TimedPhase::Timing => if (now as u128) < self.end_time {
                self.phase = TimedPhase::Looking;
                WaitAction::Poll
            } else {
                self.phase = TimedPhase::Done;
                WaitAction::Done
            },
            TimedPhase::Looking => {
                self.phase = TimedPhase::Yielding;
                WaitAction::YieldNow
            },
            TimedPhase::Yielding => if enough {
                self.phase = TimedPhase::Done;
                WaitAction::Done
            } else {
                self.phase = TimedPhase::Timing;
                WaitAction::ReadClock
            },
            TimedPhase::Done => WaitAction::Done,
        }
    }
}

/// A consumer that waits for the publisher by blocking sleeps only after it has made its request, and
/// then found too few slots; and it ends only when there are enough.
pub proof fn law_blocking_looks_before_sleeping(wait: ProcessingWait, available: int)
    requires
        !(wait.phase is Looking),
    ensures
        wait.action(available) is WaitForSignal <==> wait.phase is Verifying && available < wait.n,
        wait.phase is Requesting ==> wait.action(available) is Poll && wait.after(
            available,
        ).phase is Verifying,
        wait.action(available) is UnlockMutex ==> available >= wait.n && (wait.phase is Verifying
            || wait.phase is Waking),
        wait.phase is Spinning && wait.action(available) is Done ==> wait.tries > 0 && available
            >= wait.n,
{
}

/// A wait that looks ends only when enough slots have been found.
pub proof fn law_looking_ends_when_available(wait: LookWait, available: int)
    requires
        wait.action(available) is Done,
        !(wait.phase is Done),
    ensures
        wait.looks.found(available) >= wait.n,
{
}

/// Every wait for other stages looks at them before it ends, even if no slots are wanted, so that what
/// it finds is what they show.
pub proof fn law_waits_look_at_least_once(
    n: usize,
    tries: Option<usize>,
    max_spin_tries: usize,
    timed: TimedWait,
    dependencies: Seq<SequenceReader>,
    available: int,
    now: int,
)
    requires
        dependencies.len() > 0,
        timed.phase is Start,
        timed.looks == Looks::over(dependencies),
    ensures
        Looks::over(dependencies).found(available) == available,
        LookWait::fresh(n, tries, Looks::over(dependencies)).action(available) is Poll,
        ProcessingWait::only_looking(n, tries).action(available) is Poll,
        !(ProcessingWait::blocking(n, max_spin_tries).action(available) is Done),
        n == 0 ==> ProcessingWait::blocking(n, max_spin_tries).action(available) is Poll,
        timed.action(available, now) is Poll,
{
}

/// A publisher without consumers never waits, nor looks at anything: however many slots it waits for,
/// it has found `usize::MAX` of them when it begins.
pub proof fn law_no_dependencies_no_limit<W: PublishingWaitStrategy>(
    strategy: &W,
    n: usize,
    available: int,
)
    ensures
        ({
            let looks = Looks::over(Seq::empty());
            let wait = LookWait::fresh(n, strategy.consumer_tries(), looks);
            wait.action(available) is Done && looks.found(available) == usize::MAX
        }),
{
}

/// A wait that looks, after a number of steps, given how many slots were known to be available at each.
pub open spec fn looked(wait: LookWait, readings: Seq<int>) -> LookWait
    decreases readings.len(),
{
    if readings.len() == 0 {
        wait
    } else {
        looked(wait, readings.drop_last()).after(readings.last())
    }
}

/// How far a wait that looks has got after a number of steps without success.
proof fn lemma_looked(n: usize, tries: Option<usize>, readings: Seq<int>)
    requires
        n > 0,
        forall|i: int| 0 <= i < readings.len() ==> #[trigger] readings[i] < n,
    ensures
        ({
            let wait = looked(LookWait::fresh(n, tries, Looks::AtLeastOnce), readings);
            let count = readings.len() as int;
            &&& wait.n == n
            &&& wait.max_spin_tries == tries
            &&& wait.looks is AtLeastOnce
            &&& tries is Some ==> wait.tries == (if count < tries->Some_0 {
                count
            } else {
                tries->Some_0 as int
            })
            &&& wait.phase == (if count == 0 {
                LookPhase::Start
            } else if tries is None || count <= tries->Some_0 {
                LookPhase::Spinning
            } else if (count - tries->Some_0) % 2 == 1 {
                LookPhase::Looking
            } else {
                LookPhase::Yielding
            })
        }),
    decreases readings.len(),
{
    if readings.len() > 0 {
        lemma_looked(n, tries, readings.drop_last());
        assert(readings.last() < n);
    }
}

/// What a wait that looks does, as long as every look has shown fewer slots than it needs. It begins
/// with a look. Up to the given number, one look follows the other; after each further look other tasks
/// run before its outcome counts. As soon as an outcome counts, the wait ends if and only if there are
/// enough slots, any larger number included, and looks again otherwise.
pub proof fn law_looks_then_yields(
    n: usize,
    tries: Option<usize>,
    readings: Seq<int>,
    available: int,
)
    requires
        n > 0,
        forall|i: int| 0 <= i < readings.len() ==> #[trigger] readings[i] < n,
    ensures
        ({
            let wait = looked(LookWait::fresh(n, tries, Looks::AtLeastOnce), readings);
            let count = readings.len() as int;
            wait.action(available) == (if count == 0 {
                WaitAction::Poll
            } else if tries is Some && count > tries->Some_0 && (count - tries->Some_0) % 2 == 1 {
                WaitAction::YieldNow
            } else if available >= n {
                WaitAction::Done
            } else {
                WaitAction::Poll
            })
        }),
{
    lemma_looked(n, tries, readings);
}

/// A wait that looks, and has an outcome that counts, ends if and only if there are enough slots. One
/// that has ended stays so.
pub proof fn law_outcome_of_a_look_counts(wait: LookWait, available: int)
    requires
        wait.looks is AtLeastOnce,
    ensures
        wait.phase is Spinning || wait.phase is Yielding ==> (wait.action(available) is Done
            <==> available >= wait.n),
        wait.phase is Looking ==> wait.action(available) is YieldNow && (wait.after(
            available,
        ).action(available) is Done <==> available >= wait.n),
        wait.phase is Start ==> wait.action(available) is Poll,
        wait.phase is Done ==> wait.action(available) is Done,
        wait.action(available) is Done ==> wait.after(available).phase is Done,
        wait.after(available).n == wait.n,
        wait.after(available).looks == wait.looks,
        wait.after(available).max_spin_tries == wait.max_spin_tries,
{
}

/// A wait for no slots looks once, without any pause, and ends.
pub proof fn law_wait_for_no_slots(tries: Option<usize>, first: int, available: int)
    requires
        available >= 0,
    ensures
        ({
            let wait = LookWait::fresh(0, tries, Looks::AtLeastOnce);
            &&& wait.action(first) is Poll
            &&& wait.after(first).action(available) is Done
        }),
{
}

/// The strategies spin for consumers, and for the publisher, as often as they have been told to, each
/// counted apart: without end for the strategy that only spins.
pub proof fn law_strategies_look_then_yield(
    yielding: YieldWaitStrategy,
    blocking: BlockingWaitStrategy,
    resizing: TimeoutResizeWaitStrategy,
    n: usize,
    looks: Looks,
)
    ensures
        SpinWaitStrategy.consumer_tries() == None::<usize>,
        yielding.consumer_tries() == Some(yielding.max_spin_tries_consumer),
        blocking.consumer_tries() == Some(blocking.max_spin_tries_consumer),
        resizing.consumer_tries() == Some(resizing.wait_strategy.max_spin_tries_consumer),
        SpinWaitStrategy.processing_wait(n) == ProcessingWait::only_looking(n, None),
        yielding.processing_wait(n) == ProcessingWait::only_looking(
            n,
            Some(yielding.max_spin_tries_publisher),
        ),
        blocking.processing_wait(n) == ProcessingWait::blocking(
            n,
            blocking.max_spin_tries_publisher,
        ),
        resizing.processing_wait(n) == ProcessingWait::blocking(
            n,
            resizing.wait_strategy.max_spin_tries_publisher,
        ),
        !SpinWaitStrategy.blocks() && !yielding.blocks() && blocking.blocks() && resizing.blocks(),
        resizing.timed_wait(n, looks).phase is Start,
        resizing.timed_wait(n, looks).tries == 0,
        resizing.timed_wait(n, looks).n == n,
        resizing.timed_wait(n, looks).looks == looks,
        resizing.timed_wait(n, looks).timeout == resizing.timeout,
        resizing.timed_wait(n, looks).max_spin_tries
            == resizing.wait_strategy.max_spin_tries_consumer,
{
}

/// A consumer that only looks for the publisher's slots does what a wait that looks does.
pub proof fn law_processing_only_looks(
    n: usize,
    tries: Option<usize>,
    wait: LookWait,
    available: int,
)
    ensures
        ProcessingWait::only_looking(n, tries).phase == ProcessingPhase::Looking(
            LookWait::fresh(n, tries, Looks::AtLeastOnce),
        ),
        ({
            let processing = ProcessingWait {
                phase: ProcessingPhase::Looking(wait),
                ..ProcessingWait::only_looking(n, tries)
            };
            &&& processing.action(available) == wait.action(available)
            &&& processing.after(available) == (ProcessingWait {
                phase: ProcessingPhase::Looking(wait.after(available)),
                ..processing
            })
        }),
{
}

/// A consumer's wait for the publisher after a number of steps, given how many slots were known to be
/// available at each.
pub open spec fn processed(wait: ProcessingWait, readings: Seq<int>) -> ProcessingWait
    decreases readings.len(),
{
    if readings.len() == 0 {
        wait
    } else {
        processed(wait, readings.drop_last()).after(readings.last())
    }
}

/// How far a wait by blocking has got while it looks in vain before blocking.
proof fn lemma_processed(n: usize, max_spin_tries: usize, readings: Seq<int>)
    requires
        n > 0,
        readings.len() <= max_spin_tries,
        forall|i: int| 0 <= i < readings.len() ==> #[trigger] readings[i] < n,
    ensures
        processed(ProcessingWait::blocking(n, max_spin_tries), readings) == (ProcessingWait {
            tries: readings.len() as usize,
            ..ProcessingWait::blocking(n, max_spin_tries)
        }),
    decreases readings.len(),
{
    if readings.len() > 0 {
        lemma_processed(n, max_spin_tries, readings.drop_last());
        assert(readings.last() < n);
    }
}

/// A consumer that waits by blocking looks as often as its strategy gives before it takes the lock: the
/// wait ends as soon as a look has shown enough slots, and takes the lock only after all of these looks
/// have been in vain.
pub proof fn law_processing_looks_before_blocking(
    n: usize,
    max_spin_tries: usize,
    readings: Seq<int>,
    available: int,
)
    requires
        n > 0,
        readings.len() <= max_spin_tries,
        forall|i: int| 0 <= i < readings.len() ==> #[trigger] readings[i] < n,
    ensures
        processed(ProcessingWait::blocking(n, max_spin_tries), readings).action(available) == (
        if readings.len() > 0 && available >= n {
            WaitAction::Done
        } else if readings.len() < max_spin_tries {
            WaitAction::Poll
        } else {
            WaitAction::LockMutex
        }),
{
    lemma_processed(n, max_spin_tries, readings);
}

/// What a consumer's wait does with the lock. Having taken it, it asks for a signal and looks; it sleeps
/// if and only if there are too few slots, and looks again when it wakes up. It keeps the lock, and asks
/// again, until there are enough; then it gives the lock back, and ends.
pub proof fn law_processing_keeps_the_lock(wait: ProcessingWait, readings: Seq<int>)
    requires
        readings.len() == 7,
        wait.action(readings[0]) is LockMutex,
    ensures
        ({
            let w1 = wait.after(readings[0]);
            let w2 = w1.after(readings[1]);
            let w3 = w2.after(readings[2]);
            let w4 = w3.after(readings[3]);
            let w5 = w4.after(readings[4]);
            let w6 = w5.after(readings[5]);
            &&& w1.action(readings[1]) is RequestSignal
            &&& w2.action(readings[2]) is Poll
            &&& if readings[3] >= wait.n {
                &&& w3.action(readings[3]) is UnlockMutex
                &&& w4.action(readings[4]) is Done
            } else {
                &&& w3.action(readings[3]) is WaitForSignal
                &&& w4.action(readings[4]) is Poll
                &&& if readings[5] >= wait.n {
                    &&& w5.action(readings[5]) is UnlockMutex
                    &&& w6.action(readings[6]) is Done
                } else {
                    &&& w5.action(readings[5]) is RequestSignal
                    &&& w6 == w2
                }
            }
        }),
{
}

/// The wait after the same number of slots has been known to be available for some steps.
pub open spec fn processed_for(wait: ProcessingWait, available: int, steps: nat) -> ProcessingWait
    decreases steps,
{
    if steps == 0 {
        wait
    } else {
        processed_for(wait.after(available), available, (steps - 1) as nat)
    }
}

/// From wherever a wait by blocking is, it ends after at most five steps at which enough slots are
/// known, any larger number included; and it ends only when it does not have the lock.
pub proof fn law_processing_ends_when_available(wait: ProcessingWait, available: int)
    requires
        !(wait.phase is Looking),
    ensures
        available >= wait.n ==> processed_for(wait, available, 5).phase is Done,
        wait.action(available) is Done <==> {
            ||| wait.phase is Done
            ||| wait.phase is Unlocking
            ||| wait.phase is Spinning && wait.tries > 0 && available >= wait.n
        },
        wait.after(available).n == wait.n,
        wait.after(available).max_spin_tries == wait.max_spin_tries,
{
    let first = wait.after(available);
    let second = first.after(available);
    let third = second.after(available);
    let fourth = third.after(available);
    let fifth = fourth.after(available);
    assert(processed_for(fifth, available, 0) == fifth);
    assert(processed_for(fourth, available, 1) == fifth);
    assert(processed_for(third, available, 2) == fifth);
    assert(processed_for(second, available, 3) == fifth);
    assert(processed_for(first, available, 4) == fifth);
    assert(processed_for(wait, available, 5) == fifth);
}

/// A wait with a time limit after a number of steps, given how many slots were known to be available at
/// each, and what the clock has shown last.
pub open spec fn timed(wait: TimedWait, readings: Seq<int>, clock: Seq<u64>) -> TimedWait
    decreases readings.len(),
{
    if readings.len() == 0 {
        wait
    } else {
        timed(wait, readings.drop_last(), clock.drop_last()).after(
            readings.last(),
            clock.last() as int,
        )
    }
}

/// The time at which a wait with a time limit gives up: the timeout after the first reading of the
/// clock.
pub open spec fn give_up_at(wait: TimedWait, clock: Seq<u64>) -> int {
    clock[2] + wait.timeout * 1_000_000
}

/// A wait with a time limit begins, has found too few slots at every step so far, and the time is not
/// over.
pub open spec fn waiting_in_time(wait: TimedWait, readings: Seq<int>, clock: Seq<u64>) -> bool {
    &&& wait.phase is Start
    &&& wait.tries == 0
    &&& wait.looks is AtLeastOnce
    &&& readings.len() == clock.len()
    &&& forall|i: int| 0 <= i < readings.len() ==> #[trigger] readings[i] < wait.n
    &&& forall|i: int| 3 <= i < clock.len() ==> #[trigger] clock[i] < give_up_at(wait, clock)
}

/// How far a wait with a time limit has got that has neither found enough slots nor run out of time.
proof fn lemma_timed(wait: TimedWait, readings: Seq<int>, clock: Seq<u64>)
    requires
        waiting_in_time(wait, readings, clock),
    ensures
        ({
            let later = timed(wait, readings, clock);
            let count = readings.len() as int;
            let spun = count - 2 - wait.max_spin_tries;
            &&& later == (TimedWait {
                tries: later.tries,
                end_time: later.end_time,
                phase: later.phase,
                ..wait
            })
            &&& count > 2 ==> later.end_time == give_up_at(wait, clock)
            &&& later.tries == (if count <= 2 {
                0
            } else if spun <= 0 {
                count - 2
            } else {
                wait.max_spin_tries as int
            })
            &&& later.phase == (if count == 0 {
                TimedPhase::Start
            } else if count == 1 {
                TimedPhase::Trying
            } else if count == 2 {
                TimedPhase::Starting
            } else if spun <= 0 {
                TimedPhase::Spinning
            } else if spun % 3 == 1 {
                TimedPhase::Timing
            } else if spun % 3 == 2 {
                TimedPhase::Looking
            } else {
                TimedPhase::Yielding
            })
        }),
    decreases readings.len(),
{
    assert(0 <= wait.timeout * 1_000_000 <= u64::MAX * 1_000_000);
    if readings.len() > 0 {
        let before = readings.drop_last();
        let earlier = clock.drop_last();
        assert(forall|i: int| 0 <= i < earlier.len() ==> earlier[i] == clock[i]);
        assert(readings.last() < wait.n);
        assert(clock.len() > 3 ==> clock[clock.len() - 1] < give_up_at(wait, clock));
        lemma_timed(wait, before, earlier);
    }
}

/// What a wait with a time limit does, as long as every look has shown fewer slots than it needs, and no
/// reading of the clock was late enough to give up. It looks once, then reads the clock to set the
/// limit, and looks as often as its strategy gives. Then it reads the clock, looks and lets other tasks
/// run in turn. A look that shows enough slots ends it, whatever the clock says, at once while it spins,
/// and otherwise after other tasks have run; a reading of the clock at the limit or later ends it too.
pub proof fn law_timed_wait_looks_and_watches_the_clock(
    wait: TimedWait,
    readings: Seq<int>,
    clock: Seq<u64>,
    available: int,
    now: u64,
)
    requires
        waiting_in_time(wait, readings, clock),
    ensures
        ({
            let action = timed(wait, readings, clock).action(available, now as int);
            let count = readings.len() as int;
            let spun = count - 2 - wait.max_spin_tries;
            let looked = available >= wait.n;
            if count == 0 {
                action is Poll
            } else if count == 1 {
                action == (if looked {
                    WaitAction::Done
                } else {
                    WaitAction::ReadClock
                })
            } else if count == 2 {
                action == (if wait.max_spin_tries > 0 {
                    WaitAction::Poll
                } else {
                    WaitAction::ReadClock
                })
            } else if spun <= 0 {
                action == (if looked {
                    WaitAction::Done
                } else if spun < 0 {
                    WaitAction::Poll
                } else {
                    WaitAction::ReadClock
                })
            } else if spun % 3 == 1 {
                action == (if now < give_up_at(wait, clock) {
                    WaitAction::Poll
                } else {
                    WaitAction::Done
                })
            } else if spun % 3 == 2 {
                action is YieldNow
            } else {
                action == (if looked {
                    WaitAction::Done
                } else {
                    WaitAction::ReadClock
                })
            }
        }),
{
    lemma_timed(wait, readings, clock);
}

/// A wait with a time limit that has looked and let other tasks run ends at the next step if and only
/// if there are enough slots, whatever the clock says. The same holds of a look before the clock is
/// read, and while it spins. Once ended, it stays so.
pub proof fn law_timed_wait_ends_when_available(wait: TimedWait, available: int, now: int)
    ensures
        wait.phase is Yielding || wait.phase is Spinning || wait.phase is Trying ==> (wait.action(
            available,
            now,
        ) is Done <==> available >= wait.n),
        wait.phase is Looking ==> wait.action(available, now) is YieldNow && (wait.after(
            available,
            now,
        ).action(available, now) is Done <==> available >= wait.n),
        wait.phase is Timing ==> (wait.action(available, now) is Done <==> now >= wait.end_time),
        wait.phase is Done ==> wait.action(available, now) is Done,
        wait.action(available, now) is Done ==> wait.after(available, now).phase is Done,
        !(wait.phase is Starting) ==> wait.after(available, now).end_time == wait.end_time,
{
}

/// A publisher without consumers does not wait for a time limit either: it has found every slot when it
/// begins, whatever the clock says.
pub proof fn law_no_dependencies_no_time_limit(
    strategy: TimeoutResizeWaitStrategy,
    n: usize,
    available: int,
    now: int,
)
    ensures
        ({
            let wait = strategy.timed_wait(n, Looks::over(Seq::empty()));
            &&& wait.action(available, now) is Done
            &&& wait.after(available, now).phase is Done
            &&& wait.looks.found(available) == usize::MAX
        }),
{
}

/// A wait with a time limit that ends leaves a slot in reserve: what it has found besides that one is
/// enough for what was asked of the strategy, unless the time was over.
pub proof fn law_timed_wait_keeps_a_reserve(
    strategy: TimeoutResizeWaitStrategy,
    n: usize,
    dependencies: Seq<SequenceReader>,
    available: int,
)
    requires
        n < usize::MAX,
    ensures
        ({
            let wait = strategy.timed_wait((n + 1) as usize, Looks::over(dependencies));
            wait.looks.found(available) >= wait.n <==> wait.looks.found(available) - 1 >= n
        }),
{
}

} // verus!
