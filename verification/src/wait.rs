//! Wait strategies: what a stage does until the slots that it needs are available.
//!
//! A wait is a machine that says what to do next, given how many slots are known to be available.
//! Whoever runs it carries the action out and asks again, until the machine says that it is done.
use crate::text;
use crate::text::decimal;
use vstd::prelude::*;
use vstd::string::StringExecFns;

verus! {

/// What to do next while waiting or notifying.
#[derive(Debug, Clone, Copy, PartialEq, Eq, Structural)]
pub enum WaitAction {
    /// Synchronize with dependencies to see how many slots are available now.
    Poll,
    /// Tell the processor that this is a busy-wait loop.
    SpinLoop,
    /// Let other tasks run.
    YieldNow,
    /// Read the clock.
    ReadClock,
    /// Acquire the lock of the wait condition.
    LockMutex,
    /// Set the shared variable that asks the publisher to signal, by a read-modify-write operation.
    RequestSignal,
    /// Reset the shared variable that asks the publisher to signal, by a read-modify-write
    /// operation, and see what it was.
    CheckSignal,
    /// Release the lock, sleep until the wait condition is signalled, and acquire the lock again.
    WaitForSignal,
    /// Wake up everyone who sleeps on the wait condition.
    NotifyAll,
    /// Release the lock of the wait condition.
    UnlockMutex,
    /// Stop.
    Done,
}

/// What to do between two attempts to find enough available slots.
#[derive(Debug, Clone, Copy, PartialEq, Eq, Structural)]
pub enum Backoff {
    /// Just try again.
    Spin,
    /// Just try again if there have been less attempts than the given number, else let other tasks
    /// run.
    SpinThenYield(usize),
}

impl Backoff {
    /// The action that follows an unsuccessful attempt.
    pub open spec fn action(self, tries: int) -> WaitAction {
        match self {
            Backoff::Spin => WaitAction::SpinLoop,
            Backoff::SpinThenYield(max_spin_tries) => if tries < max_spin_tries {
                WaitAction::SpinLoop
            } else {
                WaitAction::YieldNow
            },
        }
    }

    /// Decides what to do after a number of unsuccessful attempts.
    fn busy(&self, tries: usize) -> (action: WaitAction)
        ensures
            action == self.action(tries as int),
    {
        match self {
            Backoff::Spin => WaitAction::SpinLoop,
            Backoff::SpinThenYield(max_spin_tries) => if tries < *max_spin_tries {
                WaitAction::SpinLoop
            } else {
                WaitAction::YieldNow
            },
        }
    }
}

/// Spins until either the desired number of elements becomes available, or the given maximum number
/// of retries is reached.
///
/// If `None` is given for the maximum number of tries, this will spin forever. Between two attempts
/// the `backoff` decides how to wait.
#[derive(Debug, Clone, Copy, PartialEq, Eq, Structural)]
pub struct PollingWait {
    pub min_available: usize,
    pub max_tries: Option<usize>,
    pub backoff: Backoff,
    /// How many attempts have been made; it stays at the largest number once it has reached it.
    pub tries: usize,
    /// The last action was an attempt, whose outcome has not been looked at.
    pub polled: bool,
}

impl PollingWait {
    /// Another attempt is allowed.
    pub open spec fn may_try(&self) -> bool {
        self.max_tries is None || self.tries < self.max_tries->Some_0
    }

    /// What to do next: nothing more once enough slots are available, or all attempts have been in
    /// vain; otherwise attempts and pauses in turn, starting with an attempt.
    pub open spec fn action(&self, available: int) -> WaitAction {
        if available >= self.min_available {
            WaitAction::Done
        } else if self.polled {
            self.backoff.action(self.tries as int)
        } else if self.may_try() {
            WaitAction::Poll
        } else {
            WaitAction::Done
        }
    }

    /// The wait after the next step.
    pub open spec fn after(&self, available: int) -> PollingWait {
        let action = self.action(available);
        PollingWait {
            tries: if action is Poll && self.tries < usize::MAX {
                (self.tries + 1) as usize
            } else {
                self.tries
            },
            polled: action is Poll || (self.polled && action is Done),
            ..*self
        }
    }

    /// A wait that has not begun yet.
    pub fn spin_for_pollable_with_retries(
        min_available: usize,
        max_tries: Option<usize>,
        backoff: Backoff,
    ) -> (wait: PollingWait)
        ensures
            wait == (PollingWait { min_available, max_tries, backoff, tries: 0, polled: false }),
    {
        PollingWait { min_available, max_tries, backoff, tries: 0, polled: false }
    }

    /// Decides what to do next, given how many slots are known to be available.
    pub fn step(&mut self, available: usize) -> (action: WaitAction)
        ensures
            action == old(self).action(available as int),
            *final(self) == old(self).after(available as int),
    {
        if available >= self.min_available {
            return WaitAction::Done;
        }
        if self.polled {
            self.polled = false;
            return self.backoff.busy(self.tries);
        }
        let may_try: bool = match self.max_tries {
            None => true,
            Some(max_tries) => self.tries < max_tries,
        };
        if may_try {
            self.tries = self.tries.saturating_add(1);
            self.polled = true;
            WaitAction::Poll
        } else {
            WaitAction::Done
        }
    }
}

/// Allows waiting for upstream dependencies.
pub trait PollingWaitStrategy: Clone + Send {
    /// How the strategy pauses between two attempts to find that a dependency other than the
    /// publisher has made progress.
    spec fn dependency_backoff(&self) -> Backoff;

    /// Wait for upstream consumers to finish processing items that have already been published,
    /// until at least `min_available` items are available.
    fn wait_for_dependencies(&self, min_available: usize) -> (wait: PollingWait)
        ensures
            wait == (PollingWait {
                min_available,
                max_tries: None::<usize>,
                backoff: self.dependency_backoff(),
                tries: 0,
                polled: false,
            }),
    ;
}

/// How a consumer waits for the publisher.
#[derive(Debug, Clone, Copy, PartialEq, Eq, Structural)]
pub enum PublisherWait {
    /// Only by polling.
    Polling(PollingWait),
    /// By polling at first, then by sleeping until the publisher signals.
    Blocking(BlockingWait),
}

/// A notification is what the publisher owes its consumers after releasing slots: all of it if they may
/// sleep until it signals, and nothing otherwise.
pub open spec fn owes(notification: Notification, signals: bool) -> bool {
    notification.phase == (if signals {
        NotificationPhase::Start
    } else {
        NotificationPhase::Done
    })
}

/// Interface for wait strategies that require notification when the publishing stage releases new
/// slots into the pipeline, such as [`BlockingWaitStrategy`].
///
/// This is defined separately because it imposes an additional cost on implementing types, who have
/// to query which slots have been released by the publisher to know whether it makes sense to wait
/// for a notification or not.
pub trait NotificationWaitStrategy: PollingWaitStrategy {
    /// How the strategy waits for the publisher.
    spec fn publisher_wait(&self, min_available: usize) -> PublisherWait;

    /// Consumers may sleep until the publisher signals.
    spec fn signals(&self) -> bool;

    /// Wait for the publisher to release the next `min_available` slots.
    ///
    /// For strategies that block, only the publisher will attempt to wake the task, so this method
    /// only waits for the publisher. Consumers will also have to busy-wait on its immediate
    /// dependencies for the event to become available for processing. Once the publisher has
    /// released the necessary slots, the rest of the pipeline should release them in a bounded
    /// amount of time, so the cost of polling is less of a problem.
    fn wait_for_publisher(&self, min_available: usize) -> (wait: PublisherWait)
        ensures
            wait == self.publisher_wait(min_available),
    ;

    /// Wakes up any consumers that have blocked waiting for new items to be published.
    ///
    /// This must be called only after signalling that the slot is published, or it will not always
    /// work, and consumers waiting using a blocking wait strategy may sleep indefinitely (until a
    /// second item is published).
    fn notify_all_waiters(&self) -> (notification: Notification)
        ensures
            owes(notification, self.signals()),
    ;
}

/// Waits using simple busy waiting.
///
/// Using this strategy can result in livelock when used with tasks spawned using default scheduler
/// options. Ensure all publishers and consumers are on separate OS threads when using this.
#[derive(Debug, Clone, Copy)]
pub struct SpinWaitStrategy;

impl PollingWaitStrategy for SpinWaitStrategy {
    open spec fn dependency_backoff(&self) -> Backoff {
        Backoff::Spin
    }

    fn wait_for_dependencies(&self, min_available: usize) -> (wait: PollingWait) {
        PollingWait::spin_for_pollable_with_retries(min_available, None, Backoff::Spin)
    }
}

impl NotificationWaitStrategy for SpinWaitStrategy {
    open spec fn publisher_wait(&self, min_available: usize) -> PublisherWait {
        PublisherWait::Polling(
            PollingWait {
                min_available,
                max_tries: None::<usize>,
                backoff: Backoff::Spin,
                tries: 0,
                polled: false,
            },
        )
    }

    open spec fn signals(&self) -> bool {
        false
    }

    fn wait_for_publisher(&self, min_available: usize) -> (wait: PublisherWait) {
        PublisherWait::Polling(
            PollingWait::spin_for_pollable_with_retries(min_available, None, Backoff::Spin),
        )
    }

    fn notify_all_waiters(&self) -> (notification: Notification) {
        Notification { phase: NotificationPhase::Done }
    }
}

/// How often to spin while waiting for the publisher, by default.
pub const DEFAULT_MAX_SPIN_TRIES_PUBLISHER: usize = 2500;

/// How often to spin while waiting for other consumers, by default.
pub const DEFAULT_MAX_SPIN_TRIES_CONSUMER: usize = 2500;

/// A wait strategy for use cases where high throughput and low latency are a priority, but it is
/// also desirable to avoid starving other tasks, such as when there are more tasks than CPU cores.
/// Spins for a small number of retries, then yields to other tasks repeatedly until enough items are
/// released. This will almost always be a better choice than [`SpinWaitStrategy`], except in cases
/// where latency is paramount, and the caller has taken steps to pin the publisher and consumers to
/// their own threads, or even cores.
#[derive(Debug, Clone, Copy, PartialEq, Eq, Structural)]
pub struct YieldWaitStrategy {
    pub max_spin_tries_publisher: usize,
    pub max_spin_tries_consumer: usize,
}

impl Default for YieldWaitStrategy {
    /// Calls Self::new()
    fn default() -> (strategy: Self)
        ensures
            strategy == (YieldWaitStrategy {
                max_spin_tries_publisher: DEFAULT_MAX_SPIN_TRIES_PUBLISHER,
                max_spin_tries_consumer: DEFAULT_MAX_SPIN_TRIES_CONSUMER,
            }),
    {
        YieldWaitStrategy::new()
    }
}

impl YieldWaitStrategy {
    /// Create a YieldWaitStrategy that will spin for the default number of times before yielding.
    pub fn new() -> (strategy: YieldWaitStrategy)
        ensures
            strategy == (YieldWaitStrategy {
                max_spin_tries_publisher: DEFAULT_MAX_SPIN_TRIES_PUBLISHER,
                max_spin_tries_consumer: DEFAULT_MAX_SPIN_TRIES_CONSUMER,
            }),
    {
        YieldWaitStrategy::new_with_retry_count(
            DEFAULT_MAX_SPIN_TRIES_PUBLISHER,
            DEFAULT_MAX_SPIN_TRIES_CONSUMER,
        )
    }

    /// Create a YieldWaitStrategy, explicitly specifying how many times to spin before
    /// transitioning to a yielding strategy.
    ///
    /// # Arguments
    ///
    /// The two arguments represent the maximum number of times to spin while waiting for the
    /// publisher or other consumers. This is a tradeoff: one gains lower latency and increased
    /// throughput, at the expense of wasted CPU cycles.
    pub fn new_with_retry_count(
        max_spin_tries_publisher: usize,
        max_spin_tries_consumer: usize,
    ) -> (strategy: YieldWaitStrategy)
        ensures
            strategy == (YieldWaitStrategy { max_spin_tries_publisher, max_spin_tries_consumer }),
    {
        YieldWaitStrategy { max_spin_tries_publisher, max_spin_tries_consumer }
    }

    /// Returns a description of the strategy.
    pub fn describe(&self) -> (description: String)
        ensures
            description@ == "YieldWaitStrategy{"@ + tries_text(
                self.max_spin_tries_publisher,
                self.max_spin_tries_consumer,
            ),
    {
        String::from_str("YieldWaitStrategy{").concat(
            describe_tries(self.max_spin_tries_publisher, self.max_spin_tries_consumer).as_str(),
        )
    }
}

/// How the numbers of tries of a strategy are described.
pub open spec fn tries_text(publisher: usize, consumer: usize) -> Seq<char> {
    "p: "@ + text::digits_of(publisher as nat) + ", c: "@ + text::digits_of(consumer as nat) + "}"@
}

/// Returns a description of the numbers of tries of a strategy.
fn describe_tries(publisher: usize, consumer: usize) -> (description: String)
    ensures
        description@ == tries_text(publisher, consumer),
{
    String::from_str("p: ").concat(decimal(publisher as u64).as_str()).concat(", c: ").concat(
        decimal(consumer as u64).as_str(),
    ).concat("}")
}

impl PollingWaitStrategy for YieldWaitStrategy {
    open spec fn dependency_backoff(&self) -> Backoff {
        Backoff::SpinThenYield(self.max_spin_tries_consumer)
    }

    fn wait_for_dependencies(&self, min_available: usize) -> (wait: PollingWait) {
        assert(self.dependency_backoff() == Backoff::SpinThenYield(self.max_spin_tries_consumer));
        PollingWait::spin_for_pollable_with_retries(
            min_available,
            None,
            Backoff::SpinThenYield(self.max_spin_tries_consumer),
        )
    }
}

impl NotificationWaitStrategy for YieldWaitStrategy {
    open spec fn publisher_wait(&self, min_available: usize) -> PublisherWait {
        PublisherWait::Polling(
            PollingWait {
                min_available,
                max_tries: None::<usize>,
                backoff: Backoff::SpinThenYield(self.max_spin_tries_publisher),
                tries: 0,
                polled: false,
            },
        )
    }

    open spec fn signals(&self) -> bool {
        false
    }

    fn wait_for_publisher(&self, min_available: usize) -> (wait: PublisherWait) {
        PublisherWait::Polling(
            PollingWait::spin_for_pollable_with_retries(
                min_available,
                None,
                Backoff::SpinThenYield(self.max_spin_tries_publisher),
            ),
        )
    }

    fn notify_all_waiters(&self) -> (notification: Notification) {
        Notification { phase: NotificationPhase::Done }
    }
}

/// How far a wait that may block has got.
#[derive(Debug, Clone, Copy, PartialEq, Eq, Structural)]
pub enum BlockingPhase {
    /// Still polling, without the lock.
    Spinning(PollingWait),
    /// The lock is being acquired.
    Locking,
    /// The signal is being requested.
    Requesting,
    /// Looking for slots that were released before the publisher could see the request.
    Verifying,
    /// Asleep, or about to be.
    Sleeping,
    /// Looking for the slots that the publisher has signalled.
    Waking,
    /// The lock is being released.
    Unlocking,
    /// At the end.
    Done,
}

/// A wait that spins for a short time, then sleeps on a wait condition until the publisher signals.
#[derive(Debug, Clone, Copy, PartialEq, Eq, Structural)]
pub struct BlockingWait {
    pub min_available: usize,
    pub phase: BlockingPhase,
}

impl BlockingWait {
    /// The phase that follows, given how many slots are known to be available. With the lock held,
    /// the wait first makes its intent to sleep known, then verifies that no slot was published, and
    /// only then sleeps.
    pub open spec fn next_phase(self, available: int) -> BlockingPhase {
        let enough = available >= self.min_available;
        match self.phase {
            BlockingPhase::Spinning(spin) => if spin.action(available) is Done {
                if enough {
                    BlockingPhase::Done
                } else {
                    BlockingPhase::Locking
                }
            } else {
                BlockingPhase::Spinning(spin.after(available))
            },
            BlockingPhase::Locking => BlockingPhase::Requesting,
            BlockingPhase::Requesting => BlockingPhase::Verifying,
            BlockingPhase::Verifying => if enough {
                BlockingPhase::Unlocking
            } else {
                BlockingPhase::Sleeping
            },
            BlockingPhase::Sleeping => BlockingPhase::Waking,
            BlockingPhase::Waking => BlockingPhase::Unlocking,
            BlockingPhase::Unlocking => if enough {
                BlockingPhase::Done
            } else {
                BlockingPhase::Locking
            },
            BlockingPhase::Done => BlockingPhase::Done,
        }
    }

    /// What to do next.
    pub open spec fn action(self, available: int) -> WaitAction {
        match self.next_phase(available) {
            BlockingPhase::Spinning(_) => self.phase->Spinning_0.action(available),
            BlockingPhase::Locking => WaitAction::LockMutex,
            BlockingPhase::Requesting => WaitAction::RequestSignal,
            BlockingPhase::Verifying => WaitAction::Poll,
            BlockingPhase::Sleeping => WaitAction::WaitForSignal,
            BlockingPhase::Waking => WaitAction::Poll,
            BlockingPhase::Unlocking => WaitAction::UnlockMutex,
            BlockingPhase::Done => WaitAction::Done,
        }
    }

    /// Decides what to do next, given how many slots are known to be available.
    pub fn step(&mut self, available: usize) -> (action: WaitAction)
        ensures
            action == old(self).action(available as int),
            *final(self) == (BlockingWait {
                phase: old(self).next_phase(available as int),
                ..*old(self)
            }),
    {
        let enough: bool = available >= self.min_available;
        match self.phase {
            BlockingPhase::Spinning(mut spin) => {
                let action = spin.step(available);
                match action {
                    WaitAction::Done => {},
                    _ => {
                        self.phase = BlockingPhase::Spinning(spin);
                        return action;
                    },
                }
                if enough {
                    self.phase = BlockingPhase::Done;
                    WaitAction::Done
                } else {
                    // Transition to blocking on wait condition
                    self.phase = BlockingPhase::Locking;
                    WaitAction::LockMutex
                }
            },
            BlockingPhase::Locking => {
                // Communicate intent to wait to publisher
                self.phase = BlockingPhase::Requesting;
                WaitAction::RequestSignal
            },
            BlockingPhase::Requesting => {
                // Verify that no slot was published
                self.phase = BlockingPhase::Verifying;
                WaitAction::Poll
            },
            BlockingPhase::Verifying => if enough {
                self.phase = BlockingPhase::Unlocking;
                WaitAction::UnlockMutex
            } else {
                self.phase = BlockingPhase::Sleeping;
                WaitAction::WaitForSignal
            },
            BlockingPhase::Sleeping => {
                self.phase = BlockingPhase::Waking;
                WaitAction::Poll
            },
            BlockingPhase::Waking => {
                self.phase = BlockingPhase::Unlocking;
                WaitAction::UnlockMutex
            },
            BlockingPhase::Unlocking => if enough {
                self.phase = BlockingPhase::Done;
                WaitAction::Done
            } else {
                self.phase = BlockingPhase::Locking;
                WaitAction::LockMutex
            },
            BlockingPhase::Done => WaitAction::Done,
        }
    }
}

/// How far a notification has got.
#[derive(Debug, Clone, Copy, PartialEq, Eq, Structural)]
pub enum NotificationPhase {
    /// Nothing has been done yet.
    Start,
    /// The request for a signal is being looked at.
    Checking,
    /// The lock is being acquired.
    Locking,
    /// The sleepers are being woken up.
    Notifying,
    /// The lock is being released.
    Unlocking,
    /// Other tasks get a chance to run.
    Yielding,
    /// At the end.
    Done,
}

/// What the publisher does to wake up consumers that sleep until it signals.
#[derive(Debug, Clone, Copy, PartialEq, Eq, Structural)]
pub struct Notification {
    pub phase: NotificationPhase,
}

impl Notification {
    /// The phase that follows. If the last action was to look at the request for a signal, then
    /// `signal_needed` is what has been found.
    pub open spec fn next_phase(self, signal_needed: bool) -> NotificationPhase {
        match self.phase {
            NotificationPhase::Start => NotificationPhase::Checking,
            NotificationPhase::Checking => if signal_needed {
                NotificationPhase::Locking
            } else {
                NotificationPhase::Done
            },
            NotificationPhase::Locking => NotificationPhase::Notifying,
            NotificationPhase::Notifying => NotificationPhase::Unlocking,
            NotificationPhase::Unlocking => NotificationPhase::Yielding,
            NotificationPhase::Yielding => NotificationPhase::Done,
            NotificationPhase::Done => NotificationPhase::Done,
        }
    }

    /// What to do next.
    pub open spec fn action(self, signal_needed: bool) -> WaitAction {
        match self.next_phase(signal_needed) {
            NotificationPhase::Start => WaitAction::Done,
            NotificationPhase::Checking => WaitAction::CheckSignal,
            NotificationPhase::Locking => WaitAction::LockMutex,
            NotificationPhase::Notifying => WaitAction::NotifyAll,
            NotificationPhase::Unlocking => WaitAction::UnlockMutex,
            NotificationPhase::Yielding => WaitAction::YieldNow,
            NotificationPhase::Done => WaitAction::Done,
        }
    }

    /// Decides what to do next. If the last action was to look at the request for a signal, then
    /// `signal_needed` is what has been found.
    pub fn step(&mut self, signal_needed: bool) -> (action: WaitAction)
        ensures
            action == old(self).action(signal_needed),
            final(self).phase == old(self).next_phase(signal_needed),
    {
        match self.phase {
            NotificationPhase::Start => {
                // Check if there are any waiters, resetting the value to false
                self.phase = NotificationPhase::Checking;
                WaitAction::CheckSignal
            },
            NotificationPhase::Checking => if signal_needed {
                // If so, acquire the lock and signal on the wait condition
                self.phase = NotificationPhase::Locking;
                WaitAction::LockMutex
            } else {
                self.phase = NotificationPhase::Done;
                WaitAction::Done
            },
            NotificationPhase::Locking => {
                self.phase = NotificationPhase::Notifying;
                WaitAction::NotifyAll
            },
            NotificationPhase::Notifying => {
                self.phase = NotificationPhase::Unlocking;
                WaitAction::UnlockMutex
            },
            NotificationPhase::Unlocking => {
                // The lock will occasionally start executing the publisher's task when the consumer
                // unlocks it, starving the consumer. Doing this should cause the consumer to execute
                // again. It's mostly off the fast path, so performance shouldn't be hurt much.
                self.phase = NotificationPhase::Yielding;
                WaitAction::YieldNow
            },
            NotificationPhase::Yielding => {
                self.phase = NotificationPhase::Done;
                WaitAction::Done
            },
            NotificationPhase::Done => WaitAction::Done,
        }
    }
}

impl PublisherWait {
    /// The wait after the next step.
    pub open spec fn after(self, available: int) -> PublisherWait {
        match self {
            PublisherWait::Polling(wait) => PublisherWait::Polling(wait.after(available)),
            PublisherWait::Blocking(wait) => PublisherWait::Blocking(
                BlockingWait { phase: wait.next_phase(available), ..wait },
            ),
        }
    }

    /// What to do next.
    pub open spec fn action(self, available: int) -> WaitAction {
        match self {
            PublisherWait::Polling(wait) => wait.action(available),
            PublisherWait::Blocking(wait) => wait.action(available),
        }
    }

    /// Decides what to do next, given how many slots are known to be available.
    pub fn step(&mut self, available: usize) -> (action: WaitAction)
        ensures
            action == old(self).action(available as int),
            *final(self) == old(self).after(available as int),
    {
        match self {
            PublisherWait::Polling(wait) => wait.step(available),
            PublisherWait::Blocking(wait) => wait.step(available),
        }
    }
}

/// Spins for a short time, then sleeps on a wait condition until the publisher signals. This comes
/// at a cost, however: the publisher has to perform an extra read-modify-write operation on a shared
/// atomic variable every time it publishes new items. The operation should be uncontended, unless it
/// happens at the same time that a waiter is about to fall asleep.
///
/// The publisher executes the following steps whenever releasing items:
///  - Release items via an atomic operation with release semantics (before notifying the waiters)
///  - Check if there are any waiters using a read-modify-write operation on a shared variable (with
///    rel-acq semantics)
///  - If so, acquire the lock and signal on the wait condition
///
/// The consumer executes the following steps before going to sleep:
///  - Acquire the lock
///  - Express an intent to sleep using a read-modify-write operation (with rel-acq semantics) on the
///    shared variable
///  - Check for any newly released items
///  - If none, go to sleep, otherwise release the lock and finish waiting
///
/// That no consumer sleeps through a release is what `law_no_lost_wakeup` states.
#[derive(Debug, Clone, Copy, PartialEq, Eq, Structural)]
pub struct BlockingWaitStrategy {
    /// Number of times to wait before blocking
    pub max_spin_tries_publisher: usize,
    /// Number of times to wait for a consumer sequence before yielding
    pub max_spin_tries_consumer: usize,
}

impl Default for BlockingWaitStrategy {
    /// Calls Self::new()
    fn default() -> (strategy: Self)
        ensures
            strategy == (BlockingWaitStrategy {
                max_spin_tries_publisher: DEFAULT_MAX_SPIN_TRIES_PUBLISHER,
                max_spin_tries_consumer: DEFAULT_MAX_SPIN_TRIES_CONSUMER,
            }),
    {
        BlockingWaitStrategy::new()
    }
}

impl BlockingWaitStrategy {
    /// Create a `BlockingWaitStrategy` that will spin for the default number of times before
    /// blocking.
    pub fn new() -> (strategy: BlockingWaitStrategy)
        ensures
            strategy == (BlockingWaitStrategy {
                max_spin_tries_publisher: DEFAULT_MAX_SPIN_TRIES_PUBLISHER,
                max_spin_tries_consumer: DEFAULT_MAX_SPIN_TRIES_CONSUMER,
            }),
    {
        BlockingWaitStrategy::new_with_retry_count(
            DEFAULT_MAX_SPIN_TRIES_PUBLISHER,
            DEFAULT_MAX_SPIN_TRIES_CONSUMER,
        )
    }

    /// Create a `BlockingWaitStrategy`, explicitly specifying how many times to spin before
    /// blocking.
    ///
    /// # Arguments
    ///
    /// See `YieldWaitStrategy::new_with_retry_count` for a more detailed description of what the
    /// arguments mean. This wait strategy will block instead of yielding when the maximum number of
    /// retries is reached while waiting for the publisher.
    pub fn new_with_retry_count(
        max_spin_tries_publisher: usize,
        max_spin_tries_consumer: usize,
    ) -> (strategy: BlockingWaitStrategy)
        ensures
            strategy == (BlockingWaitStrategy {
                max_spin_tries_publisher,
                max_spin_tries_consumer,
            }),
    {
        BlockingWaitStrategy { max_spin_tries_publisher, max_spin_tries_consumer }
    }

    /// Returns a description of the strategy.
    pub fn describe(&self) -> (description: String)
        ensures
            description@ == "BlockingWaitStrategy{"@ + tries_text(
                self.max_spin_tries_publisher,
                self.max_spin_tries_consumer,
            ),
    {
        String::from_str("BlockingWaitStrategy{").concat(
            describe_tries(self.max_spin_tries_publisher, self.max_spin_tries_consumer).as_str(),
        )
    }
}

impl PollingWaitStrategy for BlockingWaitStrategy {
    open spec fn dependency_backoff(&self) -> Backoff {
        Backoff::SpinThenYield(self.max_spin_tries_consumer)
    }

    fn wait_for_dependencies(&self, min_available: usize) -> (wait: PollingWait) {
        let w = YieldWaitStrategy::new_with_retry_count(
            self.max_spin_tries_publisher,
            self.max_spin_tries_consumer,
        );
        w.wait_for_dependencies(min_available)
    }
}

impl NotificationWaitStrategy for BlockingWaitStrategy {
    open spec fn publisher_wait(&self, min_available: usize) -> PublisherWait {
        PublisherWait::Blocking(
            BlockingWait {
                min_available,
                phase: BlockingPhase::Spinning(
                    PollingWait {
                        min_available,
                        max_tries: Some(self.max_spin_tries_publisher),
                        backoff: Backoff::Spin,
                        tries: 0,
                        polled: false,
                    },
                ),
            },
        )
    }

    open spec fn signals(&self) -> bool {
        true
    }

    fn wait_for_publisher(&self, min_available: usize) -> (wait: PublisherWait) {
        let spin = PollingWait::spin_for_pollable_with_retries(
            min_available,
            Some(self.max_spin_tries_publisher),
            Backoff::Spin,
        );
        PublisherWait::Blocking(
            BlockingWait { min_available, phase: BlockingPhase::Spinning(spin) },
        )
    }

    fn notify_all_waiters(&self) -> (notification: Notification) {
        assert(self.signals());
        Notification { phase: NotificationPhase::Start }
    }
}

/// Default timeout, in milliseconds, after which publishers will allocate a new ring buffer instead
/// of continuing to wait. This value was chosen with a strong preference for avoiding false
/// positives, even if it means waiting a bit longer in cases where the caller has created a
/// deadlock.
pub const DEFAULT_RESIZE_TIMEOUT: u64 = 500;

/// A wait strategy that acts like [`BlockingWaitStrategy`], except that the publisher gives up after
/// a specified length of time and instead allocates a larger buffer to publish items into.
#[derive(Debug, Clone, Copy, PartialEq, Eq, Structural)]
pub struct TimeoutResizeWaitStrategy {
    /// Time (in milliseconds) that the publisher should wait for the pipeline to start moving before
    /// assuming that there is a deadlock and allocating a larger buffer.
    pub timeout: u64,
    /// Fallback wait strategy. See the constructor documentation for details about how it's used.
    pub wait_strategy: BlockingWaitStrategy,
}

impl TimeoutResizeWaitStrategy {
    /// Construct a new TimeoutResizeWaitStrategy, using `timeout_msecs` to decide when to resize, and
    /// `wait_strategy` to implement the consumer waiting. The wait strategy is also used to
    /// configure how long the publisher's task should spin when waiting for consumers, before
    /// backing off to yielding.
    pub fn new_with_timeout(timeout_msecs: u64, wait_strategy: BlockingWaitStrategy) -> (strategy:
        TimeoutResizeWaitStrategy)
        ensures
            strategy == (TimeoutResizeWaitStrategy { timeout: timeout_msecs, wait_strategy }),
    {
        TimeoutResizeWaitStrategy { timeout: timeout_msecs, wait_strategy }
    }

    /// Returns a description of the strategy.
    pub fn describe(&self) -> (description: String)
        ensures
            description@ == "TimeoutResizeWaitStrategy{t: "@ + text::digits_of(self.timeout as nat)
                + ", "@ + tries_text(
                self.wait_strategy.max_spin_tries_publisher,
                self.wait_strategy.max_spin_tries_consumer,
            ),
    {
        String::from_str("TimeoutResizeWaitStrategy{t: ").concat(
            decimal(self.timeout).as_str(),
        ).concat(", ").concat(
            describe_tries(
                self.wait_strategy.max_spin_tries_publisher,
                self.wait_strategy.max_spin_tries_consumer,
            ).as_str(),
        )
    }

    /// Similar to [`wait_for_dependencies`](PollingWaitStrategy::wait_for_dependencies), except that
    /// it may finish before the requested number of slots are available. If this happens, the caller
    /// can reallocate a larger buffer and start publishing items into that buffer instead of waiting.
    pub fn try_wait_for_consumers(&self, min_available: usize) -> (wait: ResizeWait)
        ensures
            wait == (ResizeWait {
                min_available,
                timeout: self.timeout,
                max_spin_tries: self.wait_strategy.max_spin_tries_consumer,
                end_time: 0,
                previous_available: 0,
                phase: ResizePhase::Start,
            }),
    {
        ResizeWait {
            min_available,
            timeout: self.timeout,
            max_spin_tries: self.wait_strategy.max_spin_tries_consumer,
            end_time: 0,
            previous_available: 0,
            phase: ResizePhase::Start,
        }
    }
}

impl PollingWaitStrategy for TimeoutResizeWaitStrategy {
    open spec fn dependency_backoff(&self) -> Backoff {
        self.wait_strategy.dependency_backoff()
    }

    fn wait_for_dependencies(&self, min_available: usize) -> (wait: PollingWait) {
        self.wait_strategy.wait_for_dependencies(min_available)
    }
}

impl NotificationWaitStrategy for TimeoutResizeWaitStrategy {
    open spec fn publisher_wait(&self, min_available: usize) -> PublisherWait {
        self.wait_strategy.publisher_wait(min_available)
    }

    open spec fn signals(&self) -> bool {
        true
    }

    fn wait_for_publisher(&self, min_available: usize) -> (wait: PublisherWait) {
        // Consumers wait as normal
        self.wait_strategy.wait_for_publisher(min_available)
    }

    fn notify_all_waiters(&self) -> (notification: Notification) {
        assert(self.signals() && self.wait_strategy.signals());
        self.wait_strategy.notify_all_waiters()
    }
}

/// How far a publisher's wait with a time limit has got.
#[derive(Debug, Clone, Copy, PartialEq, Eq, Structural)]
pub enum ResizePhase {
    /// Nothing has been done yet.
    Start,
    /// The clock is being read, to set the time limit.
    Starting,
    /// Polling a number of times, whatever the clock says.
    Spinning(PollingWait),
    /// The clock is being read, to see whether the limit has been reached.
    Timing,
    /// Looking for slots.
    Polling,
    /// The clock is being read, to set the time limit anew.
    Restarting,
    /// Other tasks get a chance to run.
    Yielding,
    /// At the end.
    Done,
}

/// A publisher's wait for consumers that ends when enough slots are available, or when the pipeline
/// has not moved for some time.
#[derive(Debug, Clone, Copy, PartialEq, Eq, Structural)]
pub struct ResizeWait {
    pub min_available: usize,
    /// How long to wait without any progress, in milliseconds.
    pub timeout: u64,
    pub max_spin_tries: usize,
    /// When to give up, in nanoseconds of the clock.
    pub end_time: u128,
    /// How many slots were available when the time limit was set.
    pub previous_available: usize,
    pub phase: ResizePhase,
}

impl ResizeWait {
    /// The time at which to give up if there has been progress just now.
    pub open spec fn limit(self, now: int) -> int {
        now + self.timeout * 1_000_000
    }

    /// The wait after the polling that does not depend on the clock has been asked what to do.
    pub open spec fn after_spin(self, spin: PollingWait, available: int) -> ResizeWait {
        if !(spin.action(available) is Done) {
            ResizeWait { phase: ResizePhase::Spinning(spin.after(available)), ..self }
        } else if available >= self.min_available {
            ResizeWait { phase: ResizePhase::Done, ..self }
        } else {
            ResizeWait {
                phase: ResizePhase::Timing,
                previous_available: available as usize,
                ..self
            }
        }
    }

    /// The wait after the next step. If the last action was to read the clock, then `now` is the
    /// time that has been read.
    pub open spec fn after(self, available: int, now: int) -> ResizeWait {
        let enough = available >= self.min_available;
        match self.phase {
            ResizePhase::Start => ResizeWait {
                phase: if enough {
                    ResizePhase::Done
                } else {
                    ResizePhase::Starting
                },
                ..self
            },
            ResizePhase::Starting => ResizeWait {
                end_time: self.limit(now) as u128,
                ..self
            }.after_spin(self.first_spin(), available),
            ResizePhase::Spinning(spin) => self.after_spin(spin, available),
            ResizePhase::Timing => ResizeWait {
                phase: if now < self.end_time {
                    ResizePhase::Polling
                } else {
                    ResizePhase::Done
                },
                ..self
            },
            ResizePhase::Polling => if enough {
                ResizeWait { phase: ResizePhase::Done, ..self }
            } else if self.previous_available != available {
                ResizeWait {
                    phase: ResizePhase::Restarting,
                    previous_available: available as usize,
                    ..self
                }
            } else {
                ResizeWait { phase: ResizePhase::Yielding, ..self }
            },
            ResizePhase::Restarting => ResizeWait {
                phase: ResizePhase::Yielding,
                end_time: self.limit(now) as u128,
                ..self
            },
            ResizePhase::Yielding => ResizeWait { phase: ResizePhase::Timing, ..self },
            ResizePhase::Done => self,
        }
    }

    /// The polling that does not depend on the clock, before it begins.
    pub open spec fn first_spin(self) -> PollingWait {
        PollingWait {
            min_available: self.min_available,
            max_tries: Some(self.max_spin_tries),
            backoff: Backoff::Spin,
            tries: 0,
            polled: false,
        }
    }

    /// What to do next.
    pub open spec fn action(self, available: int, now: int) -> WaitAction {
        match self.after(available, now).phase {
            ResizePhase::Start => WaitAction::Done,
            ResizePhase::Starting => WaitAction::ReadClock,
            ResizePhase::Spinning(_) => if self.phase is Spinning {
                self.phase->Spinning_0.action(available)
            } else {
                self.first_spin().action(available)
            },
            ResizePhase::Timing => WaitAction::ReadClock,
            ResizePhase::Polling => WaitAction::Poll,
            ResizePhase::Restarting => WaitAction::ReadClock,
            ResizePhase::Yielding => WaitAction::YieldNow,
            ResizePhase::Done => WaitAction::Done,
        }
    }

    /// The time at which to give up if there has been progress at the time `now`.
    fn deadline(&self, now: u64) -> (end_time: u128)
        ensures
            end_time == self.limit(now as int),
    {
        assert(0 <= self.timeout * 1_000_000 <= u64::MAX * 1_000_000);
        now as u128 + self.timeout as u128 * 1_000_000
    }

    /// Asks the polling that does not depend on the clock what to do.
    fn spin_step(&mut self, wait: PollingWait, available: usize) -> (action: WaitAction)
        ensures
            *final(self) == old(self).after_spin(wait, available as int),
            action == (if final(self).phase is Spinning {
                wait.action(available as int)
            } else if final(self).phase is Done {
                WaitAction::Done
            } else {
                WaitAction::ReadClock
            }),
    {
        let mut spin = wait;
        let action = spin.step(available);
        match action {
            WaitAction::Done => {},
            _ => {
                self.phase = ResizePhase::Spinning(spin);
                return action;
            },
        }
        if available >= self.min_available {
            self.phase = ResizePhase::Done;
            WaitAction::Done
        } else {
            self.previous_available = available;
            self.phase = ResizePhase::Timing;
            WaitAction::ReadClock
        }
    }

    /// Decides what to do next, given how many slots are known to be available. If the last action
    /// was to read the clock, then `now` is the time that has been read, in nanoseconds.
    ///
    /// The wait gives up only when the clock has been read and shows that the limit has been reached.
    pub fn step(&mut self, available: usize, now: u64) -> (action: WaitAction)
        ensures
            action == old(self).action(available as int, now as int),
            *final(self) == old(self).after(available as int, now as int),
            !(old(self).phase is Done) && action is Done && available < old(self).min_available
                ==> old(self).phase is Timing && old(self).end_time <= now,
    {
        let enough: bool = available >= self.min_available;
        match self.phase {
            ResizePhase::Start => if enough {
                self.phase = ResizePhase::Done;
                WaitAction::Done
            } else {
                self.phase = ResizePhase::Starting;
                WaitAction::ReadClock
            },
            ResizePhase::Starting => {
                // Not enough slots are available. Spin up to max_spin_tries times, then yield
                // repeatedly until either the items become available, or the timeout is reached.
                self.end_time = self.deadline(now);
                let spin = PollingWait::spin_for_pollable_with_retries(
                    self.min_available,
                    Some(self.max_spin_tries),
                    Backoff::Spin,
                );
                self.spin_step(spin, available)
            },
            ResizePhase::Spinning(spin) => self.spin_step(spin, available),
            ResizePhase::Timing => if (now as u128) < self.end_time {
                self.phase = ResizePhase::Polling;
                WaitAction::Poll
            } else {
                self.phase = ResizePhase::Done;
                WaitAction::Done
            },
            ResizePhase::Polling => if enough {
                self.phase = ResizePhase::Done;
                WaitAction::Done
            } else if self.previous_available != available {
                // Reset the timeout if the pipeline has made progress. There should only be
                // reallocations if it looks like the pipeline has deadlocked.
                self.previous_available = available;
                self.phase = ResizePhase::Restarting;
                WaitAction::ReadClock
            } else {
                self.phase = ResizePhase::Yielding;
                WaitAction::YieldNow
            },
            ResizePhase::Restarting => {
                self.end_time = self.deadline(now);
                self.phase = ResizePhase::Yielding;
                WaitAction::YieldNow
            },
            ResizePhase::Yielding => {
                self.phase = ResizePhase::Timing;
                WaitAction::ReadClock
            },
            ResizePhase::Done => WaitAction::Done,
        }
    }
}

/// How a consumer waits for slots: first for the publisher to release them, then for the stages in
/// between to do so.
#[derive(Debug, Clone, Copy, PartialEq, Eq, Structural)]
pub enum ConsumerWait {
    ForPublisher { publisher: PublisherWait, dependencies: PollingWait },
    ForDependencies { dependencies: PollingWait },
}

impl ConsumerWait {
    /// The wait for the stages in between.
    pub open spec fn last(self) -> PollingWait {
        match self {
            ConsumerWait::ForPublisher { publisher, dependencies } => dependencies,
            ConsumerWait::ForDependencies { dependencies } => dependencies,
        }
    }

    /// Whether the publisher has been found to have released the slots, or the wait for it is over
    /// for another reason.
    pub open spec fn past_publisher(self, publisher_available: int) -> bool {
        match self {
            ConsumerWait::ForPublisher { publisher, dependencies } => publisher.action(
                publisher_available,
            ) is Done,
            ConsumerWait::ForDependencies { dependencies } => true,
        }
    }

    /// What to do next.
    pub open spec fn action(self, publisher_available: int, available: int) -> WaitAction {
        if self.past_publisher(publisher_available) {
            self.last().action(available)
        } else {
            self->publisher.action(publisher_available)
        }
    }

    /// The wait after the next step.
    pub open spec fn after(self, publisher_available: int, available: int) -> ConsumerWait {
        if self.past_publisher(publisher_available) {
            ConsumerWait::ForDependencies { dependencies: self.last().after(available) }
        } else {
            ConsumerWait::ForPublisher {
                publisher: self->publisher.after(publisher_available),
                dependencies: self.last(),
            }
        }
    }

    /// Wait for a number of slots to be available.
    pub fn wait_for_slots<W: NotificationWaitStrategy>(wait_strategy: &W, min_available: usize) -> (
    wait: ConsumerWait)
        ensures
            wait == (ConsumerWait::ForPublisher {
                publisher: wait_strategy.publisher_wait(min_available),
                dependencies: PollingWait {
                    min_available,
                    max_tries: None::<usize>,
                    backoff: wait_strategy.dependency_backoff(),
                    tries: 0,
                    polled: false,
                },
            }),
    {
        ConsumerWait::ForPublisher {
            publisher: wait_strategy.wait_for_publisher(min_available),
            dependencies: wait_strategy.wait_for_dependencies(min_available),
        }
    }

    /// Returns whether it is the publisher that is to be looked at when polling.
    pub fn polls_publisher(&self) -> (result: bool)
        ensures
            result == (self is ForPublisher),
    {
        matches!(self, ConsumerWait::ForPublisher { .. })
    }

    /// Decides what to do next, given how many slots the publisher is known to have released, and how
    /// many of them are known to be available.
    pub fn step(&mut self, publisher_available: usize, available: usize) -> (action: WaitAction)
        ensures
            action == old(self).action(publisher_available as int, available as int),
            *final(self) == old(self).after(publisher_available as int, available as int),
    {
        match self {
            ConsumerWait::ForPublisher { publisher, dependencies } => {
                let mut wait = *dependencies;
                let action = publisher.step(publisher_available);
                match action {
                    WaitAction::Done => {},
                    _ => {
                        return action;
                    },
                }
                let last_action = wait.step(available);
                *self = ConsumerWait::ForDependencies { dependencies: wait };
                last_action
            },
            ConsumerWait::ForDependencies { dependencies } => dependencies.step(available),
        }
    }
}

/// A wait without a limit on its attempts ends if and only if the slots are available.
pub proof fn law_unlimited_wait_ends_when_available(wait: PollingWait, available: int)
    requires
        wait.max_tries is None,
    ensures
        wait.action(available) is Done <==> available >= wait.min_available,
        wait.after(available).max_tries is None,
{
    match wait.backoff {
        Backoff::Spin => {},
        Backoff::SpinThenYield(n) => {},
    }
}

/// A consumer's wait ends only when the slots that it waits for are available.
pub proof fn law_consumer_wait_ends_when_available(
    wait: ConsumerWait,
    publisher_available: int,
    available: int,
)
    requires
        wait.last().max_tries is None,
        wait.action(publisher_available, available) is Done,
    ensures
        available >= wait.last().min_available,
{
    law_unlimited_wait_ends_when_available(wait.last(), available);
}

/// How many attempts a wait makes, given what is known to be available at each step.
pub open spec fn attempts(wait: PollingWait, readings: Seq<int>) -> int
    decreases readings.len(),
{
    if readings.len() == 0 {
        0
    } else {
        attempts(wait.after(readings[0]), readings.skip(1)) + (if wait.action(readings[0]) is Poll {
            1int
        } else {
            0int
        })
    }
}

/// A wait with a limit on its attempts never makes more.
pub proof fn law_attempts_are_limited(wait: PollingWait, readings: Seq<int>)
    requires
        wait.max_tries is Some,
        wait.tries <= wait.max_tries->Some_0,
    ensures
        attempts(wait, readings) <= wait.max_tries->Some_0 - wait.tries,
    decreases readings.len(),
{
    if readings.len() > 0 {
        match wait.backoff {
            Backoff::Spin => {},
            Backoff::SpinThenYield(n) => {},
        }
        law_attempts_are_limited(wait.after(readings[0]), readings.skip(1));
    }
}

/// A wait with a time limit that sees progress gets the whole time again, from the time that is read
/// next.
pub proof fn law_progress_restarts_time_limit(
    wait: ResizeWait,
    available: int,
    earlier: int,
    now: u64,
)
    requires
        wait.phase is Polling,
        0 <= available < wait.min_available,
        available != wait.previous_available,
    ensures
        wait.action(available, earlier) is ReadClock,
        wait.after(available, earlier).action(available, now as int) is YieldNow,
        wait.after(available, earlier).after(available, now as int).end_time == now + wait.timeout
            * 1_000_000,
        wait.after(available, earlier).after(available, now as int).previous_available == available,
{
    assert(0 <= wait.timeout * 1_000_000 <= u64::MAX * 1_000_000);
}

/// Without progress, a wait with a time limit ends as soon as a reading of the clock shows that the
/// limit has been reached, and not before.
pub proof fn law_time_limit_ends_wait(wait: ResizeWait, available: int, now: int)
    requires
        wait.phase is Timing,
    ensures
        wait.action(available, now) is Done <==> wait.end_time <= now,
{
}

/// How two steps of a wait that polls follow each other. Enough slots end it, whatever came before; an
/// attempt in vain is followed by a pause, and a pause by another attempt, until there have been as many
/// as are allowed. Every attempt counts.
pub proof fn law_attempts_and_pauses_alternate(wait: PollingWait, first: int, second: int)
    ensures
        ({
            let action = wait.action(first);
            let next = wait.after(first);
            let then = next.action(second);
            &&& next.min_available == wait.min_available
            &&& next.max_tries == wait.max_tries
            &&& next.backoff == wait.backoff
            &&& wait.tries < usize::MAX ==> next.tries - wait.tries == (if action is Poll {
                1int
            } else {
                0int
            })
            &&& wait.tries == usize::MAX ==> next.tries == usize::MAX
            &&& action is Done || action is Poll || action is SpinLoop || action is YieldNow
            &&& action is Done ==> next == wait
            &&& first >= wait.min_available ==> action is Done
            &&& second >= wait.min_available ==> then is Done
            &&& first < wait.min_available && action is Done ==> wait.max_tries is Some && wait.tries
                >= wait.max_tries->Some_0
            &&& action is Poll && second < wait.min_available ==> match wait.backoff {
                Backoff::Spin => then is SpinLoop,
                Backoff::SpinThenYield(spins) => if next.tries < spins {
                    then is SpinLoop
                } else {
                    then is YieldNow
                },
            }
            &&& (action is SpinLoop || action is YieldNow) && second < wait.min_available ==> if (
            wait.max_tries is Some && wait.tries >= wait.max_tries->Some_0) {
                then is Done
            } else {
                then is Poll
            }
        }),
{
    match wait.backoff {
        Backoff::Spin => {},
        Backoff::SpinThenYield(n) => {},
    }
}

/// A wait that polls begins with an attempt, unless there are enough slots, or no attempt is allowed.
pub proof fn law_polling_begins_with_an_attempt(wait: PollingWait, available: int)
    requires
        wait.tries == 0,
        !wait.polled,
    ensures
        wait.action(available) == (if available < wait.min_available && wait.max_tries != Some(
            0usize,
        ) {
            WaitAction::Poll
        } else {
            WaitAction::Done
        }),
{
}

/// A wait after a number of attempts in vain, each with the pause that follows it, given what was known
/// to be available at each of them.
pub open spec fn tried(wait: PollingWait, readings: Seq<int>) -> PollingWait
    decreases readings.len(),
{
    if readings.len() == 0 {
        wait
    } else {
        tried(wait, readings.drop_last()).after(readings.last()).after(readings.last())
    }
}

/// What a wait does after its last attempt in vain.
pub open spec fn pause_after(wait: PollingWait, readings: Seq<int>) -> WaitAction {
    tried(wait, readings.drop_last()).after(readings.last()).action(readings.last())
}

/// What becomes of a wait by attempts in vain.
proof fn lemma_tried(wait: PollingWait, readings: Seq<int>)
    requires
        wait.tries == 0,
        !wait.polled,
        readings.len() <= usize::MAX,
        wait.max_tries is Some ==> readings.len() <= wait.max_tries->Some_0,
        forall|i: int| 0 <= i < readings.len() ==> #[trigger] readings[i] < wait.min_available,
    ensures
        tried(wait, readings) == (PollingWait { tries: readings.len() as usize, ..wait }),
    decreases readings.len(),
{
    if readings.len() > 0 {
        lemma_tried(wait, readings.drop_last());
        assert(readings.last() < wait.min_available);
        law_attempts_and_pauses_alternate(
            tried(wait, readings.drop_last()),
            readings.last(),
            readings.last(),
        );
    }
}

/// The pause after an attempt in vain lets other tasks run if and only if there have been as many
/// attempts as the strategy gives for spinning: never for the strategy that only spins, and counted
/// apart for the publisher and for other consumers.
pub proof fn law_strategies_spin_before_they_yield(
    yielding: YieldWaitStrategy,
    blocking: BlockingWaitStrategy,
    resizing: TimeoutResizeWaitStrategy,
    min_available: usize,
    readings: Seq<int>,
)
    requires
        0 < readings.len() <= usize::MAX,
        forall|i: int| 0 <= i < readings.len() ==> #[trigger] readings[i] < min_available,
    ensures
        SpinWaitStrategy.publisher_wait(min_available) is Polling,
        pause_after(
            SpinWaitStrategy.publisher_wait(min_available)->Polling_0,
            readings,
        ) is SpinLoop,
        yielding.publisher_wait(min_available) is Polling,
        pause_after(yielding.publisher_wait(min_available)->Polling_0, readings) is YieldNow
            <==> readings.len() >= yielding.max_spin_tries_publisher,
        pause_after(for_dependencies(&SpinWaitStrategy, min_available), readings) is SpinLoop,
        pause_after(for_dependencies(&yielding, min_available), readings) is YieldNow
            <==> readings.len() >= yielding.max_spin_tries_consumer,
        pause_after(for_dependencies(&blocking, min_available), readings) is YieldNow
            <==> readings.len() >= blocking.max_spin_tries_consumer,
        pause_after(for_dependencies(&resizing, min_available), readings) is YieldNow
            <==> readings.len() >= resizing.wait_strategy.max_spin_tries_consumer,
{
    let publisher = yielding.publisher_wait(min_available)->Polling_0;
    let spinning = SpinWaitStrategy.publisher_wait(min_available)->Polling_0;
    assert(resizing.dependency_backoff() == resizing.wait_strategy.dependency_backoff());
    lemma_tried(publisher, readings.drop_last());
    lemma_tried(spinning, readings.drop_last());
    lemma_tried(for_dependencies(&SpinWaitStrategy, min_available), readings.drop_last());
    lemma_tried(for_dependencies(&yielding, min_available), readings.drop_last());
    lemma_tried(for_dependencies(&blocking, min_available), readings.drop_last());
    lemma_tried(for_dependencies(&resizing, min_available), readings.drop_last());
    assert(readings.last() < min_available);
}

/// How a strategy waits for stages other than the publisher, before the wait begins.
pub open spec fn for_dependencies<W: PollingWaitStrategy>(
    strategy: &W,
    min_available: usize,
) -> PollingWait {
    PollingWait {
        min_available,
        max_tries: None::<usize>,
        backoff: strategy.dependency_backoff(),
        tries: 0,
        polled: false,
    }
}

/// A wait by blocking has not mixed up how many slots it needs.
pub open spec fn consistent(wait: BlockingWait) -> bool {
    wait.phase is Spinning ==> wait.phase->Spinning_0.min_available == wait.min_available
}

/// The wait after the same number of slots has been known to be available for some steps.
pub open spec fn blocked(wait: BlockingWait, available: int, steps: nat) -> BlockingWait
    decreases steps,
{
    if steps == 0 {
        wait
    } else {
        blocked(
            BlockingWait { phase: wait.next_phase(available), ..wait },
            available,
            (steps - 1) as nat,
        )
    }
}

/// A wait by blocking that does not have the lock ends if and only if enough slots are known to be
/// available, any larger number included; with the lock it never ends. From wherever it is, it ends
/// after at most four steps at which enough are known.
pub proof fn law_blocking_ends_when_available(wait: BlockingWait, available: int)
    requires
        consistent(wait),
    ensures
        consistent(BlockingWait { phase: wait.next_phase(available), ..wait }),
        wait.phase is Spinning || wait.phase is Unlocking ==> (wait.action(available) is Done
            <==> available >= wait.min_available),
        wait.phase is Done ==> wait.action(available) is Done,
        !(wait.phase is Spinning || wait.phase is Unlocking || wait.phase is Done) ==> !(wait.action(
            available,
        ) is Done),
        wait.action(available) is Done <==> wait.next_phase(available) is Done,
        available >= wait.min_available ==> blocked(wait, available, 4).phase is Done,
{
    let first = BlockingWait { phase: wait.next_phase(available), ..wait };
    let second = BlockingWait { phase: first.next_phase(available), ..first };
    let third = BlockingWait { phase: second.next_phase(available), ..second };
    let fourth = BlockingWait { phase: third.next_phase(available), ..third };
    assert(blocked(fourth, available, 0) == fourth);
    assert(blocked(third, available, 1) == fourth);
    assert(blocked(second, available, 2) == fourth);
    assert(blocked(first, available, 3) == fourth);
    assert(blocked(wait, available, 4) == fourth);
    match wait.phase {
        BlockingPhase::Spinning(spin) => {
            law_attempts_and_pauses_alternate(spin, available, available);
        },
        _ => {},
    }
}

/// A wait by blocking polls as its strategy gives before it takes the lock: as long as fewer attempts
/// have been made, an attempt follows, and then the lock, if all of them have been in vain.
pub proof fn law_blocking_spins_first(
    strategy: BlockingWaitStrategy,
    min_available: usize,
    readings: Seq<int>,
    available: int,
)
    requires
        readings.len() <= strategy.max_spin_tries_publisher,
        forall|i: int| 0 <= i < readings.len() ==> #[trigger] readings[i] < min_available,
        available < min_available,
    ensures
        strategy.publisher_wait(min_available) is Blocking,
        ({
            let wait = strategy.publisher_wait(min_available)->Blocking_0;
            let spin = wait.phase->Spinning_0;
            let later = BlockingWait {
                phase: BlockingPhase::Spinning(tried(spin, readings)),
                ..wait
            };
            let polling = BlockingWait { phase: later.next_phase(available), ..wait };
            &&& wait.phase is Spinning
            &&& wait.min_available == min_available
            &&& consistent(wait)
            &&& later.action(available) == (if readings.len() < strategy.max_spin_tries_publisher {
                WaitAction::Poll
            } else {
                WaitAction::LockMutex
            })
            &&& readings.len() < strategy.max_spin_tries_publisher ==> polling.action(
                available,
            ) is SpinLoop && polling.next_phase(available) == BlockingPhase::Spinning(
                tried(spin, readings.push(available)),
            )
        }),
{
    let wait = strategy.publisher_wait(min_available)->Blocking_0;
    let spin = wait.phase->Spinning_0;
    lemma_tried(spin, readings);
    if readings.len() < strategy.max_spin_tries_publisher {
        assert(readings.push(available).drop_last() =~= readings);
        law_attempts_and_pauses_alternate(tried(spin, readings), available, available);
    }
}

/// What a wait by blocking does with the lock. Having taken it, it asks for a signal, looks, and sleeps
/// if and only if too few slots are there; when it wakes up, it looks again. Then it gives the lock
/// back, and takes it anew if and only if there are still too few.
pub proof fn law_blocking_looks_between_request_and_sleep(wait: BlockingWait, readings: Seq<int>)
    requires
        readings.len() == 7,
        wait.action(readings[0]) is LockMutex,
    ensures
        ({
            let w1 = BlockingWait { phase: wait.next_phase(readings[0]), ..wait };
            let w2 = BlockingWait { phase: w1.next_phase(readings[1]), ..wait };
            let w3 = BlockingWait { phase: w2.next_phase(readings[2]), ..wait };
            let w4 = BlockingWait { phase: w3.next_phase(readings[3]), ..wait };
            let w5 = BlockingWait { phase: w4.next_phase(readings[4]), ..wait };
            let w6 = BlockingWait { phase: w5.next_phase(readings[5]), ..wait };
            &&& w1.action(readings[1]) is RequestSignal
            &&& w2.action(readings[2]) is Poll
            &&& if readings[3] >= wait.min_available {
                &&& w3.action(readings[3]) is UnlockMutex
                &&& w4.action(readings[4]) == (if readings[4] >= wait.min_available {
                    WaitAction::Done
                } else {
                    WaitAction::LockMutex
                })
            } else {
                &&& w3.action(readings[3]) is WaitForSignal
                &&& w4.action(readings[4]) is Poll
                &&& w5.action(readings[5]) is UnlockMutex
                &&& w6.action(readings[6]) == (if readings[6] >= wait.min_available {
                    WaitAction::Done
                } else {
                    WaitAction::LockMutex
                })
            }
        }),
{
    match wait.phase {
        BlockingPhase::Spinning(spin) => {
            law_attempts_and_pauses_alternate(spin, readings[0], readings[0]);
        },
        _ => {},
    }
}

/// What a notification does: it looks at the request for a signal, and only if there is one, it takes
/// the lock, wakes everyone up, gives the lock back, and lets other tasks run.
pub proof fn law_notification_wakes_up_on_request(
    notification: Notification,
    found: bool,
    rest: Seq<bool>,
)
    requires
        owes(notification, true),
        rest.len() == 5,
    ensures
        ({
            let first = Notification { phase: notification.next_phase(rest[0]) };
            let w1 = Notification { phase: first.next_phase(found) };
            let w2 = Notification { phase: w1.next_phase(rest[1]) };
            let w3 = Notification { phase: w2.next_phase(rest[2]) };
            let w4 = Notification { phase: w3.next_phase(rest[3]) };
            &&& notification.action(rest[0]) is CheckSignal
            &&& found ==> {
                &&& first.action(found) is LockMutex
                &&& w1.action(rest[1]) is NotifyAll
                &&& w2.action(rest[2]) is UnlockMutex
                &&& w3.action(rest[3]) is YieldNow
                &&& w4.action(rest[4]) is Done
            }
            &&& !found ==> first.action(found) is Done && w1.action(rest[1]) is Done
        }),
{
}

/// Only the strategies whose consumers may sleep make the publisher notify them; for the others, a
/// notification ends at once.
pub proof fn law_only_sleepers_are_notified(
    yielding: YieldWaitStrategy,
    blocking: BlockingWaitStrategy,
    resizing: TimeoutResizeWaitStrategy,
    min_available: usize,
    notification: Notification,
    found: bool,
)
    ensures
        blocking.signals() && blocking.publisher_wait(min_available) is Blocking,
        resizing.signals() && resizing.publisher_wait(min_available)
            == resizing.wait_strategy.publisher_wait(min_available),
        !yielding.signals() && !SpinWaitStrategy.signals(),
        owes(notification, false) ==> notification.action(found) is Done,
{
    assert(blocking.signals());
    assert(resizing.signals());
}

/// How many slots a wait for the publisher needs.
pub open spec fn needed(wait: PublisherWait) -> int {
    match wait {
        PublisherWait::Polling(wait) => wait.min_available as int,
        PublisherWait::Blocking(wait) => wait.min_available as int,
    }
}

/// A wait for the publisher that goes on as long as there are too few slots.
pub open spec fn lasting(wait: PublisherWait) -> bool {
    match wait {
        PublisherWait::Polling(wait) => wait.max_tries is None,
        PublisherWait::Blocking(wait) => consistent(wait) && !(wait.phase is Done),
    }
}

/// A wait for the publisher does what polling, or blocking, does. While there are too few slots it goes
/// on.
pub proof fn law_publisher_wait_goes_on(wait: PublisherWait, available: int)
    requires
        lasting(wait),
    ensures
        match wait {
            PublisherWait::Polling(polling) => wait.action(available) == polling.action(available)
                && wait.after(available) == PublisherWait::Polling(polling.after(available)),
            PublisherWait::Blocking(blocking) => wait.action(available) == blocking.action(available)
                && wait.after(available) == PublisherWait::Blocking(
                BlockingWait { phase: blocking.next_phase(available), ..blocking },
            ),
        },
        needed(wait.after(available)) == needed(wait),
        wait.action(available) is Done ==> available >= needed(wait),
        wait is Polling && available >= needed(wait) ==> wait.action(available) is Done,
        available < needed(wait) ==> lasting(wait.after(available)),
{
    match wait {
        PublisherWait::Polling(polling) => {
            law_attempts_and_pauses_alternate(polling, available, available);
        },
        PublisherWait::Blocking(blocking) => {
            law_blocking_ends_when_available(blocking, available);
        },
    }
}

/// A consumer waits for the publisher first. As long as the publisher is known to have released fewer
/// slots than are needed, the wait stays with it, and does what the wait for the publisher does,
/// whether that one polls or blocks. When that one ends, the wait turns to the stages in between, and
/// stays there.
pub proof fn law_publisher_comes_first(
    publisher: PublisherWait,
    dependencies: PollingWait,
    publisher_available: int,
    available: int,
)
    requires
        lasting(publisher),
    ensures
        ({
            let wait = ConsumerWait::ForPublisher { publisher, dependencies };
            let action = wait.action(publisher_available, available);
            let next = wait.after(publisher_available, available);
            &&& publisher_available < needed(publisher) ==> {
                &&& action == publisher.action(publisher_available)
                &&& !(action is Done)
                &&& next == (ConsumerWait::ForPublisher {
                    publisher: publisher.after(publisher_available),
                    dependencies,
                })
            }
            &&& !(publisher.action(publisher_available) is Done) ==> {
                &&& action == publisher.action(publisher_available)
                &&& next is ForPublisher
            }
            &&& publisher.action(publisher_available) is Done ==> {
                &&& action == dependencies.action(available)
                &&& next == (ConsumerWait::ForDependencies {
                    dependencies: dependencies.after(available),
                })
            }
        }),
        ({
            let wait = ConsumerWait::ForDependencies { dependencies };
            &&& wait.action(publisher_available, available) == dependencies.action(available)
            &&& wait.after(publisher_available, available) == (ConsumerWait::ForDependencies {
                dependencies: dependencies.after(available),
            })
        }),
{
    law_publisher_wait_goes_on(publisher, publisher_available);
}

/// The waits for the publisher that the strategies begin go on as long as there are too few slots, and
/// need what has been asked for.
pub proof fn law_strategies_wait_for_what_is_needed(
    yielding: YieldWaitStrategy,
    blocking: BlockingWaitStrategy,
    resizing: TimeoutResizeWaitStrategy,
    min_available: usize,
)
    ensures
        lasting(SpinWaitStrategy.publisher_wait(min_available)),
        lasting(yielding.publisher_wait(min_available)),
        lasting(blocking.publisher_wait(min_available)),
        lasting(resizing.publisher_wait(min_available)),
        needed(SpinWaitStrategy.publisher_wait(min_available)) == min_available,
        needed(yielding.publisher_wait(min_available)) == min_available,
        needed(blocking.publisher_wait(min_available)) == min_available,
        needed(resizing.publisher_wait(min_available)) == min_available,
{
    assert(resizing.publisher_wait(min_available) == resizing.wait_strategy.publisher_wait(
        min_available,
    ));
}

/// A publisher's wait with a time limit that has found enough slots ends at once, wherever it has just
/// looked for them.
pub proof fn law_resizing_wait_ends_when_available(wait: ResizeWait, available: int, now: int)
    requires
        available >= wait.min_available,
    ensures
        wait.phase is Start || wait.phase is Polling ==> wait.action(available, now) is Done,
        wait.phase is Spinning && wait.phase->Spinning_0.min_available == wait.min_available
            ==> wait.action(available, now) is Done,
        wait.phase is Starting ==> wait.action(available, now) is Done,
{
    match wait.phase {
        ResizePhase::Spinning(spin) => {
            law_attempts_and_pauses_alternate(spin, available, available);
        },
        _ => {
            law_attempts_and_pauses_alternate(wait.first_spin(), available, available);
        },
    }
}

/// A reading of the clock before the limit, and a poll that shows no progress, lead back to the next
/// reading of the clock, with the same limit.
pub proof fn law_no_progress_keeps_time_limit(wait: ResizeWait, now: int, rest: Seq<int>)
    requires
        wait.phase is Timing,
        wait.previous_available < wait.min_available,
        now < wait.end_time,
        rest.len() == 2,
    ensures
        ({
            let available = wait.previous_available as int;
            let polled = wait.after(available, now);
            let yielded = polled.after(available, rest[0]);
            &&& wait.action(available, now) is Poll
            &&& polled.action(available, rest[0]) is YieldNow
            &&& yielded.action(available, rest[1]) is ReadClock
            &&& yielded.after(available, rest[1]) == wait
        }),
{
}

/// The limit changes only when the clock has been read to set it: as the wait begins, and after
/// progress. Then the whole time is left.
pub proof fn law_time_limit_is_set_by_the_clock(wait: ResizeWait, available: int, now: u64)
    ensures
        wait.after(available, now as int).min_available == wait.min_available,
        wait.after(available, now as int).timeout == wait.timeout,
        wait.after(available, now as int).max_spin_tries == wait.max_spin_tries,
        wait.phase is Starting || wait.phase is Restarting ==> wait.after(
            available,
            now as int,
        ).end_time == now + wait.timeout * 1_000_000,
        !(wait.phase is Starting || wait.phase is Restarting) ==> wait.after(
            available,
            now as int,
        ).end_time == wait.end_time,
{
    assert(0 <= wait.timeout * 1_000_000 <= u64::MAX * 1_000_000);
}

/// A publisher's wait after a number of steps at each of which the same number of slots was known to be
/// available, given the readings of the clock.
pub open spec fn unmoved(wait: ResizeWait, available: int, clock: Seq<u64>) -> ResizeWait
    decreases clock.len(),
{
    if clock.len() == 0 {
        wait
    } else {
        unmoved(wait, available, clock.drop_last()).after(available, clock.last() as int)
    }
}

/// What a publisher's wait did at the last of these steps.
pub open spec fn last_unmoved(wait: ResizeWait, available: int, clock: Seq<u64>) -> WaitAction {
    unmoved(wait, available, clock.drop_last()).action(available, clock.last() as int)
}

/// How far a wait that sees no progress has got, given what it did last.
spec fn stuck(
    wait: ResizeWait,
    begun: ResizeWait,
    available: int,
    limit: int,
    last: WaitAction,
) -> bool {
    &&& wait.min_available == begun.min_available
    &&& wait.max_spin_tries == begun.max_spin_tries
    &&& wait.timeout == begun.timeout
    &&& wait.end_time == limit
    &&& match wait.phase {
        ResizePhase::Spinning(spin) => {
            &&& spin.min_available == begun.min_available
            &&& spin.max_tries == Some(begun.max_spin_tries)
            &&& spin.backoff is Spin
            &&& 1 <= spin.tries <= begun.max_spin_tries
            &&& last == (if spin.polled {
                WaitAction::Poll
            } else {
                WaitAction::SpinLoop
            })
        },
        ResizePhase::Timing => last is ReadClock && wait.previous_available == available,
        ResizePhase::Polling => last is Poll && wait.previous_available == available,
        ResizePhase::Yielding => last is YieldNow && wait.previous_available == available,
        ResizePhase::Done => last is Done,
        _ => false,
    }
}

/// How far a wait that sees no progress has got.
proof fn lemma_stuck(wait: ResizeWait, available: int, clock: Seq<u64>)
    requires
        wait.phase is Start,
        0 <= available < wait.min_available,
        clock.len() >= 2,
    ensures
        stuck(
            unmoved(wait, available, clock),
            wait,
            available,
            clock[1] + wait.timeout * 1_000_000,
            last_unmoved(wait, available, clock),
        ),
    decreases clock.len(),
{
    assert(0 <= wait.timeout * 1_000_000 <= u64::MAX * 1_000_000);
    let before = clock.drop_last();
    if clock.len() > 2 {
        lemma_stuck(wait, available, before);
        assert(before[1] == clock[1]);
        let state = unmoved(wait, available, before);
        match state.phase {
            ResizePhase::Spinning(spin) => {
                law_attempts_and_pauses_alternate(spin, available, available);
            },
            _ => {},
        }
    } else {
        assert(unmoved(wait, available, before.drop_last()) == wait);
        assert(unmoved(wait, available, before) == wait.after(available, before.last() as int));
        law_polling_begins_with_an_attempt(wait.first_spin(), available);
    }
}

/// A publisher's wait during which the number of available slots does not change, and is too small,
/// gives up at the first reading of the clock that is not before the reading with which it began, and
/// the timeout after that; a reading before this makes it look again, then let other tasks run, then
/// read the clock again. It does not give up at any other point.
pub proof fn law_unmoved_pipeline_times_out(
    wait: ResizeWait,
    available: int,
    clock: Seq<u64>,
    now: u64,
)
    requires
        wait.phase is Start,
        0 <= available < wait.min_available,
        clock.len() >= 2,
    ensures
        ({
            let limit = clock[1] + wait.timeout * 1_000_000;
            let last = last_unmoved(wait, available, clock);
            let state = unmoved(wait, available, clock);
            let action = state.action(available, now as int);
            &&& wait.action(available, clock[0] as int) is ReadClock
            &&& last is ReadClock ==> action == (if now >= limit {
                WaitAction::Done
            } else {
                WaitAction::Poll
            })
            &&& last is YieldNow ==> action is ReadClock
            &&& last is Poll ==> action is YieldNow || action is SpinLoop
            &&& last is SpinLoop ==> action is Poll || action is ReadClock
            &&& last is Done ==> action is Done
            &&& last is ReadClock || last is YieldNow || last is Poll || last is SpinLoop
                || last is Done
        }),
{
    lemma_stuck(wait, available, clock);
    match unmoved(wait, available, clock).phase {
        ResizePhase::Spinning(spin) => {
            law_attempts_and_pauses_alternate(spin, available, available);
        },
        _ => {},
    }
}

/// Before a publisher's wait looks at the clock to see whether the time is over, it polls as often as
/// its strategy gives, unless it finds enough slots.
pub proof fn law_resizing_wait_spins_first(
    wait: ResizeWait,
    readings: Seq<int>,
    available: int,
    now: u64,
)
    requires
        wait.phase is Starting,
        readings.len() <= wait.max_spin_tries,
        forall|i: int| 0 <= i < readings.len() ==> #[trigger] readings[i] < wait.min_available,
        0 <= available < wait.min_available,
    ensures
        ({
            let spin = tried(wait.first_spin(), readings);
            let later = ResizeWait { phase: ResizePhase::Spinning(spin), ..wait };
            let state = later.after(available, now as int);
            &&& later.action(available, now as int) == (if readings.len() < wait.max_spin_tries {
                WaitAction::Poll
            } else {
                WaitAction::ReadClock
            })
            &&& readings.len() < wait.max_spin_tries ==> state.phase == ResizePhase::Spinning(
                spin.after(available),
            ) && state.action(available, now as int) is SpinLoop && state.after(
                available,
                now as int,
            ).phase == ResizePhase::Spinning(
                tried(wait.first_spin(), readings.push(available)),
            )
            &&& readings.len() == wait.max_spin_tries ==> state.phase is Timing
                && state.previous_available == available
        }),
        ({
            let state = wait.after(available, now as int);
            if wait.max_spin_tries > 0 {
                wait.action(available, now as int) is Poll && state.phase
                    == ResizePhase::Spinning(wait.first_spin().after(available))
            } else {
                wait.action(available, now as int) is ReadClock && state.phase is Timing
                    && state.previous_available == available
            }
        }),
{
    let spin = wait.first_spin();
    lemma_tried(spin, readings);
    law_polling_begins_with_an_attempt(spin, available);
    if readings.len() < wait.max_spin_tries {
        assert(readings.push(available).drop_last() =~= readings);
        law_attempts_and_pauses_alternate(tried(spin, readings), available, available);
    }
}

} // verus!
