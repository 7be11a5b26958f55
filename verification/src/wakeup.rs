//! Why no consumer that waits by blocking sleeps through the release of what it waits for.
//!
//! The publisher and any number of consumers carry out, one action at a time and in any order, what
//! [`Notification`] and [`BlockingWait`], or [`ProcessingWait`], ask of them.
use crate::chain_wait::{ProcessingPhase, ProcessingWait};
use crate::wait::{BlockingPhase, BlockingWait, Notification, NotificationPhase};
use vstd::prelude::*;

verus! {

/// What a consumer that may block does next.
pub enum Doing {
    /// Something that has nothing to do with the lock.
    Outside,
    /// It acquires the lock.
    Locking,
    /// It requests a signal.
    Requesting,
    /// It looks for slots that were released before the publisher could see the request.
    Verifying,
    /// It sleeps until the publisher signals.
    Sleeping,
    /// It looks for the slots that the publisher has signalled.
    Waking,
    /// It releases the lock.
    Unlocking,
}

/// The order in which a consumer does things: with the lock held, it first requests a signal, then
/// looks, and sleeps only if that shows too few slots.
pub open spec fn may_follow(first: Doing, second: Doing, enough: bool) -> bool {
    match first {
        Doing::Outside => second is Outside || second is Locking,
        Doing::Locking => second is Requesting,
        Doing::Requesting => second is Verifying,
        Doing::Verifying => if enough {
            second is Unlocking
        } else {
            second is Sleeping
        },
        Doing::Sleeping => second is Waking,
        Doing::Waking => second is Unlocking || second is Requesting,
        Doing::Unlocking => second is Outside || second is Locking,
    }
}

/// Waits that sleep in the right order.
pub trait SleepingWait: Sized {
    /// What the consumer does next.
    spec fn doing(self) -> Doing;

    /// How many slots the consumer waits for.
    spec fn needed(self) -> int;

    /// The wait after the next step, given how many slots are known to be available.
    spec fn advanced(self, available: int) -> Self;

    /// Each step follows the order.
    proof fn keeps_order(self, available: int)
        ensures
            may_follow(
                self.doing(),
                self.advanced(available).doing(),
                available >= self.needed(),
            ),
            self.advanced(available).needed() == self.needed(),
    ;
}

impl SleepingWait for BlockingWait {
    open spec fn doing(self) -> Doing {
        match self.phase {
            BlockingPhase::Spinning(_) => Doing::Outside,
            BlockingPhase::Locking => Doing::Locking,
            BlockingPhase::Requesting => Doing::Requesting,
            BlockingPhase::Verifying => Doing::Verifying,
            BlockingPhase::Sleeping => Doing::Sleeping,
            BlockingPhase::Waking => Doing::Waking,
            BlockingPhase::Unlocking => Doing::Unlocking,
            BlockingPhase::Done => Doing::Outside,
        }
    }

    open spec fn needed(self) -> int {
        self.min_available as int
    }

    open spec fn advanced(self, available: int) -> Self {
        BlockingWait { phase: self.next_phase(available), ..self }
    }

    proof fn keeps_order(self, available: int) {
    }
}

impl SleepingWait for ProcessingWait {
    open spec fn doing(self) -> Doing {
        match self.phase {
            ProcessingPhase::Looking(_) => Doing::Outside,
            ProcessingPhase::Spinning => Doing::Outside,
            ProcessingPhase::Locking => Doing::Locking,
            ProcessingPhase::Requesting => Doing::Requesting,
            ProcessingPhase::Verifying => Doing::Verifying,
            ProcessingPhase::Sleeping => Doing::Sleeping,
            ProcessingPhase::Waking => Doing::Waking,
            ProcessingPhase::Unlocking => Doing::Unlocking,
            ProcessingPhase::Done => Doing::Outside,
        }
    }

    open spec fn needed(self) -> int {
        self.n as int
    }

    open spec fn advanced(self, available: int) -> Self {
        self.after(available)
    }

    proof fn keeps_order(self, available: int) {
    }
}

/// Whether a consumer sleeps on the wait condition.
pub enum Slumber {
    /// It does not.
    Awake,
    /// It does, and has released the lock.
    Asleep,
    /// It has been notified, but has not got the lock back yet.
    Notified,
}

/// A consumer that waits, or has finished waiting, for the publisher.
pub struct Waiter<W> {
    /// The wait, which says what the consumer does next.
    pub wait: W,
    /// How many items the consumer has passed.
    pub passed: int,
    /// How many slots the consumer knows to be available.
    pub known: int,
    pub slumber: Slumber,
}

impl<W: SleepingWait> Waiter<W> {
    /// The consumer has the lock.
    pub open spec fn has_lock(self) -> bool {
        match self.wait.doing() {
            Doing::Requesting => true,
            Doing::Verifying => true,
            Doing::Sleeping => self.slumber is Awake,
            Doing::Waking => true,
            Doing::Unlocking => true,
            _ => false,
        }
    }

    /// The consumer is asleep, or will be after its next action.
    pub open spec fn committed(self) -> bool {
        self.wait.doing() is Sleeping && !(self.slumber is Notified)
    }

    /// What the consumer waits for has been released.
    pub open spec fn served(self, released: int) -> bool {
        released - self.passed >= self.wait.needed()
    }

    /// The consumer after its next action, at the end of which it knows of `known` slots.
    pub open spec fn stepped(self, known: int) -> Self {
        Waiter {
            wait: self.wait.advanced(known),
            known,
            slumber: Slumber::Awake,
            ..self
        }
    }
}

/// Who has the lock of the wait condition.
pub enum Holder {
    Nobody,
    Publisher,
    Consumer(int),
}

/// What the publisher and the consumers share, and how far each of them has got.
pub struct Signalling<W> {
    /// How many items the publisher has released.
    pub released: int,
    /// The shared variable by which consumers ask for a signal.
    pub signal_needed: bool,
    pub holder: Holder,
    pub waiters: Seq<Waiter<W>>,
    /// What the publisher does after releasing; its phase is the action that it carries out next.
    pub notification: Notification,
}

/// An action of one of the participants.
pub enum Turn<W> {
    /// A consumer carries out the action that its wait asks for. While it spins, that may be an
    /// attempt to see what has been released.
    Consumer { index: int, looks: bool },
    /// A consumer that does not block processes items, and waits anew.
    Resume { index: int, passed: int, wait: W },
    /// A consumer that sleeps wakes up without having been notified, as wait conditions allow.
    WakeUp { index: int },
    /// The publisher carries out the action that the notification asks for, or releases `n` items
    /// and begins the next notification.
    Publisher { n: int },
}

impl<W: SleepingWait> Signalling<W> {
    /// The participant may take its turn: nobody else has the lock that it needs, and nobody acts
    /// while asleep.
    pub open spec fn may(self, turn: Turn<W>) -> bool {
        match turn {
            Turn::Consumer { index, looks } => {
                let waiter = self.waiters[index];
                &&& 0 <= index < self.waiters.len()
                &&& waiter.wait.doing() is Locking ==> self.holder is Nobody
                &&& waiter.slumber is Notified ==> self.holder is Nobody
                &&& !(waiter.slumber is Asleep)
            },
            Turn::Resume { index, passed, wait } => {
                &&& 0 <= index < self.waiters.len()
                &&& self.waiters[index].wait.doing() is Outside
                &&& wait.doing() is Outside
            },
            Turn::WakeUp { index } => {
                &&& 0 <= index < self.waiters.len()
                &&& self.waiters[index].slumber is Asleep
            },
            Turn::Publisher { n } => {
                &&& n >= 0
                &&& self.notification.phase is Locking ==> self.holder is Nobody
            },
        }
    }

    /// What a turn of a consumer leads to.
    pub open spec fn consumer_turn(self, index: int, looks: bool) -> Self {
        let waiter = self.waiters[index];
        let seen = self.released - waiter.passed;
        match waiter.wait.doing() {
            Doing::Outside => self.with_waiter(
                index,
                waiter.stepped(
                    if looks {
                        seen
                    } else {
                        waiter.known
                    },
                ),
            ),
            Doing::Locking => Signalling {
                holder: Holder::Consumer(index),
                ..self.with_waiter(index, waiter.stepped(waiter.known))
            },
            Doing::Requesting => Signalling {
                signal_needed: true,
                ..self.with_waiter(index, waiter.stepped(waiter.known))
            },
            Doing::Verifying => self.with_waiter(index, waiter.stepped(seen)),
            Doing::Sleeping => if waiter.slumber is Awake {
                Signalling {
                    holder: Holder::Nobody,
                    ..self.with_waiter(index, Waiter { slumber: Slumber::Asleep, ..waiter })
                }
            } else {
                Signalling {
                    holder: Holder::Consumer(index),
                    ..self.with_waiter(index, waiter.stepped(waiter.known))
                }
            },
            Doing::Waking => self.with_waiter(index, waiter.stepped(seen)),
            Doing::Unlocking => Signalling {
                holder: Holder::Nobody,
                ..self.with_waiter(index, waiter.stepped(waiter.known))
            },
        }
    }

    /// What a turn of the publisher leads to.
    pub open spec fn publisher_turn(self, n: int) -> Self {
        let next = Notification { phase: self.notification.next_phase(self.signal_needed) };
        match self.notification.phase {
            NotificationPhase::Checking => Signalling {
                signal_needed: false,
                notification: next,
                ..self
            },
            NotificationPhase::Locking => Signalling {
                holder: Holder::Publisher,
                notification: next,
                ..self
            },
            NotificationPhase::Notifying => Signalling {
                waiters: self.waiters.map_values(
                    |waiter: Waiter<W>|
                        if waiter.slumber is Asleep {
                            Waiter { slumber: Slumber::Notified, ..waiter }
                        } else {
                            waiter
                        },
                ),
                notification: next,
                ..self
            },
            NotificationPhase::Unlocking => Signalling {
                holder: Holder::Nobody,
                notification: next,
                ..self
            },
            NotificationPhase::Done => Signalling {
                released: self.released + n,
                notification: Notification { phase: NotificationPhase::Start },
                ..self
            },
            _ => Signalling { notification: next, ..self },
        }
    }

    /// What a turn leads to.
    pub open spec fn after(self, turn: Turn<W>) -> Self {
        match turn {
            Turn::Consumer { index, looks } => self.consumer_turn(index, looks),
            Turn::Resume { index, passed, wait } => self.with_waiter(
                index,
                Waiter { wait, passed, known: 0, slumber: Slumber::Awake },
            ),
            Turn::WakeUp { index } => self.with_waiter(
                index,
                Waiter { slumber: Slumber::Notified, ..self.waiters[index] },
            ),
            Turn::Publisher { n } => self.publisher_turn(n),
        }
    }

    /// The state with one consumer replaced.
    pub open spec fn with_waiter(self, index: int, waiter: Waiter<W>) -> Self {
        Signalling { waiters: self.waiters.update(index, waiter), ..self }
    }

    /// The publisher is on its way to wake up everyone who sleeps.
    pub open spec fn notifying(self) -> bool {
        self.notification.phase is Locking || self.notification.phase is Notifying
    }

    /// What is true of one consumer at all times. One that has asked for a signal and has not been
    /// woken up can rely on the publisher to see the request; and if what it waits for has been
    /// released, the publisher has not looked at the request since.
    pub open spec fn waiter_inv(self, index: int) -> bool {
        let waiter = self.waiters[index];
        &&& waiter.has_lock() <==> self.holder == Holder::Consumer(index)
        &&& !(waiter.slumber is Awake) ==> waiter.wait.doing() is Sleeping
        &&& waiter.wait.doing() is Verifying || waiter.committed() ==> self.signal_needed
            || self.notifying()
        &&& waiter.committed() && waiter.served(self.released) ==> self.notification.phase is Start
            || self.notification.phase is Checking || self.notifying()
    }

    /// What is true at all times.
    pub open spec fn inv(self) -> bool {
        &&& self.holder is Publisher <==> self.notification.phase is Notifying
            || self.notification.phase is Unlocking
        &&& forall|index: int|
            0 <= index < self.waiters.len() ==> #[trigger] self.waiter_inv(index)
    }

    /// Nobody has begun to block, and the publisher has nothing to notify of.
    pub open spec fn initial(self) -> bool {
        &&& self.holder is Nobody
        &&& self.notification.phase is Done
        &&& forall|index: int|
            0 <= index < self.waiters.len() ==> (#[trigger] self.waiters[index]).slumber is Awake
                && self.waiters[index].wait.doing() is Outside
    }

    /// The state at the end of a run.
    pub open spec fn run(self, turns: Seq<Turn<W>>) -> Self
        decreases turns.len(),
    {
        if turns.len() == 0 {
            self
        } else {
            self.run(turns.drop_last()).after(turns.last())
        }
    }

    /// In a run each participant acts only when it may.
    pub open spec fn can_run(self, turns: Seq<Turn<W>>) -> bool
        decreases turns.len(),
    {
        turns.len() > 0 ==> self.can_run(turns.drop_last()) && self.run(turns.drop_last()).may(
            turns.last(),
        )
    }
}

/// Whatever a participant does keeps what is true at all times.
pub proof fn lemma_turn_keeps_inv<W: SleepingWait>(state: Signalling<W>, turn: Turn<W>)
    requires
        state.inv(),
        state.may(turn),
    ensures
        state.after(turn).inv(),
{
    let next = state.after(turn);
    assert(next.waiters.len() == state.waiters.len());
    assert forall|index: int| 0 <= index < next.waiters.len() implies #[trigger] next.waiter_inv(
        index,
    ) by {
        assert(state.waiter_inv(index));
        match turn {
            Turn::Consumer { index: actor, looks } => {
                assert(state.waiter_inv(actor));
                let waiter = state.waiters[actor];
                waiter.wait.keeps_order(state.released - waiter.passed);
                waiter.wait.keeps_order(waiter.known);
            },
            Turn::Resume { index: actor, passed, wait } => {
                assert(state.waiter_inv(actor));
            },
            _ => {},
        }
    }
    match turn {
        Turn::Consumer { index: actor, looks } => {
            assert(state.waiter_inv(actor));
            let waiter = state.waiters[actor];
            waiter.wait.keeps_order(state.released - waiter.passed);
            waiter.wait.keeps_order(waiter.known);
        },
        _ => {},
    }
}

/// What is true at all times is so after any run.
pub proof fn lemma_run_keeps_inv<W: SleepingWait>(state: Signalling<W>, turns: Seq<Turn<W>>)
    requires
        state.initial(),
        state.can_run(turns),
    ensures
        state.run(turns).inv(),
    decreases turns.len(),
{
    if turns.len() > 0 {
        lemma_run_keeps_inv(state, turns.drop_last());
        lemma_turn_keeps_inv(state.run(turns.drop_last()), turns.last());
    }
}

/// In whatever order the participants act: while a consumer is asleep although what it waits for has
/// been released, the publisher has not finished notifying, and will wake it up. It has yet to look at
/// the request for a signal, which has been made, or is about to take the lock and wake everyone up.
pub proof fn law_no_lost_wakeup<W: SleepingWait>(state: Signalling<W>, turns: Seq<Turn<W>>, index: int)
    requires
        state.initial(),
        state.can_run(turns),
        0 <= index < state.run(turns).waiters.len(),
        state.run(turns).waiters[index].slumber is Asleep,
        state.run(turns).waiters[index].served(state.run(turns).released),
    ensures
        match state.run(turns).notification.phase {
            NotificationPhase::Start => state.run(turns).signal_needed,
            NotificationPhase::Checking => state.run(turns).signal_needed,
            NotificationPhase::Locking => true,
            NotificationPhase::Notifying => true,
            _ => false,
        },
{
    lemma_run_keeps_inv(state, turns);
    assert(state.run(turns).waiter_inv(index));
}

/// In whatever order the participants act: when the publisher wakes everyone up, no consumer that has
/// decided to sleep is still on its way there. The signal comes only after it has fallen asleep.
pub proof fn law_signal_after_sleep<W: SleepingWait>(state: Signalling<W>, turns: Seq<Turn<W>>, index: int)
    requires
        state.initial(),
        state.can_run(turns),
        0 <= index < state.run(turns).waiters.len(),
        state.run(turns).notification.phase is Notifying,
        state.run(turns).waiters[index].committed(),
    ensures
        state.run(turns).waiters[index].slumber is Asleep,
        state.run(turns).after(Turn::Publisher { n: 0 }).waiters[index].slumber is Notified,
{
    lemma_run_keeps_inv(state, turns);
    assert(state.run(turns).waiter_inv(index));
}

} // verus!
