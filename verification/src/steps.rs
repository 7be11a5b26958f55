//! Each step that a stage takes keeps the pipeline in order, and leaves what every other stage
//! believes of itself true.
use crate::power;
use crate::protocol;
use crate::protocol::{Mark, PipelineState, Stage};
use crate::sequence;
use vstd::prelude::*;

verus! {

/// Every other stage's knowledge of itself is as right in one state as in another.
pub open spec fn others_keep<S>(state: PipelineState<S>, next: PipelineState<S>, id: int) -> bool {
    &&& forall|other: Stage, upstream: int|
        other.id != id && state.consumer_wf(other, upstream) ==> #[trigger] next.consumer_wf(
            other,
            upstream,
        )
    &&& forall|other: Stage|
        other.id != id && state.publisher_wf(other) ==> #[trigger] next.publisher_wf(other)
}

/// What is known of the stages of a state where one follows the other.
pub proof fn lemma_follows<S>(state: PipelineState<S>, id: int, upstream: int)
    requires
        state.chain_wf(),
        state.follows(id, upstream),
    ensures
        1 <= id < state.chain.len(),
        0 <= upstream < state.chain.len(),
        id != upstream,
        state.chain.len() >= 2,
        state.floor() <= state.marks[id].at <= state.marks[upstream].at <= state.head(),
        state.mark_wf(id),
        state.mark_wf(upstream),
{
    let i = choose|i: int|
        1 <= i < state.chain.len() && #[trigger] state.chain[i] == id && state.chain[i - 1]
            == upstream;
    assert(state.chain[0] == 0);
    assert(state.chain[0] != state.chain[i]);
    if i < state.chain.len() - 1 {
        assert(state.chain[state.chain.len() - 1] != state.chain[i]);
    }
    if i - 1 > 0 {
        assert(state.chain[0] != state.chain[i - 1]);
    }
    assert(state.mark_wf(0));
}

/// The numberings of the buffers depend on nothing but where each begins and the sizes.
pub proof fn lemma_same_epochs<S>(state: PipelineState<S>, next: PipelineState<S>)
    requires
        state.epochs_wf(),
        next.epochs == state.epochs,
        next.buffers.len() == state.buffers.len(),
        state.head() <= next.head(),
        forall|epoch: int|
            0 <= epoch < state.epochs.len() ==> #[trigger] next.size(epoch) == state.size(epoch),
    ensures
        next.epochs_wf(),
        forall|epoch: int, at: int|
            0 <= epoch < state.epochs.len() ==> #[trigger] next.value_at(epoch, at)
                == state.value_at(epoch, at),
        forall|epoch: int, at: int|
            0 <= epoch < state.epochs.len() ==> #[trigger] next.slot_of(epoch, at)
                == state.slot_of(epoch, at),
{
    assert forall|epoch: int, at: int| 0 <= epoch < state.epochs.len() implies #[trigger]
        next.value_at(epoch, at) == state.value_at(epoch, at) by {
        assert(next.size(epoch) == state.size(epoch));
    }
    assert forall|epoch: int, at: int| 0 <= epoch < state.epochs.len() implies #[trigger]
        next.slot_of(epoch, at) == state.slot_of(epoch, at) by {
        assert(next.size(epoch) == state.size(epoch));
        assert(next.value_at(epoch, at) == state.value_at(epoch, at));
    }
    assert forall|epoch: int|
        #![trigger next.buffers[epoch]]
        0 <= epoch < next.epochs.len() implies power::is_power_of_two(next.size(epoch)) && 2
        * sequence::boundary(next.size(epoch)) <= power::usize_range() by {
        assert(next.size(epoch) == state.size(epoch));
        assert(state.buffers[epoch].len() == state.size(epoch));
    }
    assert forall|epoch: int| 1 <= epoch < next.epochs.len() implies #[trigger] next.continues(
        epoch,
    ) by {
        assert(state.continues(epoch));
        assert(next.size(epoch) == state.size(epoch));
        assert(next.size(epoch - 1) == state.size(epoch - 1));
        assert(next.slot_of(epoch - 1, state.epochs[epoch].start) == state.slot_of(
            epoch - 1,
            state.epochs[epoch].start,
        ));
    }
    assert forall|earlier: int, later: int|
        #![trigger next.epochs[earlier], next.epochs[later]]
        0 <= earlier < later < next.epochs.len() implies {
        &&& next.epochs[earlier].start <= next.epochs[later].start
        &&& earlier >= 1 ==> next.epochs[earlier].start < next.epochs[later].start
        &&& 2 * next.size(earlier) <= next.size(later)
    } by {
        assert(next.size(earlier) == state.size(earlier));
        assert(next.size(later) == state.size(later));
        assert(state.epochs[earlier].start <= state.epochs[later].start);
    }
}

/// What a consumer believes to be available stays so while the stage ahead of it moves on.
#[verifier::spinoff_prover]
pub proof fn lemma_belief_kept<S>(
    state: PipelineState<S>,
    next: PipelineState<S>,
    stage: Stage,
    upstream: int,
)
    requires
        state.wf(),
        next.wf(),
        state.consumer_wf(stage, upstream),
        next.follows(stage.id, upstream),
        next.epochs == state.epochs,
        next.head() >= state.head(),
        forall|epoch: int|
            0 <= epoch < state.epochs.len() ==> #[trigger] next.size(epoch) == state.size(epoch),
        next.marks[stage.id] == state.marks[stage.id],
        state.marks[upstream].at <= next.marks[upstream].at,
    ensures
        next.consumer_wf(stage, upstream),
{
    lemma_follows(state, stage.id, upstream);
    lemma_follows(next, stage.id, upstream);
    let e = stage.epoch;
    let before = state.marks[upstream];
    let after = next.marks[upstream];
    assert(next.size(e) == state.size(e));
    assert(next.in_epoch(before));
    protocol::lemma_marks_ordered(next, before, after);
    if before.epoch == e && after.epoch > e {
        let gap = next.epochs[e + 1].start - stage.position;
        assert(next.fits(e));
        assert(stage.cached <= gap);
        assert(0 <= gap < next.size(e));
        assert(next.continues(e + 1));
        protocol::lemma_value_bounds(next, e, stage.position);
        protocol::lemma_value_bounds(next, e, next.epochs[e + 1].start);
        let from = next.epochs[e].base + (stage.position - next.epochs[e].start);
        power::lemma_remainder_distance(from, from + gap, sequence::boundary(next.size(e)));
        if next.value_at(e, next.epochs[e + 1].start) < stage.value {
            vstd::arithmetic::div_mod::lemma_small_mod(
                next.value_at(e, next.epochs[e + 1].start) as nat,
                next.size(e) as nat,
            );
        }
        assert(next.epochs[e + 1].base >= stage.value + gap);
        if after.epoch > e + 1 {
            assert(next.epochs[e + 1].start < next.epochs[after.epoch].start);
        }
        protocol::lemma_values_ahead(next, after.epoch, after.at);
        if after.epoch > e + 1 {
            assert(sequence::boundary(next.size(e + 1)) <= next.published[upstream]);
        }
    } else if before.epoch > e {
        assert(next.size(before.epoch) == state.size(before.epoch));
        assert(next.epochs[e + 1].start <= next.epochs[before.epoch].start) by {
            if e + 1 < before.epoch {
                assert(next.epochs[e + 1].start < next.epochs[before.epoch].start);
            }
        }
        assert(next.epochs[before.epoch].start <= next.epochs[after.epoch].start);
        protocol::lemma_values_ahead(next, after.epoch, after.at);
        if before.epoch == after.epoch {
            protocol::lemma_values_ahead(next, before.epoch, before.at);
        } else {
            protocol::lemma_value_bounds(next, before.epoch, before.at);
            assert(sequence::boundary(next.size(before.epoch)) <= next.published[upstream]);
        }
    }
}

/// A consumer that moves on by slots which the stage ahead has released keeps the pipeline in order.
#[verifier::spinoff_prover]
pub proof fn lemma_consumer_advances<S>(
    state: PipelineState<S>,
    stage: Stage,
    upstream: int,
    n: int,
)
    requires
        state.wf(),
        state.consumer_wf(stage, upstream),
        0 <= n,
        stage.position + n <= state.end_of(stage.epoch),
        stage.position + n <= state.marks[upstream].at,
        stage.epoch >= 1 ==> state.epochs[stage.epoch].start < stage.position + n,
    ensures
        ({
            let next = state.with_mark(
                stage.id,
                Mark { at: stage.position + n, epoch: stage.epoch },
            );
            &&& next.wf()
            &&& others_keep(state, next, stage.id)
            &&& next.marks[stage.id] == (Mark { at: stage.position + n, epoch: stage.epoch })
            &&& next.follows(stage.id, upstream)
            &&& next.floor() >= state.floor()
        }),
{
    let mark = Mark { at: stage.position + n, epoch: stage.epoch };
    let next = state.with_mark(stage.id, mark);
    lemma_follows(state, stage.id, upstream);
    let i = choose|i: int|
        1 <= i < state.chain.len() && #[trigger] state.chain[i] == stage.id && state.chain[i - 1]
            == upstream;
    assert(next.chain[i] == stage.id);
    assert(state.mark_wf(0));
    protocol::lemma_value_bounds(state, stage.epoch, mark.at);
    assert forall|id: int| 0 <= id < next.marks.len() implies #[trigger] next.mark_wf(id) by {
        assert(state.mark_wf(id));
    }
    assert forall|a: int, b: int|
        #![trigger next.chain[a], next.chain[b]]
        0 <= a < b < next.chain.len() implies next.chain[a] != next.chain[b]
        && next.marks[next.chain[b]].at <= next.marks[next.chain[a]].at by {
        assert(state.chain[a] != state.chain[b]);
        if state.chain[b] == stage.id {
            assert(b == i) by {
                if b < i {
                    assert(state.chain[b] != state.chain[i]);
                } else if i < b {
                    assert(state.chain[i] != state.chain[b]);
                }
            }
            if a < i - 1 {
                assert(state.marks[state.chain[i - 1]].at <= state.marks[state.chain[a]].at);
            }
        }
    }
    assert(next.floor() >= state.floor());
    lemma_same_epochs(state, next);
    assert forall|epoch: int| 0 <= epoch < next.epochs.len() implies #[trigger] next.fits(
        epoch,
    ) by {
        assert(state.fits(epoch));
    }
    assert forall|epoch: int, at: int| 0 <= epoch < next.epochs.len() implies #[trigger] next.holds(
        epoch,
        at,
    ) by {
        assert(state.holds(epoch, at));
    }
    assert forall|other: Stage, u: int|
        other.id != stage.id && state.consumer_wf(other, u) implies #[trigger] next.consumer_wf(
        other,
        u,
    ) by {
        lemma_follows(state, other.id, u);
        let j = choose|j: int|
            1 <= j < state.chain.len() && #[trigger] state.chain[j] == other.id && state.chain[j
                - 1] == u;
        assert(next.chain[j] == other.id && next.chain[j - 1] == u);
        lemma_belief_kept(state, next, other, u);
    }
    assert forall|other: Stage|
        other.id != stage.id && state.publisher_wf(other) implies #[trigger] next.publisher_wf(
        other,
    ) by {}
}

/// What the count of slots up to a stage ahead shows: whether that stage is further on, and by how
/// much if both use the same buffer.
pub proof fn lemma_counts_up_to<S>(state: PipelineState<S>, stage: Stage, gate: int)
    requires
        state.wf(),
        0 <= gate < state.chain.len(),
        0 <= stage.epoch < state.epochs.len(),
        state.epochs[stage.epoch].start <= stage.position <= state.end_of(stage.epoch),
        state.floor() <= stage.position <= state.marks[gate].at,
        stage.epoch <= state.marks[gate].epoch,
        stage.value == state.value_at(stage.epoch, stage.position),
    ensures
        ({
            let gating = state.published[gate] as int;
            let available = sequence::available_to_consumer(
                gating,
                stage.value,
                state.size(stage.epoch),
            );
            &&& gating < stage.value ==> gating + sequence::boundary(state.size(stage.epoch))
                < power::usize_range() && stage.value <= gating + sequence::boundary(
                state.size(stage.epoch),
            )
            &&& 0 <= available
            &&& available >= 1 <==> stage.position < state.marks[gate].at
            &&& state.marks[gate].epoch == stage.epoch ==> available == state.marks[gate].at
                - stage.position
            &&& state.belief_holds(Stage { cached: available, ..stage }, gate)
        }),
{
    let e = stage.epoch;
    let mark = state.marks[gate];
    assert(state.mark_wf(gate));
    protocol::lemma_value_bounds(state, e, stage.position);
    protocol::lemma_value_bounds(state, mark.epoch, mark.at);
    if mark.epoch == e {
        assert(state.fits(e));
        let base = state.epochs[e].base - state.epochs[e].start;
        sequence::law_consumer_sees_distance(
            base + mark.at,
            base + stage.position,
            state.size(e),
        );
    } else {
        assert(state.epochs[e + 1].start <= state.epochs[mark.epoch].start) by {
            if e + 1 < mark.epoch {
                assert(state.epochs[e + 1].start < state.epochs[mark.epoch].start);
            }
        }
        protocol::lemma_values_ahead(state, mark.epoch, mark.at);
        assert(sequence::boundary(state.size(e)) <= state.published[gate]);
    }
}

/// What a consumer learns from the stage ahead of it is right: it is told of a slot if and only if
/// that stage has released one, and of the exact number if both use the same buffer. So is what it
/// learns from the publisher.
pub proof fn lemma_consumer_polls<S>(state: PipelineState<S>, stage: Stage, upstream: int)
    requires
        state.wf(),
        state.consumer_wf(stage, upstream),
    ensures
        ({
            let size = state.size(stage.epoch);
            let gating = state.published[upstream] as int;
            let available = sequence::available_to_consumer(gating, stage.value, size);
            let cursor = state.published[0] as int;
            &&& gating < stage.value ==> gating + sequence::boundary(size) < power::usize_range()
                && stage.value <= gating + sequence::boundary(size)
            &&& 0 <= available
            &&& available >= 1 <==> stage.position < state.marks[upstream].at
            &&& state.marks[upstream].epoch == stage.epoch ==> available
                == state.marks[upstream].at - stage.position
            &&& state.consumer_wf(Stage { cached: available, ..stage }, upstream)
            &&& cursor < stage.value ==> cursor + sequence::boundary(size) < power::usize_range()
                && stage.value <= cursor + sequence::boundary(size)
            &&& 0 <= sequence::available_to_consumer(cursor, stage.value, size)
            &&& sequence::available_to_consumer(cursor, stage.value, size) >= 1
                <==> stage.position < state.head()
        }),
{
    lemma_follows(state, stage.id, upstream);
    lemma_counts_up_to(state, stage, upstream);
    assert(state.mark_wf(0));
    protocol::lemma_marks_ordered(state, state.marks[upstream], state.marks[0]);
    lemma_counts_up_to(state, stage, 0);
}

/// What the publisher learns from the last consumer is right: never more than the number of free
/// slots, and exactly that number if both use the same buffer.
#[verifier::spinoff_prover]
pub proof fn lemma_publisher_polls<S>(state: PipelineState<S>)
    requires
        state.wf(),
        state.chain.len() >= 2,
    ensures
        ({
            let last = state.chain.last();
            let gating = state.published[last] as int;
            let waiting = state.value_at(state.newest(), state.head());
            let size = state.size(state.newest());
            let available = sequence::available_to_resizing_publisher(gating, waiting, size);
            &&& 0 <= last < state.chain.len()
            &&& gating + size < power::usize_range()
            &&& waiting + sequence::boundary(size) < power::usize_range()
            &&& 0 <= available <= state.free()
            &&& state.marks[last].epoch == state.newest() ==> {
                &&& available == state.free()
                &&& waiting <= gating + size
                &&& sequence::available_to_publisher(gating, waiting, size) == state.free()
            }
        }),
{
    let last = state.chain.last();
    let newest = state.newest();
    assert(state.chain[state.chain.len() - 1] == last);
    assert(state.chain[0] != last);
    assert(state.mark_wf(last));
    assert(state.mark_wf(0));
    assert(state.fits(newest));
    let mark = state.marks[last];
    protocol::lemma_value_bounds(state, newest, state.head());
    protocol::lemma_value_bounds(state, mark.epoch, mark.at);
    if mark.epoch == newest {
        let base = state.epochs[newest].base - state.epochs[newest].start;
        sequence::law_publisher_sees_free_slots(
            base + mark.at,
            base + state.head(),
            state.size(newest),
        );
        power::lemma_remainder_distance(
            base + mark.at,
            base + state.head(),
            sequence::boundary(state.size(newest)),
        );
    } else {
        assert(state.epochs[mark.epoch + 1].start <= state.epochs[newest].start) by {
            if mark.epoch + 1 < newest {
                assert(state.epochs[mark.epoch + 1].start < state.epochs[newest].start);
            }
        }
        assert(2 * state.size(mark.epoch) <= state.size(newest)) by {
            assert(state.epochs[mark.epoch].start <= state.epochs[newest].start);
        }
        assert(state.continues(newest));
        protocol::lemma_value_bounds(state, newest - 1, state.epochs[newest].start);
        protocol::lemma_values_ahead(state, newest, state.head());
        assert(sequence::boundary(state.size(mark.epoch)) <= state.value_at(
            newest,
            state.head(),
        ));
    }
}

/// A consumer that has come to the end of its buffer follows the publisher into the next one.
#[verifier::spinoff_prover]
pub proof fn lemma_consumer_switches<S>(state: PipelineState<S>, stage: Stage, upstream: int)
    requires
        state.wf(),
        state.consumer_wf(stage, upstream),
        stage.epoch < state.newest(),
        stage.position == state.epochs[stage.epoch + 1].start,
        stage.position < state.marks[upstream].at,
    ensures
        ({
            let size = state.size(stage.epoch);
            let value = sequence::boundary(size) + stage.value % size;
            let jump = value - stage.value;
            &&& 0 < jump
            &&& 0 <= stage.value < sequence::boundary(size)
            &&& value == state.value_at(stage.epoch + 1, stage.position)
            &&& stage.position < state.end_of(stage.epoch + 1)
            &&& state.consumer_wf(
                Stage {
                    epoch: stage.epoch + 1,
                    value: value,
                    cached: if stage.cached > jump {
                        stage.cached - jump
                    } else {
                        1
                    },
                    ..stage
                },
                upstream,
            )
        }),
{
    lemma_follows(state, stage.id, upstream);
    let e = stage.epoch;
    let mark = state.marks[upstream];
    protocol::lemma_value_bounds(state, e, stage.position);
    assert(state.continues(e + 1));
    assert(mark.epoch > e);
    protocol::lemma_values_ahead(state, e + 1, stage.position);
    assert(stage.position < state.end_of(e + 1)) by {
        if e + 1 < state.newest() {
            assert(state.epochs[e + 1].start < state.epochs[e + 2].start);
        }
    }
    if mark.epoch > e + 1 {
        assert(state.epochs[e + 1].start < state.epochs[mark.epoch].start);
    }
    protocol::lemma_values_ahead(state, mark.epoch, mark.at);
    if mark.epoch > e + 1 {
        assert(sequence::boundary(state.size(e + 1)) <= state.published[upstream]);
    }
}

/// A pipeline that has just been built is in order.
pub proof fn lemma_initial_state<S>(slots: Seq<S>)
    requires
        power::is_power_of_two(slots.len() as int),
        2 * sequence::boundary(slots.len() as int) <= power::usize_range(),
    ensures
        PipelineState::initial(slots).wf(),
        PipelineState::initial(slots).free() == slots.len(),
        PipelineState::initial(slots).publisher_wf(
            Stage { id: 0, position: 0, epoch: 0, value: 0, cached: 0 },
        ),
{
    let state = PipelineState::initial(slots);
    power::lemma_power_of_two_positive(slots.len() as int);
    assert(state.size(0) == slots.len());
    vstd::arithmetic::div_mod::lemma_small_mod(
        0nat,
        sequence::boundary(slots.len() as int) as nat,
    );
    assert(state.value_at(0, 0) == 0);
    assert(state.mark_wf(0));
}

/// Two states that differ only in what the slots and the items hold.
pub open spec fn same_shape<S>(state: PipelineState<S>, next: PipelineState<S>) -> bool {
    &&& next.buffers.len() == state.buffers.len()
    &&& forall|epoch: int|
        0 <= epoch < state.epochs.len() ==> #[trigger] next.size(epoch) == state.size(epoch)
    &&& next.items.len() == state.items.len()
    &&& next.published == state.published
    &&& next.marks == state.marks
    &&& next.chain == state.chain
    &&& next.epochs == state.epochs
}

/// Positions, sequence values and what the stages believe do not depend on what the slots hold.
#[verifier::spinoff_prover]
pub proof fn lemma_shape_decides<S>(state: PipelineState<S>, next: PipelineState<S>)
    requires
        state.wf(),
        same_shape(state, next),
    ensures
        next.epochs_wf(),
        next.chain_wf(),
        next.floor() == state.floor(),
        next.free() == state.free(),
        forall|epoch: int| 0 <= epoch < next.epochs.len() ==> #[trigger] next.fits(epoch),
        forall|epoch: int, at: int|
            0 <= epoch < state.epochs.len() ==> #[trigger] next.slot_of(epoch, at)
                == state.slot_of(epoch, at),
        forall|epoch: int, at: int|
            0 <= epoch < state.epochs.len() ==> #[trigger] next.value_at(epoch, at)
                == state.value_at(epoch, at),
        forall|stage: Stage, upstream: int| #[trigger]
            next.consumer_wf(stage, upstream) == state.consumer_wf(stage, upstream),
        forall|stage: Stage| #[trigger] next.publisher_wf(stage) == state.publisher_wf(stage),
{
    lemma_same_epochs(state, next);
    assert forall|id: int| 0 <= id < next.marks.len() implies #[trigger] next.mark_wf(id) by {
        assert(state.mark_wf(id));
    }
    assert forall|epoch: int| 0 <= epoch < next.epochs.len() implies #[trigger] next.fits(
        epoch,
    ) by {
        assert(state.fits(epoch));
        assert(next.size(epoch) == state.size(epoch));
    }
    assert(next.size(next.newest()) == state.size(state.newest()));
    assert forall|stage: Stage, upstream: int| #[trigger]
        next.consumer_wf(stage, upstream) == state.consumer_wf(stage, upstream) by {
        assert(next.follows(stage.id, upstream) == state.follows(stage.id, upstream));
    }
}

/// The publisher may write into its next slot as long as one is free.
#[verifier::spinoff_prover]
pub proof fn lemma_publisher_writes<S>(state: PipelineState<S>, value: S)
    requires
        state.wf(),
        state.free() >= 1,
    ensures
        ({
            let next = state.with_slot(state.newest(), state.head(), value);
            &&& next.wf()
            &&& same_shape(state, next)
            &&& next.buffers[next.newest()][next.slot_of(next.newest(), next.head())] == value
        }),
{
    let last = state.newest();
    let at = state.head();
    let next = state.with_slot(last, at, value);
    assert(state.buffers[last].len() == state.size(last));
    protocol::lemma_value_bounds(state, last, at);
    assert forall|epoch: int| 0 <= epoch < state.epochs.len() implies #[trigger] next.size(epoch)
        == state.size(epoch) by {}
    lemma_shape_decides(state, next);
    assert forall|epoch: int, q: int| 0 <= epoch < next.epochs.len() implies #[trigger] next.holds(
        epoch,
        q,
    ) by {
        assert(state.holds(epoch, q));
        assert(next.slot_of(epoch, q) == state.slot_of(epoch, q));
        assert(next.slot_of(last, at) == state.slot_of(last, at));
        if next.first_live(epoch) <= q < next.end_of(epoch) {
            protocol::lemma_value_bounds(state, epoch, q);
            if epoch == last {
                protocol::lemma_slots_differ(state, last, q, at);
            }
        }
    }
    assert(next.slot_of(last, at) == state.slot_of(last, at));
}

/// A consumer may replace the item that it is processing.
#[verifier::spinoff_prover]
pub proof fn lemma_consumer_writes<S>(
    state: PipelineState<S>,
    stage: Stage,
    upstream: int,
    value: S,
)
    requires
        state.wf(),
        state.consumer_wf(stage, upstream),
        stage.position < state.end_of(stage.epoch),
    ensures
        ({
            let next = state.with_item(stage.epoch, stage.position, value);
            &&& next.wf()
            &&& same_shape(state, next)
        }),
{
    let e = stage.epoch;
    let at = stage.position;
    let next = state.with_item(e, at, value);
    lemma_follows(state, stage.id, upstream);
    assert(state.buffers[e].len() == state.size(e));
    assert(at < state.head()) by {
        if e < state.newest() {
            if e + 1 < state.newest() {
                assert(state.epochs[e + 1].start < state.epochs[state.newest()].start);
            }
        }
    }
    protocol::lemma_value_bounds(state, e, at);
    assert forall|epoch: int| 0 <= epoch < state.epochs.len() implies #[trigger] next.size(epoch)
        == state.size(epoch) by {}
    lemma_shape_decides(state, next);
    assert(state.fits(e));
    assert forall|epoch: int, q: int| 0 <= epoch < next.epochs.len() implies #[trigger] next.holds(
        epoch,
        q,
    ) by {
        assert(state.holds(epoch, q));
        assert(next.slot_of(epoch, q) == state.slot_of(epoch, q));
        assert(next.slot_of(e, at) == state.slot_of(e, at));
        if next.first_live(epoch) <= q < next.end_of(epoch) {
            protocol::lemma_value_bounds(state, epoch, q);
            if epoch == e && q != at {
                protocol::lemma_slots_differ(state, e, q, at);
            }
            if epoch != e {
                lemma_epochs_apart(state, epoch, q, e, at);
            }
        }
    }
}

/// No item lies in two buffers.
pub proof fn lemma_epochs_apart<S>(
    state: PipelineState<S>,
    epoch: int,
    at: int,
    other_epoch: int,
    other: int,
)
    requires
        state.epochs_wf(),
        0 <= epoch < state.epochs.len(),
        0 <= other_epoch < state.epochs.len(),
        epoch != other_epoch,
        state.epochs[epoch].start <= at < state.end_of(epoch),
        state.epochs[other_epoch].start <= other < state.end_of(other_epoch),
    ensures
        at != other,
{
    if epoch < other_epoch {
        if epoch + 1 < other_epoch {
            assert(state.epochs[epoch + 1].start < state.epochs[other_epoch].start);
        }
    } else {
        if other_epoch + 1 < epoch {
            assert(state.epochs[other_epoch + 1].start < state.epochs[epoch].start);
        }
    }
}

/// The publisher may release slots that are free; what they hold becomes the next items.
#[verifier::spinoff_prover]
pub proof fn lemma_publisher_releases<S>(state: PipelineState<S>, n: int)
    requires
        state.wf(),
        0 <= n <= state.free(),
        state.newest() >= 1 ==> state.epochs[state.newest()].start < state.head() + n,
    ensures
        ({
            let next = state.with_released(n);
            &&& next.wf()
            &&& others_keep(state, next, 0)
            &&& next.head() == state.head() + n
            &&& next.free() == state.free() - n
            &&& next.floor() == state.floor()
            &&& forall|stage: Stage|
                state.publisher_wf(stage) && n <= stage.cached ==> next.publisher_wf(
                    Stage {
                        position: stage.position + n,
                        value: #[trigger] state.value_at(stage.epoch, stage.position + n),
                        cached: stage.cached - n,
                        ..stage
                    },
                )
        }),
{
    let next = state.with_released(n);
    let last = state.newest();
    assert(state.mark_wf(0));
    assert(state.fits(last));
    protocol::lemma_value_bounds(state, last, state.head() + n);
    assert(next.floor() == state.floor()) by {
        if state.chain.len() >= 2 {
            assert(state.chain[0] != state.chain[state.chain.len() - 1]);
        }
    }
    lemma_same_epochs(state, next);
    assert forall|id: int| 0 <= id < next.marks.len() implies #[trigger] next.mark_wf(id) by {
        assert(state.mark_wf(id));
    }
    assert forall|a: int, b: int|
        #![trigger next.chain[a], next.chain[b]]
        0 <= a < b < next.chain.len() implies next.chain[a] != next.chain[b]
        && next.marks[next.chain[b]].at <= next.marks[next.chain[a]].at by {
        assert(state.chain[a] != state.chain[b]);
        assert(state.chain[0] != state.chain[b]);
    }
    assert forall|epoch: int| 0 <= epoch < next.epochs.len() implies #[trigger] next.fits(
        epoch,
    ) by {
        assert(state.fits(epoch));
    }
    assert forall|epoch: int, at: int| 0 <= epoch < next.epochs.len() implies #[trigger] next.holds(
        epoch,
        at,
    ) by {
        assert(state.holds(epoch, at));
        if next.first_live(epoch) <= at < next.end_of(epoch) {
            if epoch < last {
                assert(next.end_of(epoch) <= state.head()) by {
                    if epoch + 1 < last {
                        assert(state.epochs[epoch + 1].start < state.epochs[last].start);
                    }
                }
            } else if at >= state.head() {
                assert(next.items[at] == state.next_slots(n)[at - state.head()]);
            }
        }
    }
    assert forall|other: Stage, u: int|
        other.id != 0 && state.consumer_wf(other, u) implies #[trigger] next.consumer_wf(
        other,
        u,
    ) by {
        lemma_follows(state, other.id, u);
        let j = choose|j: int|
            1 <= j < state.chain.len() && #[trigger] state.chain[j] == other.id && state.chain[j
                - 1] == u;
        assert(next.chain[j] == other.id && next.chain[j - 1] == u);
        lemma_belief_kept(state, next, other, u);
    }
}

/// Writing into the next slot and releasing it appends the value to the items.
pub proof fn lemma_publishes<S>(state: PipelineState<S>, value: S)
    requires
        state.wf(),
        state.free() >= 1,
    ensures
        ({
            let next = state.with_slot(state.newest(), state.head(), value).with_released(1);
            &&& next.items == state.items.push(value)
            &&& next.wf()
            &&& next.free() == state.free() - 1
            &&& next.floor() == state.floor()
            &&& others_keep(state, next, 0)
        }),
{
    let wrote = state.with_slot(state.newest(), state.head(), value);
    lemma_publisher_writes(state, value);
    lemma_shape_decides(state, wrote);
    lemma_publisher_releases(wrote, 1);
    let next = wrote.with_released(1);
    assert(next.items =~= state.items.push(value));
}

/// A larger buffer continues the numbering of the one before it, and leaves the numberings of the
/// earlier ones as they are.
#[verifier::spinoff_prover]
proof fn lemma_larger_buffer_continues<S>(state: PipelineState<S>, signal: S, larger: Seq<S>)
    requires
        state.wf(),
        state.free() >= 1,
        larger.len() == 2 * state.size(state.newest()),
        2 * sequence::boundary(larger.len() as int) <= power::usize_range(),
        state.newest() >= 1 ==> state.epochs[state.newest()].start < state.head(),
    ensures
        ({
            let next = state.with_buffer(signal, larger);
            &&& next.epochs_wf()
            &&& next.size(state.newest() + 1) == larger.len()
            &&& forall|epoch: int|
                0 <= epoch <= state.newest() ==> #[trigger] next.size(epoch) == state.size(epoch)
            &&& forall|epoch: int, q: int|
                0 <= epoch <= state.newest() ==> #[trigger] next.value_at(epoch, q)
                    == state.value_at(epoch, q)
            &&& forall|epoch: int, q: int|
                0 <= epoch <= state.newest() ==> #[trigger] next.slot_of(epoch, q)
                    == state.slot_of(epoch, q)
            &&& forall|epoch: int|
                0 <= epoch <= state.newest() ==> #[trigger] next.end_of(epoch)
                    == state.end_of(epoch)
        }),
{
    let last = state.newest();
    let at = state.head();
    let wrote = state.with_slot(last, at, signal);
    let next = state.with_buffer(signal, larger);
    lemma_publisher_writes(state, signal);
    lemma_shape_decides(state, wrote);
    assert forall|epoch: int| 0 <= epoch <= last implies #[trigger] next.size(epoch)
        == state.size(epoch) by {
        assert(wrote.size(epoch) == state.size(epoch));
    }
    assert(next.size(last + 1) == larger.len());
    assert forall|epoch: int, q: int| 0 <= epoch <= last implies #[trigger] next.value_at(epoch, q)
        == state.value_at(epoch, q) by {
        assert(next.size(epoch) == state.size(epoch));
    }
    assert forall|epoch: int, q: int| 0 <= epoch <= last implies #[trigger] next.slot_of(epoch, q)
        == state.slot_of(epoch, q) by {
        assert(next.size(epoch) == state.size(epoch));
        assert(next.value_at(epoch, q) == state.value_at(epoch, q));
    }
    assert forall|epoch: int| 0 <= epoch <= last implies #[trigger] next.end_of(epoch)
        == state.end_of(epoch) by {}
    protocol::lemma_value_bounds(state, last, at);
    assert(next.epochs_wf()) by {
        power::lemma_power_of_two_doubles(state.size(last));
        assert(state.buffers[last].len() == state.size(last));
        assert forall|epoch: int|
            #![trigger next.buffers[epoch]]
            0 <= epoch < next.epochs.len() implies power::is_power_of_two(next.size(epoch)) && 2
            * sequence::boundary(next.size(epoch)) <= power::usize_range() by {
            if epoch <= last {
                assert(next.size(epoch) == state.size(epoch));
                assert(state.buffers[epoch].len() == state.size(epoch));
            }
        }
        assert forall|epoch: int|
            1 <= epoch < next.epochs.len() implies #[trigger] next.continues(epoch) by {
            assert(next.size(epoch - 1) == state.size(epoch - 1));
            if epoch <= last {
                assert(state.continues(epoch));
                assert(next.size(epoch) == state.size(epoch));
            }
        }
        assert forall|earlier: int, later: int|
            #![trigger next.epochs[earlier], next.epochs[later]]
            0 <= earlier < later < next.epochs.len() implies {
            &&& next.epochs[earlier].start <= next.epochs[later].start
            &&& earlier >= 1 ==> next.epochs[earlier].start < next.epochs[later].start
            &&& 2 * next.size(earlier) <= next.size(later)
        } by {
            assert(next.size(earlier) == state.size(earlier));
            if later <= last {
                assert(next.size(later) == state.size(later));
                assert(state.epochs[earlier].start <= state.epochs[later].start);
            } else if earlier < last {
                assert(state.epochs[earlier].start <= state.epochs[last].start);
                assert(next.size(last) == state.size(last));
            }
        }
    }
}

/// The publisher may go on to a buffer twice as large as long as a slot is free for the signal.
#[verifier::spinoff_prover]
pub proof fn lemma_publisher_reallocates<S>(state: PipelineState<S>, signal: S, larger: Seq<S>)
    requires
        state.wf(),
        state.free() >= 1,
        larger.len() == 2 * state.size(state.newest()),
        2 * sequence::boundary(larger.len() as int) <= power::usize_range(),
        state.newest() >= 1 ==> state.epochs[state.newest()].start < state.head(),
    ensures
        ({
            let next = state.with_buffer(signal, larger);
            &&& next.wf()
            &&& others_keep(state, next, 0)
            &&& next.head() == state.head()
            &&& next.newest() == state.newest() + 1
            &&& next.free() == larger.len()
            &&& next.floor() == state.floor()
            &&& next.value_at(next.newest(), next.head()) == sequence::boundary(
                state.size(state.newest()),
            ) + state.slot_of(state.newest(), state.head())
            &&& next.items == state.items
            &&& next.buffers[state.newest()][next.slot_of(state.newest(), state.head())] == signal
            &&& forall|epoch: int, at: int|
                0 <= epoch <= state.newest() ==> #[trigger] next.slot_of(epoch, at)
                    == state.slot_of(epoch, at)
        }),
{
    let last = state.newest();
    let at = state.head();
    let wrote = state.with_slot(last, at, signal);
    let next = state.with_buffer(signal, larger);
    lemma_publisher_writes(state, signal);
    lemma_shape_decides(state, wrote);
    lemma_larger_buffer_continues(state, signal, larger);
    protocol::lemma_value_bounds(state, last, at);
    assert forall|id: int| 0 <= id < next.marks.len() implies #[trigger] next.mark_wf(id) by {
        assert(state.mark_wf(id));
        let epoch = state.marks[id].epoch;
        assert(next.end_of(epoch) == state.end_of(epoch));
        assert(next.value_at(epoch, state.marks[id].at) == state.value_at(
            epoch,
            state.marks[id].at,
        ));
    }
    assert(next.chain_wf());
    assert forall|epoch: int| 0 <= epoch < next.epochs.len() implies #[trigger] next.fits(
        epoch,
    ) by {
        if epoch <= last {
            assert(state.fits(epoch));
            assert(next.end_of(epoch) == state.end_of(epoch));
            assert(next.size(epoch) == state.size(epoch));
        } else {
            assert(state.mark_wf(0));
            assert(next.floor() <= next.head()) by {
                if state.chain.len() >= 2 {
                    assert(state.chain[0] != state.chain[state.chain.len() - 1]);
                }
            }
        }
    }
    assert forall|epoch: int, q: int| 0 <= epoch < next.epochs.len() implies #[trigger] next.holds(
        epoch,
        q,
    ) by {
        if epoch <= last {
            assert(wrote.holds(epoch, q));
            assert(next.end_of(epoch) == state.end_of(epoch));
            assert(next.slot_of(epoch, q) == state.slot_of(epoch, q));
            assert(wrote.slot_of(epoch, q) == state.slot_of(epoch, q));
        } else {
            assert(state.mark_wf(0));
        }
    }
    assert(state.floor() <= at) by {
        assert(state.mark_wf(0));
        if state.chain.len() >= 2 {
            assert(state.chain[0] != state.chain[state.chain.len() - 1]);
        }
    }
    protocol::lemma_values_ahead(next, last + 1, at);
    assert(next.slot_of(last, at) == state.slot_of(last, at));
    assert(wrote.slot_of(last, at) == state.slot_of(last, at));
    assert forall|other: Stage, u: int|
        other.id != 0 && state.consumer_wf(other, u) implies #[trigger] next.consumer_wf(
        other,
        u,
    ) by {
        lemma_follows(state, other.id, u);
        let j = choose|j: int|
            1 <= j < state.chain.len() && #[trigger] state.chain[j] == other.id && state.chain[j
                - 1] == u;
        assert(next.chain[j] == other.id && next.chain[j - 1] == u);
        assert(next.end_of(other.epoch) == state.end_of(other.epoch));
        assert(next.value_at(other.epoch, other.position) == state.value_at(
            other.epoch,
            other.position,
        ));
    }
}

/// A chain into which a consumer has been inserted at the right position is in order.
#[verifier::spinoff_prover]
proof fn lemma_joined_chain<S>(state: PipelineState<S>, index: int, mark: Mark)
    requires
        state.wf(),
        1 <= index <= state.chain.len(),
        state.in_epoch(mark),
        mark.at <= state.marks[state.chain[index - 1]].at,
        index < state.chain.len() ==> state.marks[state.chain[index]].at <= mark.at,
        index == state.chain.len() ==> mark.at == state.floor(),
    ensures
        ({
            let next = state.with_consumer(index, mark);
            let id = state.chain.len() as int;
            &&& next.epochs_wf()
            &&& next.chain_wf()
            &&& next.floor() == state.floor()
            &&& forall|i: int|
                0 <= i < next.chain.len() ==> #[trigger] next.chain[i] == (if i < index {
                    state.chain[i]
                } else if i == index {
                    id
                } else {
                    state.chain[i - 1]
                })
            &&& forall|epoch: int, at: int|
                0 <= epoch < state.epochs.len() ==> #[trigger] next.value_at(epoch, at)
                    == state.value_at(epoch, at)
            &&& forall|epoch: int, at: int|
                0 <= epoch < state.epochs.len() ==> #[trigger] next.slot_of(epoch, at)
                    == state.slot_of(epoch, at)
        }),
{
    let next = state.with_consumer(index, mark);
    let id = state.chain.len() as int;
    protocol::lemma_value_bounds(state, mark.epoch, mark.at);
    lemma_same_epochs(state, next);
    assert forall|i: int| 0 <= i < next.chain.len() implies #[trigger] next.chain[i] == (if i
        < index {
        state.chain[i]
    } else if i == index {
        id
    } else {
        state.chain[i - 1]
    }) by {}
    assert(state.mark_wf(0));
    assert forall|s: int| 0 <= s < next.marks.len() implies #[trigger] next.mark_wf(s) by {
        if s < id {
            assert(state.mark_wf(s));
        }
    }
    assert forall|a: int, b: int|
        #![trigger next.chain[a], next.chain[b]]
        0 <= a < b < next.chain.len() implies next.chain[a] != next.chain[b]
        && next.marks[next.chain[b]].at <= next.marks[next.chain[a]].at by {
        let a0 = if a < index { a } else { a - 1 };
        let b0 = if b < index { b } else { b - 1 };
        if a != index && b != index {
            assert(state.chain[a0] != state.chain[b0]);
        } else if b == index {
            assert(0 <= state.chain[a] < id);
            if a < index - 1 {
                assert(state.marks[state.chain[index - 1]].at <= state.marks[state.chain[a]].at);
            }
        } else {
            assert(0 <= state.chain[b0] < id);
            if index < b0 {
                assert(state.marks[state.chain[b0]].at <= state.marks[state.chain[index]].at);
            }
        }
    }
    assert(next.floor() == state.floor()) by {
        if index < state.chain.len() {
            assert(next.chain[next.chain.len() - 1] == state.chain[state.chain.len() - 1]);
            assert(0 <= state.chain[state.chain.len() - 1] < id);
        }
    }
}

/// A consumer may be added behind any stage, at a position between that stage and the next.
#[verifier::spinoff_prover]
pub proof fn lemma_consumer_joins<S>(state: PipelineState<S>, index: int, mark: Mark)
    requires
        state.wf(),
        1 <= index <= state.chain.len(),
        state.in_epoch(mark),
        mark.at <= state.marks[state.chain[index - 1]].at,
        index < state.chain.len() ==> state.marks[state.chain[index]].at <= mark.at,
        index == state.chain.len() ==> mark.at == state.floor(),
    ensures
        ({
            let next = state.with_consumer(index, mark);
            let id = state.chain.len() as int;
            &&& next.wf()
            &&& next.follows(id, state.chain[index - 1])
            &&& next.marks[id] == mark
            &&& next.floor() == state.floor()
            &&& index < state.chain.len() ==> next.follows(state.chain[index], id)
            &&& index < state.chain.len() ==> others_keep(state, next, state.chain[index])
            &&& index == state.chain.len() ==> others_keep(state, next, id)
        }),
{
    let next = state.with_consumer(index, mark);
    let id = state.chain.len() as int;
    lemma_joined_chain(state, index, mark);
    assert forall|epoch: int| 0 <= epoch < next.epochs.len() implies #[trigger] next.fits(
        epoch,
    ) by {
        assert(state.fits(epoch));
    }
    assert forall|epoch: int, at: int| 0 <= epoch < next.epochs.len() implies #[trigger] next.holds(
        epoch,
        at,
    ) by {
        assert(state.holds(epoch, at));
    }
    assert(next.chain[index] == id);
    assert(0 <= state.chain[index - 1] < id);
    if index < state.chain.len() {
        assert(next.chain[index + 1] == state.chain[index]);
    }
    let apart = if index < state.chain.len() { state.chain[index] } else { id };
    assert forall|other: Stage, u: int|
        other.id != apart && state.consumer_wf(other, u) implies #[trigger] next.consumer_wf(
        other,
        u,
    ) by {
        lemma_follows(state, other.id, u);
        let j = choose|j: int|
            1 <= j < state.chain.len() && #[trigger] state.chain[j] == other.id && state.chain[j
                - 1] == u;
        let k = if j < index { j } else { j + 1 };
        assert(next.chain[k] == other.id);
        assert(next.chain[k - 1] == u);
    }
    assert forall|other: Stage|
        other.id != apart && state.publisher_wf(other) implies #[trigger] next.publisher_wf(
        other,
    ) by {}
}

} // verus!
