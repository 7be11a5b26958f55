//! What holds of a pipeline as a whole, whatever its stages do.
use crate::power;
use crate::protocol;
use crate::protocol::{Mark, PipelineState, Stage};
use crate::sequence;
use crate::steps;
use vstd::prelude::*;

verus! {

/// Something that a stage of a pipeline does.
pub enum Move<S> {
    /// The publisher writes a value into its next slot, and releases it.
    Publish { value: S },
    /// The publisher marks its next slot, and goes on to a larger buffer.
    Reallocate { signal: S, larger: Seq<S> },
    /// A consumer releases its next item to the stages behind it.
    Pass { stage: Stage, upstream: int },
    /// A consumer replaces its next item.
    Replace { stage: Stage, upstream: int, value: S },
    /// A consumer is added to the chain.
    Join { index: int, mark: Mark },
}

/// A stage may do something: the publisher has a free slot, and a consumer an item that the stage
/// ahead has released.
pub open spec fn allowed<S>(state: PipelineState<S>, step: Move<S>) -> bool {
    match step {
        Move::Publish { value } => state.free() >= 1,
        Move::Reallocate { signal, larger } => {
            &&& state.free() >= 1
            &&& larger.len() == 2 * state.size(state.newest())
            &&& 2 * sequence::boundary(larger.len() as int) <= power::usize_range()
            &&& state.newest() >= 1 ==> state.epochs[state.newest()].start < state.head()
        },
        Move::Pass { stage, upstream } => {
            &&& state.consumer_wf(stage, upstream)
            &&& stage.position < state.marks[upstream].at
            &&& stage.position < state.end_of(stage.epoch)
        },
        Move::Replace { stage, upstream, value } => {
            &&& state.consumer_wf(stage, upstream)
            &&& stage.position < state.marks[upstream].at
            &&& stage.position < state.end_of(stage.epoch)
        },
        Move::Join { index, mark } => {
            &&& 1 <= index <= state.chain.len()
            &&& state.in_epoch(mark)
            &&& mark.at <= state.marks[state.chain[index - 1]].at
            &&& index < state.chain.len() ==> state.marks[state.chain[index]].at <= mark.at
            &&& index == state.chain.len() ==> mark.at == state.floor()
        },
    }
}

/// The state after a stage has done something.
pub open spec fn moved<S>(state: PipelineState<S>, step: Move<S>) -> PipelineState<S> {
    match step {
        Move::Publish { value } => state.with_slot(
            state.newest(),
            state.head(),
            value,
        ).with_released(1),
        Move::Reallocate { signal, larger } => state.with_buffer(signal, larger),
        Move::Pass { stage, upstream } => state.with_mark(
            stage.id,
            Mark { at: stage.position + 1, epoch: stage.epoch },
        ),
        Move::Replace { stage, upstream, value } => state.with_item(
            stage.epoch,
            stage.position,
            value,
        ),
        Move::Join { index, mark } => state.with_consumer(index, mark),
    }
}

/// The state of a pipeline at the end of a run.
pub open spec fn run<S>(slots: Seq<S>, moves: Seq<Move<S>>) -> PipelineState<S>
    decreases moves.len(),
{
    if moves.len() == 0 {
        PipelineState::initial(slots)
    } else {
        moved(run(slots, moves.drop_last()), moves.last())
    }
}

/// In a run each stage does only what it may.
pub open spec fn can_run<S>(slots: Seq<S>, moves: Seq<Move<S>>) -> bool
    decreases moves.len(),
{
    moves.len() > 0 ==> can_run(slots, moves.drop_last()) && allowed(
        run(slots, moves.drop_last()),
        moves.last(),
    )
}

/// The values that have been published in a run, in order, each as it was last replaced.
pub open spec fn history<S>(moves: Seq<Move<S>>) -> Seq<S>
    decreases moves.len(),
{
    if moves.len() == 0 {
        Seq::empty()
    } else {
        let before = history(moves.drop_last());
        match moves.last() {
            Move::Publish { value } => before.push(value),
            Move::Replace { stage, upstream, value } => before.update(stage.position, value),
            _ => before,
        }
    }
}

/// In whatever order the stages act: the items that the consumers find are the values that have been
/// published, in the order in which they have been published.
pub proof fn law_items_are_what_was_published<S>(slots: Seq<S>, moves: Seq<Move<S>>)
    requires
        power::is_power_of_two(slots.len() as int),
        2 * sequence::boundary(slots.len() as int) <= power::usize_range(),
        can_run(slots, moves),
    ensures
        run(slots, moves).wf(),
        run(slots, moves).items == history(moves),
    decreases moves.len(),
{
    if moves.len() == 0 {
        steps::lemma_initial_state(slots);
    } else {
        law_items_are_what_was_published(slots, moves.drop_last());
        let state = run(slots, moves.drop_last());
        match moves.last() {
            Move::Publish { value } => {
                steps::lemma_publishes(state, value);
            },
            Move::Reallocate { signal, larger } => {
                steps::lemma_publisher_reallocates(state, signal, larger);
            },
            Move::Pass { stage, upstream } => {
                steps::lemma_consumer_advances(state, stage, upstream, 1);
            },
            Move::Replace { stage, upstream, value } => {
                steps::lemma_consumer_writes(state, stage, upstream, value);
            },
            Move::Join { index, mark } => {
                steps::lemma_consumer_joins(state, index, mark);
            },
        }
    }
}

/// The slot that the publisher fills next holds no item that a consumer still needs.
pub proof fn law_no_overwrite<S>(state: PipelineState<S>, at: int)
    requires
        state.wf(),
        state.free() >= 1,
        state.first_live(state.newest()) <= at < state.head(),
    ensures
        state.slot_of(state.newest(), at) != state.slot_of(state.newest(), state.head()),
{
    protocol::lemma_slots_differ(state, state.newest(), at, state.head());
}

/// What the publisher has written into its next slot is still there when it releases the slot,
/// whatever the consumers do in between.
pub proof fn law_unreleased_value_is_kept<S>(state: PipelineState<S>, step: Move<S>)
    requires
        state.wf(),
        state.free() >= 1,
        allowed(state, step),
        step is Pass || step is Replace || step is Join,
    ensures
        moved(state, step).newest() == state.newest(),
        moved(state, step).head() == state.head(),
        moved(state, step).next_slots(1) == state.next_slots(1),
{
    let next = moved(state, step);
    let newest = state.newest();
    match step {
        Move::Replace { stage, upstream, value } => {
            steps::lemma_follows(state, stage.id, upstream);
            steps::lemma_consumer_writes(state, stage, upstream, value);
            steps::lemma_shape_decides(state, next);
            assert(next.slot_of(newest, state.head()) == state.slot_of(newest, state.head()));
            if stage.epoch == newest {
                protocol::lemma_slots_differ(state, newest, stage.position, state.head());
            }
        },
        _ => {
            assert(next.slot_of(newest, state.head()) == state.slot_of(newest, state.head()));
        },
    }
    assert(next.next_slots(1) =~= state.next_slots(1));
}

/// Each slot of the newest buffer is either free or holds an item that a consumer still needs.
pub proof fn law_slots_are_free_or_in_use<S>(state: PipelineState<S>)
    requires
        state.wf(),
    ensures
        state.free() + (state.head() - state.first_live(state.newest())) == state.size(
            state.newest(),
        ),
        0 <= state.free() <= state.size(state.newest()),
{
    assert(state.fits(state.newest()));
    assert(state.mark_wf(state.chain.last()));
    assert(state.mark_wf(0));
    if state.chain.len() > 1 {
        assert(state.marks[state.chain[state.chain.len() - 1]].at
            <= state.marks[state.chain[0]].at);
    }
}

/// No stage is ahead of one that comes before it in the chain.
pub proof fn law_stages_stay_in_order<S>(state: PipelineState<S>, earlier: int, later: int)
    requires
        state.wf(),
        0 <= earlier <= later < state.chain.len(),
    ensures
        0 <= state.marks[state.chain[later]].at <= state.marks[state.chain[earlier]].at
            <= state.head(),
{
    let id = state.chain[later];
    assert(state.mark_wf(id));
    assert(state.mark_wf(state.chain[earlier]));
    if state.marks[id].epoch > 0 {
        assert(state.epochs[0].start <= state.epochs[state.marks[id].epoch].start);
    }
    if earlier > 0 {
        assert(state.marks[state.chain[earlier]].at <= state.marks[state.chain[0]].at);
    }
}

/// As long as some consumer has not reached the newest buffer, the publisher's sequence does not wrap
/// there, and stays above every sequence value of the smaller buffers.
pub proof fn law_no_wrap_during_transition<S>(state: PipelineState<S>, earlier: int)
    requires
        state.wf(),
        0 <= earlier < state.newest(),
        state.floor() <= state.epochs[state.newest()].start,
    ensures
        state.value_at(state.newest(), state.head()) == state.epochs[state.newest()].base + (
        state.head() - state.epochs[state.newest()].start),
        sequence::boundary(state.size(earlier)) <= state.value_at(state.newest(), state.head()),
{
    protocol::lemma_values_ahead(state, state.newest(), state.head());
}

/// The publisher can use the whole of a new buffer at once, though consumers are still busy with the
/// smaller ones; what it has published before stays where it is.
pub proof fn law_new_buffer_is_free<S>(state: PipelineState<S>, signal: S, larger: Seq<S>)
    requires
        state.wf(),
        allowed(state, Move::Reallocate { signal, larger }),
    ensures
        state.with_buffer(signal, larger).free() == 2 * state.size(state.newest()),
        state.with_buffer(signal, larger).items == state.items,
        state.with_buffer(signal, larger).wf(),
{
    steps::lemma_publisher_reallocates(state, signal, larger);
}

/// Whatever one stage does, what every other stage knows of itself stays right.
pub proof fn law_moves_leave_others_right<S>(
    state: PipelineState<S>,
    step: Move<S>,
    other: Stage,
    upstream: int,
)
    requires
        state.wf(),
        allowed(state, step),
        state.consumer_wf(other, upstream),
        match step {
            Move::Pass { stage, upstream } => stage.id != other.id,
            Move::Replace { stage, upstream, value } => stage.id != other.id,
            Move::Join { index, mark } => index == state.chain.len() || state.chain[index]
                != other.id,
            _ => true,
        },
    ensures
        moved(state, step).consumer_wf(other, upstream),
{
    steps::lemma_follows(state, other.id, upstream);
    match step {
        Move::Publish { value } => {
            steps::lemma_publishes(state, value);
        },
        Move::Reallocate { signal, larger } => {
            steps::lemma_publisher_reallocates(state, signal, larger);
        },
        Move::Pass { stage, upstream } => {
            steps::lemma_consumer_advances(state, stage, upstream, 1);
        },
        Move::Replace { stage, upstream, value } => {
            steps::lemma_consumer_writes(state, stage, upstream, value);
            steps::lemma_shape_decides(state, moved(state, step));
        },
        Move::Join { index, mark } => {
            steps::lemma_consumer_joins(state, index, mark);
        },
    }
}

/// Whatever a consumer does, what the publisher knows of itself stays right.
pub proof fn law_moves_leave_publisher_right<S>(
    state: PipelineState<S>,
    step: Move<S>,
    publisher: Stage,
)
    requires
        state.wf(),
        allowed(state, step),
        state.publisher_wf(publisher),
        step is Pass || step is Replace || step is Join,
    ensures
        moved(state, step).publisher_wf(publisher),
{
    match step {
        Move::Pass { stage, upstream } => {
            steps::lemma_follows(state, stage.id, upstream);
            steps::lemma_consumer_advances(state, stage, upstream, 1);
        },
        Move::Replace { stage, upstream, value } => {
            steps::lemma_consumer_writes(state, stage, upstream, value);
            steps::lemma_shape_decides(state, moved(state, step));
        },
        Move::Join { index, mark } => {
            steps::lemma_consumer_joins(state, index, mark);
            if index < state.chain.len() {
                assert(state.chain[0] != state.chain[index]);
            }
        },
        _ => {},
    }
}

/// Between two stages of which the later one is behind, some stage is behind the one directly before
/// it.
proof fn lemma_gap<S>(state: PipelineState<S>, first: int, last: int) -> (place: int)
    requires
        0 <= first < last < state.chain.len(),
        state.marks[state.chain[last]].at < state.marks[state.chain[first]].at,
    ensures
        first < place <= last,
        state.marks[state.chain[place]].at < state.marks[state.chain[place - 1]].at,
    decreases last - first,
{
    if state.marks[state.chain[last]].at < state.marks[state.chain[last - 1]].at {
        last
    } else {
        lemma_gap(state, first, last - 1)
    }
}

/// A pipeline with consumers never comes to a standstill: if the publisher has no free slot, there is
/// a consumer for which the stage ahead has released an item.
pub proof fn law_some_stage_can_go_on<S>(state: PipelineState<S>) -> (place: int)
    requires
        state.wf(),
        state.chain.len() >= 2,
        state.free() == 0,
    ensures
        1 <= place < state.chain.len(),
        state.marks[state.chain[place]].at < state.marks[state.chain[place - 1]].at,
{
    protocol::lemma_value_bounds(state, state.newest(), state.head());
    lemma_gap(state, 0, state.chain.len() - 1)
}

} // verus!
