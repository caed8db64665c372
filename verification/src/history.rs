//! What holds of a pool over time: any number of renders, one after the other or side by side, and
//! the refills between them.

use vstd::prelude::*;
use crate::encoding;
use crate::pool;
use crate::pool::{RenderAction, RenderEvent, RenderOutcome, RenderState, RenderTicket, SlotKind};
use crate::pool::{SpawnOutcome, WorkerPool, WorkerSlot};
use crate::text;
use crate::worker;
use crate::worker::{RenderResponse, WorkerError, WorkerProcess};

verus! {

/// One step of a pool.
pub enum PoolStep {
    /// A caller asks for a render: `render_with_options`, or `render`.
    Queue,
    /// The render with this number goes on after an event: `step_render`.
    Advance(int, RenderEvent),
    /// A background start for this slot ends: `finish_respawn`.
    Refill(int, SpawnOutcome),
    /// The caller of the render with this number goes away: `release_slot`, if it holds a slot.
    Abandon(int),
}

/// A pool at one time, and how far each of the renders has come that were asked for so far.
pub struct Moment {
    pub pool: WorkerPool,
    pub renders: Seq<RenderState>,
}

/// Whether `step` leads from `before` to `after`.
pub open spec fn follows(before: Moment, step: PoolStep, after: Moment) -> bool {
    match step {
        PoolStep::Queue => {
            &&& pool::render_queued(before.pool, after.pool)
            &&& after.renders == before.renders.push(RenderState::Queued)
        },
        PoolStep::Advance(k, event) => {
            &&& 0 <= k < before.renders.len()
            &&& pool::expects(before.renders[k], event)
            &&& pool::render_stepped(before.pool, after.pool, before.renders[k], event)
            &&& after.renders == before.renders.update(
                k,
                pool::state_after(before.pool.slots@, before.renders[k], event),
            )
        },
        PoolStep::Refill(idx, outcome) => {
            &&& 0 <= idx < before.pool.slots@.len()
            &&& before.pool.slots@[idx].respawning
            &&& pool::slot_refilled(before.pool, after.pool, idx, outcome)
            &&& after.renders == before.renders
        },
        PoolStep::Abandon(k) => {
            &&& 0 <= k < before.renders.len()
            &&& match pool::held_slot(before.renders[k]) {
                Some(idx) => pool::slot_released(before.pool, after.pool, idx),
                None => after.pool == before.pool,
            }
            &&& after.renders == before.renders.update(k, RenderState::Finished)
        },
    }
}

/// Whether a pool has just been set up: no render was asked for yet.
pub open spec fn is_start(m: Moment) -> bool {
    &&& m.pool.wf()
    &&& forall|i: int| 0 <= i < m.pool.slots@.len() ==> !(#[trigger] m.pool.slots@[i]).busy
    &&& m.pool.total_renders == 0
    &&& m.pool.total_deaths == 0
    &&& m.renders == Seq::<RenderState>::empty()
}

/// Whether `moments` is what a new pool goes through when `steps` are taken, in whatever order the
/// steps of the renders come.
pub open spec fn is_history(moments: Seq<Moment>, steps: Seq<PoolStep>) -> bool {
    &&& moments.len() == steps.len() + 1
    &&& is_start(moments[0])
    &&& forall|i: int|
        0 <= i < steps.len() ==> follows(moments[i], #[trigger] steps[i], moments[i + 1])
}

/// How many renders were asked for.
pub open spec fn count_queued(steps: Seq<PoolStep>) -> nat
    decreases steps.len(),
{
    if steps.len() == 0 {
        0
    } else {
        count_queued(steps.drop_last()) + if steps.last() is Queue {
            1nat
        } else {
            0nat
        }
    }
}

/// Whether a step costs a worker.
pub open spec fn costs_worker(step: PoolStep) -> bool {
    match step {
        PoolStep::Advance(_, event) => pool::is_death(event),
        _ => false,
    }
}

/// How many workers were lost.
pub open spec fn count_lost(steps: Seq<PoolStep>) -> nat
    decreases steps.len(),
{
    if steps.len() == 0 {
        0
    } else {
        count_lost(steps.drop_last()) + if costs_worker(steps.last()) {
            1nat
        } else {
            0nat
        }
    }
}

/// How many renders hold a slot.
pub open spec fn count_holding(renders: Seq<RenderState>) -> nat
    decreases renders.len(),
{
    if renders.len() == 0 {
        0
    } else {
        count_holding(renders.drop_last()) + if pool::held_slot(renders.last()) is Some {
            1nat
        } else {
            0nat
        }
    }
}

/// What a counter of 64 bits shows after `n` counts.
pub open spec fn shown(n: nat) -> nat {
    n % 0x1_0000_0000_0000_0000
}

/// The pool is in order, every render holds the slot that it is to hold, no two of them hold the
/// same, and no slot is held by anything else.
pub open spec fn in_order(m: Moment) -> bool {
    &&& m.pool.wf()
    &&& forall|k: int|
        0 <= k < m.renders.len() ==> pool::holds(m.pool.slots@, #[trigger] m.renders[k])
    &&& holds_apart(m.renders)
    &&& count_holding(m.renders) == pool::count_busy(m.pool.slots@)
}

/// No two renders hold the same slot.
pub open spec fn holds_apart(renders: Seq<RenderState>) -> bool {
    forall|j: int, k: int|
        #![trigger renders[j], renders[k]]
        0 <= j < renders.len() && 0 <= k < renders.len() && j != k && pool::held_slot(
            renders[j],
        ) is Some ==> pool::held_slot(renders[j]) != pool::held_slot(renders[k])
}

/// Replacing one state changes the count by that state alone.
proof fn lemma_holding_update(renders: Seq<RenderState>, k: int, state: RenderState)
    requires
        0 <= k < renders.len(),
    ensures
        count_holding(renders.update(k, state)) + (if pool::held_slot(renders[k]) is Some {
            1nat
        } else {
            0nat
        }) == count_holding(renders) + (if pool::held_slot(state) is Some {
            1nat
        } else {
            0nat
        }),
    decreases renders.len(),
{
    let changed = renders.update(k, state);
    if k < renders.len() - 1 {
        lemma_holding_update(renders.drop_last(), k, state);
        assert(changed.drop_last() == renders.drop_last().update(k, state));
    } else {
        assert(changed.drop_last() == renders.drop_last());
    }
}

/// Replacing one slot changes the count by that slot alone.
proof fn lemma_busy_update(slots: Seq<WorkerSlot>, idx: int, slot: WorkerSlot)
    requires
        0 <= idx < slots.len(),
    ensures
        pool::count_busy(slots.update(idx, slot)) + (if slots[idx].busy {
            1nat
        } else {
            0nat
        }) == pool::count_busy(slots) + (if slot.busy {
            1nat
        } else {
            0nat
        }),
    decreases slots.len(),
{
    let changed = slots.update(idx, slot);
    if idx < slots.len() - 1 {
        lemma_busy_update(slots.drop_last(), idx, slot);
        assert(changed.drop_last() == slots.drop_last().update(idx, slot));
    } else {
        assert(changed.drop_last() == slots.drop_last());
    }
}

/// At most every slot is held, and none is where the count is zero.
proof fn lemma_busy_bounds(slots: Seq<WorkerSlot>)
    ensures
        pool::count_busy(slots) <= slots.len(),
        pool::count_busy(slots) == 0 <==> (forall|i: int|
            0 <= i < slots.len() ==> !(#[trigger] slots[i]).busy),
    decreases slots.len(),
{
    if slots.len() > 0 {
        let init = slots.drop_last();
        lemma_busy_bounds(init);
        if pool::count_busy(slots) == 0 {
            assert forall|i: int| 0 <= i < slots.len() implies !(#[trigger] slots[i]).busy by {
                if i < init.len() {
                    assert(!init[i].busy);
                }
            }
        } else if forall|i: int| 0 <= i < slots.len() ==> !(#[trigger] slots[i]).busy {
            assert(!slots[slots.len() - 1].busy);
            assert forall|i: int| 0 <= i < init.len() implies !(#[trigger] init[i]).busy by {
                assert(init[i] == slots[i]);
            }
        }
    }
}

/// Where every render has ended, none holds a slot.
proof fn lemma_none_holding(renders: Seq<RenderState>)
    requires
        forall|k: int| 0 <= k < renders.len() ==> (#[trigger] renders[k]) is Finished,
    ensures
        count_holding(renders) == 0,
    decreases renders.len(),
{
    if renders.len() > 0 {
        let init = renders.drop_last();
        assert forall|k: int| 0 <= k < init.len() implies (#[trigger] init[k]) is Finished by {
            assert(init[k] == renders[k]);
        }
        lemma_none_holding(init);
        assert(renders[renders.len() - 1] is Finished);
    }
}

proof fn lemma_advance_keeps_order(before: Moment, k: int, event: RenderEvent, after: Moment)
    requires
        in_order(before),
        follows(before, PoolStep::Advance(k, event), after),
    ensures
        in_order(after),
{
    let slots = before.pool.slots@;
    let state = before.renders[k];
    let next = pool::state_after(slots, state, event);
    let changed = pool::slots_after(slots, state, event);
    pool::lemma_first_available(slots);
    assert(pool::holds(slots, state));
    assert(pool::holds(changed, next));
    assert forall|j: int| 0 <= j < after.renders.len() implies pool::holds(
        changed,
        #[trigger] after.renders[j],
    ) by {
        if j != k {
            pool::law_renders_do_not_interfere(slots, before.renders[j], state, event);
        }
    }
    assert forall|i: int, j: int|
        #![trigger after.renders[i], after.renders[j]]
        0 <= i < after.renders.len() && 0 <= j < after.renders.len() && i != j && pool::held_slot(
            after.renders[i],
        ) is Some implies pool::held_slot(after.renders[i]) != pool::held_slot(
        after.renders[j],
    ) by {
        assert(pool::holds(slots, before.renders[i]));
        assert(pool::holds(slots, before.renders[j]));
        if j == k {
            pool::law_renders_do_not_interfere(slots, before.renders[i], state, event);
        } else if i == k {
            pool::law_renders_do_not_interfere(slots, before.renders[j], state, event);
        }
    }
    lemma_holding_update(before.renders, k, next);
    let idx = match state {
        RenderState::Queued => pool::first_available(slots),
        _ => pool::held_slot(state)->0,
    };
    if idx < slots.len() {
        assert(changed == slots.update(idx, changed[idx]));
        lemma_busy_update(slots, idx, changed[idx]);
    }
}

proof fn lemma_step_keeps_order(before: Moment, step: PoolStep, after: Moment)
    requires
        in_order(before),
        follows(before, step, after),
    ensures
        in_order(after),
        after.pool.config == before.pool.config,
{
    let slots = before.pool.slots@;
    match step {
        PoolStep::Queue => {
            assert(after.renders.drop_last() == before.renders);
            assert forall|k: int| 0 <= k < after.renders.len() implies pool::holds(
                slots,
                #[trigger] after.renders[k],
            ) by {
                if k < before.renders.len() {
                    assert(after.renders[k] == before.renders[k]);
                }
            }
            assert forall|j: int, k: int|
                #![trigger after.renders[j], after.renders[k]]
                0 <= j < after.renders.len() && 0 <= k < after.renders.len() && j != k
                    && pool::held_slot(after.renders[j]) is Some implies pool::held_slot(
                after.renders[j],
            ) != pool::held_slot(after.renders[k]) by {
                if j < before.renders.len() && k < before.renders.len() {
                    assert(after.renders[j] == before.renders[j]);
                    assert(after.renders[k] == before.renders[k]);
                }
            }
        },
        PoolStep::Advance(k, event) => {
            lemma_advance_keeps_order(before, k, event, after);
        },
        PoolStep::Refill(idx, outcome) => {
            assert(slots[idx].wf());
            lemma_busy_update(slots, idx, pool::refilled(outcome));
            assert forall|k: int| 0 <= k < after.renders.len() implies pool::holds(
                after.pool.slots@,
                #[trigger] after.renders[k],
            ) by {
                pool::law_refill_does_not_interfere(slots, before.renders[k], idx, outcome);
            }
        },
        PoolStep::Abandon(k) => {
            assert(pool::holds(slots, before.renders[k]));
            lemma_holding_update(before.renders, k, RenderState::Finished);
            if let Some(idx) = pool::held_slot(before.renders[k]) {
                assert(slots[idx].wf());
                lemma_busy_update(slots, idx, pool::released(slots[idx]));
            }
            assert forall|j: int| 0 <= j < after.renders.len() implies pool::holds(
                after.pool.slots@,
                #[trigger] after.renders[j],
            ) by {
                if j != k {
                    assert(after.renders[j] == before.renders[j]);
                    assert(pool::holds(slots, before.renders[j]));
                    assert(pool::held_slot(before.renders[k]) is Some ==> pool::held_slot(
                        before.renders[k],
                    ) != pool::held_slot(before.renders[j]));
                }
            }
        },
    }
}

/// At every time each render that is under way holds a slot of its own, at most as many as the pool
/// has slots are under way, and a slot is held by nothing but a render. The size of the pool stays.
pub proof fn law_renders_share_the_slots(moments: Seq<Moment>, steps: Seq<PoolStep>, i: int)
    requires
        is_history(moments, steps),
        0 <= i <= steps.len(),
    ensures
        in_order(moments[i]),
        moments[i].pool.config == moments[0].pool.config,
        holds_apart(moments[i].renders),
        count_holding(moments[i].renders) == pool::count_busy(moments[i].pool.slots@),
        count_holding(moments[i].renders) <= moments[0].pool.config.pool_size,
    decreases i,
{
    if i == 0 {
        lemma_busy_bounds(moments[0].pool.slots@);
    } else {
        law_renders_share_the_slots(moments, steps, i - 1);
        assert(follows(moments[i - 1], steps[i - 1], moments[i]));
        lemma_step_keeps_order(moments[i - 1], steps[i - 1], moments[i]);
    }
    lemma_busy_bounds(moments[i].pool.slots@);
}

/// Each render that is asked for counts once, however it ends and whatever else goes on; and each
/// worker that is lost counts once. (The counters have 64 bits.)
pub proof fn law_every_render_counts_once(moments: Seq<Moment>, steps: Seq<PoolStep>, i: int)
    requires
        is_history(moments, steps),
        0 <= i <= steps.len(),
    ensures
        moments[i].renders.len() == count_queued(steps.take(i)),
        moments[i].pool.total_renders == shown(count_queued(steps.take(i))),
        moments[i].pool.total_deaths == shown(count_lost(steps.take(i))),
        count_queued(steps.take(i)) <= u64::MAX ==> moments[i].pool.total_renders == count_queued(
            steps.take(i),
        ),
        count_lost(steps.take(i)) <= u64::MAX ==> moments[i].pool.total_deaths == count_lost(
            steps.take(i),
        ),
    decreases i,
{
    if i > 0 {
        law_every_render_counts_once(moments, steps, i - 1);
        assert(follows(moments[i - 1], steps[i - 1], moments[i]));
        assert(steps.take(i).drop_last() == steps.take(i - 1));
        assert(steps.take(i).last() == steps[i - 1]);
    }
}

/// Once every render has ended, no slot is held: the next render waits for refills at most, and
/// the pool has counted as many renders as were asked for.
pub proof fn law_ended_renders_hold_nothing(moments: Seq<Moment>, steps: Seq<PoolStep>)
    requires
        is_history(moments, steps),
        forall|k: int|
            0 <= k < moments.last().renders.len() ==> (
            #[trigger] moments.last().renders[k]) is Finished,
    ensures
        forall|i: int|
            0 <= i < moments.last().pool.slots@.len() ==> !(
            #[trigger] moments.last().pool.slots@[i]).busy,
        moments.last().pool.total_renders == shown(moments.last().renders.len()),
        pool::count_slots(moments.last().pool.slots@, SlotKind::Respawning)
            < moments.last().pool.slots@.len() ==> pool::first_available(
            moments.last().pool.slots@,
        ) < moments.last().pool.slots@.len(),
{
    let n = steps.len() as int;
    law_renders_share_the_slots(moments, steps, n);
    law_every_render_counts_once(moments, steps, n);
    lemma_none_holding(moments[n].renders);
    lemma_busy_bounds(moments[n].pool.slots@);
    let slots = moments[n].pool.slots@;
    if pool::count_slots(slots, SlotKind::Respawning) < slots.len() {
        pool::law_render_waits_for_refills_alone(slots);
    }
}

/// `slots` with one request more numbered by the worker in slot `idx`.
pub open spec fn used(slots: Seq<WorkerSlot>, idx: int) -> Seq<WorkerSlot> {
    slots.update(
        idx,
        pool::filled(
            WorkerProcess { request_counter: (slots[idx].worker->0.request_counter + 1) as u64 },
        ),
    )
}

/// Whether the next render gets slot `idx`, with a worker that can number a request.
pub open spec fn next_is(slots: Seq<WorkerSlot>, idx: usize) -> bool {
    &&& pool::first_available(slots) == idx < slots.len()
    &&& slots[idx as int].worker is Some
    &&& pool::number_left(slots)
}

/// Whether a render with this outcome, sent to slot `idx`, leads from `p[0]` to `p[3]`: it is asked
/// for, it gets the slot, and it ends.
pub open spec fn is_run(p: Seq<WorkerPool>, idx: usize, outcome: RenderOutcome) -> bool {
    &&& p.len() == 4
    &&& pool::render_queued(p[0], p[1])
    &&& pool::render_stepped(p[1], p[2], RenderState::Queued, RenderEvent::Turn)
    &&& pool::render_stepped(p[2], p[3], RenderState::Running(idx), RenderEvent::Ended(outcome))
}

/// A render that its worker answers leaves the pool as it was, but for one request more and one
/// render more.
proof fn lemma_answered_run(p: Seq<WorkerPool>, idx: usize, outcome: RenderOutcome)
    requires
        p[0].wf(),
        next_is(p[0].slots@, idx),
        is_run(p, idx, outcome),
        !pool::is_fatal(outcome),
    ensures
        pool::state_after(p[1].slots@, RenderState::Queued, RenderEvent::Turn)
            == RenderState::Running(idx),
        p[3].wf(),
        p[3].config == p[0].config,
        p[3].slots@ == used(p[0].slots@, idx as int),
        forall|kind: SlotKind|
            pool::count_slots(p[3].slots@, kind) == pool::count_slots(p[0].slots@, kind),
        pool::first_available(p[3].slots@) == idx,
        p[3].total_renders == pool::counted(p[0].total_renders),
        p[3].total_deaths == p[0].total_deaths,
{
    let slots = p[0].slots@;
    let asked = WorkerProcess {
        request_counter: (slots[idx as int].worker->0.request_counter + 1) as u64,
    };
    pool::lemma_first_available(slots);
    assert(slots[idx as int].wf());
    pool::law_successful_render_restores_slot(slots, idx as int, asked);
    assert(p[3].slots@ == slots.update(idx as int, pool::filled(asked)));
    let taken = slots.update(idx as int, pool::held(slots[idx as int]));
    let sent = taken.update(idx as int, pool::held(pool::filled(asked)));
    assert(p[3].slots@ == sent.update(idx as int, pool::released(sent[idx as int])));
}

/// A source that does not compile costs no worker. The caller is told every message of the
/// compiler; the numbers of workers alive, being started and missing stay, and so does the number
/// of workers lost; the same worker takes the next render, and an image that it answers with
/// reaches the caller.
pub proof fn law_compile_error_keeps_the_worker(
    first: Seq<WorkerPool>,
    second: Seq<WorkerPool>,
    idx: usize,
    bad: RenderResponse,
    refused: Result<Vec<u8>, WorkerError>,
    good: RenderResponse,
    image: Seq<u8>,
    rendered: Result<Vec<u8>, WorkerError>,
    ticket: RenderTicket,
)
    requires
        first[0].wf(),
        next_is(first[0].slots@, idx),
        !bad.ok,
        worker::response_outcome(bad, refused),
        is_run(first, idx, RenderOutcome::Replied(refused)),
        second[0] == first[3],
        pool::number_left(second[0].slots@),
        good.ok,
        good.data is Some,
        encoding::decodes_to(good.data->0@, image),
        worker::response_outcome(good, rendered),
        is_run(second, idx, RenderOutcome::Replied(rendered)),
    ensures
        refused matches Err(WorkerError::Compile(m)) && m@ == worker::compile_errors_text(
            bad.errors,
        ) && tells_every_message(m@, bad),
        pool::is_action(
            first[2].slots@,
            first[2].config,
            ticket,
            RenderState::Running(idx),
            RenderEvent::Ended(RenderOutcome::Replied(refused)),
            RenderAction::Return(refused, None),
        ),
        first[3].slots@ == used(first[0].slots@, idx as int),
        forall|kind: SlotKind|
            pool::count_slots(first[3].slots@, kind) == pool::count_slots(first[0].slots@, kind),
        first[3].total_renders == pool::counted(first[0].total_renders),
        first[3].total_deaths == first[0].total_deaths,
        pool::state_after(second[1].slots@, RenderState::Queued, RenderEvent::Turn)
            == RenderState::Running(idx),
        rendered matches Ok(png) && png@ == image,
        pool::is_action(
            second[2].slots@,
            second[2].config,
            ticket,
            RenderState::Running(idx),
            RenderEvent::Ended(RenderOutcome::Replied(rendered)),
            RenderAction::Return(rendered, None),
        ),
        second[3].slots@ == used(first[3].slots@, idx as int),
        forall|kind: SlotKind|
            pool::count_slots(second[3].slots@, kind) == pool::count_slots(first[0].slots@, kind),
        second[3].total_renders == pool::counted(pool::counted(first[0].total_renders)),
        second[3].total_deaths == first[0].total_deaths,
{
    lemma_answered_run(first, idx, RenderOutcome::Replied(refused));
    lemma_answered_run(second, idx, RenderOutcome::Replied(rendered));
    if let Some(errors) = bad.errors {
        assert forall|k: int| 0 <= k < errors@.len() implies text::contains_text(
            worker::compile_errors_text(bad.errors),
            (#[trigger] errors@[k]).message@,
        ) by {
            worker::law_every_compile_error_is_told(errors, k);
        }
    }
}

/// Whether each message of a response stands in `m`.
pub open spec fn tells_every_message(m: Seq<char>, response: RenderResponse) -> bool {
    response.errors matches Some(errors) ==> forall|k: int|
        0 <= k < errors@.len() ==> text::contains_text(m, (#[trigger] errors@[k]).message@)
}

/// A worker that is lost, by running out of time or by going away, is replaced. The caller is told
/// of it and that the worker of that slot is to be replaced; one worker less is alive and one loss
/// more is counted; once a new worker is there, the numbers of workers are as before, and the next
/// render goes to it.
pub proof fn law_lost_worker_is_replaced(
    p: Seq<WorkerPool>,
    idx: usize,
    outcome: RenderOutcome,
    back: WorkerPool,
    fresh: WorkerProcess,
    ticket: RenderTicket,
)
    requires
        p[0].wf(),
        next_is(p[0].slots@, idx),
        is_run(p, idx, outcome),
        pool::is_fatal(outcome),
        pool::slot_refilled(p[3], back, idx as int, SpawnOutcome::Ready(fresh)),
    ensures
        pool::told(outcome, p[0].config) is Err,
        pool::is_action(
            p[2].slots@,
            p[2].config,
            ticket,
            RenderState::Running(idx),
            RenderEvent::Ended(outcome),
            RenderAction::Return(pool::told(outcome, p[0].config), Some(idx)),
        ),
        pool::count_slots(p[3].slots@, SlotKind::Alive) + 1 == pool::count_slots(
            p[0].slots@,
            SlotKind::Alive,
        ),
        p[3].slots@[idx as int].respawning,
        p[3].total_deaths == pool::counted(p[0].total_deaths),
        back.total_deaths == pool::counted(p[0].total_deaths),
        back.total_renders == pool::counted(p[0].total_renders),
        forall|kind: SlotKind|
            pool::count_slots(back.slots@, kind) == pool::count_slots(p[0].slots@, kind),
        back.slots@ == p[0].slots@.update(idx as int, pool::filled(fresh)),
        pool::state_after(back.slots@, RenderState::Queued, RenderEvent::Turn)
            == RenderState::Running(idx),
{
    let slots = p[0].slots@;
    pool::lemma_first_available(slots);
    assert(slots[idx as int].wf());
    assert(p[3].slots@ == slots.update(idx as int, pool::vacated()));
    let dead = slots.update(idx as int, pool::vacated());
    assert(back.slots@ == dead.update(idx as int, pool::filled(fresh)));
    assert(back.slots@ == slots.update(idx as int, pool::filled(fresh)));
    pool::law_dead_worker_is_replaced(slots, idx as int, fresh, WorkerError::Exited);
    pool::law_successful_render_restores_slot(slots, idx as int, fresh);
}

} // verus!
