//! The pool of workers: which slot a render gets, what a failed render does to its slot, and the
//! counts that are kept of it all.
//!
//! The pool decides; starting processes, waiting and talking to them is done by the caller, who
//! hands the outcomes back.

use vstd::prelude::*;
use crate::text;
use crate::worker::{PoolConfig, RenderRequest, WorkerError, WorkerProcess, DEFAULT_RENDER_SCALE_BITS};

verus! {

/// A place for one worker.
#[derive(Debug)]
pub struct WorkerSlot {
    pub worker: Option<WorkerProcess>,
    /// A new worker is being started in the background.
    pub respawning: bool,
    /// A render holds the slot.
    pub busy: bool,
}

impl WorkerSlot {
    /// A slot with a worker is not being refilled, and a slot that is being refilled is held by no
    /// render.
    pub open spec fn wf(self) -> bool {
        &&& self.worker is Some ==> !self.respawning
        &&& self.respawning ==> !self.busy
    }

    /// Whether a render may take the slot.
    pub open spec fn available(self) -> bool {
        !self.busy && !self.respawning
    }
}

/// What a slot counts as.
#[derive(Debug, Clone, Copy, PartialEq, Eq, Structural)]
pub enum SlotKind {
    Alive,
    Respawning,
    Empty,
}

/// What `slot` counts as.
pub open spec fn slot_kind(slot: WorkerSlot) -> SlotKind {
    if slot.worker is Some {
        SlotKind::Alive
    } else if slot.respawning {
        SlotKind::Respawning
    } else {
        SlotKind::Empty
    }
}

/// How many slots count as `kind`.
pub open spec fn count_slots(slots: Seq<WorkerSlot>, kind: SlotKind) -> nat
    decreases slots.len(),
{
    if slots.len() == 0 {
        0
    } else {
        count_slots(slots.drop_last(), kind) + if slot_kind(slots.last()) == kind {
            1nat
        } else {
            0nat
        }
    }
}

/// The position of the first slot that a render may take, or the number of slots.
pub open spec fn first_available(slots: Seq<WorkerSlot>) -> int
    decreases slots.len(),
{
    if slots.len() == 0 || slots[0].available() {
        0
    } else {
        1 + first_available(slots.skip(1))
    }
}

/// `slot`, held by a render.
pub open spec fn held(slot: WorkerSlot) -> WorkerSlot {
    WorkerSlot { worker: slot.worker, respawning: slot.respawning, busy: true }
}

/// `slot`, held by no render.
pub open spec fn released(slot: WorkerSlot) -> WorkerSlot {
    WorkerSlot { worker: slot.worker, respawning: slot.respawning, busy: false }
}

/// A slot whose worker died and is being replaced.
pub open spec fn vacated() -> WorkerSlot {
    WorkerSlot { worker: None, respawning: true, busy: false }
}

/// A slot with a worker that waits for work.
pub open spec fn filled(worker: WorkerProcess) -> WorkerSlot {
    WorkerSlot { worker: Some(worker), respawning: false, busy: false }
}

/// A slot after a background start.
pub open spec fn refilled(outcome: SpawnOutcome) -> WorkerSlot {
    match outcome {
        SpawnOutcome::Ready(worker) => filled(worker),
        _ => WorkerSlot { worker: None, respawning: false, busy: false },
    }
}

/// The positions of the slots that have a worker, in order.
pub open spec fn alive_slots(slots: Seq<WorkerSlot>) -> Seq<usize>
    decreases slots.len(),
{
    if slots.len() == 0 {
        Seq::empty()
    } else {
        let before = alive_slots(slots.drop_last());
        if slot_kind(slots.last()) == SlotKind::Alive {
            before.push((slots.len() - 1) as usize)
        } else {
            before
        }
    }
}

/// The position of the first start that did not end with a worker, or the number of them.
pub open spec fn first_failed(outcomes: Seq<SpawnOutcome>) -> int
    decreases outcomes.len(),
{
    if outcomes.len() == 0 || !(outcomes[0] is Ready) {
        0
    } else {
        1 + first_failed(outcomes.skip(1))
    }
}

/// The message of a worker whose start ran out of time, given the words for the limit.
pub open spec fn spawn_timeout_text(slot: nat, limit: Seq<char>) -> Seq<char> {
    "worker "@ + text::decimal(slot) + " spawn timed out after "@ + limit
}

/// The message of a worker whose start ran out of time, given the words for the limit.
pub fn spawn_timeout_message(slot: usize, limit: &str) -> (r: String)
    ensures
        r@ == spawn_timeout_text(slot as nat, limit@),
{
    "worker ".to_owned().concat(text::decimal_text(slot as u64).as_str()).concat(
        " spawn timed out after ",
    ).concat(limit)
}

/// A count that went up by one, modulo 2^64.
pub open spec fn counted(n: u64) -> u64 {
    if n == u64::MAX {
        0
    } else {
        (n + 1) as u64
    }
}

/// How the start of a worker ended.
#[derive(Debug)]
pub enum SpawnOutcome {
    Ready(WorkerProcess),
    Failed(WorkerError),
    TimedOut,
}

/// How a render ended.
#[derive(Debug)]
pub enum RenderOutcome {
    Replied(Result<Vec<u8>, WorkerError>),
    TimedOut,
}

/// Whether a render ended in a way that costs the worker: no answer in time, a closed output or a
/// broken pipe.
pub open spec fn is_fatal(outcome: RenderOutcome) -> bool {
    match outcome {
        RenderOutcome::Replied(Ok(_)) => false,
        RenderOutcome::Replied(Err(e)) => e is Exited || e is Io,
        RenderOutcome::TimedOut => true,
    }
}

/// What the caller of a render is told: a broken pipe is told as an exit.
pub open spec fn told(outcome: RenderOutcome, config: PoolConfig) -> Result<Vec<u8>, WorkerError> {
    match outcome {
        RenderOutcome::Replied(Ok(png)) => Ok(png),
        RenderOutcome::Replied(Err(e)) => if e is Io {
            Err(WorkerError::Exited)
        } else {
            Err(e)
        },
        RenderOutcome::TimedOut => Err(WorkerError::Timeout(config.render_timeout)),
    }
}

/// A render that waits for a slot.
#[derive(Debug)]
pub struct RenderTicket {
    pub render_id: u64,
    pub source: String,
    pub template: String,
    /// The scale of the image, as the IEEE 754 bits of a single precision number.
    pub scale_bits: u32,
    pub max_pages: Option<usize>,
}

/// Whether `r` is the request with number `n` of its worker, for the render that `ticket` stands
/// for: a stitched PNG.
pub open spec fn is_request_for(r: RenderRequest, n: nat, ticket: RenderTicket) -> bool {
    &&& r.id matches Some(id)
    &&& id@ == crate::worker::request_id(n)
    &&& r.source@ == ticket.source@
    &&& r.template@ == ticket.template@
    &&& r.scale_bits == ticket.scale_bits
    &&& r.max_pages == ticket.max_pages
    &&& r.format@ == "png"@
    &&& r.stitch
}

/// How far a render has come.
#[derive(Debug, Clone, Copy, PartialEq, Eq, Structural)]
pub enum RenderState {
    /// It waits for a slot.
    Queued,
    /// It holds a slot for which a worker is being started.
    Starting(usize),
    /// It holds a slot whose worker has its request.
    Running(usize),
    Finished,
}

/// What happened to a render since its last action.
#[derive(Debug)]
pub enum RenderEvent {
    /// Its turn has come, or a slot was refilled since it last found none.
    Turn,
    /// The start of a worker for its slot ended.
    Spawned(SpawnOutcome),
    /// Its worker answered, or did not.
    Ended(RenderOutcome),
}

/// What a render has to do next.
#[derive(Debug)]
pub enum RenderAction {
    /// Wait until a slot is refilled.
    AwaitRefill,
    /// Start a worker for this slot.
    StartWorker(usize),
    /// Send a request to the worker in this slot.
    Send(usize, RenderRequest),
    /// Return this result; where a slot is named, kill its worker and start another in the
    /// background.
    Return(Result<Vec<u8>, WorkerError>, Option<usize>),
}

/// Whether an event can follow on a state.
pub open spec fn expects(state: RenderState, event: RenderEvent) -> bool {
    match state {
        RenderState::Queued => event is Turn,
        RenderState::Starting(_) => event is Spawned,
        RenderState::Running(_) => event is Ended,
        RenderState::Finished => false,
    }
}

/// Whether a render in `state` holds the slot that it is to hold.
pub open spec fn holds(slots: Seq<WorkerSlot>, state: RenderState) -> bool {
    match state {
        RenderState::Starting(idx) => {
            &&& idx < slots.len()
            &&& slots[idx as int].busy
            &&& slot_kind(slots[idx as int]) == SlotKind::Empty
        },
        RenderState::Running(idx) => {
            &&& idx < slots.len()
            &&& slots[idx as int].busy
            &&& slot_kind(slots[idx as int]) == SlotKind::Alive
        },
        _ => true,
    }
}

/// The slot that a render in `state` holds.
pub open spec fn held_slot(state: RenderState) -> Option<int> {
    match state {
        RenderState::Starting(idx) => Some(idx as int),
        RenderState::Running(idx) => Some(idx as int),
        _ => None,
    }
}

/// Whether the worker that the next render gets, if it gets one, can number another request.
pub open spec fn number_left(slots: Seq<WorkerSlot>) -> bool {
    let idx = first_available(slots);
    idx < slots.len() ==> (slots[idx].worker matches Some(w) ==> w.request_counter < u64::MAX)
}

/// A slot with a worker, held by a render whose request was just made.
pub open spec fn asked(worker: WorkerProcess) -> WorkerSlot {
    held(filled(WorkerProcess { request_counter: (worker.request_counter + 1) as u64 }))
}

/// How far a render has come after an event.
pub open spec fn state_after(
    slots: Seq<WorkerSlot>,
    state: RenderState,
    event: RenderEvent,
) -> RenderState {
    match (state, event) {
        (RenderState::Queued, RenderEvent::Turn) => {
            let idx = first_available(slots);
            if idx == slots.len() {
                RenderState::Queued
            } else if slots[idx].worker is None {
                RenderState::Starting(idx as usize)
            } else {
                RenderState::Running(idx as usize)
            }
        },
        (RenderState::Starting(idx), RenderEvent::Spawned(SpawnOutcome::Ready(_))) => {
            RenderState::Running(idx)
        },
        _ => RenderState::Finished,
    }
}

/// The slots after an event of a render: at most the one it takes or holds has changed.
pub open spec fn slots_after(
    slots: Seq<WorkerSlot>,
    state: RenderState,
    event: RenderEvent,
) -> Seq<WorkerSlot> {
    match (state, event) {
        (RenderState::Queued, RenderEvent::Turn) => {
            let idx = first_available(slots);
            if idx == slots.len() {
                slots
            } else {
                match slots[idx].worker {
                    None => slots.update(idx, held(slots[idx])),
                    Some(worker) => slots.update(idx, asked(worker)),
                }
            }
        },
        (RenderState::Starting(idx), RenderEvent::Spawned(outcome)) => match outcome {
            SpawnOutcome::Ready(worker) => slots.update(idx as int, asked(worker)),
            _ => slots.update(idx as int, released(slots[idx as int])),
        },
        (RenderState::Running(idx), RenderEvent::Ended(outcome)) => if is_fatal(outcome) {
            slots.update(idx as int, vacated())
        } else {
            slots.update(idx as int, released(slots[idx as int]))
        },
        _ => slots,
    }
}

/// Whether an event costs a worker.
pub open spec fn is_death(event: RenderEvent) -> bool {
    match event {
        RenderEvent::Ended(outcome) => is_fatal(outcome),
        _ => false,
    }
}

/// Whether `action` is what a render has to do after an event.
pub open spec fn is_action(
    slots: Seq<WorkerSlot>,
    config: PoolConfig,
    ticket: RenderTicket,
    state: RenderState,
    event: RenderEvent,
    action: RenderAction,
) -> bool {
    match (state_after(slots, state, event), event) {
        (RenderState::Queued, _) => action is AwaitRefill,
        (RenderState::Starting(idx), _) => action == RenderAction::StartWorker(idx),
        (RenderState::Running(idx), _) => {
            &&& action matches RenderAction::Send(to, request)
            &&& to == idx
            &&& is_request_for(
                request,
                slots_after(slots, state, event)[idx as int].worker->0.request_counter as nat,
                ticket,
            )
        },
        (RenderState::Finished, RenderEvent::Ended(outcome)) => action == RenderAction::Return(
            told(outcome, config),
            if is_fatal(outcome) {
                Some(state->Running_0)
            } else {
                None
            },
        ),
        (RenderState::Finished, RenderEvent::Spawned(SpawnOutcome::Failed(e))) => action
            == RenderAction::Return(Err(e), None),
        (RenderState::Finished, _) => {
            &&& action matches RenderAction::Return(Err(WorkerError::NotReady(m)), None)
            &&& m@ == "synchronous respawn timed out"@
        },
    }
}

/// A snapshot of the health of a pool.
#[derive(Debug, Clone)]
pub struct PoolStats {
    pub pool_size: usize,
    pub alive: usize,
    pub respawning: usize,
    pub empty: usize,
    pub total_renders: u64,
    pub total_deaths: u64,
}

/// The words for a snapshot.
pub open spec fn stats_text(s: PoolStats) -> Seq<char> {
    "pool("@ + text::decimal(s.alive as nat) + "/"@ + text::decimal(s.pool_size as nat)
        + " alive, "@ + text::decimal(s.respawning as nat) + " respawning, "@ + text::decimal(
        s.empty as nat,
    ) + " empty | renders: "@ + text::decimal(s.total_renders as nat) + ", deaths: "@
        + text::decimal(s.total_deaths as nat) + ")"@
}

impl PoolStats {
    /// The snapshot in words.
    pub fn to_text(&self) -> (r: String)
        ensures
            r@ == stats_text(*self),
    {
        "pool(".to_owned().concat(text::decimal_text(self.alive as u64).as_str()).concat("/").concat(
            text::decimal_text(self.pool_size as u64).as_str(),
        ).concat(" alive, ").concat(text::decimal_text(self.respawning as u64).as_str()).concat(
            " respawning, ",
        ).concat(text::decimal_text(self.empty as u64).as_str()).concat(
            " empty | renders: ",
        ).concat(text::decimal_text(self.total_renders).as_str()).concat(", deaths: ").concat(
            text::decimal_text(self.total_deaths).as_str(),
        ).concat(")")
    }
}

/// The pool.
#[derive(Debug)]
pub struct WorkerPool {
    pub slots: Vec<WorkerSlot>,
    pub config: PoolConfig,
    pub total_renders: u64,
    pub total_deaths: u64,
}

impl WorkerPool {
    /// There is a slot for each worker that the configuration asks for, and each is in order.
    pub open spec fn wf(self) -> bool {
        &&& self.slots@.len() == self.config.pool_size
        &&& forall|i: int| 0 <= i < self.slots@.len() ==> (#[trigger] self.slots@[i]).wf()
    }

    /// Sets the pool up, given how the start of each of its workers ended, slot by slot. The first
    /// slot whose worker did not start decides the error.
    pub fn new(config: PoolConfig, outcomes: Vec<SpawnOutcome>) -> (r: Result<Self, WorkerError>)
        requires
            outcomes@.len() == config.pool_size,
        ensures
            ({
                let failed = first_failed(outcomes@);
                match r {
                    Ok(pool) => {
                        &&& failed == outcomes@.len()
                        &&& pool.wf()
                        &&& pool.config == config
                        &&& pool.slots@ == outcomes@.map_values(|o: SpawnOutcome| filled(o->Ready_0))
                        &&& pool.total_renders == 0
                        &&& pool.total_deaths == 0
                    },
                    Err(e) => {
                        &&& failed < outcomes@.len()
                        &&& match outcomes@[failed] {
                            SpawnOutcome::Failed(cause) => e == cause,
                            _ => e matches WorkerError::NotReady(m) && m@ == spawn_timeout_text(
                                failed as nat,
                                crate::worker::duration_text(
                                    config.spawn_timeout.seconds(),
                                    config.spawn_timeout.subsec(),
                                ),
                            ),
                        }
                    },
                }
            }),
            is_new_pool(config, outcomes@, r),
    {
        let ghost all = outcomes@;
        let mut slots: Vec<WorkerSlot> = Vec::new();
        for outcome in it: outcomes
            invariant
                it.seq() == all,
                slots@.len() == it.index(),
                forall|j: int| 0 <= j < it.index() ==> (#[trigger] all[j]) is Ready,
                forall|j: int|
                    0 <= j < it.index() ==> #[trigger] slots@[j] == filled(all[j]->Ready_0),
                all.len() == config.pool_size,
        {
            let i: usize = slots.len();
            match outcome {
                SpawnOutcome::Ready(worker) => {
                    slots.push(WorkerSlot { worker: Some(worker), respawning: false, busy: false });
                },
                SpawnOutcome::Failed(e) => {
                    proof {
                        lemma_first_failed_is(all, i as int);
                    }
                    return Err(e);
                },
                SpawnOutcome::TimedOut => {
                    proof {
                        lemma_first_failed_is(all, i as int);
                    }
                    return Err(
                        WorkerError::NotReady(
                            spawn_timeout_message(i, config.spawn_timeout.text().as_str()),
                        ),
                    );
                },
            }
        }
        proof {
            lemma_first_failed_is(all, all.len() as int);
            assert(slots@ == all.map_values(|o: SpawnOutcome| filled(o->Ready_0)));
        }
        Ok(WorkerPool { slots, config, total_renders: 0, total_deaths: 0 })
    }

    /// Queues a render with the default scale and no limit of its own on the pages.
    pub fn render(&mut self, source: &str, template: &str) -> (r: RenderTicket)
        ensures
            render_queued(*old(self), *final(self)),
            r.render_id == old(self).total_renders,
            r.source@ == source@,
            r.template@ == template@,
            r.scale_bits == DEFAULT_RENDER_SCALE_BITS,
            r.max_pages is None,
            is_ticket(
                r,
                *old(self),
                source@,
                template@,
                DEFAULT_RENDER_SCALE_BITS,
                None,
            ),
    {
        self.render_with_options(source, template, DEFAULT_RENDER_SCALE_BITS, None)
    }

    /// Queues a render: it is counted, and numbered by the count of those before it.
    pub fn render_with_options(
        &mut self,
        source: &str,
        template: &str,
        scale_bits: u32,
        max_pages: Option<usize>,
    ) -> (r: RenderTicket)
        ensures
            render_queued(*old(self), *final(self)),
            r.render_id == old(self).total_renders,
            r.source@ == source@,
            r.template@ == template@,
            r.scale_bits == scale_bits,
            r.max_pages == max_pages,
            is_ticket(r, *old(self), source@, template@, scale_bits, max_pages),
    {
        let render_id: u64 = self.total_renders;
        self.total_renders = render_id.wrapping_add(1);
        RenderTicket {
            render_id,
            source: source.to_owned(),
            template: template.to_owned(),
            scale_bits,
            max_pages,
        }
    }

    /// Takes the first available slot; `None` where all are held or being refilled, and the caller
    /// has to wait for a refill.
    pub fn acquire_slot(&mut self) -> (r: Option<usize>)
        requires
            old(self).wf(),
        ensures
            final(self).wf(),
            final(self).config == old(self).config,
            final(self).total_renders == old(self).total_renders,
            final(self).total_deaths == old(self).total_deaths,
            ({
                let first = first_available(old(self).slots@);
                match r {
                    Some(idx) => {
                        &&& idx == first < old(self).slots@.len()
                        &&& final(self).slots@ == old(self).slots@.update(
                            first,
                            held(old(self).slots@[first]),
                        )
                    },
                    None => {
                        &&& first == old(self).slots@.len()
                        &&& final(self).slots@ == old(self).slots@
                    },
                }
            }),
    {
        let mut idx: usize = 0;
        while idx < self.slots.len()
            invariant
                self == old(self),
                self.wf(),
                idx <= self.slots.len(),
                forall|j: int| 0 <= j < idx ==> !(#[trigger] self.slots@[j]).available(),
            decreases self.slots.len() - idx,
        {
            if !self.slots[idx].busy && !self.slots[idx].respawning {
                proof {
                    lemma_first_available_is(self.slots@, idx as int);
                }
                self.slots[idx].busy = true;
                return Some(idx);
            }
            idx = idx + 1;
        }
        proof {
            lemma_first_available_is(self.slots@, idx as int);
        }
        None
    }

    /// Whether the slot that a render took has no worker, so that one has to be started first.
    pub fn needs_worker(&self, idx: usize) -> (r: bool)
        requires
            idx < self.slots@.len(),
        ensures
            r == (slot_kind(self.slots@[idx as int]) == SlotKind::Empty),
    {
        self.slots[idx].worker.is_none() && !self.slots[idx].respawning
    }

    /// Fills the slot that a render took with the worker that was started for it. Where the start
    /// failed the slot is released and the render ends with the error.
    pub fn fill_slot(&mut self, idx: usize, outcome: SpawnOutcome) -> (r: Result<(), WorkerError>)
        requires
            old(self).wf(),
            idx < old(self).slots@.len(),
            old(self).slots@[idx as int].busy,
            slot_kind(old(self).slots@[idx as int]) == SlotKind::Empty,
        ensures
            final(self).wf(),
            final(self).config == old(self).config,
            final(self).total_renders == old(self).total_renders,
            final(self).total_deaths == old(self).total_deaths,
            match outcome {
                SpawnOutcome::Ready(worker) => {
                    &&& r is Ok
                    &&& final(self).slots@ == old(self).slots@.update(
                        idx as int,
                        held(filled(worker)),
                    )
                },
                SpawnOutcome::Failed(e) => {
                    &&& r == Err::<(), WorkerError>(e)
                    &&& final(self).slots@ == old(self).slots@.update(
                        idx as int,
                        released(old(self).slots@[idx as int]),
                    )
                },
                SpawnOutcome::TimedOut => {
                    &&& r matches Err(WorkerError::NotReady(m))
                    &&& m@ == "synchronous respawn timed out"@
                    &&& final(self).slots@ == old(self).slots@.update(
                        idx as int,
                        released(old(self).slots@[idx as int]),
                    )
                },
            },
    {
        match outcome {
            SpawnOutcome::Ready(worker) => {
                self.slots[idx].worker = Some(worker);
                Ok(())
            },
            SpawnOutcome::Failed(e) => {
                self.slots[idx].busy = false;
                Err(e)
            },
            SpawnOutcome::TimedOut => {
                self.slots[idx].busy = false;
                Err(WorkerError::NotReady("synchronous respawn timed out".to_owned()))
            },
        }
    }

    /// The request that the worker in the slot is to be sent for a render.
    pub fn dispatch(&mut self, idx: usize, ticket: &RenderTicket) -> (r: RenderRequest)
        requires
            old(self).wf(),
            idx < old(self).slots@.len(),
            old(self).slots@[idx as int].busy,
            old(self).slots@[idx as int].worker matches Some(w) && w.request_counter < u64::MAX,
        ensures
            final(self).wf(),
            final(self).config == old(self).config,
            final(self).total_renders == old(self).total_renders,
            final(self).total_deaths == old(self).total_deaths,
            ({
                let worker = old(self).slots@[idx as int].worker->0;
                &&& final(self).slots@ == old(self).slots@.update(idx as int, asked(worker))
                &&& is_request_for(r, (worker.request_counter + 1) as nat, *ticket)
            }),
    {
        let mut worker = self.slots[idx].worker.take().unwrap();
        let request = worker.next_request(
            ticket.source.as_str(),
            ticket.template.as_str(),
            ticket.scale_bits,
            ticket.max_pages,
        );
        self.slots[idx].worker = Some(worker);
        request
    }

    /// Ends a render: the slot is released, and where the worker is lost the slot is vacated. Says
    /// what the caller of the render is told, and whether a new worker has to be started in the
    /// background.
    pub fn finish_render(&mut self, idx: usize, outcome: RenderOutcome) -> (r: (
        Result<Vec<u8>, WorkerError>,
        bool,
    ))
        requires
            old(self).wf(),
            idx < old(self).slots@.len(),
            old(self).slots@[idx as int].busy,
            slot_kind(old(self).slots@[idx as int]) == SlotKind::Alive,
        ensures
            final(self).wf(),
            final(self).config == old(self).config,
            final(self).total_renders == old(self).total_renders,
            r.0 == told(outcome, old(self).config),
            r.1 == is_fatal(outcome),
            if is_fatal(outcome) {
                &&& final(self).slots@ == old(self).slots@.update(idx as int, vacated())
                &&& final(self).total_deaths == counted(old(self).total_deaths)
            } else {
                &&& final(self).slots@ == old(self).slots@.update(
                    idx as int,
                    released(old(self).slots@[idx as int]),
                )
                &&& final(self).total_deaths == old(self).total_deaths
            },
    {
        match outcome {
            RenderOutcome::Replied(Ok(png)) => {
                self.slots[idx].busy = false;
                (Ok(png), false)
            },
            RenderOutcome::Replied(Err(WorkerError::Exited)) => {
                let respawn = self.handle_worker_death(idx);
                (Err(WorkerError::Exited), respawn)
            },
            RenderOutcome::Replied(Err(WorkerError::Io(_))) => {
                let respawn = self.handle_worker_death(idx);
                (Err(WorkerError::Exited), respawn)
            },
            RenderOutcome::Replied(Err(e)) => {
                self.slots[idx].busy = false;
                (Err(e), false)
            },
            RenderOutcome::TimedOut => {
                let limit = self.config.render_timeout;
                let respawn = self.handle_worker_death(idx);
                (Err(WorkerError::Timeout(limit)), respawn)
            },
        }
    }

    /// Counts a death, and vacates the slot where it has a worker. Says whether it had one, which
    /// is to be killed and replaced in the background.
    pub fn handle_worker_death(&mut self, idx: usize) -> (r: bool)
        requires
            old(self).wf(),
            idx < old(self).slots@.len(),
        ensures
            final(self).wf(),
            final(self).config == old(self).config,
            final(self).total_renders == old(self).total_renders,
            final(self).total_deaths == counted(old(self).total_deaths),
            r == (slot_kind(old(self).slots@[idx as int]) == SlotKind::Alive),
            final(self).slots@ == if r {
                old(self).slots@.update(idx as int, vacated())
            } else {
                old(self).slots@
            },
    {
        self.total_deaths = self.total_deaths.wrapping_add(1);
        if self.slots[idx].worker.is_none() {
            proof {
                assert(self.slots@ == old(self).slots@);
            }
            return false;
        }
        self.slots.set(idx, WorkerSlot { worker: None, respawning: true, busy: false });
        true
    }

    /// Whether the worker that the next render gets, if it gets one, can number another request.
    pub fn has_number_left(&self) -> (r: bool)
        ensures
            r == number_left(self.slots@),
    {
        let mut i: usize = 0;
        while i < self.slots.len()
            invariant
                i <= self.slots.len(),
                forall|j: int| 0 <= j < i ==> !(#[trigger] self.slots@[j]).available(),
            decreases self.slots.len() - i,
        {
            if !self.slots[i].busy && !self.slots[i].respawning {
                proof {
                    lemma_first_available_is(self.slots@, i as int);
                }
                return match &self.slots[i].worker {
                    Some(worker) => worker.request_counter < u64::MAX,
                    None => true,
                };
            }
            i = i + 1;
        }
        proof {
            lemma_first_available_is(self.slots@, i as int);
        }
        true
    }

    /// Takes a render from an event to its next action.
    pub fn step_render(
        &mut self,
        ticket: &RenderTicket,
        state: RenderState,
        event: RenderEvent,
    ) -> (r: (RenderState, RenderAction))
        requires
            old(self).wf(),
            event is Turn ==> number_left(old(self).slots@),
            expects(state, event),
            holds(old(self).slots@, state),
            event matches RenderEvent::Spawned(SpawnOutcome::Ready(w)) ==> w.request_counter
                < u64::MAX,
        ensures
            final(self).wf(),
            render_stepped(*old(self), *final(self), state, event),
            r.0 == state_after(old(self).slots@, state, event),
            holds(final(self).slots@, r.0),
            is_action(old(self).slots@, old(self).config, *ticket, state, event, r.1),
    {
        proof {
            lemma_first_available(self.slots@);
        }
        match (state, event) {
            (RenderState::Queued, RenderEvent::Turn) => match self.acquire_slot() {
                None => (RenderState::Queued, RenderAction::AwaitRefill),
                Some(idx) => {
                    if self.needs_worker(idx) {
                        return (RenderState::Starting(idx), RenderAction::StartWorker(idx));
                    }
                    let request = self.dispatch(idx, ticket);
                    proof {
                        let first = first_available(old(self).slots@);
                        let worker = old(self).slots@[first].worker->0;
                        assert(self.slots@ == old(self).slots@.update(first, asked(worker)));
                    }
                    (RenderState::Running(idx), RenderAction::Send(idx, request))
                },
            },
            (RenderState::Starting(idx), RenderEvent::Spawned(outcome)) => {
                let ghost given = outcome;
                match self.fill_slot(idx, outcome) {
                    Err(e) => (RenderState::Finished, RenderAction::Return(Err(e), None)),
                    Ok(_) => {
                        let request = self.dispatch(idx, ticket);
                        proof {
                            assert(self.slots@ == old(self).slots@.update(
                                idx as int,
                                asked(given->Ready_0),
                            ));
                        }
                        (RenderState::Running(idx), RenderAction::Send(idx, request))
                    },
                }
            },
            (RenderState::Running(idx), RenderEvent::Ended(outcome)) => {
                let (result, respawn) = self.finish_render(idx, outcome);
                let lost = if respawn {
                    Some(idx)
                } else {
                    None
                };
                (RenderState::Finished, RenderAction::Return(result, lost))
            },
            _ => vstd::pervasive::unreached(),
        }
    }

    /// Ends a background start: the slot has the new worker, or none where the start failed, and
    /// renders may take it again.
    pub fn finish_respawn(&mut self, idx: usize, outcome: SpawnOutcome)
        requires
            old(self).wf(),
            idx < old(self).slots@.len(),
            old(self).slots@[idx as int].respawning,
        ensures
            final(self).wf(),
            slot_refilled(*old(self), *final(self), idx as int, outcome),
    {
        let worker = match outcome {
            SpawnOutcome::Ready(worker) => Some(worker),
            SpawnOutcome::Failed(_) => None,
            SpawnOutcome::TimedOut => None,
        };
        self.slots.set(idx, WorkerSlot { worker, respawning: false, busy: false });
    }

    /// Gives a slot back without an outcome, for a render that was abandoned.
    pub fn release_slot(&mut self, idx: usize)
        requires
            old(self).wf(),
            idx < old(self).slots@.len(),
        ensures
            final(self).wf(),
            slot_released(*old(self), *final(self), idx as int),
    {
        self.slots[idx].busy = false;
    }

    /// A snapshot of the health of the pool.
    pub fn stats(&self) -> (r: PoolStats)
        ensures
            r.pool_size == self.config.pool_size,
            r.alive == count_slots(self.slots@, SlotKind::Alive),
            r.respawning == count_slots(self.slots@, SlotKind::Respawning),
            r.empty == count_slots(self.slots@, SlotKind::Empty),
            r.alive + r.respawning + r.empty == self.slots@.len(),
            r.total_renders == self.total_renders,
            r.total_deaths == self.total_deaths,
            is_snapshot(r, *self),
    {
        let mut alive: usize = 0;
        let mut respawning: usize = 0;
        let mut empty: usize = 0;
        let mut i: usize = 0;
        while i < self.slots.len()
            invariant
                i <= self.slots.len(),
                alive + respawning + empty == i,
                alive == count_slots(self.slots@.take(i as int), SlotKind::Alive),
                respawning == count_slots(self.slots@.take(i as int), SlotKind::Respawning),
                empty == count_slots(self.slots@.take(i as int), SlotKind::Empty),
            decreases self.slots.len() - i,
        {
            proof {
                let done = self.slots@.take(i + 1);
                assert(done.drop_last() == self.slots@.take(i as int));
                assert(done.last() == self.slots@[i as int]);
            }
            if self.slots[i].worker.is_some() {
                alive = alive + 1;
            } else if self.slots[i].respawning {
                respawning = respawning + 1;
            } else {
                empty = empty + 1;
            }
            i = i + 1;
        }
        proof {
            assert(self.slots@.take(i as int) == self.slots@);
        }
        PoolStats {
            pool_size: self.config.pool_size,
            alive,
            respawning,
            empty,
            total_renders: self.total_renders,
            total_deaths: self.total_deaths,
        }
    }

    /// Ends the pool: the slots whose workers are to be closed and waited for, in order.
    pub fn shutdown(self) -> (r: Vec<usize>)
        ensures
            r@ == alive_slots(self.slots@),
    {
        let mut r: Vec<usize> = Vec::new();
        let mut i: usize = 0;
        while i < self.slots.len()
            invariant
                i <= self.slots.len(),
                r@ == alive_slots(self.slots@.take(i as int)),
            decreases self.slots.len() - i,
        {
            proof {
                let done = self.slots@.take(i + 1);
                assert(done.drop_last() == self.slots@.take(i as int));
                assert(done.last() == self.slots@[i as int]);
            }
            if self.slots[i].worker.is_some() {
                r.push(i);
            }
            i = i + 1;
        }
        proof {
            assert(self.slots@.take(i as int) == self.slots@);
        }
        r
    }
}

/// `after` is `before` with one render more counted.
pub open spec fn render_queued(before: WorkerPool, after: WorkerPool) -> bool {
    &&& after.slots@ == before.slots@
    &&& after.config == before.config
    &&& after.total_renders == counted(before.total_renders)
    &&& after.total_deaths == before.total_deaths
}

/// `after` is `before` after an event of a render in `state`: at most the slot of that render has
/// changed, and a lost worker is counted.
pub open spec fn render_stepped(
    before: WorkerPool,
    after: WorkerPool,
    state: RenderState,
    event: RenderEvent,
) -> bool {
    &&& after.slots@ == slots_after(before.slots@, state, event)
    &&& after.config == before.config
    &&& after.total_renders == before.total_renders
    &&& after.total_deaths == if is_death(event) {
        counted(before.total_deaths)
    } else {
        before.total_deaths
    }
}

/// `after` is `before` after a background start for slot `idx` has ended.
pub open spec fn slot_refilled(
    before: WorkerPool,
    after: WorkerPool,
    idx: int,
    outcome: SpawnOutcome,
) -> bool {
    &&& after.slots@ == before.slots@.update(idx, refilled(outcome))
    &&& after.config == before.config
    &&& after.total_renders == before.total_renders
    &&& after.total_deaths == before.total_deaths
}

/// `after` is `before` with slot `idx` held by no render.
pub open spec fn slot_released(before: WorkerPool, after: WorkerPool, idx: int) -> bool {
    &&& after.slots@ == before.slots@.update(idx, released(before.slots@[idx]))
    &&& after.config == before.config
    &&& after.total_renders == before.total_renders
    &&& after.total_deaths == before.total_deaths
}

/// `first_available` names the first available slot, or the end.
pub proof fn lemma_first_available(slots: Seq<WorkerSlot>)
    ensures
        0 <= first_available(slots) <= slots.len(),
        first_available(slots) < slots.len() ==> slots[first_available(slots)].available(),
        forall|j: int| 0 <= j < first_available(slots) ==> !(#[trigger] slots[j]).available(),
    decreases slots.len(),
{
    if slots.len() > 0 && !slots[0].available() {
        lemma_first_available(slots.skip(1));
        assert forall|j: int| 0 <= j < first_available(slots) implies !(
        #[trigger] slots[j]).available() by {
            if j > 0 {
                assert(slots[j] == slots.skip(1)[j - 1]);
            }
        }
    }
}

proof fn lemma_first_available_is(slots: Seq<WorkerSlot>, i: int)
    requires
        0 <= i <= slots.len(),
        i < slots.len() ==> slots[i].available(),
        forall|j: int| 0 <= j < i ==> !(#[trigger] slots[j]).available(),
    ensures
        first_available(slots) == i,
{
    lemma_first_available(slots);
}

/// `first_failed` names the first start without a worker, or the end.
pub proof fn lemma_first_failed(outcomes: Seq<SpawnOutcome>)
    ensures
        0 <= first_failed(outcomes) <= outcomes.len(),
        first_failed(outcomes) < outcomes.len() ==> !(outcomes[first_failed(outcomes)] is Ready),
        forall|j: int| 0 <= j < first_failed(outcomes) ==> (#[trigger] outcomes[j]) is Ready,
    decreases outcomes.len(),
{
    if outcomes.len() > 0 && outcomes[0] is Ready {
        lemma_first_failed(outcomes.skip(1));
        assert forall|j: int| 0 <= j < first_failed(outcomes) implies (
        #[trigger] outcomes[j]) is Ready by {
            if j > 0 {
                assert(outcomes[j] == outcomes.skip(1)[j - 1]);
            }
        }
    }
}

proof fn lemma_first_failed_is(outcomes: Seq<SpawnOutcome>, i: int)
    requires
        0 <= i <= outcomes.len(),
        i < outcomes.len() ==> !(outcomes[i] is Ready),
        forall|j: int| 0 <= j < i ==> (#[trigger] outcomes[j]) is Ready,
    ensures
        first_failed(outcomes) == i,
{
    lemma_first_failed(outcomes);
}

/// How many slots are held by renders.
pub open spec fn count_busy(slots: Seq<WorkerSlot>) -> nat
    decreases slots.len(),
{
    if slots.len() == 0 {
        0
    } else {
        count_busy(slots.drop_last()) + if slots.last().busy {
            1nat
        } else {
            0nat
        }
    }
}

/// Replacing one slot changes the counts by that slot alone.
proof fn lemma_count_update(slots: Seq<WorkerSlot>, idx: int, slot: WorkerSlot, kind: SlotKind)
    requires
        0 <= idx < slots.len(),
    ensures
        count_slots(slots.update(idx, slot), kind) + (if slot_kind(slots[idx]) == kind {
            1nat
        } else {
            0nat
        }) == count_slots(slots, kind) + (if slot_kind(slot) == kind {
            1nat
        } else {
            0nat
        }),
    decreases slots.len(),
{
    let changed = slots.update(idx, slot);
    if idx < slots.len() - 1 {
        lemma_count_update(slots.drop_last(), idx, slot, kind);
        assert(changed.drop_last() == slots.drop_last().update(idx, slot));
    } else {
        assert(changed.drop_last() == slots.drop_last());
    }
}

/// Every slot counts as exactly one kind: alive, respawning and empty add up to the size of the
/// pool.
pub proof fn law_census(slots: Seq<WorkerSlot>)
    ensures
        count_slots(slots, SlotKind::Alive) + count_slots(slots, SlotKind::Respawning)
            + count_slots(slots, SlotKind::Empty) == slots.len(),
    decreases slots.len(),
{
    if slots.len() > 0 {
        law_census(slots.drop_last());
    }
}

/// An error that the worker itself reports, such as a compile error, reaches the caller as it is
/// and costs no worker: the counts stay.
pub proof fn law_reported_error_spares_worker(
    slots: Seq<WorkerSlot>,
    idx: int,
    e: WorkerError,
    config: PoolConfig,
    kind: SlotKind,
)
    requires
        0 <= idx < slots.len(),
        !(e is Exited) && !(e is Io),
    ensures
        !is_fatal(RenderOutcome::Replied(Err(e))),
        told(RenderOutcome::Replied(Err(e)), config) == Err::<Vec<u8>, WorkerError>(e),
        count_slots(slots.update(idx, released(slots[idx])), kind) == count_slots(slots, kind),
{
    lemma_count_update(slots, idx, released(slots[idx]), kind);
}

/// A render that runs out of time is told so with the limit, one whose worker exits or whose pipe
/// breaks is told of the exit, and each of these costs the worker.
pub proof fn law_lost_worker_is_told(cause: String, config: PoolConfig)
    ensures
        is_fatal(RenderOutcome::TimedOut),
        told(RenderOutcome::TimedOut, config) == Err::<Vec<u8>, WorkerError>(
            WorkerError::Timeout(config.render_timeout),
        ),
        is_fatal(RenderOutcome::Replied(Err(WorkerError::Exited))),
        told(RenderOutcome::Replied(Err(WorkerError::Exited)), config) == Err::<
            Vec<u8>,
            WorkerError,
        >(WorkerError::Exited),
        is_fatal(RenderOutcome::Replied(Err(WorkerError::Io(cause)))),
        told(RenderOutcome::Replied(Err(WorkerError::Io(cause))), config) == Err::<
            Vec<u8>,
            WorkerError,
        >(WorkerError::Exited),
{
}

/// A worker that dies leaves one slot respawning in place of one alive; a new worker restores the
/// counts, and renders may take the slot again. A start that fails leaves the slot empty, and
/// renders may take it all the same.
pub proof fn law_dead_worker_is_replaced(
    slots: Seq<WorkerSlot>,
    idx: int,
    worker: WorkerProcess,
    e: WorkerError,
)
    requires
        0 <= idx < slots.len(),
        slot_kind(slots[idx]) == SlotKind::Alive,
    ensures
        ({
            let dead = slots.update(idx, vacated());
            let back = dead.update(idx, refilled(SpawnOutcome::Ready(worker)));
            let gone = dead.update(idx, refilled(SpawnOutcome::Failed(e)));
            &&& count_slots(dead, SlotKind::Alive) + 1 == count_slots(slots, SlotKind::Alive)
            &&& count_slots(dead, SlotKind::Respawning) == count_slots(slots, SlotKind::Respawning)
                + 1
            &&& count_slots(dead, SlotKind::Empty) == count_slots(slots, SlotKind::Empty)
            &&& forall|kind: SlotKind| count_slots(back, kind) == count_slots(slots, kind)
            &&& back[idx].available()
            &&& count_slots(gone, SlotKind::Empty) == count_slots(slots, SlotKind::Empty) + 1
            &&& gone[idx].available()
        }),
{
    let dead = slots.update(idx, vacated());
    let back = dead.update(idx, refilled(SpawnOutcome::Ready(worker)));
    let gone = dead.update(idx, refilled(SpawnOutcome::Failed(e)));
    assert forall|kind: SlotKind| count_slots(back, kind) == count_slots(slots, kind) by {
        lemma_count_update(slots, idx, vacated(), kind);
        lemma_count_update(dead, idx, refilled(SpawnOutcome::Ready(worker)), kind);
    }
    lemma_count_update(slots, idx, vacated(), SlotKind::Alive);
    lemma_count_update(slots, idx, vacated(), SlotKind::Respawning);
    lemma_count_update(slots, idx, vacated(), SlotKind::Empty);
    lemma_count_update(dead, idx, refilled(SpawnOutcome::Failed(e)), SlotKind::Empty);
}

/// A slot that is being refilled or that a render holds is never handed out.
pub proof fn law_only_available_slots_are_taken(slots: Seq<WorkerSlot>, idx: int)
    requires
        0 <= idx < slots.len(),
        slots[idx].respawning || slots[idx].busy,
    ensures
        first_available(slots) != idx,
{
    lemma_first_available(slots);
}

/// Two renders at a time hold two different slots.
pub proof fn law_renders_hold_distinct_slots(slots: Seq<WorkerSlot>)
    requires
        first_available(slots) < slots.len(),
    ensures
        ({
            let first = first_available(slots);
            first_available(slots.update(first, held(slots[first]))) > first
        }),
{
    lemma_first_available(slots);
    let first = first_available(slots);
    let taken = slots.update(first, held(slots[first]));
    lemma_first_available(taken);
    let second = first_available(taken);
    if second < first {
        assert(taken[second] == slots[second]);
    }
}

/// While the slots held by renders and those being refilled are fewer than all, a render gets a
/// slot: with as many permits as slots, only a refill can make a render wait.
pub proof fn law_render_waits_for_refills_alone(slots: Seq<WorkerSlot>)
    requires
        count_busy(slots) + count_slots(slots, SlotKind::Respawning) < slots.len(),
        forall|i: int| 0 <= i < slots.len() ==> (#[trigger] slots[i]).wf(),
    ensures
        first_available(slots) < slots.len(),
{
    lemma_first_available(slots);
    if first_available(slots) == slots.len() {
        lemma_all_taken(slots);
    }
}

proof fn lemma_all_taken(slots: Seq<WorkerSlot>)
    requires
        forall|i: int| 0 <= i < slots.len() ==> !(#[trigger] slots[i]).available(),
        forall|i: int| 0 <= i < slots.len() ==> (#[trigger] slots[i]).wf(),
    ensures
        count_busy(slots) + count_slots(slots, SlotKind::Respawning) >= slots.len(),
    decreases slots.len(),
{
    if slots.len() > 0 {
        let init = slots.drop_last();
        assert forall|i: int| 0 <= i < init.len() implies !(#[trigger] init[i]).available()
            && init[i].wf() by {
            assert(init[i] == slots[i]);
        }
        lemma_all_taken(init);
        let last = slots[slots.len() - 1];
        assert(!last.available() && last.wf());
    }
}

/// A shutdown closes each worker of the pool once: the slots it names are those with a worker, in
/// order and without repetition.
pub proof fn law_shutdown_closes_every_worker(slots: Seq<WorkerSlot>)
    requires
        slots.len() <= usize::MAX,
    ensures
        forall|i: int|
            0 <= i < slots.len() ==> (alive_slots(slots).contains(i as usize) <==> slot_kind(
                #[trigger] slots[i],
            ) == SlotKind::Alive),
        forall|a: int, b: int|
            0 <= a < b < alive_slots(slots).len() ==> alive_slots(slots)[a] < alive_slots(slots)[b],
        alive_slots(slots).len() == count_slots(slots, SlotKind::Alive),
{
    lemma_alive_slots(slots);
    assert forall|i: int| 0 <= i < slots.len() implies (alive_slots(slots).contains(i as usize)
        <==> slot_kind(#[trigger] slots[i]) == SlotKind::Alive) by {
        if slot_kind(slots[i]) == SlotKind::Alive {
            assert(alive_slots(slots).contains(i as usize));
        } else if alive_slots(slots).contains(i as usize) {
            let a = choose|a: int|
                0 <= a < alive_slots(slots).len() && alive_slots(slots)[a] == i as usize;
            assert(slot_kind(slots[alive_slots(slots)[a] as int]) == SlotKind::Alive);
        }
    }
}

proof fn lemma_alive_slots(slots: Seq<WorkerSlot>)
    requires
        slots.len() <= usize::MAX,
    ensures
        forall|a: int|
            #![trigger alive_slots(slots)[a]]
            0 <= a < alive_slots(slots).len() ==> alive_slots(slots)[a] < slots.len() && slot_kind(
                slots[alive_slots(slots)[a] as int],
            ) == SlotKind::Alive,
        forall|i: int|
            0 <= i < slots.len() && slot_kind(#[trigger] slots[i]) == SlotKind::Alive
                ==> alive_slots(slots).contains(i as usize),
        forall|a: int, b: int|
            0 <= a < b < alive_slots(slots).len() ==> alive_slots(slots)[a] < alive_slots(slots)[b],
        alive_slots(slots).len() == count_slots(slots, SlotKind::Alive),
    decreases slots.len(),
{
    if slots.len() > 0 {
        let init = slots.drop_last();
        lemma_alive_slots(init);
        let before = alive_slots(init);
        let all = alive_slots(slots);
        let last = slots.len() - 1;
        assert forall|a: int| #![trigger all[a]] 0 <= a < all.len() implies all[a] < slots.len()
            && slot_kind(slots[all[a] as int]) == SlotKind::Alive by {
            if a < before.len() {
                assert(all[a] == before[a]);
                assert(init[before[a] as int] == slots[before[a] as int]);
            }
        }
        assert forall|i: int|
            0 <= i < slots.len() && slot_kind(#[trigger] slots[i])
                == SlotKind::Alive implies all.contains(i as usize) by {
            if i < last {
                assert(init[i] == slots[i]);
                let a = choose|a: int| 0 <= a < before.len() && before[a] == i as usize;
                assert(all[a] == i as usize);
            } else {
                assert(all[all.len() - 1] == i as usize);
            }
        }
        assert forall|a: int, b: int| 0 <= a < b < all.len() implies all[a] < all[b] by {
            assert(all[a] == before[a]);
            if b < before.len() {
                assert(all[b] == before[b]);
            }
        }
    }
}

/// A render that succeeds leaves the pool as it found it but for the number of requests that its
/// worker has had.
pub proof fn law_successful_render_restores_slot(
    slots: Seq<WorkerSlot>,
    idx: int,
    worker: WorkerProcess,
)
    requires
        0 <= idx < slots.len(),
        slots[idx].worker is Some,
        slots[idx].wf(),
        slots[idx].available(),
    ensures
        ({
            let taken = slots.update(idx, held(slots[idx]));
            let sent = taken.update(idx, held(filled(worker)));
            let done = sent.update(idx, released(sent[idx]));
            &&& done == slots.update(idx, filled(worker))
            &&& forall|kind: SlotKind| count_slots(done, kind) == count_slots(slots, kind)
            &&& first_available(done) == first_available(slots)
        }),
{
    let taken = slots.update(idx, held(slots[idx]));
    let sent = taken.update(idx, held(filled(worker)));
    let done = sent.update(idx, released(sent[idx]));
    assert(done == slots.update(idx, filled(worker)));
    assert forall|kind: SlotKind| count_slots(done, kind) == count_slots(slots, kind) by {
        lemma_count_update(slots, idx, filled(worker), kind);
    }
    lemma_first_available(slots);
    assert forall|j: int| 0 <= j < first_available(slots) implies !(
    #[trigger] done[j]).available() by {
        assert(!slots[j].available());
        assert(done[j] == slots[j]);
    }
    lemma_first_available_is(done, first_available(slots));
}

/// Renders stay out of each other's way: a step of one leaves another with the slot that it holds,
/// and they never hold the same slot.
pub proof fn law_renders_do_not_interfere(
    slots: Seq<WorkerSlot>,
    mine: RenderState,
    other: RenderState,
    event: RenderEvent,
)
    requires
        slots.len() <= usize::MAX,
        forall|i: int| 0 <= i < slots.len() ==> (#[trigger] slots[i]).wf(),
        holds(slots, mine),
        holds(slots, other),
        held_slot(mine) is Some ==> held_slot(mine) != held_slot(other),
        expects(other, event),
    ensures
        holds(slots_after(slots, other, event), mine),
        held_slot(mine) is Some ==> held_slot(mine) != held_slot(
            state_after(slots, other, event),
        ),
{
    lemma_first_available(slots);
}

/// A refill in the background leaves every render with the slot that it holds.
pub proof fn law_refill_does_not_interfere(
    slots: Seq<WorkerSlot>,
    mine: RenderState,
    idx: int,
    outcome: SpawnOutcome,
)
    requires
        forall|i: int| 0 <= i < slots.len() ==> (#[trigger] slots[i]).wf(),
        holds(slots, mine),
        0 <= idx < slots.len(),
        slots[idx].respawning,
    ensures
        holds(slots.update(idx, refilled(outcome)), mine),
{
    if let Some(i) = held_slot(mine) {
        assert(slots[i].wf());
    }
}

/// A render that has ended holds no slot any more: the slot it held is free for the next, or is
/// being refilled.
pub proof fn law_finished_render_lets_go(
    slots: Seq<WorkerSlot>,
    state: RenderState,
    event: RenderEvent,
)
    requires
        forall|i: int| 0 <= i < slots.len() ==> (#[trigger] slots[i]).wf(),
        holds(slots, state),
        held_slot(state) is Some,
        expects(state, event),
        state_after(slots, state, event) is Finished,
    ensures
        ({
            let slot = slots_after(slots, state, event)[held_slot(state)->0];
            !slot.busy && (slot.available() || slot.respawning)
        }),
{
}

/// Whether slot `i` is the first that no render holds and that is not being refilled.
pub open spec fn is_first_free(slots: Seq<WorkerSlot>, i: int) -> bool {
    &&& 0 <= i < slots.len() <= usize::MAX
    &&& !slots[i].busy && !slots[i].respawning
    &&& forall|j: int| 0 <= j < i ==> (#[trigger] slots[j]).busy || slots[j].respawning
}

/// Whether every slot is held by a render or being refilled.
pub open spec fn none_free(slots: Seq<WorkerSlot>) -> bool {
    forall|j: int| 0 <= j < slots.len() ==> (#[trigger] slots[j]).busy || slots[j].respawning
}

/// Whether `request` carries a render to a worker as its request with number `n`: source, template,
/// scale and page limit are those of the ticket, and a stitched PNG is asked for.
pub open spec fn carries(request: RenderRequest, ticket: RenderTicket, n: nat) -> bool {
    &&& request.source@ == ticket.source@
    &&& request.template@ == ticket.template@
    &&& request.scale_bits == ticket.scale_bits
    &&& request.max_pages == ticket.max_pages
    &&& request.format@ == seq!['p', 'n', 'g']
    &&& request.stitch
    &&& request.id is Some
    &&& request.id->0@ == seq!['r', 'e', 'q', '-'] + text::decimal(n)
}

proof fn lemma_request_carries(request: RenderRequest, ticket: RenderTicket, n: nat)
    ensures
        is_request_for(request, n, ticket) == carries(request, ticket, n),
{
    reveal_strlit("png");
    reveal_strlit("req-");
    assert("png"@ == seq!['p', 'n', 'g']);
    assert("req-"@ == seq!['r', 'e', 'q', '-']);
}

/// A render whose turn has come takes the first slot that is free. Where that has a worker, the
/// worker gets the next number and the request of the render; where it has none, one is started for
/// it first. The other slots stay as they are.
pub proof fn law_render_takes_first_free_slot(
    slots: Seq<WorkerSlot>,
    i: int,
    config: PoolConfig,
    ticket: RenderTicket,
    action: RenderAction,
)
    requires
        is_first_free(slots, i),
        slots[i].worker matches Some(w) ==> w.request_counter < u64::MAX,
        is_action(slots, config, ticket, RenderState::Queued, RenderEvent::Turn, action),
    ensures
        ({
            let state = state_after(slots, RenderState::Queued, RenderEvent::Turn);
            let after = slots_after(slots, RenderState::Queued, RenderEvent::Turn);
            match slots[i].worker {
                Some(w) => {
                    let n = (w.request_counter + 1) as u64;
                    &&& state == RenderState::Running(i as usize)
                    &&& after == slots.update(
                        i,
                        WorkerSlot {
                            worker: Some(WorkerProcess { request_counter: n }),
                            respawning: false,
                            busy: true,
                        },
                    )
                    &&& action matches RenderAction::Send(to, request)
                    &&& to == i
                    &&& carries(request, ticket, n as nat)
                },
                None => {
                    &&& state == RenderState::Starting(i as usize)
                    &&& after == slots.update(
                        i,
                        WorkerSlot { worker: None, respawning: false, busy: true },
                    )
                    &&& action == RenderAction::StartWorker(i as usize)
                },
            }
        }),
{
    lemma_first_available_is(slots, i);
    if let Some(w) = slots[i].worker {
        if let RenderAction::Send(_, request) = action {
            lemma_request_carries(request, ticket, (w.request_counter + 1) as nat);
        }
    }
}

/// A render waits exactly where no slot is free, and a render that waits changes nothing.
pub proof fn law_render_waits_where_none_is_free(
    slots: Seq<WorkerSlot>,
    config: PoolConfig,
    ticket: RenderTicket,
    action: RenderAction,
)
    requires
        slots.len() <= usize::MAX,
        is_action(slots, config, ticket, RenderState::Queued, RenderEvent::Turn, action),
    ensures
        none_free(slots) <==> state_after(slots, RenderState::Queued, RenderEvent::Turn)
            == RenderState::Queued,
        none_free(slots) <==> action is AwaitRefill,
        none_free(slots) ==> slots_after(slots, RenderState::Queued, RenderEvent::Turn) == slots,
        none_free(slots) ==> number_left(slots),
        forall|i: int| #[trigger]
            is_first_free(slots, i) ==> number_left(slots) == (slots[i].worker is None
                || slots[i].worker->0.request_counter < u64::MAX),
{
    lemma_first_available(slots);
    let first = first_available(slots);
    if first < slots.len() {
        assert(slots[first].available());
        assert(!none_free(slots));
    } else {
        assert forall|j: int| 0 <= j < slots.len() implies (#[trigger] slots[j]).busy
            || slots[j].respawning by {
            assert(!slots[j].available());
        }
    }
    assert forall|i: int| #[trigger] is_first_free(slots, i) implies number_left(slots) == (
    slots[i].worker is None || slots[i].worker->0.request_counter < u64::MAX) by {
        lemma_first_available_is(slots, i);
    }
}

/// A worker that was started for a render gets its request, under the number one more than it had;
/// where the start failed the render ends with the error of the start, or with one that says that
/// time ran out, no worker is lost, and the slot is free for the next.
pub proof fn law_started_worker_gets_the_request(
    slots: Seq<WorkerSlot>,
    idx: usize,
    outcome: SpawnOutcome,
    config: PoolConfig,
    ticket: RenderTicket,
    action: RenderAction,
)
    requires
        idx < slots.len(),
        slots[idx as int] == (WorkerSlot { worker: None, respawning: false, busy: true }),
        outcome matches SpawnOutcome::Ready(w) ==> w.request_counter < u64::MAX,
        is_action(
            slots,
            config,
            ticket,
            RenderState::Starting(idx),
            RenderEvent::Spawned(outcome),
            action,
        ),
    ensures
        ({
            let state = state_after(
                slots,
                RenderState::Starting(idx),
                RenderEvent::Spawned(outcome),
            );
            let after = slots_after(
                slots,
                RenderState::Starting(idx),
                RenderEvent::Spawned(outcome),
            );
            let free = WorkerSlot { worker: None, respawning: false, busy: false };
            &&& !is_death(RenderEvent::Spawned(outcome))
            &&& match outcome {
                SpawnOutcome::Ready(w) => {
                    let n = (w.request_counter + 1) as u64;
                    &&& state == RenderState::Running(idx)
                    &&& after == slots.update(
                        idx as int,
                        WorkerSlot {
                            worker: Some(WorkerProcess { request_counter: n }),
                            respawning: false,
                            busy: true,
                        },
                    )
                    &&& action matches RenderAction::Send(to, request)
                    &&& to == idx
                    &&& carries(request, ticket, n as nat)
                },
                SpawnOutcome::Failed(e) => {
                    &&& state == RenderState::Finished
                    &&& after == slots.update(idx as int, free)
                    &&& action == RenderAction::Return(Err(e), None)
                },
                SpawnOutcome::TimedOut => {
                    &&& state == RenderState::Finished
                    &&& after == slots.update(idx as int, free)
                    &&& action matches RenderAction::Return(Err(WorkerError::NotReady(m)), None)
                    &&& m@ == "synchronous respawn timed out"@
                },
            }
        }),
{
    if let SpawnOutcome::Ready(w) = outcome {
        if let RenderAction::Send(_, request) = action {
            lemma_request_carries(request, ticket, (w.request_counter + 1) as nat);
        }
    }
}

/// A render that its worker answers, with an image or with an error of its own, ends with that
/// answer and leaves the worker in its slot, free for the next. One that gets no answer, because
/// time ran out, the worker went away or a pipe broke, ends with an error that says which (a broken
/// pipe is an exit); its slot is emptied for a new worker, and the worker counts as lost.
pub proof fn law_render_ends_as_its_worker_did(
    slots: Seq<WorkerSlot>,
    idx: usize,
    outcome: RenderOutcome,
    config: PoolConfig,
    ticket: RenderTicket,
    action: RenderAction,
)
    requires
        idx < slots.len(),
        slots[idx as int].worker is Some,
        !slots[idx as int].respawning,
        is_action(
            slots,
            config,
            ticket,
            RenderState::Running(idx),
            RenderEvent::Ended(outcome),
            action,
        ),
    ensures
        ({
            let state = state_after(slots, RenderState::Running(idx), RenderEvent::Ended(outcome));
            let after = slots_after(slots, RenderState::Running(idx), RenderEvent::Ended(outcome));
            let kept = slots.update(
                idx as int,
                WorkerSlot {
                    worker: slots[idx as int].worker,
                    respawning: false,
                    busy: false,
                },
            );
            let emptied = slots.update(
                idx as int,
                WorkerSlot { worker: None, respawning: true, busy: false },
            );
            let lost = match outcome {
                RenderOutcome::TimedOut => Some(WorkerError::Timeout(config.render_timeout)),
                RenderOutcome::Replied(Err(WorkerError::Exited)) => Some(WorkerError::Exited),
                RenderOutcome::Replied(Err(WorkerError::Io(_))) => Some(WorkerError::Exited),
                _ => None,
            };
            &&& state == RenderState::Finished
            &&& match lost {
                Some(e) => {
                    &&& is_death(RenderEvent::Ended(outcome))
                    &&& after == emptied
                    &&& action == RenderAction::Return(Err(e), Some(idx))
                },
                None => {
                    &&& !is_death(RenderEvent::Ended(outcome))
                    &&& after == kept
                    &&& outcome matches RenderOutcome::Replied(result)
                    &&& action == RenderAction::Return(result, None)
                },
            }
        }),
{
}

/// A slot whose refill ended has the new worker, or none where the start failed or took too long,
/// and is free in every case. A slot that is given back keeps what it has.
pub proof fn law_refilled_slot_is_free(
    worker: WorkerProcess,
    e: WorkerError,
    slot: WorkerSlot,
)
    ensures
        refilled(SpawnOutcome::Ready(worker)) == (WorkerSlot {
            worker: Some(worker),
            respawning: false,
            busy: false,
        }),
        refilled(SpawnOutcome::Failed(e)) == (WorkerSlot {
            worker: None,
            respawning: false,
            busy: false,
        }),
        refilled(SpawnOutcome::TimedOut) == refilled(SpawnOutcome::Failed(e)),
        filled(worker) == refilled(SpawnOutcome::Ready(worker)),
        released(slot) == (WorkerSlot {
            worker: slot.worker,
            respawning: slot.respawning,
            busy: false,
        }),
        held(slot) == (WorkerSlot {
            worker: slot.worker,
            respawning: slot.respawning,
            busy: true,
        }),
        vacated() == (WorkerSlot { worker: None, respawning: true, busy: false }),
        worker.request_counter < u64::MAX ==> asked(worker) == (WorkerSlot {
            worker: Some(
                WorkerProcess { request_counter: (worker.request_counter + 1) as u64 },
            ),
            respawning: false,
            busy: true,
        }),
{
}

/// What each step leaves as it is, and what it changes: only the counts that it is to change, by
/// one modulo 2^64, and only the slot that it is about.
pub proof fn law_steps_change_no_more(
    before: WorkerPool,
    after: WorkerPool,
    state: RenderState,
    event: RenderEvent,
    idx: int,
    outcome: SpawnOutcome,
)
    ensures
        render_queued(before, after) <==> {
            &&& after.slots@ == before.slots@
            &&& after.config == before.config
            &&& after.total_renders == (before.total_renders + 1) % 0x1_0000_0000_0000_0000
            &&& after.total_deaths == before.total_deaths
        },
        render_stepped(before, after, state, event) ==> {
            &&& after.config == before.config
            &&& after.total_renders == before.total_renders
            &&& after.total_deaths == if is_death(event) {
                (before.total_deaths + 1) % 0x1_0000_0000_0000_0000
            } else {
                before.total_deaths as int
            }
            &&& after.slots@ == slots_after(before.slots@, state, event)
        },
        slot_refilled(before, after, idx, outcome) ==> {
            &&& after.config == before.config
            &&& after.total_renders == before.total_renders
            &&& after.total_deaths == before.total_deaths
            &&& after.slots@ == before.slots@.update(idx, refilled(outcome))
        },
        slot_released(before, after, idx) ==> {
            &&& after.config == before.config
            &&& after.total_renders == before.total_renders
            &&& after.total_deaths == before.total_deaths
            &&& after.slots@ == before.slots@.update(idx, released(before.slots@[idx]))
        },
{
}

/// The counts are those of the slots with a worker, of those without one that are being refilled,
/// and of the others.
pub proof fn law_counts_are_of_the_slots(slots: Seq<WorkerSlot>)
    ensures
        count_slots(slots, SlotKind::Alive) == slots.filter(
            |s: WorkerSlot| s.worker is Some,
        ).len(),
        count_slots(slots, SlotKind::Respawning) == slots.filter(
            |s: WorkerSlot| s.worker is None && s.respawning,
        ).len(),
        count_slots(slots, SlotKind::Empty) == slots.filter(
            |s: WorkerSlot| s.worker is None && !s.respawning,
        ).len(),
        count_busy(slots) == slots.filter(|s: WorkerSlot| s.busy).len(),
    decreases slots.len(),
{
    reveal(Seq::filter);
    if slots.len() > 0 {
        law_counts_are_of_the_slots(slots.drop_last());
    }
}

/// The start that decides is the first one that did not end with a worker.
pub proof fn law_first_failed_start_decides(outcomes: Seq<SpawnOutcome>, i: int)
    requires
        0 <= i <= outcomes.len(),
        forall|j: int| 0 <= j < i ==> (#[trigger] outcomes[j]) is Ready,
        i < outcomes.len() ==> outcomes[i] is Failed || outcomes[i] is TimedOut,
    ensures
        first_failed(outcomes) == i,
{
    lemma_first_failed_is(outcomes, i);
}

/// A snapshot is told with all of its numbers, each in its place; a start that took too long with
/// its slot and its limit.
pub proof fn law_numbers_are_told_in_place(s: PoolStats, slot: nat, limit: Seq<char>)
    ensures
        stats_text(s) == "pool("@ + text::decimal(s.alive as nat) + "/"@ + text::decimal(
            s.pool_size as nat,
        ) + " alive, "@ + text::decimal(s.respawning as nat) + " respawning, "@ + text::decimal(
            s.empty as nat,
        ) + " empty | renders: "@ + text::decimal(s.total_renders as nat) + ", deaths: "@
            + text::decimal(s.total_deaths as nat) + ")"@,
        spawn_timeout_text(slot, limit) == "worker "@ + text::decimal(slot)
            + " spawn timed out after "@ + limit,
{
}

/// A render waits for its turn, then for its worker to start where it has none, then for its
/// answer, whatever that is; while it waits for the last two it holds its slot.
pub proof fn law_every_end_is_expected(
    slots: Seq<WorkerSlot>,
    idx: usize,
    started: SpawnOutcome,
    ended: RenderOutcome,
    event: RenderEvent,
)
    ensures
        expects(RenderState::Queued, event) <==> event is Turn,
        expects(RenderState::Starting(idx), event) <==> event is Spawned,
        expects(RenderState::Running(idx), event) <==> event is Ended,
        expects(RenderState::Starting(idx), RenderEvent::Spawned(started)),
        expects(RenderState::Running(idx), RenderEvent::Ended(ended)),
        !expects(RenderState::Finished, event),
        held_slot(RenderState::Queued) is None,
        held_slot(RenderState::Finished) is None,
        held_slot(RenderState::Starting(idx)) == Some(idx as int),
        held_slot(RenderState::Running(idx)) == Some(idx as int),
        holds(slots, RenderState::Queued),
        holds(slots, RenderState::Finished),
        holds(slots, RenderState::Starting(idx)) <==> {
            &&& idx < slots.len()
            &&& slots[idx as int].busy
            &&& slots[idx as int].worker is None
            &&& !slots[idx as int].respawning
        },
        holds(slots, RenderState::Running(idx)) <==> {
            &&& idx < slots.len()
            &&& slots[idx as int].busy
            &&& slots[idx as int].worker is Some
        },
{
}

/// A pool is in order where it has as many slots as it is to have workers, none of them with a worker
/// while it is being refilled and none held while it is being refilled.
pub proof fn law_order_of_a_pool(pool: WorkerPool, slot: WorkerSlot)
    ensures
        slot.wf() <==> !(slot.worker is Some && slot.respawning) && !(slot.respawning && slot.busy),
        pool.wf() <==> pool.slots@.len() == pool.config.pool_size && forall|i: int|
            0 <= i < pool.slots@.len() ==> (#[trigger] pool.slots@[i]).wf(),
{
}

/// Whether `r` is what a pool is set up with, given how the starts of its workers ended.
pub open spec fn is_new_pool(
    config: PoolConfig,
    outcomes: Seq<SpawnOutcome>,
    r: Result<WorkerPool, WorkerError>,
) -> bool {
    match r {
        Ok(pool) => {
            &&& first_failed(outcomes) == outcomes.len()
            &&& pool.config == config
            &&& pool.slots@ == outcomes.map_values(|o: SpawnOutcome| filled(o->Ready_0))
            &&& pool.total_renders == 0
            &&& pool.total_deaths == 0
        },
        Err(e) => {
            let failed = first_failed(outcomes);
            &&& failed < outcomes.len()
            &&& match outcomes[failed] {
                SpawnOutcome::Failed(cause) => e == cause,
                _ => e matches WorkerError::NotReady(m) && m@ == spawn_timeout_text(
                    failed as nat,
                    crate::worker::duration_text(
                        config.spawn_timeout.seconds(),
                        config.spawn_timeout.subsec(),
                    ),
                ),
            }
        },
    }
}

/// A pool is set up exactly where every worker has started: each then stands in its own slot, which
/// is free, and nothing is counted yet. Otherwise the first start that went wrong is told, with its
/// own error or with its slot and the time that it was given.
pub proof fn law_pool_needs_every_worker(
    config: PoolConfig,
    outcomes: Seq<SpawnOutcome>,
    r: Result<WorkerPool, WorkerError>,
)
    requires
        is_new_pool(config, outcomes, r),
    ensures
        r is Ok <==> forall|i: int| 0 <= i < outcomes.len() ==> (#[trigger] outcomes[i]) is Ready,
        r matches Ok(pool) ==> {
            &&& pool.config == config
            &&& pool.slots@.len() == outcomes.len()
            &&& forall|i: int|
                0 <= i < outcomes.len() ==> (#[trigger] pool.slots@[i]) == (WorkerSlot {
                    worker: Some(outcomes[i]->Ready_0),
                    respawning: false,
                    busy: false,
                })
            &&& pool.total_renders == 0
            &&& pool.total_deaths == 0
        },
        r matches Err(e) ==> exists|i: int|
            {
                &&& 0 <= i < outcomes.len()
                &&& forall|j: int| 0 <= j < i ==> (#[trigger] outcomes[j]) is Ready
                &&& match #[trigger] outcomes[i] {
                    SpawnOutcome::Ready(_) => false,
                    SpawnOutcome::Failed(cause) => e == cause,
                    SpawnOutcome::TimedOut => e is NotReady && e->NotReady_0@ == "worker "@
                        + text::decimal(i as nat) + " spawn timed out after "@
                        + crate::worker::duration_text(
                        config.spawn_timeout.seconds(),
                        config.spawn_timeout.subsec(),
                    ),
                }
            },
{
    lemma_first_failed(outcomes);
    let failed = first_failed(outcomes);
    if r is Err {
        assert(!(outcomes[failed] is Ready));
    }
}

/// Whether `ticket` stands for a render that `pool` was asked for.
pub open spec fn is_ticket(
    ticket: RenderTicket,
    pool: WorkerPool,
    source: Seq<char>,
    template: Seq<char>,
    scale_bits: u32,
    max_pages: Option<usize>,
) -> bool {
    &&& ticket.render_id == pool.total_renders
    &&& ticket.source@ == source
    &&& ticket.template@ == template
    &&& ticket.scale_bits == scale_bits
    &&& ticket.max_pages == max_pages
}

/// A worker is asked for exactly what the caller asked for: the source and the template character
/// for character, the scale and the limit on pages. Two renders in a row have two numbers in a row.
pub proof fn law_worker_is_asked_what_the_caller_asked(
    pool: WorkerPool,
    queued: WorkerPool,
    ticket: RenderTicket,
    following: RenderTicket,
    source: Seq<char>,
    template: Seq<char>,
    scale_bits: u32,
    max_pages: Option<usize>,
    request: RenderRequest,
    n: nat,
)
    requires
        is_ticket(ticket, pool, source, template, scale_bits, max_pages),
        render_queued(pool, queued),
        is_ticket(following, queued, source, template, scale_bits, max_pages),
        carries(request, ticket, n),
    ensures
        request.source@ == source,
        request.template@ == template,
        request.scale_bits == scale_bits,
        request.max_pages == max_pages,
        following.render_id == (ticket.render_id + 1) % 0x1_0000_0000_0000_0000,
{
}

/// Whether `stats` is a snapshot of `pool`.
pub open spec fn is_snapshot(stats: PoolStats, pool: WorkerPool) -> bool {
    &&& stats.pool_size == pool.config.pool_size
    &&& stats.alive == count_slots(pool.slots@, SlotKind::Alive)
    &&& stats.respawning == count_slots(pool.slots@, SlotKind::Respawning)
    &&& stats.empty == count_slots(pool.slots@, SlotKind::Empty)
    &&& stats.total_renders == pool.total_renders
    &&& stats.total_deaths == pool.total_deaths
}

/// A snapshot shows the size of the pool, how many slots have a worker, how many are being refilled
/// and how many are empty, and the counts of renders and of losses.
pub proof fn law_snapshot_shows_the_pool(stats: PoolStats, pool: WorkerPool)
    requires
        is_snapshot(stats, pool),
    ensures
        stats.pool_size == pool.config.pool_size,
        stats.alive == pool.slots@.filter(|s: WorkerSlot| s.worker is Some).len(),
        stats.respawning == pool.slots@.filter(
            |s: WorkerSlot| s.worker is None && s.respawning,
        ).len(),
        stats.empty == pool.slots@.filter(|s: WorkerSlot| s.worker is None && !s.respawning).len(),
        stats.total_renders == pool.total_renders,
        stats.total_deaths == pool.total_deaths,
{
    law_counts_are_of_the_slots(pool.slots@);
}

} // verus!
