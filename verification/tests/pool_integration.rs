use qbot_with_typ::pool::{
    spawn_timeout_message, RenderAction, RenderEvent, RenderOutcome, RenderState, RenderTicket, SpawnOutcome, WorkerPool,
};
use qbot_with_typ::worker::{
    finish_request, CompileError, PoolConfig, RenderReply, RenderResponse, TimeLimit, WorkerError,
    WorkerProcess, DEFAULT_RENDER_SCALE_BITS,
};

fn test_config(pool_size: usize) -> PoolConfig {
    PoolConfig {
        pool_size,
        render_timeout: TimeLimit::from_secs(5),
        spawn_timeout: TimeLimit::from_secs(10),
        memory_limit_bytes: 256 * 1024 * 1024,
        cpu_lifetime_secs: 60,
        fsize_limit_bytes: Some(0),
        extra_args: Vec::new(),
        worker_bin: "mock_worker.py".to_string(),
    }
}

fn fresh() -> SpawnOutcome {
    SpawnOutcome::Ready(WorkerProcess { request_counter: 0 })
}

fn new_pool(pool_size: usize) -> WorkerPool {
    let outcomes = (0..pool_size).map(|_| fresh()).collect();
    WorkerPool::new(test_config(pool_size), outcomes).unwrap()
}

/// What the mock worker answers to a source.
fn mock_answer(source: &str) -> RenderOutcome {
    let answer = |ok: bool, data: Option<&str>, errors: Option<Vec<CompileError>>| {
        RenderReply::Answered(RenderResponse {
            id: None,
            ok,
            format: None,
            data: data.map(str::to_string),
            pages: None,
            errors,
            warnings: None,
        })
    };
    let reply = match source {
        "__timeout__" => return RenderOutcome::TimedOut,
        "__crash__" => RenderReply::Closed,
        "__broken__" => RenderReply::Broken("Broken pipe".to_string()),
        "__error__" => answer(
            false,
            None,
            Some(vec![CompileError {
                kind: "error".to_string(),
                message: "mock compile error".to_string(),
                span: None,
                hints: Vec::new(),
            }]),
        ),
        _ => answer(true, Some("iVBORw0KGgo="), None),
    };
    RenderOutcome::Replied(finish_request(reply))
}

/// Begins a render and goes on until its request is sent.
fn begin(pool: &mut WorkerPool, source: &str) -> (RenderTicket, RenderState) {
    let ticket = pool.render(source, "default");
    let (state, action) = pool.step_render(&ticket, RenderState::Queued, RenderEvent::Turn);
    match action {
        RenderAction::Send(idx, request) => {
            assert_eq!(state, RenderState::Running(idx));
            assert_eq!(request.source, source);
            assert_eq!(request.template, "default");
            assert_eq!(request.scale_bits, DEFAULT_RENDER_SCALE_BITS);
            assert_eq!(request.max_pages, None);
        }
        other => panic!("{other:?}"),
    }
    (ticket, state)
}

fn end(
    pool: &mut WorkerPool,
    (ticket, state): (RenderTicket, RenderState),
) -> (Result<Vec<u8>, WorkerError>, Option<usize>) {
    let event = RenderEvent::Ended(mock_answer(&ticket.source));
    match pool.step_render(&ticket, state, event) {
        (RenderState::Finished, RenderAction::Return(result, lost)) => (result, lost),
        other => panic!("{other:?}"),
    }
}

fn render(pool: &mut WorkerPool, source: &str) -> (Result<Vec<u8>, WorkerError>, Option<usize>) {
    let begun = begin(pool, source);
    end(pool, begun)
}

#[test]
fn pool_spawn_and_render() {
    let mut pool = new_pool(1);
    let png = render(&mut pool, "hello world").0.unwrap();
    assert!(!png.is_empty());
    // PNG magic bytes
    assert_eq!(&png[..4], b"\x89PNG");

    let stats = pool.stats();
    assert_eq!(stats.alive, 1);
    assert_eq!(stats.total_renders, 1);
    assert_eq!(stats.total_deaths, 0);

    assert_eq!(pool.shutdown(), vec![0]);
}

#[test]
fn pool_concurrent_renders() {
    let mut pool = new_pool(2);
    let mut results = Vec::new();
    for i in 0..3 {
        let first = begin(&mut pool, &format!("concurrent request {}", 2 * i));
        let second = begin(&mut pool, &format!("concurrent request {}", 2 * i + 1));
        assert_eq!(first.1, RenderState::Running(0));
        assert_eq!(second.1, RenderState::Running(1));
        assert_eq!(pool.acquire_slot(), None);
        results.push(end(&mut pool, second).0);
        results.push(end(&mut pool, first).0);
    }
    for result in results {
        assert!(result.is_ok(), "render failed: {:?}", result.err());
    }

    let stats = pool.stats();
    assert_eq!(stats.total_renders, 6);
    assert_eq!(stats.alive, 2);

    assert_eq!(pool.shutdown(), vec![0, 1]);
}

#[test]
fn pool_compile_error() {
    let mut pool = new_pool(1);

    let (result, lost) = render(&mut pool, "__error__");
    assert_eq!(lost, None);
    match result.unwrap_err() {
        WorkerError::Compile(msg) => {
            assert!(msg.contains("mock compile error"), "unexpected: {msg}");
        }
        other => panic!("expected Compile error, got: {other:?}"),
    }

    // Worker should still be alive after a compile error
    let stats = pool.stats();
    assert_eq!(stats.alive, 1);
    assert_eq!(stats.total_deaths, 0);

    // Next render should succeed
    let png = render(&mut pool, "ok after error").0.unwrap();
    assert_eq!(&png[..4], b"\x89PNG");
}

#[test]
fn pool_timeout_kills_and_respawns() {
    let mut config = test_config(1);
    config.render_timeout = TimeLimit::from_secs(2);
    let mut pool = WorkerPool::new(config, vec![fresh()]).unwrap();

    let (result, lost) = render(&mut pool, "__timeout__");
    assert!(matches!(result, Err(WorkerError::Timeout(t)) if t == TimeLimit::from_secs(2)));
    assert_eq!(lost, Some(0));
    assert_eq!(pool.stats().respawning, 1);

    // A render that comes meanwhile has to wait
    let ticket = pool.render("waiting", "default");
    assert!(matches!(
        pool.step_render(&ticket, RenderState::Queued, RenderEvent::Turn),
        (RenderState::Queued, RenderAction::AwaitRefill)
    ));
    pool.finish_respawn(0, fresh());

    let stats = pool.stats();
    assert_eq!(stats.total_deaths, 1);
    assert_eq!(stats.alive, 1, "worker should have respawned: {}", stats.to_text());

    // Should work again
    let png = render(&mut pool, "after timeout").0.unwrap();
    assert_eq!(&png[..4], b"\x89PNG");
}

#[test]
fn pool_crash_recovery() {
    let mut pool = new_pool(1);

    let (result, lost) = render(&mut pool, "__crash__");
    assert!(matches!(result, Err(WorkerError::Exited)));
    assert_eq!(lost, Some(0));
    pool.finish_respawn(0, fresh());

    let stats = pool.stats();
    assert_eq!(stats.total_deaths, 1);
    assert_eq!(stats.alive, 1, "worker should have respawned: {}", stats.to_text());

    // Should work again
    let png = render(&mut pool, "after crash").0.unwrap();
    assert_eq!(&png[..4], b"\x89PNG");
}

#[test]
fn pool_stats_display() {
    let pool = new_pool(2);
    let display = pool.stats().to_text();
    assert!(display.contains("2/2 alive"));
    assert!(display.contains("renders: 0"));
    assert_eq!(display, "pool(2/2 alive, 0 respawning, 0 empty | renders: 0, deaths: 0)");
}

#[test]
fn broken_pipe_is_told_as_an_exit() {
    let mut pool = new_pool(1);
    let (result, lost) = render(&mut pool, "__broken__");
    assert!(matches!(result, Err(WorkerError::Exited)));
    assert_eq!(lost, Some(0));
    assert_eq!(pool.stats().total_deaths, 1);
}

#[test]
fn first_failed_start_decides() {
    let failed = |m: &str| SpawnOutcome::Failed(WorkerError::Spawn(m.to_string()));
    let outcomes = vec![fresh(), failed("one"), failed("two")];
    assert!(matches!(
        WorkerPool::new(test_config(3), outcomes),
        Err(WorkerError::Spawn(m)) if m == "one"
    ));
    let outcomes = vec![fresh(), SpawnOutcome::TimedOut, failed("two")];
    match WorkerPool::new(test_config(3), outcomes) {
        Err(WorkerError::NotReady(m)) => assert_eq!(m, "worker 1 spawn timed out after 10s"),
        other => panic!("{other:?}"),
    }
    assert_eq!(spawn_timeout_message(12, "5ms"), "worker 12 spawn timed out after 5ms");
}

#[test]
fn empty_slot_gets_a_worker_first() {
    let mut pool = new_pool(1);
    assert_eq!(render(&mut pool, "__crash__").1, Some(0));
    pool.finish_respawn(0, SpawnOutcome::TimedOut);
    assert_eq!(pool.stats().empty, 1);
    assert!(pool.needs_worker(0));

    // A start that fails ends the render and leaves the slot to the next
    for outcome in [
        SpawnOutcome::TimedOut,
        SpawnOutcome::Failed(WorkerError::Spawn("gone".to_string())),
    ] {
        let ticket = pool.render("x", "default");
        let (state, action) = pool.step_render(&ticket, RenderState::Queued, RenderEvent::Turn);
        assert!(matches!(action, RenderAction::StartWorker(0)));
        let timed_out = matches!(outcome, SpawnOutcome::TimedOut);
        match pool.step_render(&ticket, state, RenderEvent::Spawned(outcome)) {
            (RenderState::Finished, RenderAction::Return(Err(e), None)) => {
                let expected = if timed_out {
                    "worker did not send ready message: synchronous respawn timed out"
                } else {
                    "failed to spawn worker: gone"
                };
                assert_eq!(e.message(), expected);
            }
            other => panic!("{other:?}"),
        }
    }

    let ticket = pool.render("x", "default");
    let (state, _) = pool.step_render(&ticket, RenderState::Queued, RenderEvent::Turn);
    let (state, action) = pool.step_render(&ticket, state, RenderEvent::Spawned(fresh()));
    assert_eq!(state, RenderState::Running(0));
    assert!(matches!(action, RenderAction::Send(0, r) if r.id.as_deref() == Some("req-1")));
    assert!(end(&mut pool, (ticket, state)).0.is_ok());
    assert_eq!(pool.stats().alive, 1);
    assert_eq!(pool.stats().total_deaths, 1);
}

#[test]
fn abandoned_slot_can_be_released() {
    let mut pool = new_pool(1);
    let _abandoned = begin(&mut pool, "x");
    assert_eq!(pool.acquire_slot(), None);
    pool.release_slot(0);
    assert_eq!(pool.acquire_slot(), Some(0));
}

#[test]
fn death_of_an_absent_worker_is_only_counted() {
    let mut pool = new_pool(2);
    assert!(pool.handle_worker_death(1));
    assert!(!pool.handle_worker_death(1));
    let stats = pool.stats();
    assert_eq!((stats.alive, stats.respawning, stats.empty), (1, 1, 0));
    assert_eq!(stats.total_deaths, 2);
    assert_eq!(pool.shutdown(), vec![0]);
}

#[test]
fn counts_wrap_around() {
    let mut pool = new_pool(1);
    pool.total_renders = u64::MAX;
    assert_eq!(pool.render_with_options("x", "y", 7, Some(2)).render_id, u64::MAX);
    assert_eq!(pool.total_renders, 0);
}

#[test]
fn request_numbers_can_run_out() {
    let mut pool = new_pool(2);
    let last = WorkerProcess { request_counter: u64::MAX - 1 };
    pool.slots[0].worker = Some(last);
    assert!(pool.has_number_left());

    // The render that takes the last number goes on to its end, and so does another beside it
    let exhausting = begin(&mut pool, "x");
    let beside = begin(&mut pool, "y");
    assert!(pool.has_number_left());
    assert!(end(&mut pool, beside).0.is_ok());
    assert!(end(&mut pool, exhausting).0.is_ok());
    assert!(!pool.has_number_left());
}

#[test]
fn every_slot_is_counted_once() {
    let mut pool = new_pool(4);
    let census = |pool: &WorkerPool| {
        let stats = pool.stats();
        assert_eq!(stats.alive + stats.respawning + stats.empty, stats.pool_size);
        (stats.alive, stats.respawning, stats.empty)
    };
    assert_eq!(census(&pool), (4, 0, 0));
    let held = begin(&mut pool, "__timeout__");
    assert_eq!(render(&mut pool, "__crash__").1, Some(1));
    assert_eq!(census(&pool), (3, 1, 0));
    assert_eq!(end(&mut pool, held).1, Some(0));
    assert_eq!(census(&pool), (2, 2, 0));
    pool.finish_respawn(1, fresh());
    pool.finish_respawn(0, SpawnOutcome::TimedOut);
    assert_eq!(census(&pool), (3, 0, 1));
    assert_eq!(pool.shutdown(), vec![1, 2, 3]);
}

#[test]
fn every_render_counts_once_however_it_ends() {
    let mut pool = new_pool(2);
    let sources = ["good", "__error__", "__crash__", "__timeout__", "__broken__", "good too"];
    let mut waiting: Vec<(RenderTicket, RenderState)> =
        sources.iter().map(|s| (pool.render(s, "default"), RenderState::Queued)).collect();
    let ids: Vec<u64> = waiting.iter().map(|(ticket, _)| ticket.render_id).collect();
    assert_eq!(ids, vec![0, 1, 2, 3, 4, 5]);
    assert_eq!(pool.total_renders, 6);

    let mut running: Vec<(RenderTicket, RenderState)> = Vec::new();
    let mut results = Vec::new();
    while !waiting.is_empty() || !running.is_empty() {
        // As many as can get a slot, each another one
        while !waiting.is_empty() {
            let (ticket, state) = waiting.remove(0);
            match pool.step_render(&ticket, state, RenderEvent::Turn) {
                (state, RenderAction::Send(idx, _)) => {
                    assert_eq!(state, RenderState::Running(idx));
                    assert!(running.iter().all(|(_, held)| *held != state));
                    running.push((ticket, state));
                }
                (state, RenderAction::AwaitRefill) => {
                    assert_eq!(state, RenderState::Queued);
                    waiting.insert(0, (ticket, state));
                    break;
                }
                other => panic!("{other:?}"),
            }
        }
        assert!(running.len() <= pool.config.pool_size);
        assert_eq!(pool.slots.iter().filter(|slot| slot.busy).count(), running.len());

        let (result, lost) = end(&mut pool, running.remove(0));
        if let Some(idx) = lost {
            pool.finish_respawn(idx, fresh());
        }
        results.push(result.is_ok());
    }
    assert_eq!(results, vec![true, false, false, false, false, true]);
    assert!(pool.slots.iter().all(|slot| !slot.busy));
    let stats = pool.stats();
    assert_eq!((stats.total_renders, stats.total_deaths, stats.alive), (6, 3, 2));
}

#[test]
fn compile_error_keeps_the_worker() {
    let mut pool = new_pool(2);
    // Another render is under way in the first slot
    let other = begin(&mut pool, "slow");
    let (result, lost) = render(&mut pool, "__error__");
    assert!(matches!(result, Err(WorkerError::Compile(m)) if m.contains("mock compile error")));
    assert_eq!(lost, None);
    assert_eq!((pool.stats().alive, pool.stats().total_deaths), (2, 0));
    assert_eq!(pool.slots[1].worker.as_ref().map(|w| w.request_counter), Some(1));

    let next = begin(&mut pool, "good");
    assert_eq!(next.1, RenderState::Running(1));
    assert!(end(&mut pool, next).0.is_ok());
    assert_eq!(pool.slots[1].worker.as_ref().map(|w| w.request_counter), Some(2));
    assert!(end(&mut pool, other).0.is_ok());
    assert_eq!((pool.stats().alive, pool.stats().total_deaths), (2, 0));
    assert_eq!(pool.stats().total_renders, 3);
}
