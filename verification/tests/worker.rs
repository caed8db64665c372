use std::time::Duration;

use qbot_with_typ::encoding::DecodeFailure;
use qbot_with_typ::worker::{
    decoded_image, describe_compile_errors, finish_request, line_body, render_timeout_message,
    request_line, resource_limits, response_data, response_image, CompileError, ExitReport, PoolConfig,
    ReadyMessage, RenderReply, RenderResponse, Resource, SpanInfo, SpawnEvent, TimeLimit,
    WorkerError, WorkerProcess, DEFAULT_RENDER_SCALE_BITS,
};

fn response(ok: bool, data: Option<&str>, errors: Option<Vec<CompileError>>) -> RenderResponse {
    RenderResponse {
        id: Some("req-1".to_string()),
        ok,
        format: None,
        data: data.map(str::to_string),
        pages: Some(1),
        errors,
        warnings: None,
    }
}

fn typst_error(message: &str, span: Option<(usize, usize)>) -> CompileError {
    CompileError {
        kind: "error".to_string(),
        message: message.to_string(),
        span: span.map(|(line, column)| SpanInfo { line, column }),
        hints: Vec::new(),
    }
}

fn not_ready(event: SpawnEvent) -> String {
    match WorkerProcess::spawn(event) {
        Err(WorkerError::NotReady(m)) => m,
        other => panic!("{other:?}"),
    }
}

#[test]
fn default_scale_is_four() {
    assert_eq!(f32::from_bits(DEFAULT_RENDER_SCALE_BITS), 4.0);
}

#[test]
fn default_config() {
    let config = PoolConfig::default();
    assert_eq!(config.pool_size, 2);
    assert_eq!(config.render_timeout, TimeLimit::from_secs(30));
    assert_eq!(config.spawn_timeout, TimeLimit::from_secs(120));
    assert_eq!(config.memory_limit_bytes, 512 * 1024 * 1024);
    assert_eq!(config.cpu_lifetime_secs, 3600);
    assert_eq!(config.fsize_limit_bytes, Some(0));
    assert!(config.extra_args.is_empty());
    assert_eq!(config.worker_bin, "typst-stdio-worker");
}

#[test]
fn limits_are_set_in_order() {
    let mut config = PoolConfig::default();
    assert_eq!(
        resource_limits(&config),
        vec![
            (Resource::AddressSpace, 536870912),
            (Resource::CpuSeconds, 3600),
            (Resource::FileSize, 0)
        ]
    );
    config.fsize_limit_bytes = None;
    assert_eq!(
        resource_limits(&config),
        vec![(Resource::AddressSpace, 536870912), (Resource::CpuSeconds, 3600)]
    );
}

#[test]
fn time_limits_read_like_durations() {
    for (secs, nanos) in [(30, 0), (0, 0), (1, 500_000_000), (0, 2_000_000), (u64::MAX, 999_999_999)] {
        let limit = TimeLimit::new(secs, nanos);
        assert_eq!(limit.text(), format!("{:?}", Duration::new(secs, nanos)));
        assert_eq!((limit.as_secs(), limit.subsec_nanos()), (secs, nanos));
    }
}

#[test]
fn line_bodies_are_trimmed() {
    assert_eq!(line_body(" {} \r\n"), Some("{}"));
    assert_eq!(line_body("\n"), Some(""));
    assert_eq!(line_body(""), None);
}

#[test]
fn greeted_worker_starts_at_zero() {
    let ready = ReadyMessage { ready: true, protocol_version: 1, fonts_loaded: 12 };
    assert_eq!(WorkerProcess::spawn(SpawnEvent::Greeted(ready)).unwrap().request_counter, 0);
}

#[test]
fn failed_starts_say_why() {
    assert!(matches!(
        WorkerProcess::spawn(SpawnEvent::NotStarted("no such file".to_string())),
        Err(WorkerError::Spawn(m)) if m == "no such file"
    ));
    assert_eq!(not_ready(SpawnEvent::ReadFailed("broken".to_string())), "broken");
    assert_eq!(
        not_ready(SpawnEvent::Closed(ExitReport::Ended("exit status: 1".to_string()))),
        "worker closed stdout before sending ready (exit: exit status: 1)"
    );
    assert_eq!(
        not_ready(SpawnEvent::Closed(ExitReport::WaitFailed("gone".to_string()))),
        "worker closed stdout before sending ready (exit: wait failed: gone)"
    );
    assert_eq!(
        not_ready(SpawnEvent::Closed(ExitReport::StillRunning)),
        "worker closed stdout before sending ready (exit: still running after 500ms)"
    );
    assert_eq!(
        not_ready(SpawnEvent::BadJson("EOF".to_string())),
        "invalid ready JSON: EOF"
    );
    let ready = ReadyMessage { ready: false, protocol_version: 1, fonts_loaded: 0 };
    assert_eq!(not_ready(SpawnEvent::Greeted(ready)), "ready field is false");
}

#[test]
fn requests_are_numbered() {
    let mut worker = WorkerProcess { request_counter: 8 };
    let first = worker.next_request("src", "quiconf", DEFAULT_RENDER_SCALE_BITS, Some(3));
    assert_eq!(first.id.as_deref(), Some("req-9"));
    assert_eq!(first.source, "src");
    assert_eq!(first.template, "quiconf");
    assert_eq!(first.scale_bits, 4.0f32.to_bits());
    assert_eq!(first.max_pages, Some(3));
    assert_eq!(first.format, "png");
    assert!(first.stitch);
    let second = worker.next_request("", "", 0, None);
    assert_eq!(second.id.as_deref(), Some("req-10"));
    assert_eq!(worker.request_counter, 10);
}

#[test]
fn request_ids_never_repeat() {
    let mut worker = WorkerProcess { request_counter: 0 };
    let mut seen = Vec::new();
    for _ in 0..250 {
        let id = worker.next_request("", "", 0, None).id.unwrap();
        assert!(!seen.contains(&id));
        seen.push(id);
    }
}

#[test]
fn every_message_of_the_compiler_is_told() {
    let messages = ["first", "second", "third"];
    let errors = messages
        .iter()
        .enumerate()
        .map(|(i, m)| typst_error(m, if i == 1 { None } else { Some((i, 2)) }))
        .collect();
    match response_image(response(false, None, Some(errors))) {
        Err(WorkerError::Compile(text)) => {
            for m in messages {
                assert!(text.contains(m));
            }
        }
        other => panic!("{other:?}"),
    }
}

#[test]
fn request_takes_one_line() {
    assert_eq!(request_line("{}".to_string()), "{}\n");
}

#[test]
fn compile_errors_are_listed() {
    let errors = vec![
        typst_error("unknown variable", Some((3, 14))),
        typst_error("mock compile error", None),
    ];
    assert_eq!(
        describe_compile_errors(&Some(errors)),
        "[3:14] unknown variable; mock compile error"
    );
    assert_eq!(describe_compile_errors(&Some(Vec::new())), "");
    assert_eq!(describe_compile_errors(&None), "unknown error");
}

#[test]
fn responses_without_an_image_are_compile_errors() {
    assert!(matches!(
        response_data(response(false, Some("AAAA"), None)),
        Err(WorkerError::Compile(m)) if m == "unknown error"
    ));
    assert!(matches!(
        response_image(response(true, None, None)),
        Err(WorkerError::Compile(m)) if m == "response missing data field"
    ));
    assert_eq!(response_data(response(true, Some("x"), None)).unwrap(), "x");
}

#[test]
fn images_are_decoded() {
    assert_eq!(
        response_image(response(true, Some("iVBORw0KGgo="), None)).unwrap(),
        b"\x89PNG\r\n\x1a\n"
    );
    assert_eq!(decoded_image(Ok(vec![1, 2])).unwrap(), vec![1, 2]);
    assert!(matches!(
        decoded_image(Err(DecodeFailure::InvalidPadding)),
        Err(WorkerError::Base64(DecodeFailure::InvalidPadding))
    ));
}

#[test]
fn bad_base64_is_named() {
    let cases = [
        ("!AAA", DecodeFailure::InvalidByte(0, b'!'), "Invalid symbol 33, offset 0."),
        ("AAAAA", DecodeFailure::InvalidLength(5), "Invalid input length: 5"),
        ("AB==", DecodeFailure::InvalidLastSymbol(1, b'B'), "Invalid last symbol 66, offset 1."),
        ("AA", DecodeFailure::InvalidPadding, "Invalid padding"),
    ];
    for (data, failure, message) in cases {
        match response_image(response(true, Some(data), None)) {
            Err(WorkerError::Base64(f)) => {
                assert_eq!(f, failure);
                assert_eq!(
                    WorkerError::Base64(f).message(),
                    format!("invalid base64 data: {message}")
                );
            }
            other => panic!("{other:?}"),
        }
    }
}

#[test]
fn replies_end_requests() {
    assert!(matches!(
        finish_request(RenderReply::Broken("pipe".to_string())),
        Err(WorkerError::Io(m)) if m == "pipe"
    ));
    assert!(matches!(finish_request(RenderReply::Closed), Err(WorkerError::Exited)));
    assert!(matches!(
        finish_request(RenderReply::BadJson("eof".to_string())),
        Err(WorkerError::Json(m)) if m == "eof"
    ));
    let good = RenderReply::Answered(response(true, Some("AQID"), None));
    assert_eq!(finish_request(good).unwrap(), vec![1, 2, 3]);
}

#[test]
fn errors_have_messages() {
    let cause = || "x".to_string();
    assert_eq!(WorkerError::Spawn(cause()).message(), "failed to spawn worker: x");
    assert_eq!(
        WorkerError::NotReady(cause()).message(),
        "worker did not send ready message: x"
    );
    assert_eq!(WorkerError::Io(cause()).message(), "I/O error: x");
    assert_eq!(WorkerError::Json(cause()).message(), "JSON error: x");
    assert_eq!(WorkerError::Compile(cause()).message(), "compilation failed: x");
    assert_eq!(WorkerError::Exited.message(), "worker process exited unexpectedly");
    assert_eq!(
        WorkerError::Timeout(TimeLimit::from_secs(30)).message(),
        "render timed out after 30s"
    );
    assert_eq!(render_timeout_message("a while"), "render timed out after a while");
}
