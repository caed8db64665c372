//! The protocol with one worker process: its start, the requests it is sent, and what its answers
//! mean.

use vstd::prelude::*;
use crate::encoding;
use crate::encoding::DecodeFailure;
use crate::text;

verus! {

/// The scale of a PNG where none is asked for: the IEEE 754 bits of the single precision number
/// 4.0.
pub const DEFAULT_RENDER_SCALE_BITS: u32 = 0x4080_0000;

/// How long a worker that closed its output is waited for before its state is reported.
pub const EXIT_WAIT_MILLIS: u64 = 500;

/// A span of time: whole seconds, and nanoseconds below one second.
#[derive(Debug, Clone, Copy, PartialEq, Eq)]
pub struct TimeLimit {
    secs: u64,
    nanos: u32,
}

impl TimeLimit {
    #[verifier::type_invariant]
    closed spec fn in_range(self) -> bool {
        self.nanos < 1_000_000_000
    }

    /// The whole seconds of the span.
    pub closed spec fn seconds(self) -> u64 {
        self.secs
    }

    /// The nanoseconds beyond the whole seconds.
    pub closed spec fn subsec(self) -> u32 {
        self.nanos
    }

    /// A span of `secs` seconds and `nanos` nanoseconds.
    pub fn new(secs: u64, nanos: u32) -> (r: Self)
        requires
            nanos < 1_000_000_000,
        ensures
            r.seconds() == secs,
            r.subsec() == nanos,
    {
        TimeLimit { secs, nanos }
    }

    /// A span of whole seconds.
    pub fn from_secs(secs: u64) -> (r: Self)
        ensures
            r.seconds() == secs,
            r.subsec() == 0,
    {
        TimeLimit { secs, nanos: 0 }
    }

    /// The whole seconds of the span.
    pub fn as_secs(&self) -> (r: u64)
        ensures
            r == self.seconds(),
    {
        self.secs
    }

    /// The nanoseconds beyond the whole seconds.
    pub fn subsec_nanos(&self) -> (r: u32)
        ensures
            r == self.subsec(),
            r < 1_000_000_000,
    {
        proof {
            use_type_invariant(self);
        }
        self.nanos
    }

    /// The span as it is shown to people, such as `30s`.
    pub fn text(&self) -> (r: String)
        ensures
            r@ == duration_text(self.seconds(), self.subsec()),
    {
        proof {
            use_type_invariant(self);
        }
        duration_debug(self.secs, self.nanos)
    }
}

/// The `Debug` text of `std::time::Duration::new(secs, nanos)`.
pub uninterp spec fn duration_text(secs: u64, nanos: u32) -> Seq<char>;

/// The `Debug` text of a `std::time::Duration`, which depends on its seconds and nanoseconds
/// alone. What it looks like is not stated.
#[verifier::external_body]
fn duration_debug(secs: u64, nanos: u32) -> (r: String)
    requires
        nanos < 1_000_000_000,
    ensures
        r@ == duration_text(secs, nanos),
{
    format!("{:?}", std::time::Duration::new(secs, nanos))
}

/// A request to a worker, written to its stdin as one line of JSON.
#[derive(Debug)]
pub struct RenderRequest {
    pub id: Option<String>,
    pub source: String,
    pub template: String,
    /// The scale of the image, as the IEEE 754 bits of a single precision number.
    pub scale_bits: u32,
    pub max_pages: Option<usize>,
    pub format: String,
    pub stitch: bool,
}

/// The answer of a worker to a request.
#[derive(Debug)]
pub struct RenderResponse {
    pub id: Option<String>,
    pub ok: bool,
    pub format: Option<String>,
    pub data: Option<String>,
    pub pages: Option<usize>,
    pub errors: Option<Vec<CompileError>>,
    pub warnings: Option<Vec<CompileError>>,
}

/// An error or a warning of the Typst compiler.
#[derive(Debug)]
pub struct CompileError {
    pub kind: String,
    pub message: String,
    pub span: Option<SpanInfo>,
    pub hints: Vec<String>,
}

/// A place in the source.
#[derive(Debug, Clone, Copy)]
pub struct SpanInfo {
    pub line: usize,
    pub column: usize,
}

/// The first message of a worker, sent once its fonts are loaded.
#[derive(Debug, Clone, Copy)]
pub struct ReadyMessage {
    pub ready: bool,
    pub protocol_version: u32,
    pub fonts_loaded: usize,
}

/// What can go wrong with a worker. The errors of the system and of the JSON reader are kept as
/// their messages.
#[derive(Debug)]
pub enum WorkerError {
    /// The process could not be started.
    Spawn(String),
    /// The process did not announce that it is ready.
    NotReady(String),
    /// Its pipes failed.
    Io(String),
    /// A message is not the JSON it should be.
    Json(String),
    /// The compiler refused the source.
    Compile(String),
    /// The image is not valid base64.
    Base64(DecodeFailure),
    /// The process is gone.
    Exited,
    /// No answer came in time.
    Timeout(TimeLimit),
}

/// The message of a worker error.
pub open spec fn error_text(e: WorkerError) -> Seq<char> {
    match e {
        WorkerError::Spawn(cause) => "failed to spawn worker: "@ + cause@,
        WorkerError::NotReady(cause) => "worker did not send ready message: "@ + cause@,
        WorkerError::Io(cause) => "I/O error: "@ + cause@,
        WorkerError::Json(cause) => "JSON error: "@ + cause@,
        WorkerError::Compile(cause) => "compilation failed: "@ + cause@,
        WorkerError::Base64(failure) => "invalid base64 data: "@ + encoding::decode_failure_text(
            failure,
        ),
        WorkerError::Exited => "worker process exited unexpectedly"@,
        WorkerError::Timeout(limit) => "render timed out after "@ + duration_text(
            limit.seconds(),
            limit.subsec(),
        ),
    }
}

impl WorkerError {
    /// The message of the error.
    pub fn message(&self) -> (r: String)
        ensures
            r@ == error_text(*self),
    {
        match self {
            WorkerError::Spawn(cause) => "failed to spawn worker: ".to_owned().concat(
                cause.as_str(),
            ),
            WorkerError::NotReady(cause) => "worker did not send ready message: ".to_owned().concat(
                cause.as_str(),
            ),
            WorkerError::Io(cause) => "I/O error: ".to_owned().concat(cause.as_str()),
            WorkerError::Json(cause) => "JSON error: ".to_owned().concat(cause.as_str()),
            WorkerError::Compile(cause) => "compilation failed: ".to_owned().concat(
                cause.as_str(),
            ),
            WorkerError::Base64(failure) => "invalid base64 data: ".to_owned().concat(
                failure.message().as_str(),
            ),
            WorkerError::Exited => "worker process exited unexpectedly".to_owned(),
            WorkerError::Timeout(limit) => render_timeout_message(limit.text().as_str()),
        }
    }
}

/// The message of a render that ran out of time, given the words for its limit.
pub fn render_timeout_message(limit: &str) -> (r: String)
    ensures
        r@ == "render timed out after "@ + limit@,
{
    "render timed out after ".to_owned().concat(limit)
}

/// How the pool runs its workers.
#[derive(Debug, Clone)]
pub struct PoolConfig {
    pub pool_size: usize,
    pub render_timeout: TimeLimit,
    pub spawn_timeout: TimeLimit,
    pub memory_limit_bytes: u64,
    pub cpu_lifetime_secs: u64,
    /// The largest file a worker may write; `None` for no limit.
    pub fsize_limit_bytes: Option<u64>,
    pub extra_args: Vec<String>,
    /// Name or path of the worker program.
    pub worker_bin: String,
}

impl Default for PoolConfig {
    fn default() -> (r: Self)
        ensures
            r.pool_size == 2,
            r.render_timeout.seconds() == 30 && r.render_timeout.subsec() == 0,
            r.spawn_timeout.seconds() == 120 && r.spawn_timeout.subsec() == 0,
            r.memory_limit_bytes == 512 * 1024 * 1024,
            r.cpu_lifetime_secs == 3600,
            r.fsize_limit_bytes == Some(0u64),
            r.extra_args@.len() == 0,
            r.worker_bin@ == "typst-stdio-worker"@,
            is_default_config(r),
    {
        PoolConfig {
            pool_size: 2,
            render_timeout: TimeLimit::from_secs(30),
            spawn_timeout: TimeLimit::from_secs(120),
            memory_limit_bytes: 512 * 1024 * 1024,
            cpu_lifetime_secs: 3600,
            fsize_limit_bytes: Some(0),
            extra_args: Vec::new(),
            worker_bin: "typst-stdio-worker".to_owned(),
        }
    }
}

/// A resource of a process that the system can limit.
#[derive(Debug, Clone, Copy, PartialEq, Eq, Structural)]
pub enum Resource {
    AddressSpace,
    CpuSeconds,
    FileSize,
}

/// The limits that a configuration sets, in the order in which they are set.
pub open spec fn limits_of(config: PoolConfig) -> Seq<(Resource, u64)> {
    let always = seq![
        (Resource::AddressSpace, config.memory_limit_bytes),
        (Resource::CpuSeconds, config.cpu_lifetime_secs),
    ];
    match config.fsize_limit_bytes {
        Some(bytes) => always.push((Resource::FileSize, bytes)),
        None => always,
    }
}

/// The limits to set, soft and hard alike, in a worker before it runs.
pub fn resource_limits(config: &PoolConfig) -> (r: Vec<(Resource, u64)>)
    ensures
        r@ == limits_of(*config),
{
    let mut limits: Vec<(Resource, u64)> = Vec::new();
    limits.push((Resource::AddressSpace, config.memory_limit_bytes));
    limits.push((Resource::CpuSeconds, config.cpu_lifetime_secs));
    if let Some(bytes) = config.fsize_limit_bytes {
        limits.push((Resource::FileSize, bytes));
    }
    limits
}

/// The text of a line that a worker wrote, trimmed; `None` where nothing was read because its
/// output is closed.
pub fn line_body(line: &str) -> (r: Option<&str>)
    ensures
        r is None <==> line@.len() == 0,
        r matches Some(body) ==> body@ == text::trimmed(line@),
        crate::bot::opt_view(r) == line_text(line@),
{
    if line.is_empty() {
        None
    } else {
        Some(text::trim(line))
    }
}

/// What became of a worker that closed its output before it was ready.
#[derive(Debug)]
pub enum ExitReport {
    /// It ended, with this status.
    Ended(String),
    /// Its end could not be waited for.
    WaitFailed(String),
    /// It has not ended within [`EXIT_WAIT_MILLIS`].
    StillRunning,
}

/// The words for what became of a worker.
pub open spec fn exit_text(report: ExitReport) -> Seq<char> {
    match report {
        ExitReport::Ended(status) => status@,
        ExitReport::WaitFailed(cause) => "wait failed: "@ + cause@,
        ExitReport::StillRunning => "still running after 500ms"@,
    }
}

/// How far the start of a worker came.
#[derive(Debug)]
pub enum SpawnEvent {
    /// The process could not be started.
    NotStarted(String),
    /// Its first line could not be read.
    ReadFailed(String),
    /// It closed its output without a line.
    Closed(ExitReport),
    /// Its first line is not a ready message.
    BadJson(String),
    /// Its first line is this ready message.
    Greeted(ReadyMessage),
}

/// The protocol state of a running worker.
#[derive(Debug)]
pub struct WorkerProcess {
    /// The number of requests sent so far.
    pub request_counter: u64,
}

/// The identifier of the request with number `n`.
pub open spec fn request_id(n: nat) -> Seq<char> {
    "req-"@ + text::decimal(n)
}

impl WorkerProcess {
    /// Judges the start of a worker: it is usable once it has greeted with `ready` set.
    pub fn spawn(event: SpawnEvent) -> (r: Result<WorkerProcess, WorkerError>)
        ensures
            match event {
                SpawnEvent::NotStarted(cause) => r == Err::<WorkerProcess, WorkerError>(
                    WorkerError::Spawn(cause),
                ),
                SpawnEvent::ReadFailed(cause) => r == Err::<WorkerProcess, WorkerError>(
                    WorkerError::NotReady(cause),
                ),
                SpawnEvent::Closed(report) => r matches Err(WorkerError::NotReady(m)) && m@
                    == "worker closed stdout before sending ready (exit: "@ + exit_text(report)
                    + ")"@,
                SpawnEvent::BadJson(cause) => r matches Err(WorkerError::NotReady(m)) && m@
                    == "invalid ready JSON: "@ + cause@,
                SpawnEvent::Greeted(message) => if message.ready {
                    r matches Ok(worker) && worker.request_counter == 0
                } else {
                    r matches Err(WorkerError::NotReady(m)) && m@ == "ready field is false"@
                },
            },
            spawn_outcome(event, r),
    {
        match event {
            SpawnEvent::NotStarted(cause) => Err(WorkerError::Spawn(cause)),
            SpawnEvent::ReadFailed(cause) => Err(WorkerError::NotReady(cause)),
            SpawnEvent::Closed(report) => {
                let status = match report {
                    ExitReport::Ended(status) => status,
                    ExitReport::WaitFailed(cause) => "wait failed: ".to_owned().concat(
                        cause.as_str(),
                    ),
                    ExitReport::StillRunning => "still running after 500ms".to_owned(),
                };
                Err(
                    WorkerError::NotReady(
                        "worker closed stdout before sending ready (exit: ".to_owned().concat(
                            status.as_str(),
                        ).concat(")"),
                    ),
                )
            },
            SpawnEvent::BadJson(cause) => Err(
                WorkerError::NotReady("invalid ready JSON: ".to_owned().concat(cause.as_str())),
            ),
            SpawnEvent::Greeted(message) => {
                if message.ready {
                    Ok(WorkerProcess { request_counter: 0 })
                } else {
                    Err(WorkerError::NotReady("ready field is false".to_owned()))
                }
            },
        }
    }

    /// Makes the next request: a stitched PNG of `source`, under an identifier of its own.
    pub fn next_request(
        &mut self,
        source: &str,
        template: &str,
        scale_bits: u32,
        max_pages: Option<usize>,
    ) -> (r: RenderRequest)
        requires
            old(self).request_counter < u64::MAX,
        ensures
            final(self).request_counter == old(self).request_counter + 1,
            r.id matches Some(id) && id@ == request_id(final(self).request_counter as nat),
            r.source@ == source@,
            r.template@ == template@,
            r.scale_bits == scale_bits,
            r.max_pages == max_pages,
            r.format@ == "png"@,
            r.stitch,
    {
        self.request_counter = self.request_counter + 1;
        let id = "req-".to_owned().concat(text::decimal_text(self.request_counter).as_str());
        RenderRequest {
            id: Some(id),
            source: source.to_owned(),
            template: template.to_owned(),
            scale_bits,
            max_pages,
            format: "png".to_owned(),
            stitch: true,
        }
    }
}

/// The line that carries a request, given its JSON.
pub fn request_line(json: String) -> (r: String)
    ensures
        r@ == json@ + "\n"@,
        r@ == framed(json@),
{
    json.concat("\n")
}

/// A compile error in words: its place, where it is known, and its message.
pub open spec fn compile_error_text(e: CompileError) -> Seq<char> {
    match e.span {
        Some(span) => "["@ + text::decimal(span.line as nat) + ":"@ + text::decimal(
            span.column as nat,
        ) + "] "@ + e.message@,
        None => e.message@,
    }
}

/// All compile errors of a response in words.
pub open spec fn compile_errors_text(errors: Option<Vec<CompileError>>) -> Seq<char> {
    match errors {
        Some(list) => text::joined(
            list@.map_values(|e: CompileError| compile_error_text(e)),
            "; "@,
        ),
        None => "unknown error"@,
    }
}

fn describe_compile_error(e: &CompileError) -> (r: String)
    ensures
        r@ == compile_error_text(*e),
{
    match &e.span {
        Some(span) => "[".to_owned().concat(text::decimal_text(span.line as u64).as_str()).concat(
            ":",
        ).concat(text::decimal_text(span.column as u64).as_str()).concat("] ").concat(
            e.message.as_str(),
        ),
        None => e.message.clone(),
    }
}

/// The compile errors of a response in words, `unknown error` where it lists none.
pub fn describe_compile_errors(errors: &Option<Vec<CompileError>>) -> (r: String)
    ensures
        r@ == compile_errors_text(*errors),
{
    let list = match errors {
        None => {
            return "unknown error".to_owned();
        },
        Some(list) => list,
    };
    let ghost all = list@.map_values(|e: CompileError| compile_error_text(e));
    let mut parts: Vec<String> = Vec::new();
    let mut i: usize = 0;
    while i < list.len()
        invariant
            i <= list.len(),
            all == list@.map_values(|e: CompileError| compile_error_text(e)),
            text::views(parts@) == all.take(i as int),
        decreases list.len() - i,
    {
        let part = describe_compile_error(&list[i]);
        let ghost before = text::views(parts@);
        parts.push(part);
        proof {
            assert(text::views(parts@) == before.push(part@));
            assert(all.take(i + 1) == all.take(i as int).push(all[i as int]));
        }
        i = i + 1;
    }
    proof {
        assert(all.take(i as int) == all);
    }
    text::join_texts(&parts, "; ")
}

/// The encoded image of a response. A response that is not `ok` gives a compile error with all its
/// messages; one without data gives a compile error that says so.
pub fn response_data(response: RenderResponse) -> (r: Result<String, WorkerError>)
    ensures
        match r {
            Ok(data) => response.ok && response.data == Some(data),
            Err(e) => {
                &&& !response.ok || response.data is None
                &&& e matches WorkerError::Compile(m) && m@ == if response.ok {
                    "response missing data field"@
                } else {
                    compile_errors_text(response.errors)
                }
            },
        },
{
    if !response.ok {
        return Err(WorkerError::Compile(describe_compile_errors(&response.errors)));
    }
    match response.data {
        Some(data) => Ok(data),
        None => Err(WorkerError::Compile("response missing data field".to_owned())),
    }
}

/// The image of a response, given what the decoding of its data gave.
pub fn decoded_image(decoded: Result<Vec<u8>, DecodeFailure>) -> (r: Result<Vec<u8>, WorkerError>)
    ensures
        match decoded {
            Ok(bytes) => r == Ok::<Vec<u8>, WorkerError>(bytes),
            Err(failure) => r == Err::<Vec<u8>, WorkerError>(WorkerError::Base64(failure)),
        },
{
    match decoded {
        Ok(bytes) => Ok(bytes),
        Err(failure) => Err(WorkerError::Base64(failure)),
    }
}

/// What a response means: its decoded data, or the error that it stands for.
pub open spec fn response_outcome(
    response: RenderResponse,
    r: Result<Vec<u8>, WorkerError>,
) -> bool {
    match r {
        Ok(bytes) => {
            &&& response.ok
            &&& response.data is Some
            &&& encoding::decodes_to(response.data->0@, bytes@)
        },
        Err(WorkerError::Base64(failure)) => {
            &&& response.ok
            &&& response.data is Some
            &&& encoding::base64_decoded(response.data->0@) matches Err(e)
            &&& e == failure
        },
        Err(WorkerError::Compile(m)) => {
            &&& !response.ok || response.data is None
            &&& m@ == if response.ok {
                "response missing data field"@
            } else {
                compile_errors_text(response.errors)
            }
        },
        Err(_) => false,
    }
}

/// The image that a response carries.
pub fn response_image(response: RenderResponse) -> (r: Result<Vec<u8>, WorkerError>)
    ensures
        response_outcome(response, r),
{
    match response_data(response) {
        Err(e) => Err(e),
        Ok(data) => decoded_image(encoding::decode_base64(data.as_str())),
    }
}

/// What came back for a request.
#[derive(Debug)]
pub enum RenderReply {
    /// The request could not be written, or the answer not read.
    Broken(String),
    /// The worker closed its output.
    Closed,
    /// The request could not be put into JSON, or the answer is not the JSON of a response.
    BadJson(String),
    /// The answer.
    Answered(RenderResponse),
}

/// The outcome of a request, given what came back for it.
pub fn finish_request(reply: RenderReply) -> (r: Result<Vec<u8>, WorkerError>)
    ensures
        match reply {
            RenderReply::Broken(cause) => r == Err::<Vec<u8>, WorkerError>(WorkerError::Io(cause)),
            RenderReply::Closed => r == Err::<Vec<u8>, WorkerError>(WorkerError::Exited),
            RenderReply::BadJson(cause) => r == Err::<Vec<u8>, WorkerError>(
                WorkerError::Json(cause),
            ),
            RenderReply::Answered(response) => response_outcome(response, r),
        },
        request_outcome(reply, r),
{
    match reply {
        RenderReply::Broken(cause) => Err(WorkerError::Io(cause)),
        RenderReply::Closed => Err(WorkerError::Exited),
        RenderReply::BadJson(cause) => Err(WorkerError::Json(cause)),
        RenderReply::Answered(response) => response_image(response),
    }
}

/// Two requests to a worker never have the same identifier.
pub proof fn law_request_ids_are_distinct(a: nat, b: nat)
    requires
        a != b,
    ensures
        request_id(a) != request_id(b),
{
    text::lemma_zero_padded_value(a, 0);
    text::lemma_zero_padded_value(b, 0);
    let prefix = "req-"@;
    assert(request_id(a).skip(prefix.len() as int) == text::decimal(a));
    assert(request_id(b).skip(prefix.len() as int) == text::decimal(b));
}

/// No message of the compiler is lost: each of them stands in the error of the render.
pub proof fn law_every_compile_error_is_told(errors: Vec<CompileError>, k: int)
    requires
        0 <= k < errors@.len(),
    ensures
        text::contains_text(compile_errors_text(Some(errors)), errors@[k].message@),
{
    let parts = errors@.map_values(|e: CompileError| compile_error_text(e));
    let message = errors@[k].message@;
    let nothing = Seq::<char>::empty();
    text::lemma_joined_contains(parts, "; "@, k);
    assert(text::contains_text(parts[k], message)) by {
        match errors@[k].span {
            Some(span) => {
                let place = "["@ + text::decimal(span.line as nat) + ":"@ + text::decimal(
                    span.column as nat,
                ) + "] "@;
                assert(parts[k] == place + message + nothing);
            },
            None => {
                assert(parts[k] == nothing + message + nothing);
            },
        }
    }
    let whole = compile_errors_text(Some(errors));
    let (a, b) = choose|a: Seq<char>, b: Seq<char>| whole == #[trigger] (a + parts[k] + b);
    text::lemma_contains_around(a, parts[k], b, message);
}

/// A worker runs under the limits that are asked for: the limit on its address space is the memory
/// limit, the one on its CPU seconds is the lifetime, and there is one on the size of its files
/// exactly where one is set, which is that size. No resource is limited twice.
pub proof fn law_limits_are_those_asked_for(config: PoolConfig, resource: Resource, value: u64)
    ensures
        limits_of(config).contains((resource, value)) <==> match resource {
            Resource::AddressSpace => value == config.memory_limit_bytes,
            Resource::CpuSeconds => value == config.cpu_lifetime_secs,
            Resource::FileSize => config.fsize_limit_bytes == Some(value),
        },
        forall|i: int, j: int|
            #![trigger limits_of(config)[i], limits_of(config)[j]]
            0 <= i < j < limits_of(config).len() ==> limits_of(config)[i].0 != limits_of(
                config,
            )[j].0,
{
    let limits = limits_of(config);
    assert(limits[0].0 == Resource::AddressSpace && limits[1].0 == Resource::CpuSeconds);
    if config.fsize_limit_bytes is Some {
        assert(limits[2].0 == Resource::FileSize);
    }
}

/// The message of an error begins with what went wrong and gives the cause whole, where there is
/// one.
pub proof fn law_error_message_gives_cause(
    cause: String,
    limit: TimeLimit,
    failure: DecodeFailure,
)
    ensures
        error_text(WorkerError::Spawn(cause)) == "failed to spawn worker: "@ + cause@,
        error_text(WorkerError::NotReady(cause)) == "worker did not send ready message: "@ + cause@,
        error_text(WorkerError::Io(cause)) == "I/O error: "@ + cause@,
        error_text(WorkerError::Json(cause)) == "JSON error: "@ + cause@,
        error_text(WorkerError::Compile(cause)) == "compilation failed: "@ + cause@,
        error_text(WorkerError::Base64(failure)) == "invalid base64 data: "@
            + encoding::decode_failure_text(failure),
        error_text(WorkerError::Exited) == "worker process exited unexpectedly"@,
        error_text(WorkerError::Timeout(limit)) == "render timed out after "@ + duration_text(
            limit.seconds(),
            limit.subsec(),
        ),
{
}

/// What became of a worker is told with its status or with the cause, whole.
pub proof fn law_exit_is_reported_whole(words: String)
    ensures
        exit_text(ExitReport::Ended(words)) == words@,
        exit_text(ExitReport::WaitFailed(words)) == "wait failed: "@ + words@,
        exit_text(ExitReport::StillRunning) == "still running after 500ms"@,
{
}

/// The identifier of a request is `req-` and its number, from which the number is read back.
pub proof fn law_request_id_holds_number(n: nat)
    ensures
        request_id(n) == "req-"@ + text::decimal(n),
        text::decimal_value(request_id(n).skip(4)) == n,
{
    reveal_strlit("req-");
    text::lemma_zero_padded_value(n, 0);
    assert(request_id(n).skip(4) == text::decimal(n));
}

/// A compile error is told with its place in front, the line before the column, where the place is
/// known, and with its message whole; the errors stand in order with `; ` between them. An empty
/// list says nothing, and without a list the error is unknown.
pub proof fn law_compile_errors_are_told_in_order(
    one: Vec<CompileError>,
    a: Vec<CompileError>,
    b: Vec<CompileError>,
    all: Vec<CompileError>,
    none: Vec<CompileError>,
)
    requires
        one@.len() == 1,
        a@.len() > 0,
        b@.len() > 0,
        all@ == a@ + b@,
        none@.len() == 0,
    ensures
        compile_errors_text(Some(one)) == match one@[0].span {
            Some(span) => seq!['['] + text::decimal(span.line as nat) + seq![':'] + text::decimal(
                span.column as nat,
            ) + seq![']', ' '] + one@[0].message@,
            None => one@[0].message@,
        },
        compile_errors_text(Some(all)) == compile_errors_text(Some(a)) + seq![';', ' ']
            + compile_errors_text(Some(b)),
        compile_errors_text(Some(none)) == Seq::<char>::empty(),
        compile_errors_text(None) == "unknown error"@,
{
    reveal_strlit("[");
    reveal_strlit(":");
    reveal_strlit("] ");
    reveal_strlit("; ");
    let f = |e: CompileError| compile_error_text(e);
    let piece = compile_error_text(one@[0]);
    text::law_joined_in_parts(a@.map_values(f), b@.map_values(f), "; "@, piece);
    assert(all@.map_values(f) == a@.map_values(f) + b@.map_values(f));
    assert("; "@ == seq![';', ' ']);
    assert("["@ == seq!['[']);
    assert(":"@ == seq![':']);
    assert("] "@ == seq![']', ' ']);
    assert(one@.map_values(f) == seq![piece]);
    assert(none@.map_values(f) == Seq::<Seq<char>>::empty());
}

/// A response has one meaning. One that is `ok` and has data means the image that the data decodes
/// to, byte for byte, or the reason why it does not decode; one without data means a compile error
/// that says so; one that is not `ok` means a compile error with its messages, whatever data it has.
pub proof fn law_response_has_one_meaning(
    response: RenderResponse,
    r: Result<Vec<u8>, WorkerError>,
)
    requires
        response_outcome(response, r),
    ensures
        response.ok && response.data is Some ==> match encoding::base64_decoded(
            response.data->0@,
        ) {
            Ok(bytes) => r matches Ok(image) && image@ == bytes,
            Err(failure) => r == Err::<Vec<u8>, WorkerError>(WorkerError::Base64(failure)),
        },
        response.ok && response.data is None ==> (r matches Err(WorkerError::Compile(m)) && m@
            == "response missing data field"@),
        !response.ok ==> (r matches Err(WorkerError::Compile(m)) && m@ == compile_errors_text(
            response.errors,
        )),
{
}

/// Each message of the compiler stands in the error of the render at some place, character for
/// character.
pub proof fn law_compile_message_is_told_whole(errors: Vec<CompileError>, k: int)
    requires
        0 <= k < errors@.len(),
    ensures
        ({
            let told = compile_errors_text(Some(errors));
            let message = errors@[k].message@;
            exists|at: int|
                0 <= at <= told.len() - message.len() && #[trigger] told.subrange(
                    at,
                    at + message.len(),
                ) == message
        }),
{
    law_every_compile_error_is_told(errors, k);
    text::law_contained_text_has_a_place(compile_errors_text(Some(errors)), errors@[k].message@);
}

/// The scale where none is asked for is four: its bits are those of a positive number with the
/// biased exponent of two to the power of two and no fraction. The words for a worker that has not
/// ended name the time that it was waited for.
pub proof fn law_defaults_are_as_told()
    ensures
        DEFAULT_RENDER_SCALE_BITS as nat == (127 + 2) * 0x80_0000,
        exit_text(ExitReport::StillRunning) == "still running after "@ + text::decimal(
            EXIT_WAIT_MILLIS as nat,
        ) + "ms"@,
{
    reveal_strlit("still running after 500ms");
    reveal_strlit("still running after ");
    reveal_strlit("ms");
    text::law_decimal_is_base_ten(0, 5, '5');
    text::law_decimal_is_base_ten(5, 0, '0');
    text::law_decimal_is_base_ten(50, 0, '0');
    assert(text::decimal(EXIT_WAIT_MILLIS as nat) == seq!['5', '0', '0']);
    assert("still running after 500ms"@ == "still running after "@ + seq!['5', '0', '0'] + "ms"@);
}

/// Whether `config` holds the defaults.
pub open spec fn is_default_config(config: PoolConfig) -> bool {
    &&& config.pool_size == 2
    &&& config.render_timeout.seconds() == 30
    &&& config.render_timeout.subsec() == 0
    &&& config.spawn_timeout.seconds() == 120
    &&& config.spawn_timeout.subsec() == 0
    &&& config.memory_limit_bytes == 512 * 1024 * 1024
    &&& config.cpu_lifetime_secs == 3600
    &&& config.fsize_limit_bytes == Some(0u64)
    &&& config.extra_args@.len() == 0
    &&& config.worker_bin@ == "typst-stdio-worker"@
}

/// By default two workers run, each in half a GiB and for an hour of CPU time at most, without leave
/// to write to files; a render has half a minute and a start two minutes.
pub proof fn law_defaults_are_modest(config: PoolConfig, resource: Resource, value: u64)
    requires
        is_default_config(config),
    ensures
        config.pool_size == 2,
        2 * config.render_timeout.seconds() == 60,
        config.spawn_timeout.seconds() == 2 * 60,
        config.render_timeout.subsec() == 0 && config.spawn_timeout.subsec() == 0,
        config.extra_args@ == Seq::<String>::empty(),
        config.worker_bin@ == "typst-stdio-worker"@,
        limits_of(config).contains((resource, value)) <==> match resource {
            Resource::AddressSpace => 2 * value == 0x4000_0000,
            Resource::CpuSeconds => value == 60 * 60,
            Resource::FileSize => value == 0,
        },
{
    law_limits_are_those_asked_for(config, resource, value);
}

/// The text of a line that was read, where there is one.
pub open spec fn line_text(line: Seq<char>) -> Option<Seq<char>> {
    if line.len() == 0 {
        None
    } else {
        Some(text::trimmed(line))
    }
}

/// A JSON text as the line that carries it.
pub open spec fn framed(json: Seq<char>) -> Seq<char> {
    json + "\n"@
}

/// What is written as a line is read back: a text without white space at its ends comes back as it
/// was, and nothing but a closed output is read as no line. The line has one line break, at its end,
/// where the text has none.
pub proof fn law_line_is_read_back(json: Seq<char>)
    ensures
        framed(json) == json.push('\n'),
        line_text(framed(json)) == Some(text::trimmed(json)),
        json.len() > 0 && !text::is_white_space(json[0]) && !text::is_white_space(json.last())
            ==> line_text(framed(json)) == Some(json),
        line_text(json) is None <==> json.len() == 0,
{
    reveal_strlit("\n");
    let nothing = Seq::<char>::empty();
    let end = seq!['\n'];
    assert(framed(json) == nothing + json + end);
    assert(text::is_white_space(end[0]));
    text::law_blank_around_does_not_count(nothing, json, end);
    if json.len() > 0 && !text::is_white_space(json[0]) && !text::is_white_space(json.last()) {
        text::law_trimming_keeps_the_middle(nothing, json, end);
    }
}

/// What the start of a worker comes to.
pub open spec fn spawn_outcome(event: SpawnEvent, r: Result<WorkerProcess, WorkerError>) -> bool {
    match event {
        SpawnEvent::NotStarted(cause) => r == Err::<WorkerProcess, WorkerError>(
            WorkerError::Spawn(cause),
        ),
        SpawnEvent::ReadFailed(cause) => r == Err::<WorkerProcess, WorkerError>(
            WorkerError::NotReady(cause),
        ),
        SpawnEvent::Closed(report) => r matches Err(WorkerError::NotReady(m)) && m@
            == "worker closed stdout before sending ready (exit: "@ + exit_text(report) + ")"@,
        SpawnEvent::BadJson(cause) => r matches Err(WorkerError::NotReady(m)) && m@
            == "invalid ready JSON: "@ + cause@,
        SpawnEvent::Greeted(message) => if message.ready {
            r matches Ok(worker) && worker.request_counter == 0
        } else {
            r matches Err(WorkerError::NotReady(m)) && m@ == "ready field is false"@
        },
    }
}

/// A worker is usable exactly where it has greeted and said that it is ready, and its first request
/// then has the number one. Otherwise the message of the error tells what it did, with the cause
/// whole.
pub proof fn law_worker_is_usable_once_ready(
    event: SpawnEvent,
    r: Result<WorkerProcess, WorkerError>,
)
    requires
        spawn_outcome(event, r),
    ensures
        r is Ok <==> (event matches SpawnEvent::Greeted(message) && message.ready),
        r matches Ok(worker) ==> worker.request_counter + 1 == 1,
        r matches Err(e) ==> error_text(e) == match event {
            SpawnEvent::NotStarted(cause) => "failed to spawn worker: "@ + cause@,
            SpawnEvent::ReadFailed(cause) => "worker did not send ready message: "@ + cause@,
            SpawnEvent::Closed(report) => "worker did not send ready message: "@ + (
            "worker closed stdout before sending ready (exit: "@ + exit_text(report) + ")"@),
            SpawnEvent::BadJson(cause) => "worker did not send ready message: "@ + (
            "invalid ready JSON: "@ + cause@),
            SpawnEvent::Greeted(_) => "worker did not send ready message: "@
                + "ready field is false"@,
        },
{
}

/// What a request comes to.
pub open spec fn request_outcome(reply: RenderReply, r: Result<Vec<u8>, WorkerError>) -> bool {
    match reply {
        RenderReply::Broken(cause) => r == Err::<Vec<u8>, WorkerError>(WorkerError::Io(cause)),
        RenderReply::Closed => r == Err::<Vec<u8>, WorkerError>(WorkerError::Exited),
        RenderReply::BadJson(cause) => r == Err::<Vec<u8>, WorkerError>(WorkerError::Json(cause)),
        RenderReply::Answered(response) => response_outcome(response, r),
    }
}

/// A request costs the worker exactly where the worker did not answer: where a pipe broke or its
/// output was closed. An answer, even one that cannot be read, leaves it in its place.
pub proof fn law_only_silence_costs_the_worker(
    reply: RenderReply,
    r: Result<Vec<u8>, WorkerError>,
)
    requires
        request_outcome(reply, r),
    ensures
        crate::pool::is_fatal(crate::pool::RenderOutcome::Replied(r)) <==> reply is Broken
            || reply is Closed,
        reply matches RenderReply::BadJson(cause) ==> r == Err::<Vec<u8>, WorkerError>(
            WorkerError::Json(cause),
        ),
        reply matches RenderReply::Broken(cause) ==> r == Err::<Vec<u8>, WorkerError>(
            WorkerError::Io(cause),
        ),
        reply is Closed ==> r == Err::<Vec<u8>, WorkerError>(WorkerError::Exited),
        reply matches RenderReply::Answered(response) ==> response_outcome(response, r),
{
}

} // verus!
