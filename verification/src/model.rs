//! Core domain types: sessions, tasks, log lines, metrics and policy.
//!
//! Runtime handles (terminals, child processes, pipes) belong to the host
//! program; nothing here refers to them.
use crate::text::clone_opt;
use crate::text::opt_text;
use vstd::prelude::*;

verus! {

/// Stable identifier for a session (UUIDv4 string).
pub type SessionId = String;

/// Stable identifier for a task (UUIDv4 string).
pub type TaskId = String;

// ---- time ------------------------------------------------------------------

/// The timestamp for a clock that stands `elapsed` milliseconds past the Unix
/// epoch; a clock that stands before it counts as the epoch.
pub open spec fn epoch_ms_of(elapsed: Option<u128>) -> i64 {
    match elapsed {
        Some(ms) => ms as i64,
        None => 0,
    }
}

/// The timestamp for a reading of the clock.
pub fn epoch_ms(elapsed: Option<u128>) -> (r: i64)
    ensures
        r == epoch_ms_of(elapsed),
{
    match elapsed {
        Some(ms) => {
            #[verifier::truncate]
            let r: i64 = ms as i64;
            r
        },
        None => 0,
    }
}

/// The whole milliseconds in a span of seconds and nanoseconds.
pub open spec fn whole_ms(secs: u64, nanos: u32) -> int {
    secs * 1000 + nanos / 1_000_000
}

/// `SystemTime::elapsed` of the Unix epoch: the seconds and the nanoseconds past
/// them that the clock stands after it; `None` where it stands before. The
/// reading depends on the machine, so nothing is claimed of it.
#[verifier::external_body]
fn clock_reading() -> (r: Option<(u64, u32)>) {
    std::time::UNIX_EPOCH.elapsed().ok().map(|d| (d.as_secs(), d.subsec_nanos()))
}

/// The whole milliseconds in a span of seconds and nanoseconds.
pub fn elapsed_ms(secs: u64, nanos: u32) -> (r: u128)
    ensures
        r == whole_ms(secs, nanos),
{
    secs as u128 * 1000 + (nanos / 1_000_000) as u128
}

/// The timestamp for a reading of the clock in seconds and nanoseconds.
pub open spec fn timestamp_of(reading: Option<(u64, u32)>) -> i64 {
    epoch_ms_of(
        match reading {
            Some((secs, nanos)) => Some(whole_ms(secs, nanos) as u128),
            None => None,
        },
    )
}

/// The timestamp for a reading of the clock in seconds and nanoseconds.
pub fn timestamp(reading: Option<(u64, u32)>) -> (r: i64)
    ensures
        r == timestamp_of(reading),
{
    match reading {
        Some((secs, nanos)) => epoch_ms(Some(elapsed_ms(secs, nanos))),
        None => epoch_ms(None),
    }
}

/// Milliseconds since the Unix epoch. Used for every timestamp.
pub fn now_ms() -> (r: i64)
    ensures
        exists|reading: Option<(u64, u32)>| r == timestamp_of(reading),
{
    let reading = clock_reading();
    let r: i64 = timestamp(reading);
    assert(r == timestamp_of(reading));
    r
}

// ---- numbers that are only carried -----------------------------------------

/// The bits of an IEEE 754 double. The library stores and hands on such
/// numbers; arithmetic on them is the host's.
#[derive(Debug, Clone, Copy, PartialEq, Eq, Structural)]
pub struct F64Bits(pub u64);

/// The bits of an IEEE 754 single.
#[derive(Debug, Clone, Copy, PartialEq, Eq, Structural)]
pub struct F32Bits(pub u32);

// ---- sessions --------------------------------------------------------------

/// How a worker is wired up.
#[derive(Debug, Clone, Copy, PartialEq, Eq, Structural)]
pub enum SessionMode {
    /// Headless `stream-json` worker (pipes). The default at scale.
    Headless,
    /// Interactive agent TUI in a pseudo terminal.
    Interactive,
    /// A plain shell in a pseudo terminal.
    Shell,
}

/// Lifecycle state of a session. Being attached is tracked separately on
/// [`SessionInfo`] because a session can be attached in any live state.
#[derive(Debug, Clone, Copy, PartialEq, Eq, Structural)]
pub enum SessionStatus {
    /// Process spawned, waiting for the `system/init` handshake.
    Starting,
    /// Ready and available to accept a task / message.
    Idle,
    /// Actively processing a turn (between a user message and its `result`).
    Busy,
    /// Finished its work and exited cleanly.
    Completed,
    /// Exited unexpectedly or returned a non-zero code.
    Crashed,
    /// Terminated on request.
    Stopped,
}

impl SessionStatus {
    /// Whether the session occupies a concurrency slot.
    pub open spec fn active(self) -> bool {
        self is Starting || self is Idle || self is Busy
    }

    /// Whether the session process is gone.
    pub open spec fn terminal(self) -> bool {
        self is Completed || self is Crashed || self is Stopped
    }

    /// Whether the session occupies a concurrency slot for scheduling.
    pub fn is_active(self) -> (r: bool)
        ensures
            r == self.active(),
    {
        match self {
            SessionStatus::Starting | SessionStatus::Idle | SessionStatus::Busy => true,
            _ => false,
        }
    }

    /// Whether the session process is gone.
    pub fn is_terminal(self) -> (r: bool)
        ensures
            r == self.terminal(),
    {
        match self {
            SessionStatus::Completed | SessionStatus::Crashed | SessionStatus::Stopped => true,
            _ => false,
        }
    }
}

/// Every session either occupies a concurrency slot or is gone, never both.
pub proof fn active_or_terminal(status: SessionStatus)
    ensures
        status.active() != status.terminal(),
{
}

/// Token accounting accumulated from `result` events.
#[derive(Debug, Clone, Copy, PartialEq, Eq, Structural)]
pub struct TokenUsage {
    pub input_tokens: u64,
    pub output_tokens: u64,
    pub cache_creation_tokens: u64,
    pub cache_read_tokens: u64,
}

impl TokenUsage {
    /// No tokens at all.
    pub open spec fn none() -> TokenUsage {
        TokenUsage {
            input_tokens: 0,
            output_tokens: 0,
            cache_creation_tokens: 0,
            cache_read_tokens: 0,
        }
    }

    /// The tokens of all four kinds together.
    pub open spec fn sum(self) -> int {
        self.input_tokens + self.output_tokens + self.cache_creation_tokens
            + self.cache_read_tokens
    }

    /// Whether each counter can take the other's on top.
    pub open spec fn can_add(self, other: TokenUsage) -> bool {
        &&& self.input_tokens + other.input_tokens <= u64::MAX
        &&& self.output_tokens + other.output_tokens <= u64::MAX
        &&& self.cache_creation_tokens + other.cache_creation_tokens <= u64::MAX
        &&& self.cache_read_tokens + other.cache_read_tokens <= u64::MAX
    }

    /// The two accounts added counter by counter.
    pub open spec fn plus(self, other: TokenUsage) -> TokenUsage {
        TokenUsage {
            input_tokens: (self.input_tokens + other.input_tokens) as u64,
            output_tokens: (self.output_tokens + other.output_tokens) as u64,
            cache_creation_tokens: (self.cache_creation_tokens
                + other.cache_creation_tokens) as u64,
            cache_read_tokens: (self.cache_read_tokens + other.cache_read_tokens) as u64,
        }
    }

    /// The tokens of all four kinds together.
    pub fn total(&self) -> (r: u64)
        requires
            self.sum() <= u64::MAX,
        ensures
            r == self.sum(),
    {
        self.input_tokens + self.output_tokens + self.cache_creation_tokens
            + self.cache_read_tokens
    }

    /// Fold one turn's usage into the running total.
    pub fn add(&mut self, other: &TokenUsage)
        requires
            old(self).can_add(*other),
        ensures
            *final(self) == old(self).plus(*other),
    {
        self.input_tokens = self.input_tokens + other.input_tokens;
        self.output_tokens = self.output_tokens + other.output_tokens;
        self.cache_creation_tokens = self.cache_creation_tokens + other.cache_creation_tokens;
        self.cache_read_tokens = self.cache_read_tokens + other.cache_read_tokens;
    }

    /// Whether [`TokenUsage::add`] would stay within the counters.
    pub fn has_room(&self, other: &TokenUsage) -> (r: bool)
        ensures
            r == self.can_add(*other),
    {
        self.input_tokens <= u64::MAX - other.input_tokens && self.output_tokens <= u64::MAX
            - other.output_tokens && self.cache_creation_tokens <= u64::MAX
            - other.cache_creation_tokens && self.cache_read_tokens <= u64::MAX
            - other.cache_read_tokens
    }

    /// The total where it fits a counter.
    pub fn checked_total(&self) -> (r: Option<u64>)
        ensures
            match r {
                Some(t) => t == self.sum(),
                None => self.sum() > u64::MAX,
            },
    {
        let t: u128 = self.input_tokens as u128 + self.output_tokens as u128
            + self.cache_creation_tokens as u128 + self.cache_read_tokens as u128;
        if t <= u64::MAX as u128 {
            Some(t as u64)
        } else {
            None
        }
    }
}

impl Default for TokenUsage {
    fn default() -> (r: Self)
        ensures
            r == TokenUsage::none(),
    {
        TokenUsage {
            input_tokens: 0,
            output_tokens: 0,
            cache_creation_tokens: 0,
            cache_read_tokens: 0,
        }
    }
}

/// The order in which turns are folded in does not matter, and the total of
/// two accounts is the sum of their totals.
pub proof fn usage_accumulates(a: TokenUsage, b: TokenUsage)
    requires
        a.can_add(b),
    ensures
        a.plus(b) == b.plus(a),
        a.plus(b).sum() == a.sum() + b.sum(),
        a.plus(TokenUsage::none()) == a,
{
}

/// The snapshot of a session that is sent to the dashboard.
#[derive(Debug)]
pub struct SessionInfo {
    pub id: SessionId,
    pub name: String,
    pub mode: SessionMode,
    pub status: SessionStatus,
    pub cwd: String,
    pub model: Option<String>,
    /// The agent CLI's own session id (from `system/init` / `result`), used for
    /// resume.
    pub agent_session_id: Option<String>,
    pub attached: bool,
    pub pid: Option<u32>,
    pub created_at: i64,
    pub last_activity: i64,
    pub usage: TokenUsage,
    pub cost_usd: F64Bits,
    pub turns: u32,
    pub current_task: Option<TaskId>,
    /// One-line description of what the session is doing right now.
    pub activity: String,
    /// Live resource sample, refreshed by the monitor.
    pub cpu: F32Bits,
    pub mem_bytes: u64,
    pub exit_code: Option<i32>,
}

/// The mathematical content of a [`SessionInfo`].
pub struct SessionInfoView {
    pub id: Seq<char>,
    pub name: Seq<char>,
    pub mode: SessionMode,
    pub status: SessionStatus,
    pub cwd: Seq<char>,
    pub model: Option<Seq<char>>,
    pub agent_session_id: Option<Seq<char>>,
    pub attached: bool,
    pub pid: Option<u32>,
    pub created_at: i64,
    pub last_activity: i64,
    pub usage: TokenUsage,
    pub cost_usd: F64Bits,
    pub turns: u32,
    pub current_task: Option<Seq<char>>,
    pub activity: Seq<char>,
    pub cpu: F32Bits,
    pub mem_bytes: u64,
    pub exit_code: Option<i32>,
}

impl View for SessionInfo {
    type V = SessionInfoView;

    open spec fn view(&self) -> SessionInfoView {
        SessionInfoView {
            id: self.id@,
            name: self.name@,
            mode: self.mode,
            status: self.status,
            cwd: self.cwd@,
            model: opt_text(self.model),
            agent_session_id: opt_text(self.agent_session_id),
            attached: self.attached,
            pid: self.pid,
            created_at: self.created_at,
            last_activity: self.last_activity,
            usage: self.usage,
            cost_usd: self.cost_usd,
            turns: self.turns,
            current_task: opt_text(self.current_task),
            activity: self.activity@,
            cpu: self.cpu,
            mem_bytes: self.mem_bytes,
            exit_code: self.exit_code,
        }
    }
}

impl Clone for SessionInfo {
    fn clone(&self) -> (r: Self)
        ensures
            r@ == self@,
    {
        SessionInfo {
            id: self.id.clone(),
            name: self.name.clone(),
            mode: self.mode,
            status: self.status,
            cwd: self.cwd.clone(),
            model: clone_opt(&self.model),
            agent_session_id: clone_opt(&self.agent_session_id),
            attached: self.attached,
            pid: self.pid,
            created_at: self.created_at,
            last_activity: self.last_activity,
            usage: self.usage,
            cost_usd: self.cost_usd,
            turns: self.turns,
            current_task: clone_opt(&self.current_task),
            activity: self.activity.clone(),
            cpu: self.cpu,
            mem_bytes: self.mem_bytes,
            exit_code: self.exit_code,
        }
    }
}

/// A session that was just spawned, at time `ts`.
pub open spec fn starting_info(
    id: Seq<char>,
    name: Seq<char>,
    mode: SessionMode,
    cwd: Seq<char>,
    model: Option<Seq<char>>,
    ts: i64,
) -> SessionInfoView {
    SessionInfoView {
        id,
        name,
        mode,
        status: SessionStatus::Starting,
        cwd,
        model,
        agent_session_id: None,
        attached: false,
        pid: None,
        created_at: ts,
        last_activity: ts,
        usage: TokenUsage::none(),
        cost_usd: F64Bits(0),
        turns: 0,
        current_task: None,
        activity: "starting"@,
        cpu: F32Bits(0),
        mem_bytes: 0,
        exit_code: None,
    }
}

impl SessionInfo {
    /// A session that starts now.
    pub fn new(
        id: SessionId,
        name: String,
        mode: SessionMode,
        cwd: String,
        model: Option<String>,
    ) -> (r: Self)
        ensures
            r@ == starting_info(id@, name@, mode, cwd@, opt_text(model), r.created_at),
    {
        let ts: i64 = now_ms();
        SessionInfo::starting_at(id, name, mode, cwd, model, ts)
    }

    /// A session that starts at time `ts`.
    pub fn starting_at(
        id: SessionId,
        name: String,
        mode: SessionMode,
        cwd: String,
        model: Option<String>,
        ts: i64,
    ) -> (r: Self)
        ensures
            r@ == starting_info(id@, name@, mode, cwd@, opt_text(model), ts),
    {
        SessionInfo {
            id,
            name,
            mode,
            status: SessionStatus::Starting,
            cwd,
            model,
            agent_session_id: None,
            attached: false,
            pid: None,
            created_at: ts,
            last_activity: ts,
            usage: TokenUsage::default(),
            cost_usd: F64Bits(0),
            turns: 0,
            current_task: None,
            activity: "starting".to_owned(),
            cpu: F32Bits(0),
            mem_bytes: 0,
            exit_code: None,
        }
    }
}

/// Specification used to launch a session (and to recreate it from a snapshot).
#[derive(Debug)]
pub struct SessionSpec {
    pub name: Option<String>,
    pub mode: SessionMode,
    pub cwd: String,
    pub model: Option<String>,
    pub permission_mode: Option<String>,
    pub allowed_tools: Option<String>,
    /// Optional initial prompt to send as the first turn (headless only).
    pub initial_prompt: Option<String>,
    /// Resume a prior agent conversation by id.
    pub resume: Option<String>,
}

/// The mathematical content of a [`SessionSpec`].
pub struct SessionSpecView {
    pub name: Option<Seq<char>>,
    pub mode: SessionMode,
    pub cwd: Seq<char>,
    pub model: Option<Seq<char>>,
    pub permission_mode: Option<Seq<char>>,
    pub allowed_tools: Option<Seq<char>>,
    pub initial_prompt: Option<Seq<char>>,
    pub resume: Option<Seq<char>>,
}

impl View for SessionSpec {
    type V = SessionSpecView;

    open spec fn view(&self) -> SessionSpecView {
        SessionSpecView {
            name: opt_text(self.name),
            mode: self.mode,
            cwd: self.cwd@,
            model: opt_text(self.model),
            permission_mode: opt_text(self.permission_mode),
            allowed_tools: opt_text(self.allowed_tools),
            initial_prompt: opt_text(self.initial_prompt),
            resume: opt_text(self.resume),
        }
    }
}

impl Clone for SessionSpec {
    fn clone(&self) -> (r: Self)
        ensures
            r@ == self@,
    {
        SessionSpec {
            name: clone_opt(&self.name),
            mode: self.mode,
            cwd: self.cwd.clone(),
            model: clone_opt(&self.model),
            permission_mode: clone_opt(&self.permission_mode),
            allowed_tools: clone_opt(&self.allowed_tools),
            initial_prompt: clone_opt(&self.initial_prompt),
            resume: clone_opt(&self.resume),
        }
    }
}

// ---- tasks -----------------------------------------------------------------

/// Status of a queued unit of work.
#[derive(Debug, Clone, Copy, PartialEq, Eq, Structural)]
pub enum TaskStatus {
    Queued,
    Assigned,
    Running,
    Done,
    Failed,
    Canceled,
}

/// A unit of work for the scheduler: a prompt to run in a (cwd, model) context.
#[derive(Debug)]
pub struct Task {
    pub id: TaskId,
    pub prompt: String,
    pub cwd: String,
    pub model: Option<String>,
    pub permission_mode: Option<String>,
    pub allowed_tools: Option<String>,
    pub status: TaskStatus,
    pub session_id: Option<SessionId>,
    /// Higher runs first.
    pub priority: i32,
    pub attempts: u32,
    pub max_attempts: u32,
    pub created_at: i64,
    pub started_at: Option<i64>,
    pub finished_at: Option<i64>,
    pub result_summary: Option<String>,
    pub error: Option<String>,
}

/// The mathematical content of a [`Task`].
pub struct TaskView {
    pub id: Seq<char>,
    pub prompt: Seq<char>,
    pub cwd: Seq<char>,
    pub model: Option<Seq<char>>,
    pub permission_mode: Option<Seq<char>>,
    pub allowed_tools: Option<Seq<char>>,
    pub status: TaskStatus,
    pub session_id: Option<Seq<char>>,
    pub priority: i32,
    pub attempts: u32,
    pub max_attempts: u32,
    pub created_at: i64,
    pub started_at: Option<i64>,
    pub finished_at: Option<i64>,
    pub result_summary: Option<Seq<char>>,
    pub error: Option<Seq<char>>,
}

impl View for Task {
    type V = TaskView;

    open spec fn view(&self) -> TaskView {
        TaskView {
            id: self.id@,
            prompt: self.prompt@,
            cwd: self.cwd@,
            model: opt_text(self.model),
            permission_mode: opt_text(self.permission_mode),
            allowed_tools: opt_text(self.allowed_tools),
            status: self.status,
            session_id: opt_text(self.session_id),
            priority: self.priority,
            attempts: self.attempts,
            max_attempts: self.max_attempts,
            created_at: self.created_at,
            started_at: self.started_at,
            finished_at: self.finished_at,
            result_summary: opt_text(self.result_summary),
            error: opt_text(self.error),
        }
    }
}

impl Clone for Task {
    fn clone(&self) -> (r: Self)
        ensures
            r@ == self@,
    {
        Task {
            id: self.id.clone(),
            prompt: self.prompt.clone(),
            cwd: self.cwd.clone(),
            model: clone_opt(&self.model),
            permission_mode: clone_opt(&self.permission_mode),
            allowed_tools: clone_opt(&self.allowed_tools),
            status: self.status,
            session_id: clone_opt(&self.session_id),
            priority: self.priority,
            attempts: self.attempts,
            max_attempts: self.max_attempts,
            created_at: self.created_at,
            started_at: self.started_at,
            finished_at: self.finished_at,
            result_summary: clone_opt(&self.result_summary),
            error: clone_opt(&self.error),
        }
    }
}

// ---- logs and metrics ------------------------------------------------------

/// A structured log line attributed to a session.
#[derive(Debug)]
pub struct LogEntry {
    pub id: i64,
    pub session_id: SessionId,
    pub ts: i64,
    /// Category: `system`, `assistant`, `tool_use`, `tool_result`, `result`,
    /// `stderr`, `info`, `error`, `user`.
    pub kind: String,
    pub text: String,
    /// Optional raw JSON payload for drill-down.
    pub data: Option<String>,
}

/// The mathematical content of a [`LogEntry`].
pub struct LogEntryView {
    pub id: i64,
    pub session_id: Seq<char>,
    pub ts: i64,
    pub kind: Seq<char>,
    pub text: Seq<char>,
    pub data: Option<Seq<char>>,
}

impl View for LogEntry {
    type V = LogEntryView;

    open spec fn view(&self) -> LogEntryView {
        LogEntryView {
            id: self.id,
            session_id: self.session_id@,
            ts: self.ts,
            kind: self.kind@,
            text: self.text@,
            data: opt_text(self.data),
        }
    }
}

impl Clone for LogEntry {
    fn clone(&self) -> (r: Self)
        ensures
            r@ == self@,
    {
        LogEntry {
            id: self.id,
            session_id: self.session_id.clone(),
            ts: self.ts,
            kind: self.kind.clone(),
            text: self.text.clone(),
            data: clone_opt(&self.data),
        }
    }
}

/// System-wide resource sample emitted by the monitor.
#[derive(Debug, Clone, Copy, PartialEq, Eq, Structural)]
pub struct SystemMetrics {
    pub cpu_percent: F32Bits,
    pub mem_used: u64,
    pub mem_total: u64,
    pub active_sessions: usize,
    pub total_sessions: usize,
    pub queued_tasks: usize,
    pub running_tasks: usize,
    /// Aggregate tokens across all live sessions.
    pub total_tokens: u64,
    pub total_cost_usd: F64Bits,
    pub ts: i64,
}

impl Default for SystemMetrics {
    fn default() -> (r: Self)
        ensures
            r == (SystemMetrics {
                cpu_percent: F32Bits(0),
                mem_used: 0,
                mem_total: 0,
                active_sessions: 0,
                total_sessions: 0,
                queued_tasks: 0,
                running_tasks: 0,
                total_tokens: 0,
                total_cost_usd: F64Bits(0),
                ts: 0,
            }),
    {
        SystemMetrics {
            cpu_percent: F32Bits(0),
            mem_used: 0,
            mem_total: 0,
            active_sessions: 0,
            total_sessions: 0,
            queued_tasks: 0,
            running_tasks: 0,
            total_tokens: 0,
            total_cost_usd: F64Bits(0),
            ts: 0,
        }
    }
}

// ---- policy ----------------------------------------------------------------

/// Tunable orchestrator policy. Editable live from the dashboard.
#[derive(Debug)]
pub struct OrchestratorConfig {
    /// Maximum number of concurrently *active* sessions the scheduler will run.
    pub max_concurrent: usize,
    /// Maximum number of simultaneously *rendered* terminals (1 to 4).
    pub max_attached: usize,
    /// Pause launching new work above this system CPU percentage.
    pub cpu_limit_percent: F32Bits,
    /// Pause launching new work above this system memory percentage.
    pub mem_limit_percent: F32Bits,
    /// Re-queue a task if its session crashes mid-run.
    pub auto_restart: bool,
    /// Reuse idle pooled sessions with a matching (cwd, model) instead of
    /// spawning fresh processes.
    pub session_pooling: bool,
    /// Path to the agent CLI executable. Empty = auto-detect.
    pub agent_bin: String,
    /// Shell to launch for plain terminal sessions. Empty = auto-detect
    /// (prefers `pwsh.exe`, then `powershell.exe`, then `cmd.exe`).
    pub shell_program: String,
    pub default_model: Option<String>,
    /// One of: `default`, `acceptEdits`, `dontAsk`, `bypassPermissions`.
    pub default_permission_mode: String,
    /// Pass `--bare` for faster startup (skips hook/skill/MCP discovery).
    pub bare_mode: bool,
    /// Per-session scrollback retained for replay-on-attach, in bytes.
    pub ring_buffer_bytes: usize,
}

/// The mathematical content of a [`OrchestratorConfig`].
pub struct OrchestratorConfigView {
    pub max_concurrent: usize,
    pub max_attached: usize,
    pub cpu_limit_percent: F32Bits,
    pub mem_limit_percent: F32Bits,
    pub auto_restart: bool,
    pub session_pooling: bool,
    pub agent_bin: Seq<char>,
    pub shell_program: Seq<char>,
    pub default_model: Option<Seq<char>>,
    pub default_permission_mode: Seq<char>,
    pub bare_mode: bool,
    pub ring_buffer_bytes: usize,
}

impl View for OrchestratorConfig {
    type V = OrchestratorConfigView;

    open spec fn view(&self) -> OrchestratorConfigView {
        OrchestratorConfigView {
            max_concurrent: self.max_concurrent,
            max_attached: self.max_attached,
            cpu_limit_percent: self.cpu_limit_percent,
            mem_limit_percent: self.mem_limit_percent,
            auto_restart: self.auto_restart,
            session_pooling: self.session_pooling,
            agent_bin: self.agent_bin@,
            shell_program: self.shell_program@,
            default_model: opt_text(self.default_model),
            default_permission_mode: self.default_permission_mode@,
            bare_mode: self.bare_mode,
            ring_buffer_bytes: self.ring_buffer_bytes,
        }
    }
}

impl Clone for OrchestratorConfig {
    fn clone(&self) -> (r: Self)
        ensures
            r@ == self@,
    {
        OrchestratorConfig {
            max_concurrent: self.max_concurrent,
            max_attached: self.max_attached,
            cpu_limit_percent: self.cpu_limit_percent,
            mem_limit_percent: self.mem_limit_percent,
            auto_restart: self.auto_restart,
            session_pooling: self.session_pooling,
            agent_bin: self.agent_bin.clone(),
            shell_program: self.shell_program.clone(),
            default_model: clone_opt(&self.default_model),
            default_permission_mode: self.default_permission_mode.clone(),
            bare_mode: self.bare_mode,
            ring_buffer_bytes: self.ring_buffer_bytes,
        }
    }
}

/// The bits of 85 percent as a single.
pub const DEFAULT_LIMIT_PERCENT: u32 = 0x42aa_0000;

/// The policy that holds where none was configured.
pub open spec fn default_config() -> OrchestratorConfigView {
    OrchestratorConfigView {
        max_concurrent: 8,
        max_attached: 8,
        cpu_limit_percent: F32Bits(DEFAULT_LIMIT_PERCENT),
        mem_limit_percent: F32Bits(DEFAULT_LIMIT_PERCENT),
        auto_restart: true,
        session_pooling: true,
        agent_bin: Seq::empty(),
        shell_program: Seq::empty(),
        default_model: None,
        default_permission_mode: "acceptEdits"@,
        bare_mode: false,
        ring_buffer_bytes: 262144,
    }
}

impl Default for OrchestratorConfig {
    fn default() -> (r: Self)
        ensures
            r@ == default_config(),
    {
        OrchestratorConfig {
            max_concurrent: 8,
            max_attached: 8,
            cpu_limit_percent: F32Bits(DEFAULT_LIMIT_PERCENT),
            mem_limit_percent: F32Bits(DEFAULT_LIMIT_PERCENT),
            auto_restart: true,
            session_pooling: true,
            agent_bin: String::new(),
            shell_program: String::new(),
            default_model: None,
            default_permission_mode: "acceptEdits".to_owned(),
            bare_mode: false,
            ring_buffer_bytes: 262144,
        }
    }
}

} // verus!
