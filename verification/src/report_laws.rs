//! What is reported, figure by figure: resource samples, the metrics, log lines
//! and the names of events.
use crate::counting::lemma_count_bound;
use crate::counting::lemma_select_none;
use crate::counting::lemma_select_push;
use crate::effects::EffectView;
use crate::events::announced_by;
use crate::lifecycle::live;
use crate::model::default_config;
use crate::model::starting_info;
use crate::model::timestamp_of;
use crate::model::F32Bits;
use crate::model::F64Bits;
use crate::model::LogEntryView;
use crate::model::OrchestratorConfigView;
use crate::model::SessionInfoView;
use crate::model::SessionMode;
use crate::model::SessionStatus;
use crate::model::TaskStatus;
use crate::model::TaskView;
use crate::model::TokenUsage;
use crate::monitor::active;
use crate::monitor::announcement;
use crate::monitor::costs_of;
use crate::monitor::lemma_live_step;
use crate::monitor::live_tokens;
use crate::monitor::metrics_of;
use crate::monitor::sample_of;
use crate::monitor::sampled;
use crate::monitor::sampled_all;
use crate::monitor::sampled_session;
use crate::monitor::under_watch;
use crate::monitor::HostSample;
use crate::monitor::Sample;
use crate::project_laws::and_session;
use crate::project_laws::ended;
use crate::state::CoreView;
use crate::state::SessionView;
use crate::storage::of_session;
use crate::storage::recent;
use crate::storage::recent_logs_are_the_last_ones;
use crate::tasks::under_way;
use crate::tasks::waiting;
use vstd::prelude::*;

verus! {

// ---- samples ---------------------------------------------------------------

/// The sample that counts is the first one of the process; there is none exactly
/// where the process is not among them.
pub proof fn the_first_sample_counts(samples: Seq<Sample>, pid: u32)
    ensures
        match sample_of(samples, pid) {
            Some(s) => exists|i: int|
                0 <= i < samples.len() && #[trigger] samples[i] == s && s.pid == pid && (forall|
                    j: int,
                |
                    0 <= j < i ==> (#[trigger] samples[j]).pid != pid),
            None => forall|j: int| 0 <= j < samples.len() ==> (#[trigger] samples[j]).pid != pid,
        },
    decreases samples.len(),
{
    if samples.len() > 0 && samples[0].pid != pid {
        let rest = samples.skip(1);
        the_first_sample_counts(rest, pid);
        match sample_of(rest, pid) {
            Some(s) => {
                let i = choose|i: int|
                    0 <= i < rest.len() && #[trigger] rest[i] == s && s.pid == pid && (forall|
                        j: int,
                    |
                        0 <= j < i ==> (#[trigger] rest[j]).pid != pid);
                assert(samples[i + 1] == s);
                assert forall|j: int| 0 <= j < i + 1 implies (#[trigger] samples[j]).pid != pid by {
                    if j > 0 {
                        assert(rest[j - 1] == samples[j]);
                    }
                }
            },
            None => {
                assert forall|j: int| 0 <= j < samples.len() implies (
                #[trigger] samples[j]).pid != pid by {
                    if j > 0 {
                        assert(rest[j - 1] == samples[j]);
                    }
                }
            },
        }
    } else if samples.len() > 0 {
        assert(samples[0] == samples[0]);
    }
}

/// A session shows what its process was last seen to use. One whose process was
/// not seen uses no CPU and keeps the memory last seen, unless it has ended: then
/// nothing changes. One without a process is left alone.
pub proof fn what_a_sample_shows(info: SessionInfoView, samples: Seq<Sample>, i: int)
    ensures
        ({
            let is = sampled(info, samples);
            let over = info.status == SessionStatus::Completed || info.status
                == SessionStatus::Crashed || info.status == SessionStatus::Stopped;
            let unseen = info.pid is Some && forall|j: int|
                0 <= j < samples.len() ==> (#[trigger] samples[j]).pid != info.pid->0;
            &&& info.pid is None ==> is == info
            &&& info.pid is Some && 0 <= i < samples.len() && samples[i].pid == info.pid->0 && (
            forall|j: int| 0 <= j < i ==> (#[trigger] samples[j]).pid != info.pid->0) ==> is == (
            SessionInfoView { cpu: samples[i].cpu, mem_bytes: samples[i].mem_bytes, ..info })
            &&& unseen && over ==> is == info
            &&& unseen && !over ==> is == (SessionInfoView { cpu: F32Bits(0), ..info })
        }),
{
    if info.pid is Some {
        the_first_sample_counts(samples, info.pid->0);
    }
}

/// A round of samples reaches every session, and changes nothing but its info.
/// It announces, in order, those that are idle or busy, with their new numbers.
pub proof fn a_round_of_samples(c: CoreView, s: SessionView, samples: Seq<Sample>)
    ensures
        ({
            let before = sampled_all(c, samples);
            let after = sampled_all(and_session(c, s), samples);
            let t = SessionView { info: sampled(s.info, samples), ..s };
            let shown = s.info.status == SessionStatus::Idle || s.info.status
                == SessionStatus::Busy;
            &&& after.state == (CoreView { sessions: before.state.sessions.push(t), ..c })
            &&& shown ==> after.effects == before.effects.push(EffectView::SessionShown(t.info))
            &&& !shown ==> after.effects == before.effects
            &&& c.sessions.len() == 0 ==> before.state.sessions.len() == 0 && before.effects.len()
                == 0
        }),
{
    let f = sampled_session(samples);
    let sessions = c.sessions.map_values(f);
    let t = SessionView { info: sampled(s.info, samples), ..s };
    assert(c.sessions.push(s).map_values(f) =~= sessions.push(t));
    lemma_select_push(sessions, t, under_watch(), announcement());
    if c.sessions.len() == 0 {
        assert(sessions =~= sessions.take(0));
        lemma_select_none(sessions, under_watch(), announcement());
    }
}

// ---- the metrics -----------------------------------------------------------

/// One more session counts once in the total, once among the active ones where
/// it is starting, idle or busy, and adds its tokens of all four kinds unless it
/// has ended. Nothing is counted where there is no session.
pub proof fn what_a_session_adds(
    c: CoreView,
    s: SessionView,
    host: HostSample,
    cost: F64Bits,
    ts: i64,
)
    requires
        c.sessions.len() < usize::MAX,
        live_tokens(c.sessions.push(s)) <= u64::MAX,
    ensures
        ({
            let m = metrics_of(c, host, cost, ts);
            let n = metrics_of(and_session(c, s), host, cost, ts);
            let running = s.info.status == SessionStatus::Starting || s.info.status
                == SessionStatus::Idle || s.info.status == SessionStatus::Busy;
            let u = s.info.usage;
            &&& n.total_sessions == m.total_sessions + 1
            &&& running ==> n.active_sessions == m.active_sessions + 1
            &&& !running ==> n.active_sessions == m.active_sessions
            &&& ended(s) ==> n.total_tokens == m.total_tokens
            &&& !ended(s) ==> n.total_tokens == m.total_tokens + u.input_tokens + u.output_tokens
                + u.cache_creation_tokens + u.cache_read_tokens
            &&& n.queued_tasks == m.queued_tasks
            &&& n.running_tasks == m.running_tasks
            &&& c.sessions.len() == 0 ==> m.total_sessions == 0 && m.active_sessions == 0
                && m.total_tokens == 0
        }),
{
    assert(c.sessions.push(s).drop_last() =~= c.sessions);
    lemma_live_step(c.sessions.push(s));
    lemma_live_nonneg(c.sessions);
    lemma_count_bound(c.sessions, active());
    reveal(Seq::filter);
    if c.sessions.len() == 0 {
        assert(c.sessions.filter(live()) =~= Seq::empty());
    }
}

proof fn lemma_live_nonneg(sessions: Seq<SessionView>)
    ensures
        live_tokens(sessions) >= 0,
    decreases sessions.len(),
{
    if sessions.len() > 0 {
        lemma_live_step(sessions);
        lemma_live_nonneg(sessions.drop_last());
    } else {
        reveal(Seq::filter);
        assert(sessions.filter(live()) =~= Seq::empty());
    }
}

/// One more task counts where it is queued or where it runs, and nowhere else.
pub proof fn what_a_task_adds(c: CoreView, t: TaskView, host: HostSample, cost: F64Bits, ts: i64)
    requires
        c.tasks.len() < usize::MAX,
    ensures
        ({
            let m = metrics_of(c, host, cost, ts);
            let n = metrics_of(CoreView { tasks: c.tasks.push(t), ..c }, host, cost, ts);
            let queued = t.status == TaskStatus::Queued;
            let running = t.status == TaskStatus::Running || t.status == TaskStatus::Assigned;
            &&& queued ==> n.queued_tasks == m.queued_tasks + 1
            &&& !queued ==> n.queued_tasks == m.queued_tasks
            &&& running ==> n.running_tasks == m.running_tasks + 1
            &&& !running ==> n.running_tasks == m.running_tasks
            &&& n.active_sessions == m.active_sessions
            &&& n.total_sessions == m.total_sessions
            &&& n.total_tokens == m.total_tokens
            &&& c.tasks.len() == 0 ==> m.queued_tasks == 0 && m.running_tasks == 0
        }),
{
    assert(c.tasks.push(t).drop_last() =~= c.tasks);
    lemma_count_bound(c.tasks, waiting());
    lemma_count_bound(c.tasks, under_way());
}

/// What is reported of the machine is what was measured.
pub proof fn the_machine_is_reported_as_measured(
    c: CoreView,
    host: HostSample,
    cost: F64Bits,
    ts: i64,
)
    ensures
        metrics_of(c, host, cost, ts).cpu_percent == host.cpu_percent,
        metrics_of(c, host, cost, ts).mem_used == host.mem_used,
        metrics_of(c, host, cost, ts).mem_total == host.mem_total,
        metrics_of(c, host, cost, ts).total_cost_usd == cost,
        metrics_of(c, host, cost, ts).ts == ts,
{
}

// ---- log lines -------------------------------------------------------------

/// One more stored line is read back last, after the ones that were there, of
/// which only the oldest may give way; a line of another session changes
/// nothing. A limit below zero lets all lines through, a limit of zero none.
pub proof fn a_logged_line_is_read_back(
    stored: Seq<LogEntryView>,
    e: LogEntryView,
    sid: Seq<char>,
    limit: i64,
)
    ensures
        ({
            let before = recent(stored.reverse(), sid, limit);
            let after = recent(stored.push(e).reverse(), sid, limit);
            &&& stored.len() == 0 ==> before.len() == 0
            &&& limit >= 0 ==> before.len() <= limit
            &&& e.session_id != sid ==> after == before
            &&& e.session_id == sid && (limit < 0 || before.len() < limit) ==> after == before.push(
                e,
            )
            &&& e.session_id == sid && limit > 0 && before.len() == limit ==> after
                == before.push(e).skip(1)
        }),
{
    let p = of_session(sid);
    reveal(Seq::filter);
    recent_logs_are_the_last_ones(stored, sid, limit);
    recent_logs_are_the_last_ones(stored.push(e), sid, limit);
    let own = stored.filter(p);
    assert(stored.push(e).drop_last() =~= stored);
    let before = recent(stored.reverse(), sid, limit);
    let after = recent(stored.push(e).reverse(), sid, limit);
    if stored.len() == 0 {
        assert(own =~= Seq::empty());
    }
    if e.session_id == sid {
        assert(stored.push(e).filter(p) == own.push(e));
        if limit < 0 || before.len() < limit {
            assert(after =~= before.push(e));
        } else if limit > 0 {
            assert(after =~= before.push(e).skip(1));
        }
    }
}

// ---- events ----------------------------------------------------------------

/// Each effect is announced under one event; a kill under none.
pub proof fn under_which_event(
    info: SessionInfoView,
    sid: Seq<char>,
    kind: Seq<char>,
    text: Seq<char>,
    task: TaskView,
    data: Seq<u8>,
    replay: bool,
)
    ensures
        announced_by(EffectView::SessionChanged(info)) == Some("session:update"@),
        announced_by(EffectView::SessionShown(info)) == Some("session:update"@),
        announced_by(EffectView::SessionRemoved(sid)) == Some("session:removed"@),
        announced_by(EffectView::Log { session_id: sid, kind, text }) == Some("log"@),
        announced_by(EffectView::TaskChanged(task)) == Some("task:update"@),
        announced_by(EffectView::TermData { session_id: sid, data, replay }) == Some(
            "term:data"@,
        ),
        announced_by(EffectView::Kill(sid)) is None,
{
}

// ---- policy ----------------------------------------------------------------

/// The policy that is in force before another is chosen.
pub proof fn the_default_policy()
    ensures
        default_config() == (OrchestratorConfigView {
            max_concurrent: 8,
            max_attached: 8,
            cpu_limit_percent: F32Bits(0x42aa_0000),
            mem_limit_percent: F32Bits(0x42aa_0000),
            auto_restart: true,
            session_pooling: true,
            agent_bin: Seq::empty(),
            shell_program: Seq::empty(),
            default_model: None,
            default_permission_mode: "acceptEdits"@,
            bare_mode: false,
            ring_buffer_bytes: 262144,
        }),
{
}

// ---- costs and times -------------------------------------------------------

/// Every session's cost is reported, in order, whether or not it has ended.
pub proof fn every_cost_is_reported(sessions: Seq<SessionView>)
    ensures
        costs_of(sessions).len() == sessions.len(),
        forall|i: int|
            0 <= i < sessions.len() ==> #[trigger] costs_of(sessions)[i]
                == sessions[i].info.cost_usd,
{
}

/// A timestamp counts whole milliseconds since the epoch, rounded down, as long
/// as 63 bits hold them; a clock that stands before the epoch reads zero.
pub proof fn a_timestamp_counts_milliseconds(secs: u64, nanos: u32)
    requires
        secs * 1000 + nanos / 1_000_000 <= i64::MAX,
    ensures
        timestamp_of(Some((secs, nanos))) * 1_000_000 <= secs * 1_000_000_000 + nanos,
        secs * 1_000_000_000 + nanos < (timestamp_of(Some((secs, nanos))) + 1) * 1_000_000,
        timestamp_of(None) == 0,
{
}

/// A session that starts: nothing is known of it yet but what it was given.
pub proof fn a_session_that_starts(
    id: Seq<char>,
    name: Seq<char>,
    mode: SessionMode,
    cwd: Seq<char>,
    model: Option<Seq<char>>,
    ts: i64,
)
    ensures
        starting_info(id, name, mode, cwd, model, ts) == (SessionInfoView {
            id,
            name,
            mode,
            status: SessionStatus::Starting,
            cwd,
            model,
            agent_session_id: None,
            attached: false,
            pid: None,
            created_at: ts,
            last_activity: ts,
            usage: TokenUsage {
                input_tokens: 0,
                output_tokens: 0,
                cache_creation_tokens: 0,
                cache_read_tokens: 0,
            },
            cost_usd: F64Bits(0),
            turns: 0,
            current_task: None,
            activity: "starting"@,
            cpu: F32Bits(0),
            mem_bytes: 0,
            exit_code: None,
        }),
{
}

/// The tokens of an account are those of all four kinds, each counted once, and
/// two accounts add up kind by kind.
pub proof fn what_an_account_holds(a: TokenUsage, b: TokenUsage)
    ensures
        a.sum() == a.input_tokens + a.output_tokens + a.cache_creation_tokens
            + a.cache_read_tokens,
        a.can_add(b) <==> a.input_tokens + b.input_tokens <= u64::MAX && a.output_tokens
            + b.output_tokens <= u64::MAX && a.cache_creation_tokens + b.cache_creation_tokens
            <= u64::MAX && a.cache_read_tokens + b.cache_read_tokens <= u64::MAX,
        a.can_add(b) ==> a.plus(b).input_tokens == a.input_tokens + b.input_tokens
            && a.plus(b).output_tokens == a.output_tokens + b.output_tokens && a.plus(
            b,
        ).cache_creation_tokens == a.cache_creation_tokens + b.cache_creation_tokens && a.plus(
            b,
        ).cache_read_tokens == a.cache_read_tokens + b.cache_read_tokens,
{
}

/// A process is gone exactly in the three last states, and a session is active
/// exactly in the three first.
pub proof fn what_a_status_says(s: SessionStatus)
    ensures
        s.active() <==> s == SessionStatus::Starting || s == SessionStatus::Idle || s
            == SessionStatus::Busy,
        s.terminal() <==> s == SessionStatus::Completed || s == SessionStatus::Crashed || s
            == SessionStatus::Stopped,
{
}

// ---- intervals and sizes ---------------------------------------------------

/// The host samples every one and a half seconds and schedules every 400
/// milliseconds; it waits at most six seconds for a process to be reaped. A
/// terminal starts with 30 rows of 120 columns; 500 log lines are read where no
/// limit is given.
pub proof fn intervals_and_sizes()
    ensures
        crate::monitor::TICK_MS == 1500,
        crate::scheduler::TICK_MS == 400,
        crate::lifecycle::REAP_POLLS * crate::lifecycle::REAP_POLL_MS == 6000,
        crate::lifecycle::REAP_POLL_MS == 50,
        crate::spawning::INITIAL_ROWS == 30,
        crate::spawning::INITIAL_COLS == 120,
        crate::storage::DEFAULT_LOG_LIMIT == 500,
        crate::state::MAX_RENDERED == 4,
        crate::lifecycle::LOW_MAX_ATTACHED == 4,
        crate::ring::MIN_RING_BYTES == 4096,
        crate::ring::RING_RESERVE_BYTES == 64 * 1024,
{
}

} // verus!
