//! What holds across operations: what each leaves alone, what it undoes and
//! where sessions and tasks end up.
use crate::attach::detached;
use crate::counting::count_if;
use crate::counting::lemma_count_update;
use crate::counting::select;
use crate::headless::on_event;
use crate::headless::summary_of;
use crate::headless::turn_complete;
use crate::lifecycle::assigned_to;
use crate::lifecycle::delivery;
use crate::lifecycle::distinct_ids;
use crate::lifecycle::finalized;
use crate::lifecycle::lemma_distinct_filter;
use crate::lifecycle::lemma_lru_without;
use crate::lifecycle::live;
use crate::lifecycle::message_delivered;
use crate::lifecycle::migrated;
use crate::lifecycle::other_id;
use crate::lifecycle::other_session;
use crate::lifecycle::removed;
use crate::lifecycle::started;
use crate::lifecycle::terminal_output;
use crate::lifecycle::without_session;
use crate::lifecycle::LOW_MAX_ATTACHED;
use crate::model::F64Bits;
use crate::model::OrchestratorConfigView;
use crate::model::TaskView;
use crate::model::TokenUsage;
use crate::protocol::EventView;
use crate::ring::last_bytes;
use crate::scheduler::active_worker;
use crate::scheduler::admits;
use crate::scheduler::decides;
use crate::scheduler::none_suits;
use crate::scheduler::suits;
use crate::scheduler::taken;
use crate::scheduler::AdmissionView;
use crate::state::lemma_put_session_at;
use crate::state::lemma_put_session_valid;
use crate::state::lemma_session_at;
use crate::state::lemma_task_at;
use crate::state::CoreView;
use crate::state::SessionView;
use crate::tasks::cancel;
use crate::tasks::fail;
use crate::tasks::is_next;
use crate::tasks::recover;
use crate::tasks::the_next_task_is_unique;
use crate::tasks::under_way;
use crate::tasks::waiting;
use vstd::prelude::*;

verus! {

// ---- one session at a time -------------------------------------------------

/// Whether two states agree on every session but one.
pub open spec fn agree_elsewhere(c: CoreView, d: CoreView, sid: Seq<char>) -> bool {
    forall|other: Seq<char>|
        #![trigger d.has_session(other)]
        other != sid ==> d.has_session(other) == c.has_session(other) && (c.has_session(other)
            ==> d.session(other) == c.session(other))
}

/// Whether two states agree on every task but one.
pub open spec fn tasks_agree_elsewhere(c: CoreView, d: CoreView, tid: Seq<char>) -> bool {
    forall|other: Seq<char>|
        #![trigger d.has_task(other)]
        other != tid ==> d.has_task(other) == c.has_task(other) && (c.has_task(other) ==> d.task(
            other,
        ) == c.task(other))
}

pub(crate) proof fn lemma_put_session(c: CoreView, sid: Seq<char>, session: SessionView)
    requires
        c.valid(),
        c.has_session(sid),
        session.info.id == sid,
    ensures
        c.put_session(sid, session).has_session(sid),
        c.put_session(sid, session).session(sid) == session,
        agree_elsewhere(c, c.put_session(sid, session), sid),
{
    let d = c.put_session(sid, session);
    let k = choose|k: int| 0 <= k < c.sessions.len() && (#[trigger] c.sessions[k]).info.id == sid;
    assert(d.sessions[k] == session);
    assert forall|i: int| 0 <= i < c.sessions.len() implies (#[trigger] d.sessions[i]).info.id
        == c.sessions[i].info.id by {}
    let m = choose|m: int| 0 <= m < d.sessions.len() && (#[trigger] d.sessions[m]).info.id == sid;
    assert(c.sessions[m].info.id == sid);
    assert(d.sessions[m] == session);
    assert forall|other: Seq<char>| #![trigger d.has_session(other)] other != sid implies
        d.has_session(other) == c.has_session(other) && (c.has_session(other) ==> d.session(other)
        == c.session(other)) by {
        if c.has_session(other) {
            let i = choose|i: int|
                0 <= i < c.sessions.len() && (#[trigger] c.sessions[i]).info.id == other;
            assert(d.sessions[i].info.id == other);
            let j = choose|j: int|
                0 <= j < d.sessions.len() && (#[trigger] d.sessions[j]).info.id == other;
            assert(c.sessions[j].info.id == other);
            lemma_session_at(c, j);
            assert(d.sessions[j] == c.sessions[j]);
        }
        if d.has_session(other) {
            let j = choose|j: int|
                0 <= j < d.sessions.len() && (#[trigger] d.sessions[j]).info.id == other;
            assert(c.sessions[j].info.id == other);
        }
    }
}

pub(crate) proof fn lemma_put_task(c: CoreView, tid: Seq<char>, task: TaskView)
    requires
        c.valid(),
        c.has_task(tid),
        task.id == tid,
    ensures
        c.put_task(tid, task).has_task(tid),
        c.put_task(tid, task).task(tid) == task,
        tasks_agree_elsewhere(c, c.put_task(tid, task), tid),
{
    let d = c.put_task(tid, task);
    assert forall|other: Seq<char>| #![trigger d.has_task(other)] other != tid implies d.has_task(
        other,
    ) == c.has_task(other) && (c.has_task(other) ==> d.task(other) == c.task(other)) by {
        if c.has_task(other) {
            let i = choose|i: int| 0 <= i < c.tasks.len() && (#[trigger] c.tasks[i]).id == other;
            assert(d.tasks[i].id == other);
            let j = choose|j: int| 0 <= j < d.tasks.len() && (#[trigger] d.tasks[j]).id == other;
            assert(c.tasks[j].id == other);
            lemma_task_at(c, j);
            assert(d.tasks[j] == c.tasks[j]);
        }
        if d.has_task(other) {
            let j = choose|j: int| 0 <= j < d.tasks.len() && (#[trigger] d.tasks[j]).id == other;
            assert(c.tasks[j].id == other);
        }
    }
    let k = choose|k: int| 0 <= k < c.tasks.len() && (#[trigger] c.tasks[k]).id == tid;
    assert(d.tasks[k] == task);
    let m = choose|m: int| 0 <= m < d.tasks.len() && (#[trigger] d.tasks[m]).id == tid;
    assert(c.tasks[m].id == tid);
    assert(d.tasks[m] == task);
}

/// What the worker or the terminal of one session says, and what is said to it,
/// touches no other session.
pub proof fn sessions_are_isolated(
    c: CoreView,
    sid: Seq<char>,
    ev: EventView,
    prompt: Seq<char>,
    chunk: Seq<u8>,
    code: Option<i32>,
    requested_stop: bool,
    now: i64,
)
    requires
        c.valid(),
    ensures
        agree_elsewhere(c, on_event(c, sid, ev, now).state, sid),
        agree_elsewhere(c, message_delivered(c, sid, prompt, now).state, sid),
        agree_elsewhere(c, terminal_output(c, sid, chunk, now).state, sid),
        agree_elsewhere(c, finalized(c, sid, code, requested_stop, now).state, sid),
{
    if c.has_session(sid) {
        let s = c.session(sid);
        let k = choose|k: int| 0 <= k < c.sessions.len() && (#[trigger] c.sessions[k]).info.id == sid;
        lemma_session_at(c, k);
        lemma_put_session(
            c,
            sid,
            SessionView { info: c.info(sid).working().touched(now), ..s },
        );
        lemma_put_session(
            c,
            sid,
            SessionView {
                info: s.info.touched(now),
                ring: last_bytes(s.ring + chunk, s.ring_capacity),
                ..s
            },
        );
        let ended = SessionView { info: s.info.at_end(code, requested_stop, now), ..s };
        lemma_put_session(c, sid, ended);
        let d = c.put_session(sid, ended);
        assert(finalized(c, sid, code, requested_stop, now).state.sessions == d.sessions);
        lemma_same_sessions(
            c,
            d,
            finalized(c, sid, code, requested_stop, now).state,
            sid,
        );
        lemma_event_isolated(c, sid, ev, now);
    } else {
        assert(on_event(c, sid, ev, now).state == c);
    }
}

/// Agreement speaks of sessions alone.
proof fn lemma_same_sessions(c: CoreView, d: CoreView, e: CoreView, sid: Seq<char>)
    requires
        d.sessions == e.sessions,
        agree_elsewhere(c, d, sid),
    ensures
        agree_elsewhere(c, e, sid),
{
    assert forall|other: Seq<char>| #![trigger e.has_session(other)] other != sid implies
        e.has_session(other) == c.has_session(other) && (c.has_session(other) ==> e.session(other)
        == c.session(other)) by {
        assert(d.has_session(other) == e.has_session(other));
        assert(d.session(other) == e.session(other));
    }
}

proof fn lemma_event_isolated(c: CoreView, sid: Seq<char>, ev: EventView, now: i64)
    requires
        c.valid(),
        c.has_session(sid),
    ensures
        agree_elsewhere(c, on_event(c, sid, ev, now).state, sid),
{
    let s = c.session(sid);
    let k = choose|k: int| 0 <= k < c.sessions.len() && (#[trigger] c.sessions[k]).info.id == sid;
    lemma_session_at(c, k);
    match ev {
        EventView::Init { session_id, model, cwd } => {
            lemma_put_session(
                c,
                sid,
                SessionView {
                    info: s.info.initialized(session_id, model, cwd).touched(now),
                    ..s
                },
            );
        },
        EventView::System { subtype, text } => {
            lemma_put_session(
                c,
                sid,
                SessionView { info: s.info.doing("retrying request"@).touched(now), ..s },
            );
        },
        EventView::Assistant { text, tools } => {
            lemma_put_session(
                c,
                sid,
                SessionView { info: s.info.responding(tools).touched(now), ..s },
            );
        },
        EventView::Result { is_error, text, usage, cost_usd, num_turns, session_id } => {
            lemma_result(c, sid, is_error, text, usage, cost_usd, num_turns, session_id, now);
        },
        _ => {},
    }
}

/// The state after a turn, session by session.
proof fn lemma_result(
    c: CoreView,
    sid: Seq<char>,
    is_error: bool,
    text: Option<Seq<char>>,
    usage: TokenUsage,
    cost_usd: Option<F64Bits>,
    num_turns: Option<u32>,
    session_id: Option<Seq<char>>,
    now: i64,
)
    requires
        c.valid(),
        c.has_session(sid),
    ensures
        ({
            let ev = EventView::Result { is_error, text, usage, cost_usd, num_turns, session_id };
            let d = on_event(c, sid, ev, now).state;
            let over = c.info(sid).turn_over(
                is_error,
                usage,
                cost_usd,
                num_turns,
                session_id,
            ).touched(now);
            &&& d.has_session(sid)
            &&& d.session(sid) == (SessionView { info: over.released(), ..c.session(sid) })
            &&& agree_elsewhere(c, d, sid)
            &&& match c.info(sid).current_task {
                Some(tid) => c.has_task(tid) ==> {
                    &&& d.has_task(tid)
                    &&& d.task(tid) == c.task(tid).finished(
                        is_error,
                        summary_of(text),
                        now,
                    )
                },
                None => true,
            }
        }),
{
    let ev = EventView::Result { is_error, text, usage, cost_usd, num_turns, session_id };
    let s = c.session(sid);
    let k = choose|k: int| 0 <= k < c.sessions.len() && (#[trigger] c.sessions[k]).info.id == sid;
    lemma_session_at(c, k);
    let over = s.info.turn_over(is_error, usage, cost_usd, num_turns, session_id).touched(now);
    let first = SessionView { info: over, ..s };
    lemma_put_session(c, sid, first);
    let b = c.put_session(sid, first);
    assert(c.sessions[k].coherent());
    assert(c.sessions[k].info.attached ==> c.attach_lru.contains(c.sessions[k].info.id));
    lemma_put_session_valid(c, sid, first);
    let d = on_event(c, sid, ev, now).state;
    let summary = summary_of(text);
    assert(d == turn_complete(b, sid, is_error, summary, now).state);
    match s.info.current_task {
        Some(tid) => {
            let freed = SessionView { info: over.released(), ..first };
            lemma_put_session(b, sid, freed);
            let f = b.put_session(sid, freed);
            lemma_put_session_valid(b, sid, freed);
            lemma_chain(c, b, f, sid);
            assert(d.sessions == f.sessions);
            lemma_same_sessions(c, f, d, sid);
            assert(d.has_session(sid) == f.has_session(sid));
            assert(d.session(sid) == f.session(sid));
            if c.has_task(tid) {
                assert(f.tasks == c.tasks);
                assert(f.has_task(tid));
                assert(f.task(tid) == c.task(tid));
                let j = choose|j: int| 0 <= j < c.tasks.len() && (#[trigger] c.tasks[j]).id == tid;
                lemma_task_at(c, j);
                lemma_put_task(f, tid, f.task(tid).finished(is_error, summary, now));
            }
        },
        None => {
            assert(over.released() == over);
        },
    }
}

/// Agreement carries over from one step to the next.
proof fn lemma_chain(c: CoreView, d: CoreView, e: CoreView, sid: Seq<char>)
    requires
        agree_elsewhere(c, d, sid),
        agree_elsewhere(d, e, sid),
    ensures
        agree_elsewhere(c, e, sid),
{
    assert forall|other: Seq<char>| #![trigger e.has_session(other)] other != sid implies
        e.has_session(other) == c.has_session(other) && (c.has_session(other) ==> e.session(other)
        == c.session(other)) by {
        let was = c.has_session(other);
        assert(d.has_session(other) == was);
        assert(e.has_session(other) == d.has_session(other));
        if was {
            assert(d.session(other) == c.session(other));
            assert(e.session(other) == d.session(other));
        }
    }
}

// ---- turns -----------------------------------------------------------------

/// A turn that comes to its end leaves its session idle and free for the next
/// task, and the task it ran done or failed.
pub proof fn a_turn_frees_its_worker(
    c: CoreView,
    sid: Seq<char>,
    is_error: bool,
    text: Option<Seq<char>>,
    usage: TokenUsage,
    cost_usd: Option<F64Bits>,
    num_turns: Option<u32>,
    session_id: Option<Seq<char>>,
    now: i64,
)
    requires
        c.valid(),
        c.has_session(sid),
    ensures
        ({
            let ev = EventView::Result { is_error, text, usage, cost_usd, num_turns, session_id };
            let d = on_event(c, sid, ev, now).state;
            &&& d.has_session(sid)
            &&& d.info(sid).status is Idle
            &&& d.info(sid).current_task is None
            &&& match c.info(sid).current_task {
                Some(tid) => c.has_task(tid) ==> {
                    &&& d.has_task(tid)
                    &&& d.task(tid).finished_at == Some(now)
                    &&& is_error ==> d.task(tid).status is Failed
                    &&& !is_error ==> d.task(tid).status is Done
                },
                None => true,
            }
        }),
{
    lemma_result(c, sid, is_error, text, usage, cost_usd, num_turns, session_id, now);
}

/// Pooling: once a worker's turn is over and the next task in the queue is for
/// its directory and model, the scheduler hands that task to an idle worker,
/// whether or not the cap is reached.
pub proof fn a_freed_worker_is_reused(
    c: CoreView,
    sid: Seq<char>,
    is_error: bool,
    text: Option<Seq<char>>,
    usage: TokenUsage,
    cost_usd: Option<F64Bits>,
    num_turns: Option<u32>,
    session_id: Option<Seq<char>>,
    now: i64,
    config: OrchestratorConfigView,
    i: int,
    e: CoreView,
    r: AdmissionView,
)
    requires
        c.valid(),
        c.has_session(sid),
        c.info(sid).mode is Headless,
        config.session_pooling,
        ({
            let ev = EventView::Result { is_error, text, usage, cost_usd, num_turns, session_id };
            let d = on_event(c, sid, ev, now).state;
            &&& is_next(d.tasks, i)
            &&& d.tasks[i].cwd == c.info(sid).cwd
            &&& d.tasks[i].model == c.session(sid).spec.model
            &&& decides(d, config, false, e, r)
        }),
    ensures
        ({
            let ev = EventView::Result { is_error, text, usage, cost_usd, num_turns, session_id };
            let d = on_event(c, sid, ev, now).state;
            &&& suits(d.session(sid), d.tasks[i].assigned())
            &&& r is Reuse
            &&& r->Reuse_task == d.tasks[i].assigned()
            &&& e == taken(d, i)
        }),
{
    lemma_result(c, sid, is_error, text, usage, cost_usd, num_turns, session_id, now);
    let ev = EventView::Result { is_error, text, usage, cost_usd, num_turns, session_id };
    let d = on_event(c, sid, ev, now).state;
    let next = d.tasks[i].assigned();
    let k = choose|k: int| 0 <= k < d.sessions.len() && (#[trigger] d.sessions[k]).info.id == sid;
    assert(d.session(sid) == d.sessions[k]);
    assert(suits(d.sessions[k], next));
    assert(admits(d, config, false, i));
    let j = choose|j: int|
        #[trigger] admits(d, config, false, j) && e == taken(d, j) && (r is Reuse
            ==> r->Reuse_task == d.tasks[j].assigned()) && (r is Launch ==> none_suits(
            d.sessions,
            d.tasks[j].assigned(),
        )) && !(r is Rest);
    the_next_task_is_unique(d.tasks, i, j);
}

/// A broadcast reaches every live session in the way that its transport takes:
/// it holds a message for each worker and keystrokes for each terminal.
pub proof fn a_broadcast_fits_every_session(c: CoreView, text: Seq<char>, i: int)
    requires
        c.valid(),
        0 <= i < c.sessions.len(),
        !c.sessions[i].info.status.terminal(),
    ensures
        select(c.sessions, live(), delivery(text)).contains(delivery(text)(c.sessions[i])),
        (delivery(text)(c.sessions[i]) is Message) == (c.sessions[i].transport is Headless),
        (delivery(text)(c.sessions[i]) is Keys) == (c.sessions[i].transport is Interactive),
{
    assert(c.sessions[i].coherent());
    let alive = c.sessions.filter(live());
    c.sessions.lemma_filter_contains(live(), i);
    assert(alive.contains(c.sessions[i]));
    let k = choose|k: int| 0 <= k < alive.len() && alive[k] == c.sessions[i];
    assert(select(c.sessions, live(), delivery(text))[k] == delivery(text)(c.sessions[i]));
}

// ---- the end of a session --------------------------------------------------

/// A session whose process is gone has ended: it occupies no slot, gets no
/// broadcast, and tells its exit code.
pub proof fn a_finalized_session_has_ended(
    c: CoreView,
    sid: Seq<char>,
    code: Option<i32>,
    requested_stop: bool,
    now: i64,
)
    requires
        c.valid(),
        c.has_session(sid),
    ensures
        ({
            let d = finalized(c, sid, code, requested_stop, now).state;
            &&& d.has_session(sid)
            &&& d.info(sid).status.terminal()
            &&& !active_worker()(d.session(sid))
            &&& !live()(d.session(sid))
            &&& d.info(sid).exit_code == code
            &&& count_if(d.sessions, active_worker()) <= count_if(c.sessions, active_worker())
        }),
{
    let s = c.session(sid);
    let k = choose|k: int| 0 <= k < c.sessions.len() && (#[trigger] c.sessions[k]).info.id == sid;
    lemma_session_at(c, k);
    let ended = SessionView { info: s.info.at_end(code, requested_stop, now), ..s };
    lemma_put_session(c, sid, ended);
    lemma_put_session_at(c, k, ended);
    lemma_count_update(c.sessions, active_worker(), k, ended);
    let b = c.put_session(sid, ended);
    let d = finalized(c, sid, code, requested_stop, now).state;
    assert(d.sessions == b.sessions);
    assert(d.has_session(sid) == b.has_session(sid));
    assert(d.session(sid) == b.session(sid));
}

/// Crash recovery: the task of a crashed session waits in the queue again where
/// the policy and its attempts allow, and fails otherwise.
pub proof fn a_crash_requeues_or_fails_the_task(
    c: CoreView,
    sid: Seq<char>,
    code: Option<i32>,
    now: i64,
)
    requires
        c.valid(),
        c.has_session(sid),
        code != Some(0i32),
        c.info(sid).current_task is Some,
        c.has_task(c.info(sid).current_task->0),
    ensures
        ({
            let tid = c.info(sid).current_task->0;
            let d = finalized(c, sid, code, false, now).state;
            &&& d.info(sid).status is Crashed
            &&& d.has_task(tid)
            &&& d.task(tid).attempts == c.task(tid).attempts
            &&& if c.config.auto_restart && c.task(tid).attempts < c.task(tid).max_attempts {
                &&& d.task(tid).status is Queued
                &&& d.task(tid).session_id is None
            } else {
                &&& d.task(tid).status is Failed
                &&& d.task(tid).error == Some("session crashed"@)
            }
        }),
{
    let tid = c.info(sid).current_task->0;
    a_finalized_session_has_ended(c, sid, code, false, now);
    let s = c.session(sid);
    let k = choose|k: int| 0 <= k < c.sessions.len() && (#[trigger] c.sessions[k]).info.id == sid;
    lemma_session_at(c, k);
    let ended = SessionView { info: s.info.at_end(code, false, now), ..s };
    lemma_put_session(c, sid, ended);
    let b = c.put_session(sid, ended);
    assert(c.sessions[k].coherent());
    assert(c.sessions[k].info.attached ==> c.attach_lru.contains(c.sessions[k].info.id));
    lemma_put_session_valid(c, sid, ended);
    assert(b.tasks == c.tasks);
    assert(b.has_task(tid));
    assert(b.task(tid) == c.task(tid));
    let j = choose|j: int| 0 <= j < c.tasks.len() && (#[trigger] c.tasks[j]).id == tid;
    lemma_task_at(c, j);
    let t = if b.config.auto_restart && b.task(tid).may_retry() {
        b.task(tid).requeued()
    } else {
        b.task(tid).failed("session crashed"@, now)
    };
    lemma_put_task(b, tid, t);
    let d = finalized(c, sid, code, false, now).state;
    assert(d == recover(b, tid, now).state);
    assert(d.sessions == b.sessions);
    assert(d.session(sid) == b.session(sid));
}

/// A crash hands the task back, so removing the crashed session leaves it as it
/// is: a task that waits again is not failed.
pub proof fn removal_spares_a_task_handed_back(
    c: CoreView,
    sid: Seq<char>,
    code: Option<i32>,
    now: i64,
    later: i64,
)
    requires
        c.valid(),
        c.has_session(sid),
        code != Some(0i32),
        c.info(sid).current_task is Some,
        c.has_task(c.info(sid).current_task->0),
    ensures
        ({
            let tid = c.info(sid).current_task->0;
            let d = finalized(c, sid, code, false, now).state;
            let e = removed(d, sid, later).state;
            &&& !e.has_session(sid)
            &&& e.tasks == d.tasks
            &&& e.has_task(tid)
            &&& e.task(tid) == d.task(tid)
            &&& c.config.auto_restart && c.task(tid).attempts < c.task(tid).max_attempts
                ==> e.task(tid).status is Queued
        }),
{
    let tid = c.info(sid).current_task->0;
    let s = c.session(sid);
    let k = choose|k: int| 0 <= k < c.sessions.len() && (#[trigger] c.sessions[k]).info.id == sid;
    lemma_session_at(c, k);
    a_crash_requeues_or_fails_the_task(c, sid, code, now);
    a_finalized_session_has_ended(c, sid, code, false, now);
    let ended = SessionView { info: s.info.at_end(code, false, now), ..s };
    lemma_put_session(c, sid, ended);
    let b = c.put_session(sid, ended);
    let d = finalized(c, sid, code, false, now).state;
    assert(d.sessions == b.sessions);
    assert(d.session(sid) == b.session(sid));
    assert(d.info(sid).current_task is None);
    let w = without_session(d, sid);
    let e = removed(d, sid, later).state;
    assert(e == w);
    assert forall|i: int| 0 <= i < w.sessions.len() implies (#[trigger] w.sessions[i]).info.id
        != sid by {
        d.sessions.lemma_filter_pred(other_session(sid), i);
    }
    assert(e.task(tid) == d.task(tid));
}

/// Retries come to an end: each start uses up one attempt, so between two starts
/// that a crash may follow by another, the attempts that are left get fewer.
pub proof fn retries_are_bounded(t: TaskView, sid: Seq<char>, now: i64)
    requires
        t.attempts < u32::MAX,
    ensures
        ({
            let u = t.started(sid, now);
            &&& u.may_retry() ==> t.may_retry()
            &&& u.requeued().max_attempts - u.requeued().attempts == t.max_attempts - t.attempts - 1
            &&& u.attempts >= t.max_attempts ==> !u.may_retry()
        }),
{
}

// ---- removal ---------------------------------------------------------------

/// A removed session is gone: it stands neither in the registry nor in the
/// attach order. Every other session stays as it was, and removing it once more
/// does nothing.
pub proof fn a_removed_session_is_gone(c: CoreView, sid: Seq<char>, now: i64)
    requires
        c.valid(),
    ensures
        ({
            let d = removed(c, sid, now).state;
            &&& !d.has_session(sid)
            &&& agree_elsewhere(c, d, sid)
            &&& c.has_session(sid) ==> !d.attach_lru.contains(sid)
            &&& removed(d, sid, now) == d.unchanged()
        }),
{
    let d = removed(c, sid, now).state;
    if c.has_session(sid) {
        let w = without_session(c, sid);
        assert(d.sessions == w.sessions);
        assert(d.attach_lru == w.attach_lru);
        lemma_lru_without(c.attach_lru, sid);
        lemma_without(c, sid);
        lemma_same_sessions(c, w, d, sid);
        assert(d.has_session(sid) == w.has_session(sid));
    }
}

proof fn lemma_without(c: CoreView, sid: Seq<char>)
    requires
        c.valid(),
    ensures
        !without_session(c, sid).has_session(sid),
        agree_elsewhere(c, without_session(c, sid), sid),
{
    let d = without_session(c, sid);
    let p = other_session(sid);
    assert forall|i: int| 0 <= i < d.sessions.len() implies c.sessions.contains(
        #[trigger] d.sessions[i],
    ) && d.sessions[i].info.id != sid by {
        c.sessions.lemma_filter_pred(p, i);
        assert(d.sessions.contains(d.sessions[i]));
        c.sessions.lemma_filter_contains_rev(p, d.sessions[i]);
    }
    assert forall|other: Seq<char>| #![trigger d.has_session(other)] other != sid implies
        d.has_session(other) == c.has_session(other) && (c.has_session(other) ==> d.session(other)
        == c.session(other)) by {
        if c.has_session(other) {
            let i = choose|i: int|
                0 <= i < c.sessions.len() && (#[trigger] c.sessions[i]).info.id == other;
            c.sessions.lemma_filter_contains(p, i);
            assert(d.sessions.contains(c.sessions[i]));
            let m = choose|m: int| 0 <= m < d.sessions.len() && d.sessions[m] == c.sessions[i];
            assert(d.sessions[m].info.id == other);
            let j = choose|j: int|
                0 <= j < d.sessions.len() && (#[trigger] d.sessions[j]).info.id == other;
            assert(c.sessions.contains(d.sessions[j]));
            let n = choose|n: int| 0 <= n < c.sessions.len() && c.sessions[n] == d.sessions[j];
            lemma_session_at(c, n);
        }
        if d.has_session(other) {
            let j = choose|j: int|
                0 <= j < d.sessions.len() && (#[trigger] d.sessions[j]).info.id == other;
            assert(c.sessions.contains(d.sessions[j]));
            let n = choose|n: int| 0 <= n < c.sessions.len() && c.sessions[n] == d.sessions[j];
            assert(c.sessions[n].info.id == other);
        }
    }
}

// ---- rendering -------------------------------------------------------------

/// Nothing but attaching lets another session be rendered: whatever else
/// happens, the attach order gets no longer.
pub proof fn only_attaching_attaches(
    c: CoreView,
    sid: Seq<char>,
    ev: EventView,
    text: Seq<char>,
    chunk: Seq<u8>,
    code: Option<i32>,
    requested_stop: bool,
    now: i64,
)
    ensures
        on_event(c, sid, ev, now).state.attach_lru == c.attach_lru,
        message_delivered(c, sid, text, now).state.attach_lru == c.attach_lru,
        terminal_output(c, sid, chunk, now).state.attach_lru == c.attach_lru,
        finalized(c, sid, code, requested_stop, now).state.attach_lru == c.attach_lru,
        assigned_to(c, sid, text, now).state.attach_lru == c.attach_lru,
        cancel(c, text, now).state.attach_lru == c.attach_lru,
        fail(c, text, text, now).state.attach_lru == c.attach_lru,
        recover(c, text, now).state.attach_lru == c.attach_lru,
        detached(c, sid).state.attach_lru.len() <= c.attach_lru.len(),
        removed(c, sid, now).state.attach_lru.len() <= c.attach_lru.len(),
{
    c.attach_lru.lemma_filter_len(other_id(sid));
}

/// A policy that is stuck at a low cap is raised above it, and any other is left
/// alone; either way a second migration changes nothing.
pub proof fn migration_lifts_a_low_cap(config: OrchestratorConfigView)
    ensures
        migrated(config).max_attached > LOW_MAX_ATTACHED,
        config.max_attached > LOW_MAX_ATTACHED ==> migrated(config) == config,
        migrated(migrated(config)) == migrated(config),
{
}

/// The task queue survives a restart: every stored task that still waits is
/// there, unchanged. So does a policy that was migrated before.
pub proof fn a_restart_keeps_queue_and_policy(
    config: OrchestratorConfigView,
    tasks: Seq<TaskView>,
    migrated_before: bool,
    i: int,
)
    requires
        distinct_ids(tasks),
        0 <= i < tasks.len(),
        tasks[i].status is Queued,
    ensures
        started(config, migrated_before, tasks).has_task(tasks[i].id),
        started(config, migrated_before, tasks).task(tasks[i].id) == tasks[i],
        migrated_before ==> started(config, migrated_before, tasks).config == config,
{
    let d = started(config, migrated_before, tasks);
    lemma_distinct_filter(tasks, waiting());
    tasks.lemma_filter_contains(waiting(), i);
    assert(d.tasks.contains(tasks[i]));
    let k = choose|k: int| 0 <= k < d.tasks.len() && d.tasks[k] == tasks[i];
    assert(d.tasks[k].id == tasks[i].id);
    let m = choose|m: int|
        0 <= m < d.tasks.len() && (#[trigger] d.tasks[m]).id == tasks[i].id;
    if m < k {
        assert(d.tasks[m].id != d.tasks[k].id);
    } else if k < m {
        assert(d.tasks[k].id != d.tasks[m].id);
    }
}

// ---- the queue -------------------------------------------------------------

/// Taking the next task moves one from the queue to what is under way.
pub proof fn taking_moves_one_task(c: CoreView, i: int)
    requires
        is_next(c.tasks, i),
    ensures
        ({
            let d = c.tasks.update(i, c.tasks[i].assigned());
            &&& count_if(d, waiting()) == count_if(c.tasks, waiting()) - 1
            &&& count_if(d, under_way()) == count_if(c.tasks, under_way()) + 1
        }),
{
    lemma_count_update(c.tasks, waiting(), i, c.tasks[i].assigned());
    lemma_count_update(c.tasks, under_way(), i, c.tasks[i].assigned());
}

/// Only a task that still waits can be canceled; what is under way or over stays
/// as it is.
pub proof fn only_waiting_tasks_are_canceled(c: CoreView, tid: Seq<char>, now: i64)
    requires
        c.valid(),
        c.has_task(tid),
    ensures
        c.task(tid).status is Queued ==> cancel(c, tid, now).state.task(tid).status is Canceled,
        !(c.task(tid).status is Queued) ==> cancel(c, tid, now) == c.unchanged(),
{
    let j = choose|j: int| 0 <= j < c.tasks.len() && (#[trigger] c.tasks[j]).id == tid;
    lemma_task_at(c, j);
    lemma_put_task(c, tid, c.task(tid).canceled(now));
}

} // verus!
