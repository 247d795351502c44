//! What the task queue promises, in terms of the fields of tasks.
use crate::effects::EffectView;
use crate::headless::turn_complete;
use crate::laws::lemma_put_session;
use crate::laws::lemma_put_task;
use crate::laws::tasks_agree_elsewhere;
use crate::lifecycle::assigned_to;
use crate::model::SessionInfoView;
use crate::model::TaskStatus;
use crate::model::TaskView;
use crate::state::lemma_put_session_valid;
use crate::state::lemma_put_task_valid;
use crate::state::lemma_session_at;
use crate::state::lemma_task_at;
use crate::state::CoreView;
use crate::state::SessionView;
use crate::tasks::cancel;
use crate::tasks::enqueue;
use crate::tasks::fail;
use crate::tasks::in_run_order;
use crate::tasks::is_next;
use crate::tasks::recover;
use crate::tasks::under_way;
use crate::tasks::waiting;
use vstd::prelude::*;

verus! {

// ---- order -----------------------------------------------------------------

/// The next task is queued, no queued task has a higher priority, and of those
/// with the same priority none is older.
pub proof fn the_next_task_has_the_highest_priority(tasks: Seq<TaskView>, i: int, q: int)
    requires
        is_next(tasks, i),
        0 <= q < tasks.len(),
        tasks[q].status is Queued,
    ensures
        0 <= i < tasks.len(),
        tasks[i].status is Queued,
        tasks[i].priority >= tasks[q].priority,
        tasks[i].priority == tasks[q].priority ==> tasks[i].created_at <= tasks[q].created_at,
{
}

/// A task is never next while one of a higher priority, or an older one of the
/// same priority, is queued.
pub proof fn a_task_waits_for_those_before_it(tasks: Seq<TaskView>, a: int, b: int)
    requires
        0 <= a < tasks.len(),
        0 <= b < tasks.len(),
        tasks[a].status is Queued,
        tasks[a].priority > tasks[b].priority || (tasks[a].priority == tasks[b].priority
            && tasks[a].created_at < tasks[b].created_at),
    ensures
        !is_next(tasks, b),
{
}

/// In the listing priorities never rise, and of equal priorities the older
/// stands first.
pub proof fn the_listing_follows_priority_and_age(tasks: Seq<TaskView>, i: int, j: int)
    requires
        in_run_order(tasks),
        0 <= i < j < tasks.len(),
    ensures
        tasks[i].priority >= tasks[j].priority,
        tasks[i].priority == tasks[j].priority ==> tasks[i].created_at <= tasks[j].created_at,
{
}

/// A task counts as waiting exactly while it is queued, and as under way exactly
/// while it is assigned or running.
pub proof fn what_the_counts_count(t: TaskView)
    ensures
        waiting()(t) <==> t.status == TaskStatus::Queued,
        under_way()(t) <==> t.status == TaskStatus::Assigned || t.status == TaskStatus::Running,
{
}

// ---- entering and leaving the queue ----------------------------------------

/// A task that enters the queue waits there as it was given, under its id and
/// with the time of its arrival; it is announced, and no other task changes.
pub proof fn enqueuing_keeps_the_task(c: CoreView, t: TaskView, id: Seq<char>, now: i64)
    requires
        c.valid(),
    ensures
        ({
            let step = enqueue(c, t, id, now);
            let d = step.state;
            let u = d.task(id);
            &&& d.has_task(id)
            &&& u.id == id
            &&& u.status == TaskStatus::Queued
            &&& u.created_at == now
            &&& u.prompt == t.prompt
            &&& u.cwd == t.cwd
            &&& u.model == t.model
            &&& u.permission_mode == t.permission_mode
            &&& u.allowed_tools == t.allowed_tools
            &&& u.priority == t.priority
            &&& u.session_id == t.session_id
            &&& u.attempts == t.attempts
            &&& u.max_attempts == t.max_attempts
            &&& u.started_at == t.started_at
            &&& u.finished_at == t.finished_at
            &&& u.result_summary == t.result_summary
            &&& u.error == t.error
            &&& step.effects == seq![EffectView::TaskChanged(u)]
            &&& tasks_agree_elsewhere(c, d, id)
            &&& d.sessions == c.sessions
            &&& d.config == c.config
            &&& d.attach_lru == c.attach_lru
        }),
{
    let u = t.queued_as(id, now);
    let d = enqueue(c, t, id, now).state;
    if c.has_task(id) {
        lemma_put_task(c, id, u);
    } else {
        let k = c.tasks.len() as int;
        assert(d.tasks[k] == u);
        assert(d.has_task(id));
        let m = choose|m: int| 0 <= m < d.tasks.len() && (#[trigger] d.tasks[m]).id == id;
        if m < k {
            assert(c.tasks[m].id == id);
        }
        assert forall|other: Seq<char>| #![trigger d.has_task(other)] other != id implies
            d.has_task(other) == c.has_task(other) && (c.has_task(other) ==> d.task(other)
            == c.task(other)) by {
            if c.has_task(other) {
                let i = choose|i: int|
                    0 <= i < c.tasks.len() && (#[trigger] c.tasks[i]).id == other;
                assert(d.tasks[i].id == other);
                let j = choose|j: int|
                    0 <= j < d.tasks.len() && (#[trigger] d.tasks[j]).id == other;
                assert(j < k);
                assert(c.tasks[j].id == other);
                lemma_task_at(c, j);
            }
            if d.has_task(other) {
                let j = choose|j: int|
                    0 <= j < d.tasks.len() && (#[trigger] d.tasks[j]).id == other;
                assert(c.tasks[j].id == other);
            }
        }
    }
}

/// A canceled task was queued; it keeps everything but its status and the time
/// of its end. Anything else cannot be canceled, and then nothing happens.
pub proof fn canceling_ends_a_queued_task(c: CoreView, tid: Seq<char>, now: i64)
    requires
        c.valid(),
    ensures
        ({
            let step = cancel(c, tid, now);
            let d = step.state;
            if c.has_task(tid) && c.task(tid).status == TaskStatus::Queued {
                &&& d.task(tid) == (TaskView {
                    status: TaskStatus::Canceled,
                    finished_at: Some(now),
                    ..c.task(tid)
                })
                &&& step.effects == seq![EffectView::TaskChanged(d.task(tid))]
                &&& tasks_agree_elsewhere(c, d, tid)
                &&& d.sessions == c.sessions
            } else {
                d == c && step.effects.len() == 0
            }
        }),
{
    if c.has_task(tid) && c.task(tid).status is Queued {
        let j = choose|j: int| 0 <= j < c.tasks.len() && (#[trigger] c.tasks[j]).id == tid;
        lemma_task_at(c, j);
        lemma_put_task(c, tid, c.task(tid).canceled(now));
    }
}

/// A failed task says why and when; nothing else of it changes, and it is
/// announced.
pub proof fn failing_says_why(c: CoreView, tid: Seq<char>, error: Seq<char>, now: i64)
    requires
        c.valid(),
    ensures
        ({
            let step = fail(c, tid, error, now);
            let d = step.state;
            if c.has_task(tid) {
                &&& d.task(tid) == (TaskView {
                    status: TaskStatus::Failed,
                    finished_at: Some(now),
                    error: Some(error),
                    ..c.task(tid)
                })
                &&& step.effects == seq![EffectView::TaskChanged(d.task(tid))]
                &&& tasks_agree_elsewhere(c, d, tid)
                &&& d.sessions == c.sessions
            } else {
                d == c && step.effects.len() == 0
            }
        }),
{
    if c.has_task(tid) {
        let j = choose|j: int| 0 <= j < c.tasks.len() && (#[trigger] c.tasks[j]).id == tid;
        lemma_task_at(c, j);
        lemma_put_task(c, tid, c.task(tid).failed(error, now));
    }
}

/// Recovery queues a task again, free of its session, exactly where the policy
/// restarts tasks and fewer attempts were made than are allowed; else it fails.
pub proof fn recovery_follows_policy_and_attempts(c: CoreView, tid: Seq<char>, now: i64)
    requires
        c.valid(),
        c.has_task(tid),
    ensures
        ({
            let step = recover(c, tid, now);
            let d = step.state;
            let t = c.task(tid);
            &&& d.task(tid) == if c.config.auto_restart && t.attempts < t.max_attempts {
                TaskView { status: TaskStatus::Queued, session_id: None, started_at: None, ..t }
            } else {
                TaskView {
                    status: TaskStatus::Failed,
                    finished_at: Some(now),
                    error: Some("session crashed"@),
                    ..t
                }
            }
            &&& step.effects == seq![EffectView::TaskChanged(d.task(tid))]
            &&& tasks_agree_elsewhere(c, d, tid)
            &&& d.sessions == c.sessions
        }),
{
    let j = choose|j: int| 0 <= j < c.tasks.len() && (#[trigger] c.tasks[j]).id == tid;
    lemma_task_at(c, j);
    lemma_put_task(c, tid, c.task(tid).requeued());
    lemma_put_task(c, tid, c.task(tid).failed("session crashed"@, now));
}

// ---- running ---------------------------------------------------------------

/// A task that is handed to a session runs there, with one attempt more; the
/// session is bound to it. Both are announced, and nothing else changes.
pub proof fn assigning_binds_task_and_session(
    c: CoreView,
    sid: Seq<char>,
    tid: Seq<char>,
    now: i64,
)
    requires
        c.valid(),
        c.has_session(sid),
        c.has_task(tid),
        c.task(tid).attempts < u32::MAX,
    ensures
        ({
            let step = assigned_to(c, sid, tid, now);
            let d = step.state;
            &&& d.task(tid).attempts == c.task(tid).attempts + 1
            &&& d.task(tid) == (TaskView {
                status: TaskStatus::Running,
                session_id: Some(sid),
                started_at: Some(now),
                attempts: d.task(tid).attempts,
                ..c.task(tid)
            })
            &&& d.session(sid) == (SessionView {
                info: SessionInfoView {
                    current_task: Some(tid),
                    last_activity: now,
                    ..c.info(sid)
                },
                ..c.session(sid)
            })
            &&& step.effects == seq![
                EffectView::TaskChanged(d.task(tid)),
                EffectView::SessionChanged(d.info(sid)),
            ]
            &&& tasks_agree_elsewhere(c, d, tid)
        }),
{
    let j = choose|j: int| 0 <= j < c.tasks.len() && (#[trigger] c.tasks[j]).id == tid;
    lemma_task_at(c, j);
    let u = c.task(tid).started(sid, now);
    lemma_put_task(c, tid, u);
    lemma_put_task_valid(c, tid, u);
    let b = c.put_task(tid, u);
    let k = choose|k: int| 0 <= k < c.sessions.len() && (#[trigger] c.sessions[k]).info.id == sid;
    lemma_session_at(c, k);
    assert(b.sessions[k].info.id == sid);
    lemma_session_at(b, k);
    let s = SessionView {
        info: b.info(sid).bound_to(tid).touched(now),
        ..b.session(sid)
    };
    lemma_put_session(b, sid, s);
    let d = assigned_to(c, sid, tid, now).state;
    assert(d == b.put_session(sid, s));
    assert(d.tasks == b.tasks);
    assert(d.has_task(tid));
    assert(d.task(tid) == b.task(tid));
    assert forall|other: Seq<char>| #![trigger d.has_task(other)] other != tid implies d.has_task(
        other,
    ) == c.has_task(other) && (c.has_task(other) ==> d.task(other) == c.task(other)) by {
        assert(b.has_task(other) == d.has_task(other));
        assert(b.task(other) == d.task(other));
    }
    assert(assigned_to(c, sid, tid, now).effects =~= seq![
        EffectView::TaskChanged(d.task(tid)),
        EffectView::SessionChanged(d.info(sid)),
    ]);
}

/// The end of a turn ends the task that the session ran: one that went well is
/// done and keeps the summary, one that did not has failed and keeps it as the
/// reason. At most the first 300 characters are kept, with a mark where more was
/// cut off. The session is free, and nothing else of it changes.
pub proof fn a_turn_ends_its_task(
    c: CoreView,
    sid: Seq<char>,
    is_error: bool,
    summary: Seq<char>,
    now: i64,
)
    requires
        c.valid(),
        c.has_session(sid),
        c.info(sid).current_task is Some,
        c.has_task(c.info(sid).current_task->0),
    ensures
        ({
            let tid = c.info(sid).current_task->0;
            let step = turn_complete(c, sid, is_error, summary, now);
            let d = step.state;
            let kept = if summary.len() <= 300 {
                summary
            } else {
                summary.take(300).push('\u{2026}')
            };
            &&& d.task(tid) == if is_error {
                TaskView {
                    status: TaskStatus::Failed,
                    finished_at: Some(now),
                    error: Some(kept),
                    ..c.task(tid)
                }
            } else {
                TaskView {
                    status: TaskStatus::Done,
                    finished_at: Some(now),
                    result_summary: Some(kept),
                    ..c.task(tid)
                }
            }
            &&& d.info(sid) == (SessionInfoView {
                current_task: None,
                ..c.info(sid)
            })
            &&& step.effects == seq![EffectView::TaskChanged(d.task(tid))]
            &&& tasks_agree_elsewhere(c, d, tid)
        }),
{
    let tid = c.info(sid).current_task->0;
    let k = choose|k: int| 0 <= k < c.sessions.len() && (#[trigger] c.sessions[k]).info.id == sid;
    lemma_session_at(c, k);
    assert(c.sessions[k].coherent());
    assert(c.sessions[k].info.attached ==> c.attach_lru.contains(c.sessions[k].info.id));
    let s = SessionView { info: c.info(sid).released(), ..c.session(sid) };
    lemma_put_session(c, sid, s);
    lemma_put_session_valid(c, sid, s);
    let b = c.put_session(sid, s);
    let j = choose|j: int| 0 <= j < c.tasks.len() && (#[trigger] c.tasks[j]).id == tid;
    lemma_task_at(c, j);
    assert(b.tasks == c.tasks);
    assert(b.has_task(tid));
    assert(b.task(tid) == c.task(tid));
    let u = b.task(tid).finished(is_error, summary, now);
    lemma_put_task(b, tid, u);
    let d = turn_complete(c, sid, is_error, summary, now).state;
    assert(d == b.put_task(tid, u));
    assert(d.sessions == b.sessions);
    assert(d.session(sid) == b.session(sid));
    assert forall|other: Seq<char>| #![trigger d.has_task(other)] other != tid implies d.has_task(
        other,
    ) == c.has_task(other) && (c.has_task(other) ==> d.task(other) == c.task(other)) by {
        assert(b.has_task(other) == c.has_task(other));
        assert(b.task(other) == c.task(other));
    }
}

/// What is gone is passed over: without the task only the session is bound,
/// without the session only the task is started, and without both nothing
/// happens. A task that is not there is not recovered.
pub proof fn assigning_what_is_gone(c: CoreView, sid: Seq<char>, tid: Seq<char>, now: i64)
    requires
        c.valid(),
    ensures
        ({
            let step = assigned_to(c, sid, tid, now);
            let d = step.state;
            &&& !c.has_task(tid) ==> d.tasks == c.tasks
            &&& !c.has_session(sid) ==> d.sessions == c.sessions
            &&& !c.has_task(tid) && !c.has_session(sid) ==> d == c && step.effects.len() == 0
            &&& !c.has_task(tid) && c.has_session(sid) ==> step.effects == seq![
                EffectView::SessionChanged(
                    SessionInfoView {
                        current_task: Some(tid),
                        last_activity: now,
                        ..c.info(sid)
                    },
                ),
            ]
            &&& c.has_task(tid) && !c.has_session(sid) ==> step.effects.len() == 1
                && step.effects[0] is TaskChanged
        }),
        !c.has_task(tid) ==> recover(c, tid, now).state == c && recover(c, tid, now).effects.len()
            == 0,
{
    let step = assigned_to(c, sid, tid, now);
    let b = c.update_task(tid, c.task(tid).started(sid, now)).state;
    assert(b.sessions == c.sessions);
    assert(b.has_session(sid) == c.has_session(sid));
    assert(b.session(sid) == c.session(sid));
    if !c.has_task(tid) && c.has_session(sid) {
        assert(step.effects =~= seq![
            EffectView::SessionChanged(
                SessionInfoView {
                    current_task: Some(tid),
                    last_activity: now,
                    ..c.info(sid)
                },
            ),
        ]);
    }
}

} // verus!
