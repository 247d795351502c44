//! What becomes of a session, field by field: its end, its removal, what it is
//! told and what it prints.
use crate::counting::lemma_select_none;
use crate::counting::lemma_select_push;
use crate::counting::select;
use crate::effects::EffectView;
use crate::laws::agree_elsewhere;
use crate::laws::lemma_put_session;
use crate::laws::tasks_agree_elsewhere;
use crate::lifecycle::delivery;
use crate::lifecycle::finalized;
use crate::lifecycle::in_creation_order;
use crate::lifecycle::infos_of;
use crate::lifecycle::live;
use crate::lifecycle::message_delivered;
use crate::lifecycle::migrated;
use crate::lifecycle::removed;
use crate::lifecycle::started;
use crate::lifecycle::terminal_output;
use crate::lifecycle::without_session;
use crate::lifecycle::DeliveryView;
use crate::lifecycle::RefusalView;
use crate::model::F32Bits;
use crate::model::OrchestratorConfigView;
use crate::model::SessionInfoView;
use crate::model::SessionMode;
use crate::model::SessionStatus;
use crate::model::TaskStatus;
use crate::model::TaskView;
use crate::project_laws::ended;
use crate::queue_laws::failing_says_why;
use crate::queue_laws::recovery_follows_policy_and_attempts;
use crate::ring::last_bytes;
use crate::state::lemma_put_session_valid;
use crate::state::lemma_session_at;
use crate::state::CoreView;
use crate::state::SessionView;
use crate::tasks::fail;
use crate::tasks::recover;
use crate::tasks::waiting;
use crate::text::signed_decimal;
use crate::worker_laws::only_info_changed;
use vstd::prelude::*;

verus! {

// ---- the end of a session --------------------------------------------------

/// A session that ends was stopped where that was asked for, whatever its exit
/// code; else it is complete where it exited with zero, and has crashed where it
/// exited otherwise or in a way that left no code. It uses no more resources,
/// keeps its exit code, and its last words are logged. A crash, and nothing else,
/// takes its task from it.
pub proof fn how_a_session_ends(
    c: CoreView,
    sid: Seq<char>,
    code: Option<i32>,
    requested_stop: bool,
    now: i64,
)
    requires
        c.valid(),
        c.has_session(sid),
    ensures
        ({
            let step = finalized(c, sid, code, requested_stop, now);
            let was = c.info(sid);
            let is = step.state.info(sid);
            let crashed = !requested_stop && code != Some(0i32);
            &&& agree_elsewhere(c, step.state, sid)
            &&& step.state.config == c.config
            &&& step.state.attach_lru == c.attach_lru
            &&& step.state.session(sid) == (SessionView { info: is, ..c.session(sid) })
            &&& requested_stop ==> is.status == SessionStatus::Stopped && is.activity
                == "stopped"@
            &&& !requested_stop && code == Some(0i32) ==> is.status == SessionStatus::Completed
                && is.activity == "completed"@
            &&& crashed ==> is.status == SessionStatus::Crashed
            &&& crashed && code is Some ==> is.activity == "crashed (exit "@ + signed_decimal(
                code->0 as int,
            ) + ")"@
            &&& crashed && code is None ==> is.activity == "crashed (exit "@ + signed_decimal(-1)
                + ")"@
            &&& crashed ==> is.current_task is None
            &&& !crashed ==> is.current_task == was.current_task
            &&& is == (SessionInfoView {
                status: is.status,
                activity: is.activity,
                current_task: is.current_task,
                exit_code: code,
                cpu: F32Bits(0),
                mem_bytes: 0,
                last_activity: now,
                ..was
            })
            &&& step.effects.len() >= 2
            &&& step.effects[0] == EffectView::SessionChanged(is)
            &&& step.effects[1] == (EffectView::Log {
                session_id: sid,
                kind: "system"@,
                text: is.activity,
            })
            &&& !(crashed && was.current_task is Some) ==> step.state.tasks == c.tasks
                && step.effects.len() == 2
            &&& crashed && was.current_task is Some && !c.has_task(was.current_task->0)
                ==> step.state.tasks == c.tasks && step.effects.len() == 2
            &&& crashed && was.current_task is Some && c.has_task(was.current_task->0)
                ==> step.effects.len() == 3 && step.effects[2] is TaskChanged
        }),
{
    let k = choose|k: int| 0 <= k < c.sessions.len() && (#[trigger] c.sessions[k]).info.id == sid;
    lemma_session_at(c, k);
    assert(c.sessions[k].coherent());
    assert(c.sessions[k].info.attached ==> c.attach_lru.contains(c.sessions[k].info.id));
    let s = SessionView {
        info: c.info(sid).at_end(code, requested_stop, now),
        ..c.session(sid)
    };
    lemma_put_session(c, sid, s);
    lemma_put_session_valid(c, sid, s);
    let b = c.put_session(sid, s);
    let d = finalized(c, sid, code, requested_stop, now).state;
    lemma_same_registry(c, b, d, sid);
    if !requested_stop && code != Some(0i32) && c.info(sid).current_task is Some {
        let tid = c.info(sid).current_task->0;
        assert(b.tasks == c.tasks);
        assert(b.has_task(tid) == c.has_task(tid));
        assert(d == recover(b, tid, now).state);
    }
}

proof fn lemma_same_registry(c: CoreView, b: CoreView, d: CoreView, sid: Seq<char>)
    requires
        b.sessions == d.sessions,
        agree_elsewhere(c, b, sid),
    ensures
        d.has_session(sid) == b.has_session(sid),
        d.session(sid) == b.session(sid),
        agree_elsewhere(c, d, sid),
{
    assert forall|other: Seq<char>| #![trigger d.has_session(other)] other != sid implies
        d.has_session(other) == c.has_session(other) && (c.has_session(other) ==> d.session(other)
        == c.session(other)) by {
        assert(d.has_session(other) == b.has_session(other));
        assert(d.session(other) == b.session(other));
    }
}

/// What is not registered cannot end, nor be removed.
pub proof fn strangers_do_not_end(
    c: CoreView,
    sid: Seq<char>,
    code: Option<i32>,
    requested_stop: bool,
    now: i64,
)
    requires
        !c.has_session(sid),
    ensures
        finalized(c, sid, code, requested_stop, now).state == c,
        finalized(c, sid, code, requested_stop, now).effects.len() == 0,
        removed(c, sid, now).state == c,
        removed(c, sid, now).effects.len() == 0,
{
}

/// Removing a session kills its process where that still runs, fails the task
/// that it still held, and announces that it is gone, in this order.
pub proof fn what_a_removal_does(c: CoreView, sid: Seq<char>, now: i64)
    requires
        c.valid(),
        c.has_session(sid),
    ensures
        ({
            let step = removed(c, sid, now);
            let s = c.session(sid);
            let held = s.info.current_task is Some && c.has_task(s.info.current_task->0);
            let t = c.task(s.info.current_task->0);
            let failed = TaskView {
                status: TaskStatus::Failed,
                finished_at: Some(now),
                error: Some("session removed"@),
                ..t
            };
            &&& step.state.config == c.config
            &&& !held ==> step.state.tasks == c.tasks
            &&& ended(s) && !held ==> step.effects == seq![EffectView::SessionRemoved(sid)]
            &&& ended(s) && held ==> step.effects == seq![
                EffectView::TaskChanged(failed),
                EffectView::SessionRemoved(sid),
            ]
            &&& !ended(s) && !held ==> step.effects == seq![
                EffectView::Kill(sid),
                EffectView::SessionRemoved(sid),
            ]
            &&& !ended(s) && held ==> step.effects == seq![
                EffectView::Kill(sid),
                EffectView::TaskChanged(failed),
                EffectView::SessionRemoved(sid),
            ]
        }),
{
    let step = removed(c, sid, now);
    let s = c.session(sid);
    let d = without_session(c, sid);
    assert(d.tasks == c.tasks);
    if s.info.current_task is Some {
        let tid = s.info.current_task->0;
        assert(d.has_task(tid) == c.has_task(tid));
        assert(d.task(tid) == c.task(tid));
    }
    let held = s.info.current_task is Some && c.has_task(s.info.current_task->0);
    let failed = TaskView {
        status: TaskStatus::Failed,
        finished_at: Some(now),
        error: Some("session removed"@),
        ..c.task(s.info.current_task->0)
    };
    if ended(s) && !held {
        assert(step.effects =~= seq![EffectView::SessionRemoved(sid)]);
    } else if ended(s) {
        assert(step.effects =~= seq![
            EffectView::TaskChanged(failed),
            EffectView::SessionRemoved(sid),
        ]);
    } else if !held {
        assert(step.effects =~= seq![EffectView::Kill(sid), EffectView::SessionRemoved(sid)]);
    } else {
        assert(step.effects =~= seq![
            EffectView::Kill(sid),
            EffectView::TaskChanged(failed),
            EffectView::SessionRemoved(sid),
        ]);
    }
}

// ---- what a session is told and what it prints -----------------------------

/// A session that was told something is busy with it; the whole prompt is logged.
pub proof fn a_prompt_makes_busy(c: CoreView, sid: Seq<char>, prompt: Seq<char>, now: i64)
    requires
        c.valid(),
        c.has_session(sid),
    ensures
        ({
            let step = message_delivered(c, sid, prompt, now);
            let is = step.state.info(sid);
            &&& only_info_changed(c, step.state, sid)
            &&& is == (SessionInfoView {
                status: SessionStatus::Busy,
                activity: "working"@,
                last_activity: now,
                ..c.info(sid)
            })
            &&& step.effects == seq![
                EffectView::SessionChanged(is),
                EffectView::Log { session_id: sid, kind: "user"@, text: prompt },
            ]
        }),
{
    let info = c.info(sid).working().touched(now);
    lemma_put_session(c, sid, SessionView { info, ..c.session(sid) });
    assert(message_delivered(c, sid, prompt, now).effects =~= seq![
        EffectView::SessionChanged(info),
        EffectView::Log { session_id: sid, kind: "user"@, text: prompt },
    ]);
}

/// What a terminal prints is retained: the scrollback ends with it, as far as
/// there is room, before it stands what was there, and only the oldest bytes
/// give way. An attached terminal is shown the chunk as it came; a detached one
/// is shown nothing.
pub proof fn what_a_terminal_prints(c: CoreView, sid: Seq<char>, chunk: Seq<u8>, now: i64)
    requires
        c.valid(),
        c.has_session(sid),
    ensures
        ({
            let step = terminal_output(c, sid, chunk, now);
            let s = c.session(sid);
            let t = step.state.session(sid);
            let all = s.ring + chunk;
            &&& agree_elsewhere(c, step.state, sid)
            &&& step.state.tasks == c.tasks
            &&& step.state.config == c.config
            &&& step.state.attach_lru == c.attach_lru
            &&& t.info == (SessionInfoView { last_activity: now, ..s.info })
            &&& t == (SessionView { info: t.info, ring: t.ring, ..s })
            &&& all.len() <= s.ring_capacity ==> t.ring == all
            &&& all.len() > s.ring_capacity ==> t.ring.len() == s.ring_capacity
            &&& t.ring.len() <= all.len()
            &&& forall|i: int|
                0 <= i < t.ring.len() ==> t.ring[i] == all[all.len() - t.ring.len() + i]
            &&& s.info.attached ==> step.effects == seq![
                EffectView::TermData { session_id: sid, data: chunk, replay: false },
            ]
            &&& !s.info.attached ==> step.effects.len() == 0
        }),
{
    let k = choose|k: int| 0 <= k < c.sessions.len() && (#[trigger] c.sessions[k]).info.id == sid;
    lemma_session_at(c, k);
    assert(c.sessions[k].coherent());
    let s = c.session(sid);
    let t = SessionView {
        info: s.info.touched(now),
        ring: last_bytes(s.ring + chunk, s.ring_capacity),
        ..s
    };
    lemma_put_session(c, sid, t);
}

/// A broadcast skips sessions that have ended. It holds, in order, for each other
/// the text as it is for a worker, and the text and a carriage return for a
/// terminal.
pub proof fn what_a_broadcast_holds(sessions: Seq<SessionView>, s: SessionView, text: Seq<char>)
    ensures
        sessions.len() == 0 ==> select(sessions, live(), delivery(text)).len() == 0,
        ended(s) ==> select(sessions.push(s), live(), delivery(text)) == select(
            sessions,
            live(),
            delivery(text),
        ),
        !ended(s) && s.info.mode == SessionMode::Headless ==> select(
            sessions.push(s),
            live(),
            delivery(text),
        ) == select(sessions, live(), delivery(text)).push(
            DeliveryView::Message { session_id: s.info.id, prompt: text },
        ),
        !ended(s) && s.info.mode != SessionMode::Headless ==> select(
            sessions.push(s),
            live(),
            delivery(text),
        ) == select(sessions, live(), delivery(text)).push(
            DeliveryView::Keys { session_id: s.info.id, keys: text + seq!['\r'] },
        ),
{
    lemma_select_push(sessions, s, live(), delivery(text));
    if sessions.len() == 0 {
        assert(sessions =~= sessions.take(0));
        lemma_select_none(sessions, live(), delivery(text));
    }
    assert(text.push('\r') =~= text + seq!['\r']);
}

/// What a refused caller reads.
pub proof fn what_a_refusal_says(sid: Seq<char>)
    ensures
        RefusalView::UnknownSession(sid).text() == "unknown session "@ + sid,
        RefusalView::IsInteractive.text() == "session is interactive; use send_input"@,
        RefusalView::IsHeadless.text() == "session is headless; use send_message"@,
{
}

// ---- policy ----------------------------------------------------------------

/// A cap of four rendered sessions or fewer is raised to eight; nothing
/// else about a policy is migrated.
pub proof fn what_a_migration_changes(config: OrchestratorConfigView)
    ensures
        config.max_attached <= 4 ==> migrated(config) == (OrchestratorConfigView {
            max_attached: 8,
            ..config
        }),
        config.max_attached > 4 ==> migrated(config) == config,
{
}

/// A start registers no session, renders none, and keeps no task but those that
/// are queued.
pub proof fn a_start_is_clean(
    config: OrchestratorConfigView,
    migrated_before: bool,
    tasks: Seq<TaskView>,
)
    ensures
        ({
            let c = started(config, migrated_before, tasks);
            &&& c.sessions.len() == 0
            &&& c.attach_lru.len() == 0
            &&& migrated_before || config.max_attached > 4 ==> c.config == config
            &&& !migrated_before && config.max_attached <= 4 ==> c.config == (
            OrchestratorConfigView { max_attached: 8, ..config })
            &&& forall|i: int|
                0 <= i < c.tasks.len() ==> (#[trigger] c.tasks[i]).status == TaskStatus::Queued
                    && tasks.contains(c.tasks[i])
        }),
{
    let c = started(config, migrated_before, tasks);
    let p = waiting();
    assert forall|i: int| 0 <= i < c.tasks.len() implies (#[trigger] c.tasks[i]).status
        == TaskStatus::Queued && tasks.contains(c.tasks[i]) by {
        tasks.lemma_filter_pred(p, i);
        assert(c.tasks.contains(c.tasks[i]));
        tasks.lemma_filter_contains_rev(p, c.tasks[i]);
    }
}

// ---- small changes ---------------------------------------------------------

/// A new name changes the name and the time of the last activity; activity alone
/// changes that time only.
pub proof fn a_new_name_is_only_a_name(info: SessionInfoView, name: Seq<char>, now: i64)
    ensures
        info.renamed(name).touched(now) == (SessionInfoView { name, last_activity: now, ..info }),
        info.touched(now) == (SessionInfoView { last_activity: now, ..info }),
{
}

/// Sessions in the order of their creation: an earlier one never stands after a
/// later one.
pub proof fn sessions_are_listed_by_age(infos: Seq<SessionInfoView>, i: int, j: int)
    requires
        in_creation_order(infos),
        0 <= i < infos.len(),
        0 <= j < infos.len(),
        infos[i].created_at < infos[j].created_at,
    ensures
        i < j,
{
}

/// What is listed of sessions is their infos, one each, in place.
pub proof fn an_info_for_each_session(sessions: Seq<SessionView>)
    ensures
        infos_of(sessions).len() == sessions.len(),
        forall|i: int|
            0 <= i < sessions.len() ==> #[trigger] infos_of(sessions)[i] == sessions[i].info,
{
}

/// What is said to a session that is not registered is only logged; what it
/// prints is dropped.
pub proof fn strangers_are_not_heard(
    c: CoreView,
    sid: Seq<char>,
    prompt: Seq<char>,
    chunk: Seq<u8>,
    now: i64,
)
    requires
        !c.has_session(sid),
    ensures
        message_delivered(c, sid, prompt, now).state == c,
        message_delivered(c, sid, prompt, now).effects == seq![
            EffectView::Log { session_id: sid, kind: "user"@, text: prompt },
        ],
        terminal_output(c, sid, chunk, now).state == c,
        terminal_output(c, sid, chunk, now).effects.len() == 0,
{
    assert(message_delivered(c, sid, prompt, now).effects =~= seq![
        EffectView::Log { session_id: sid, kind: "user"@, text: prompt },
    ]);
}

// ---- the task of a session that goes ---------------------------------------

/// The task of a session that crashes is queued again, free of its session, where
/// the policy restarts tasks and fewer attempts were made than are allowed; else
/// it fails now. It is announced after the session and its log line, and no other
/// task changes.
pub proof fn the_task_of_a_crashed_session(
    c: CoreView,
    sid: Seq<char>,
    code: Option<i32>,
    now: i64,
)
    requires
        c.valid(),
        c.has_session(sid),
        code != Some(0i32),
        c.info(sid).current_task is Some,
        c.has_task(c.info(sid).current_task->0),
    ensures
        ({
            let step = finalized(c, sid, code, false, now);
            let tid = c.info(sid).current_task->0;
            let t = c.task(tid);
            &&& step.state.task(tid) == if c.config.auto_restart && t.attempts < t.max_attempts {
                TaskView { status: TaskStatus::Queued, session_id: None, started_at: None, ..t }
            } else {
                TaskView {
                    status: TaskStatus::Failed,
                    finished_at: Some(now),
                    error: Some("session crashed"@),
                    ..t
                }
            }
            &&& step.effects.len() == 3
            &&& step.effects[2] == EffectView::TaskChanged(step.state.task(tid))
            &&& tasks_agree_elsewhere(c, step.state, tid)
        }),
{
    let tid = c.info(sid).current_task->0;
    let b = c.put_info(sid, c.info(sid).at_end(code, false, now));
    assert(b.tasks == c.tasks);
    assert(b.has_task(tid));
    assert(b.task(tid) == c.task(tid));
    recovery_follows_policy_and_attempts(c, tid, now);
    let d = finalized(c, sid, code, false, now).state;
    let e = recover(c, tid, now).state;
    assert(d == recover(b, tid, now).state);
    assert(d.tasks == e.tasks);
    lemma_same_tasks(c, e, d, tid);
}

proof fn lemma_same_tasks(c: CoreView, e: CoreView, d: CoreView, tid: Seq<char>)
    requires
        e.tasks == d.tasks,
        tasks_agree_elsewhere(c, e, tid),
    ensures
        d.task(tid) == e.task(tid),
        tasks_agree_elsewhere(c, d, tid),
{
    assert forall|other: Seq<char>| #![trigger d.has_task(other)] other != tid implies d.has_task(
        other,
    ) == c.has_task(other) && (c.has_task(other) ==> d.task(other) == c.task(other)) by {
        assert(d.has_task(other) == e.has_task(other));
        assert(d.task(other) == e.task(other));
    }
}

/// The task that a removed session still held has failed for that reason; no
/// other task changes.
pub proof fn the_task_of_a_removed_session(c: CoreView, sid: Seq<char>, now: i64)
    requires
        c.valid(),
        c.has_session(sid),
        c.info(sid).current_task is Some,
        c.has_task(c.info(sid).current_task->0),
    ensures
        ({
            let d = removed(c, sid, now).state;
            let tid = c.info(sid).current_task->0;
            &&& d.task(tid) == (TaskView {
                status: TaskStatus::Failed,
                finished_at: Some(now),
                error: Some("session removed"@),
                ..c.task(tid)
            })
            &&& tasks_agree_elsewhere(c, d, tid)
        }),
{
    let tid = c.info(sid).current_task->0;
    let w = without_session(c, sid);
    assert(w.tasks == c.tasks);
    assert(w.has_task(tid));
    assert(w.task(tid) == c.task(tid));
    failing_says_why(c, tid, "session removed"@, now);
    let d = removed(c, sid, now).state;
    let e = fail(c, tid, "session removed"@, now).state;
    assert(d.tasks == e.tasks);
    lemma_same_tasks(c, e, d, tid);
}

} // verus!
