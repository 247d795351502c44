//! A whole round of scheduling: decisions, and what comes of carrying them out.
use crate::counting::count_if;
use crate::counting::lemma_count_update;
use crate::lifecycle::assigned_to;
use crate::lifecycle::message_delivered;
use crate::model::OrchestratorConfigView;
use crate::model::SessionInfoView;
use crate::model::TaskStatus;
use crate::model::TaskView;
use crate::scheduler::active_worker;
use crate::scheduler::admits;
use crate::scheduler::can_reuse;
use crate::scheduler::decides;
use crate::scheduler::has_slot;
use crate::scheduler::is_first_suited;
use crate::scheduler::lemma_spawned_count;
use crate::scheduler::lemma_taken_valid;
use crate::scheduler::queue_is_empty;
use crate::scheduler::rest_has_a_reason;
use crate::scheduler::suits;
use crate::scheduler::taken;
use crate::scheduler::AdmissionView;
use crate::spawning::add_session;
use crate::spawning::new_session;
use crate::spawning::spawned;
use crate::spawning::SpawnView;
use crate::state::lemma_put_session_at;
use crate::state::lemma_put_session_valid;
use crate::state::lemma_put_task_at;
use crate::state::lemma_put_task_valid;
use crate::state::lemma_session_at;
use crate::state::lemma_task_at;
use crate::state::CoreView;
use crate::state::SessionView;
use crate::tasks::fail;
use crate::tasks::is_next;
use crate::tasks::runs_before;
use crate::tasks::waiting;
use vstd::prelude::*;

verus! {

// ---- carrying out a decision -----------------------------------------------

/// What came of carrying out a decision.
pub struct Reply {
    /// The worker that was started, where one was asked for and could be started.
    pub worker: Option<SessionView>,
    /// What was logged of it.
    pub line: Seq<char>,
    /// Why no worker could be started.
    pub spawn_error: Seq<char>,
    /// Why the prompt could not be sent, where it could not.
    pub send_error: Option<Seq<char>>,
    pub now: i64,
}

/// Whether a session is a worker as it is just after its start.
pub open spec fn is_fresh_worker(s: SessionView, now: i64) -> bool {
    exists|plan: SpawnView, pid: Option<u32>|
        plan.mode is Headless && s == #[trigger] new_session(plan, pid, now)
}

/// A task is bound to a session, and its prompt is sent or the task fails.
pub open spec fn worked(d: CoreView, sid: Seq<char>, task: TaskView, reply: Reply) -> CoreView {
    let bound = assigned_to(d, sid, task.id, reply.now).state;
    match reply.send_error {
        None => message_delivered(bound, sid, task.prompt, reply.now).state,
        Some(error) => fail(bound, task.id, error, reply.now).state,
    }
}

/// The state once a decision is carried out.
pub open spec fn carried_out(d: CoreView, r: AdmissionView, reply: Reply) -> CoreView {
    match r {
        AdmissionView::Rest => d,
        AdmissionView::Reuse { session_id, task } => worked(d, session_id, task, reply),
        AdmissionView::Launch { spec, task } => match reply.worker {
            Some(s) => worked(spawned(d, s, reply.line).state, s.info.id, task, reply),
            None => fail(d, task.id, reply.spawn_error, reply.now).state,
        },
    }
}

/// One decision of a round: the state right after it, the decision and what came
/// of carrying it out.
pub struct Move {
    pub decided: CoreView,
    pub decision: AdmissionView,
    pub reply: Reply,
}

/// Whether a move leads from `c` to `e`: a task is admitted, and that is carried
/// out.
pub open spec fn leads(
    c: CoreView,
    config: OrchestratorConfigView,
    saturated: bool,
    m: Move,
    e: CoreView,
) -> bool {
    &&& decides(c, config, saturated, m.decided, m.decision)
    &&& !(m.decision is Rest)
    &&& m.reply.worker is Some ==> is_fresh_worker(m.reply.worker->0, m.reply.now)
    &&& e == carried_out(m.decided, m.decision, m.reply)
}

/// Whether `states` is a round of scheduling, one move after the other.
pub open spec fn is_round(
    states: Seq<CoreView>,
    moves: Seq<Move>,
    config: OrchestratorConfigView,
    saturated: bool,
) -> bool {
    &&& states.len() == moves.len() + 1
    &&& forall|k: int|
        0 <= k < moves.len() ==> leads(
            states[k],
            config,
            saturated,
            #[trigger] moves[k],
            states[k + 1],
        )
}

/// The larger of the cap and a count.
pub open spec fn at_most(config: OrchestratorConfigView, count: nat) -> int {
    if count > config.max_concurrent {
        count as int
    } else {
        config.max_concurrent as int
    }
}

/// Whether a task that waited now runs in a registered session, with nothing
/// changed but what starting it changes.
pub open spec fn runs_in(before: TaskView, after: TaskView, e: CoreView) -> bool {
    exists|sid: Seq<char>, now: i64|
        e.has_session(sid) && after == #[trigger] before.assigned().started(sid, now)
}

/// Whether a task has failed, with nothing changed but its status, times, error,
/// session and attempts.
pub open spec fn has_failed(before: TaskView, after: TaskView) -> bool {
    &&& after.status is Failed
    &&& after.finished_at is Some
    &&& after.error is Some
    &&& after == TaskView {
        status: after.status,
        started_at: after.started_at,
        finished_at: after.finished_at,
        error: after.error,
        session_id: after.session_id,
        attempts: after.attempts,
        ..before
    }
}

/// What a round that leads to `e` makes of a task: one that waited waits still,
/// unchanged, or runs, or has failed; any other is left alone.
pub open spec fn scheduled(before: TaskView, after: TaskView, e: CoreView) -> bool {
    ||| after == before
    ||| before.status is Queued && (runs_in(before, after, e) || has_failed(before, after))
}

/// Whether every session of `c` is registered in `e` too.
pub open spec fn keeps_sessions(c: CoreView, e: CoreView) -> bool {
    forall|sid: Seq<char>| #[trigger] c.has_session(sid) ==> e.has_session(sid)
}

// ---- facts about the operations --------------------------------------------

/// One update of a session's info, and what it does to the count.
proof fn lemma_update_info(c: CoreView, sid: Seq<char>, info: SessionInfoView)
    requires
        c.valid(),
        c.has_session(sid),
        info.id == sid,
        info.mode == c.info(sid).mode,
        info.attached == c.info(sid).attached,
    ensures
        ({
            let d = c.update_info(sid, info).state;
            &&& d.valid()
            &&& d.tasks == c.tasks
            &&& d.has_session(sid)
            &&& d.info(sid) == info
            &&& keeps_sessions(c, d)
            &&& info.status.active() == c.info(sid).status.active() ==> count_if(
                d.sessions,
                active_worker(),
            ) == count_if(c.sessions, active_worker())
        }),
{
    let k = choose|k: int| 0 <= k < c.sessions.len() && (#[trigger] c.sessions[k]).info.id == sid;
    lemma_session_at(c, k);
    let session = SessionView { info, ..c.session(sid) };
    assert(c.sessions[k].coherent());
    assert(c.sessions[k].info.attached ==> c.attach_lru.contains(c.sessions[k].info.id));
    lemma_put_session_at(c, k, session);
    lemma_put_session_valid(c, sid, session);
    lemma_count_update(c.sessions, active_worker(), k, session);
    let d = c.put_session(sid, session);
    assert(d.sessions[k] == session);
    lemma_session_at(d, k);
    lemma_put_keeps(c, sid, session);
}

/// Replacing a session removes none.
proof fn lemma_put_keeps(c: CoreView, sid: Seq<char>, session: SessionView)
    requires
        session.info.id == sid,
    ensures
        keeps_sessions(c, c.put_session(sid, session)),
{
    let d = c.put_session(sid, session);
    assert forall|other: Seq<char>| #[trigger] c.has_session(other) implies d.has_session(other) by {
        let i = choose|i: int|
            0 <= i < c.sessions.len() && (#[trigger] c.sessions[i]).info.id == other;
        assert(d.sessions[i].info.id == other);
    }
}

/// One update of a task.
proof fn lemma_update_task(c: CoreView, i: int, task: TaskView)
    requires
        c.valid(),
        0 <= i < c.tasks.len(),
        task.id == c.tasks[i].id,
    ensures
        ({
            let d = c.update_task(task.id, task).state;
            &&& c.has_task(task.id)
            &&& c.task(task.id) == c.tasks[i]
            &&& d.valid()
            &&& d.sessions == c.sessions
            &&& d.tasks == c.tasks.update(i, task)
        }),
{
    lemma_task_at(c, i);
    lemma_put_task_at(c, i, task);
    lemma_put_task_valid(c, task.id, task);
}

/// Registering a fresh worker keeps the state valid.
proof fn lemma_spawned(c: CoreView, s: SessionView, line: Seq<char>, now: i64)
    requires
        c.valid(),
        is_fresh_worker(s, now),
    ensures
        ({
            let d = spawned(c, s, line).state;
            &&& d.valid()
            &&& d.tasks == c.tasks
            &&& d.has_session(s.info.id)
            &&& d.session(s.info.id) == s
            &&& keeps_sessions(c, d)
        }),
{
    let sid = s.info.id;
    let d = add_session(c, s);
    assert(s.coherent());
    if c.has_session(sid) {
        let k = choose|k: int| 0 <= k < c.sessions.len() && (#[trigger] c.sessions[k]).info.id == sid;
        lemma_put_session_at(c, k, s);
        lemma_put_session_valid(c, sid, s);
        assert(d.sessions[k] == s);
        lemma_session_at(d, k);
        lemma_put_keeps(c, sid, s);
    } else {
        assert forall|other: Seq<char>| #[trigger]
            c.has_session(other) implies d.has_session(other) by {
            let i = choose|i: int|
                0 <= i < c.sessions.len() && (#[trigger] c.sessions[i]).info.id == other;
            assert(d.sessions[i].info.id == other);
        }
        assert forall|i: int, j: int|
            #![trigger d.sessions[i], d.sessions[j]]
            0 <= i < j < d.sessions.len() implies d.sessions[i].info.id != d.sessions[j].info.id by {
            if j < c.sessions.len() {
                assert(c.sessions[i].info.id != c.sessions[j].info.id);
            } else {
                assert(c.sessions[i].info.id != sid);
            }
        }
        assert forall|i: int|
            0 <= i < d.sessions.len() && (#[trigger] d.sessions[i]).info.attached implies
            d.attach_lru.contains(d.sessions[i].info.id) by {
            assert(d.sessions[i] == c.sessions[i]);
        }
        assert forall|i: int| 0 <= i < d.sessions.len() implies (
        #[trigger] d.sessions[i]).coherent() by {
            if i < c.sessions.len() {
                assert(c.sessions[i].coherent());
            }
        }
        assert forall|i: int, j: int|
            #![trigger d.tasks[i], d.tasks[j]]
            0 <= i < j < d.tasks.len() implies d.tasks[i].id != d.tasks[j].id by {
            assert(c.tasks[i].id != c.tasks[j].id);
        }
        let k = c.sessions.len() as int;
        assert(d.sessions[k] == s);
        lemma_session_at(d, k);
    }
}

/// Binding a task to an active worker and sending its prompt.
proof fn lemma_worked(d: CoreView, sid: Seq<char>, i: int, reply: Reply)
    requires
        d.valid(),
        d.has_session(sid),
        d.info(sid).status.active(),
        0 <= i < d.tasks.len(),
    ensures
        ({
            let e = worked(d, sid, d.tasks[i], reply);
            &&& e.valid()
            &&& count_if(e.sessions, active_worker()) == count_if(d.sessions, active_worker())
            &&& e.tasks.len() == d.tasks.len()
            &&& keeps_sessions(d, e)
            &&& e.tasks[i] == d.tasks[i].started(sid, reply.now) || (reply.send_error is Some
                && e.tasks[i] == d.tasks[i].started(sid, reply.now).failed(
                reply.send_error->0,
                reply.now,
            ))
            &&& forall|j: int|
                0 <= j < d.tasks.len() && j != i ==> #[trigger] e.tasks[j] == d.tasks[j]
        }),
{
    let task = d.tasks[i];
    let k = choose|k: int| 0 <= k < d.sessions.len() && (#[trigger] d.sessions[k]).info.id == sid;
    lemma_session_at(d, k);
    lemma_task_at(d, i);
    let running = task.started(sid, reply.now);
    lemma_update_task(d, i, running);
    let b = d.update_task(task.id, running).state;
    assert(b.sessions[k].info.id == sid);
    lemma_session_at(b, k);
    assert(b.info(sid) == d.info(sid));
    let bound_info = b.info(sid).bound_to(task.id).touched(reply.now);
    lemma_update_info(b, sid, bound_info);
    let a = assigned_to(d, sid, task.id, reply.now).state;
    assert(a == b.update_info(sid, bound_info).state);
    assert(keeps_sessions(d, a)) by {
        assert forall|other: Seq<char>| #[trigger]
            d.has_session(other) implies a.has_session(other) by {
            assert(b.has_session(other) == d.has_session(other));
        }
    }
    match reply.send_error {
        None => {
            let busy = a.info(sid).working().touched(reply.now);
            lemma_update_info(a, sid, busy);
            lemma_keeps(d, a, a.update_info(sid, busy).state);
        },
        Some(error) => {
            assert(a.tasks[i].id == task.id);
            lemma_task_at(a, i);
            lemma_update_task(a, i, a.task(task.id).failed(error, reply.now));
            let e = a.update_task(task.id, a.task(task.id).failed(error, reply.now)).state;
            assert forall|other: Seq<char>| #[trigger]
                d.has_session(other) implies e.has_session(other) by {
                assert(a.has_session(other) == e.has_session(other));
            }
        },
    }
}

/// Keeping sessions carries over from one step to the next.
proof fn lemma_keeps(c: CoreView, d: CoreView, e: CoreView)
    requires
        keeps_sessions(c, d),
        keeps_sessions(d, e),
    ensures
        keeps_sessions(c, e),
{
    assert forall|sid: Seq<char>| #[trigger] c.has_session(sid) implies e.has_session(sid) by {
        assert(d.has_session(sid));
    }
}

/// A queue that is not empty has a next task.
pub proof fn a_waiting_queue_has_a_next_task(tasks: Seq<TaskView>)
    requires
        !queue_is_empty(tasks),
    ensures
        exists|i: int| is_next(tasks, i),
    decreases tasks.len(),
{
    let front = tasks.drop_last();
    let n = tasks.len() - 1;
    let w = choose|w: int| 0 <= w < tasks.len() && (#[trigger] tasks[w]).status is Queued;
    assert(tasks[w].status is Queued);
    if queue_is_empty(front) {
        assert forall|j: int| 0 <= j < n implies !((#[trigger] tasks[j]).status is Queued) by {
            assert(!(front[j].status is Queued));
        }
        assert(is_next(tasks, n));
    } else {
        a_waiting_queue_has_a_next_task(front);
        let b = choose|b: int| is_next(front, b);
        assert(front[b].status is Queued);
        if tasks[n].status is Queued && !runs_before(tasks[b], tasks[n]) {
            assert forall|j: int|
                0 <= j < tasks.len() && (#[trigger] tasks[j]).status is Queued implies runs_before(
                tasks[n],
                tasks[j],
            ) && (j < n ==> !runs_before(tasks[j], tasks[n])) by {
                if j < n {
                    assert(front[j].status is Queued);
                    assert(runs_before(front[b], front[j]));
                }
            }
            assert(is_next(tasks, n));
        } else {
            assert forall|j: int|
                0 <= j < tasks.len() && (#[trigger] tasks[j]).status is Queued implies runs_before(
                tasks[b],
                tasks[j],
            ) && (j < b ==> !runs_before(tasks[j], tasks[b])) by {
                if j < n {
                    assert(front[j].status is Queued);
                }
            }
            assert(is_next(tasks, b));
        }
    }
}

/// Two states with the same registry have the same sessions.
proof fn lemma_same_registry(c: CoreView, d: CoreView)
    requires
        c.sessions == d.sessions,
    ensures
        keeps_sessions(c, d),
{
    assert forall|sid: Seq<char>| #[trigger] c.has_session(sid) implies d.has_session(sid) by {
        let i = choose|i: int|
            0 <= i < c.sessions.len() && (#[trigger] c.sessions[i]).info.id == sid;
        assert(d.sessions[i].info.id == sid);
    }
}

// ---- laws ------------------------------------------------------------------

/// One move: the state stays valid, no more workers are active than the larger
/// of the cap and the count before, no session is lost, one task leaves the queue
/// and runs in a registered session or has failed, and no other task changes.
pub proof fn a_move_starts_one_task(
    c: CoreView,
    config: OrchestratorConfigView,
    saturated: bool,
    m: Move,
    e: CoreView,
)
    requires
        c.valid(),
        leads(c, config, saturated, m, e),
    ensures
        e.valid(),
        count_if(e.sessions, active_worker()) <= at_most(
            config,
            count_if(c.sessions, active_worker()),
        ),
        e.tasks.len() == c.tasks.len(),
        keeps_sessions(c, e),
        forall|j: int| 0 <= j < c.tasks.len() ==> scheduled(c.tasks[j], #[trigger] e.tasks[j], e),
        count_if(e.tasks, waiting()) == count_if(c.tasks, waiting()) - 1,
{
    let d = m.decided;
    let i = choose|i: int|
        #[trigger] admits(c, config, saturated, i) && d == taken(c, i) && (m.decision is Reuse
            ==> m.decision->Reuse_task == c.tasks[i].assigned() && exists|k: int|
            #[trigger] is_first_suited(c.sessions, m.decision->Reuse_task, k)
                && c.sessions[k].info.id == m.decision->session_id) && (m.decision is Launch
            ==> m.decision->Launch_task == c.tasks[i].assigned() && has_slot(c, config));
    lemma_taken_valid(c, i);
    assert(d.tasks[i] == c.tasks[i].assigned());
    match m.decision {
        AdmissionView::Rest => {},
        AdmissionView::Reuse { session_id, task } => {
            let k = choose|k: int|
                #[trigger] is_first_suited(c.sessions, task, k) && c.sessions[k].info.id
                    == session_id;
            assert(suits(c.sessions[k], task));
            assert(d.sessions[k].info.id == session_id);
            lemma_session_at(d, k);
            lemma_worked(d, session_id, i, m.reply);
            assert(e.has_session(session_id));
            assert(keeps_sessions(c, d)) by {
                lemma_same_registry(c, d);
            }
            lemma_keeps(c, d, e);
        },
        AdmissionView::Launch { spec, task } => match m.reply.worker {
            Some(s) => {
                lemma_spawned(d, s, m.reply.line, m.reply.now);
                lemma_spawned_count(d, s, m.reply.line);
                let f = spawned(d, s, m.reply.line).state;
                lemma_worked(f, s.info.id, i, m.reply);
                assert(e.has_session(s.info.id));
                lemma_same_registry(c, d);
                lemma_keeps(c, d, f);
                lemma_keeps(c, f, e);
            },
            None => {
                lemma_task_at(d, i);
                lemma_update_task(
                    d,
                    i,
                    d.task(task.id).failed(m.reply.spawn_error, m.reply.now),
                );
                lemma_same_registry(c, e);
            },
        },
    }
    assert(e.tasks =~= c.tasks.update(i, e.tasks[i]));
    lemma_count_update(c.tasks, waiting(), i, e.tasks[i]);
}

/// A whole round: it ends after at most as many moves as tasks waited; no more
/// workers are ever active than the larger of the cap and the count before it;
/// and every task that was taken runs in a registered session or has failed,
/// while all others are as they were.
pub proof fn a_round_ends_within_the_limits(
    states: Seq<CoreView>,
    moves: Seq<Move>,
    config: OrchestratorConfigView,
    saturated: bool,
)
    requires
        is_round(states, moves, config, saturated),
        states[0].valid(),
    ensures
        ({
            let first = states[0];
            let last = states.last();
            &&& last.valid()
            &&& count_if(last.sessions, active_worker()) <= at_most(
                config,
                count_if(first.sessions, active_worker()),
            )
            &&& moves.len() <= count_if(first.tasks, waiting())
            &&& count_if(last.tasks, waiting()) == count_if(first.tasks, waiting()) - moves.len()
            &&& last.tasks.len() == first.tasks.len()
            &&& keeps_sessions(first, last)
            &&& forall|j: int|
                0 <= j < first.tasks.len() ==> scheduled(
                    first.tasks[j],
                    #[trigger] last.tasks[j],
                    last,
                )
        }),
    decreases moves.len(),
{
    if moves.len() > 0 {
        let n = moves.len() - 1;
        let front = states.drop_last();
        assert(is_round(front, moves.drop_last(), config, saturated)) by {
            assert forall|k: int| 0 <= k < moves.drop_last().len() implies leads(
                front[k],
                config,
                saturated,
                #[trigger] moves.drop_last()[k],
                front[k + 1],
            ) by {
                assert(leads(states[k], config, saturated, moves[k], states[k + 1]));
            }
        }
        a_round_ends_within_the_limits(front, moves.drop_last(), config, saturated);
        assert(leads(states[n], config, saturated, moves[n], states[n + 1]));
        a_move_starts_one_task(states[n], config, saturated, moves[n], states[n + 1]);
        let before = states[n];
        let last = states[n + 1];
        lemma_keeps(states[0], before, last);
        assert forall|j: int| 0 <= j < states[0].tasks.len() implies scheduled(
            states[0].tasks[j],
            #[trigger] last.tasks[j],
            last,
        ) by {
            let t = states[0].tasks[j];
            let u = before.tasks[j];
            assert(scheduled(t, front.last().tasks[j], before));
            assert(scheduled(u, last.tasks[j], last));
            if u != t && runs_in(t, u, before) {
                let (sid, now) = choose|sid: Seq<char>, now: i64|
                    before.has_session(sid) && u == #[trigger] t.assigned().started(sid, now);
                assert(last.has_session(sid));
                assert(u == t.assigned().started(sid, now));
                assert(runs_in(t, u, last));
            }
        }
    }
}

/// Where a round comes to rest, the machine is saturated, the queue is empty, or
/// the cap is reached and no idle worker suits the next task.
pub proof fn a_round_rests_when_nothing_fits(
    c: CoreView,
    config: OrchestratorConfigView,
    saturated: bool,
    d: CoreView,
    r: AdmissionView,
)
    requires
        decides(c, config, saturated, d, r),
        r is Rest,
    ensures
        saturated || queue_is_empty(c.tasks) || (!has_slot(c, config) && exists|i: int|
            #[trigger] is_next(c.tasks, i) && !can_reuse(c, config, c.tasks[i].assigned())),
{
    if !queue_is_empty(c.tasks) {
        a_waiting_queue_has_a_next_task(c.tasks);
        let i = choose|i: int| is_next(c.tasks, i);
        rest_has_a_reason(c, config, saturated, d, r, i);
    }
}

/// A task is admitted wherever one can be: the machine is not saturated, a task
/// waits, and there is a slot.
pub proof fn no_slot_is_left_unused(
    c: CoreView,
    config: OrchestratorConfigView,
    saturated: bool,
    d: CoreView,
    r: AdmissionView,
    w: int,
)
    requires
        decides(c, config, saturated, d, r),
        !saturated,
        0 <= w < c.tasks.len(),
        c.tasks[w].status == TaskStatus::Queued,
        count_if(c.sessions, active_worker()) < config.max_concurrent,
    ensures
        !(r is Rest),
{
    assert(!queue_is_empty(c.tasks));
    a_waiting_queue_has_a_next_task(c.tasks);
    let i = choose|i: int| is_next(c.tasks, i);
    assert(admits(c, config, saturated, i));
}

} // verus!
