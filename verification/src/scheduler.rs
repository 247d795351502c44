//! The scheduler: which queued task runs next and where, under the concurrency
//! cap and the session-pooling policy.
use crate::counting::count_if;
use crate::counting::lemma_count_take;
use crate::counting::lemma_count_update;
use crate::lifecycle::assigned_to;
use crate::lifecycle::message_delivered;
use crate::model::OrchestratorConfig;
use crate::model::OrchestratorConfigView;
use crate::model::SessionId;
use crate::model::SessionMode;
use crate::model::SessionSpec;
use crate::model::SessionSpecView;
use crate::model::SessionStatus;
use crate::model::Task;
use crate::model::TaskStatus;
use crate::model::TaskView;
use crate::spawning::spawned;
use crate::state::lemma_put_session_at;
use crate::state::lemma_put_session_valid;
use crate::state::lemma_put_task_at;
use crate::state::lemma_put_task_valid;
use crate::state::lemma_session_at;
use crate::state::lemma_task_at;
use crate::state::Core;
use crate::state::CoreView;
use crate::state::SessionView;
use crate::tasks::is_next;
use crate::tasks::the_next_task_is_unique;
use crate::text::clone_opt;
use crate::text::same_opt;
use crate::text::same_text;
use vstd::prelude::*;

verus! {

/// How long the host waits between two rounds of scheduling, in milliseconds.
pub const TICK_MS: u64 = 400;

// ---- what is counted and looked for ----------------------------------------

/// The condition of being a worker that occupies a concurrency slot.
pub open spec fn active_worker() -> spec_fn(SessionView) -> bool {
    |s: SessionView| s.info.mode is Headless && s.info.status.active()
}

/// Whether a session is an idle pooled worker that matches a task's context.
pub open spec fn suits(s: SessionView, task: TaskView) -> bool {
    &&& s.info.mode is Headless
    &&& s.info.status is Idle
    &&& s.info.current_task is None
    &&& s.info.cwd == task.cwd
    &&& s.spec.model == task.model
}

/// Whether the session at index `i` is the first one that suits a task.
pub open spec fn is_first_suited(sessions: Seq<SessionView>, task: TaskView, i: int) -> bool {
    &&& 0 <= i < sessions.len()
    &&& suits(sessions[i], task)
    &&& forall|j: int| 0 <= j < i ==> !suits(#[trigger] sessions[j], task)
}

/// Whether no session suits a task.
pub open spec fn none_suits(sessions: Seq<SessionView>, task: TaskView) -> bool {
    forall|j: int| 0 <= j < sessions.len() ==> !suits(#[trigger] sessions[j], task)
}

/// Whether no task waits in the queue.
pub open spec fn queue_is_empty(tasks: Seq<TaskView>) -> bool {
    forall|i: int| 0 <= i < tasks.len() ==> !((#[trigger] tasks[i]).status is Queued)
}

/// The worker that a task calls for.
pub open spec fn worker_for(task: TaskView) -> SessionSpecView {
    SessionSpecView {
        name: None,
        mode: SessionMode::Headless,
        cwd: task.cwd,
        model: task.model,
        permission_mode: task.permission_mode,
        allowed_tools: task.allowed_tools,
        initial_prompt: None,
        resume: None,
    }
}

// ---- decisions -------------------------------------------------------------

/// What the scheduler decides.
#[derive(Debug)]
pub enum Admission {
    /// Nothing more to do in this round.
    Rest,
    /// Hand the task to an idle pooled worker.
    Reuse { session_id: SessionId, task: Task },
    /// Start a fresh worker for the task.
    Launch { spec: SessionSpec, task: Task },
}

/// The mathematical content of an [`Admission`].
#[allow(inconsistent_fields)]
pub enum AdmissionView {
    Rest,
    Reuse { session_id: Seq<char>, task: TaskView },
    Launch { spec: SessionSpecView, task: TaskView },
}

impl View for Admission {
    type V = AdmissionView;

    open spec fn view(&self) -> AdmissionView {
        match *self {
            Admission::Rest => AdmissionView::Rest,
            Admission::Reuse { session_id, task } => AdmissionView::Reuse {
                session_id: session_id@,
                task: task@,
            },
            Admission::Launch { spec, task } => AdmissionView::Launch { spec: spec@, task: task@ },
        }
    }
}

/// Whether there is a slot for a fresh worker.
pub open spec fn has_slot(c: CoreView, config: OrchestratorConfigView) -> bool {
    count_if(c.sessions, active_worker()) < config.max_concurrent
}

/// Whether an idle pooled worker can take a task; that needs no slot.
pub open spec fn can_reuse(c: CoreView, config: OrchestratorConfigView, task: TaskView) -> bool {
    config.session_pooling && !none_suits(c.sessions, task)
}

/// Whether the task at index `i` is next and can be admitted: the machine is not
/// saturated, and there is a slot or an idle worker that suits it.
pub open spec fn admits(
    c: CoreView,
    config: OrchestratorConfigView,
    saturated: bool,
    i: int,
) -> bool {
    &&& !saturated
    &&& is_next(c.tasks, i)
    &&& has_slot(c, config) || can_reuse(c, config, c.tasks[i].assigned())
}

/// Whether a task can be admitted.
pub open spec fn may_admit(
    c: CoreView,
    config: OrchestratorConfigView,
    saturated: bool,
) -> bool {
    exists|i: int| #[trigger] admits(c, config, saturated, i)
}

/// The state once the task at index `i` is taken from the queue.
pub open spec fn taken(c: CoreView, i: int) -> CoreView {
    CoreView { tasks: c.tasks.update(i, c.tasks[i].assigned()), ..c }
}

/// Whether `r` is the decision in state `c`, and `d` the state it leads to. A
/// task that is admitted is the next in the queue; where pooling is on and an
/// idle worker suits it, that worker is reused, otherwise one is launched, which
/// takes a slot.
pub open spec fn decides(
    c: CoreView,
    config: OrchestratorConfigView,
    saturated: bool,
    d: CoreView,
    r: AdmissionView,
) -> bool {
    if may_admit(c, config, saturated) {
        exists|i: int|
            {
                &&& #[trigger] admits(c, config, saturated, i)
                &&& d == taken(c, i)
                &&& match r {
                    AdmissionView::Rest => false,
                    AdmissionView::Reuse { session_id, task } => {
                        &&& config.session_pooling
                        &&& task == c.tasks[i].assigned()
                        &&& exists|k: int|
                            #[trigger] is_first_suited(c.sessions, task, k)
                                && c.sessions[k].info.id == session_id
                    },
                    AdmissionView::Launch { spec, task } => {
                        &&& task == c.tasks[i].assigned()
                        &&& spec == worker_for(task)
                        &&& has_slot(c, config)
                        &&& config.session_pooling ==> none_suits(c.sessions, task)
                    },
                }
            }
    } else {
        r is Rest && d == c
    }
}

impl Core {
    /// How many workers occupy a concurrency slot.
    pub fn count_active_headless(&self) -> (r: usize)
        ensures
            r == count_if(self@.sessions, active_worker()),
    {
        let mut n: usize = 0;
        let mut i: usize = 0;
        while i < self.sessions.len()
            invariant
                i <= self.sessions@.len(),
                n <= i,
                n == count_if(self@.sessions.take(i as int), active_worker()),
            decreases self.sessions@.len() - i,
        {
            proof {
                lemma_count_take(self@.sessions, active_worker(), i as int);
            }
            if self.sessions[i].info.mode == SessionMode::Headless
                && self.sessions[i].info.status.is_active() {
                n = n + 1;
            }
            i = i + 1;
        }
        proof {
            assert(self@.sessions.take(i as int) =~= self@.sessions);
        }
        n
    }

    /// Find an idle pooled headless session matching a task's context.
    pub fn find_idle_session(&self, task: &Task) -> (r: Option<SessionId>)
        ensures
            match r {
                Some(sid) => exists|k: int|
                    #[trigger] is_first_suited(self@.sessions, task@, k)
                        && self@.sessions[k].info.id == sid@,
                None => none_suits(self@.sessions, task@),
            },
    {
        let mut i: usize = 0;
        while i < self.sessions.len()
            invariant
                i <= self.sessions@.len(),
                forall|j: int| 0 <= j < i ==> !suits(#[trigger] self@.sessions[j], task@),
            decreases self.sessions@.len() - i,
        {
            let s = &self.sessions[i];
            if s.info.mode == SessionMode::Headless && s.info.status == SessionStatus::Idle
                && s.info.current_task.is_none() && same_text(
                s.info.cwd.as_str(),
                task.cwd.as_str(),
            ) && same_opt(&s.spec.model, &task.model) {
                assert(is_first_suited(self@.sessions, task@, i as int));
                return Some(s.info.id.clone());
            }
            i = i + 1;
        }
        None
    }

    /// Admit the next task, if the limits allow. `saturated` tells whether the
    /// machine is above a threshold of the policy.
    pub fn schedule_next(&mut self, config: &OrchestratorConfig, saturated: bool) -> (r: Admission)
        requires
            old(self).wf(),
        ensures
            final(self).wf(),
            decides(old(self)@, config@, saturated, final(self)@, r@),
    {
        if saturated {
            return Admission::Rest;
        }
        let ghost before = self@;
        let next: usize = match self.find_next() {
            Some(i) => i,
            None => {
                return Admission::Rest;
            },
        };
        let mut task = self.tasks[next].clone();
        task.status = TaskStatus::Assigned;
        let mut pooled: Option<SessionId> = None;
        if config.session_pooling {
            pooled = self.find_idle_session(&task);
        }
        assert(pooled is Some <==> can_reuse(before, config@, task@)) by {
            if pooled is Some {
                let k = choose|k: int|
                    #[trigger] is_first_suited(before.sessions, task@, k)
                        && before.sessions[k].info.id == pooled->0@;
                assert(suits(before.sessions[k], task@));
            }
        }
        if pooled.is_none() && self.count_active_headless() >= config.max_concurrent {
            assert forall|i: int| #[trigger]
                admits(before, config@, saturated, i) implies false by {
                the_next_task_is_unique(before.tasks, i, next as int);
            }
            return Admission::Rest;
        }
        proof {
            assert(admits(before, config@, saturated, next as int));
            lemma_put_task_at(before, next as int, task@);
        }
        self.set_task(next, task.clone());
        assert(self@ == taken(before, next as int));
        match pooled {
            Some(session_id) => Admission::Reuse { session_id, task },
            None => {
                let spec = SessionSpec {
                    name: None,
                    mode: SessionMode::Headless,
                    cwd: task.cwd.clone(),
                    model: clone_opt(&task.model),
                    permission_mode: clone_opt(&task.permission_mode),
                    allowed_tools: clone_opt(&task.allowed_tools),
                    initial_prompt: None,
                    resume: None,
                };
                assert(spec@ == worker_for(task@));
                Admission::Launch { spec, task }
            },
        }
    }
}

// ---- laws ------------------------------------------------------------------

/// Registering a session occupies at most one slot more.
pub(crate) proof fn lemma_spawned_count(c: CoreView, session: SessionView, line: Seq<char>)
    requires
        c.valid(),
    ensures
        count_if(spawned(c, session, line).state.sessions, active_worker()) <= count_if(
            c.sessions,
            active_worker(),
        ) + 1,
{
    let sid = session.info.id;
    if c.has_session(sid) {
        let k = choose|k: int| 0 <= k < c.sessions.len() && (#[trigger] c.sessions[k]).info.id == sid;
        lemma_put_session_at(c, k, session);
        lemma_count_update(c.sessions, active_worker(), k, session);
    } else {
        assert(c.sessions.push(session).drop_last() =~= c.sessions);
    }
}

/// The scheduler never exceeds the concurrency cap: once a worker that it
/// decided to launch is registered, no more workers are active than the policy
/// allows.
pub proof fn launches_respect_the_cap(
    c: CoreView,
    config: OrchestratorConfigView,
    saturated: bool,
    d: CoreView,
    r: AdmissionView,
    session: SessionView,
    line: Seq<char>,
)
    requires
        c.valid(),
        decides(c, config, saturated, d, r),
        r is Launch,
    ensures
        count_if(spawned(d, session, line).state.sessions, active_worker())
            <= config.max_concurrent,
{
    let i = choose|i: int| #[trigger] admits(c, config, saturated, i) && d == taken(c, i);
    lemma_taken_valid(c, i);
    lemma_spawned_count(d, session, line);
}

pub(crate) proof fn lemma_taken_valid(c: CoreView, i: int)
    requires
        c.valid(),
        0 <= i < c.tasks.len(),
    ensures
        taken(c, i).valid(),
        taken(c, i) == c.put_task(c.tasks[i].id, c.tasks[i].assigned()),
{
    lemma_put_task_at(c, i, c.tasks[i].assigned());
    lemma_put_task_valid(c, c.tasks[i].id, c.tasks[i].assigned());
    assert(taken(c, i) == c.put_task(c.tasks[i].id, c.tasks[i].assigned()));
}

/// While the machine is saturated nothing is admitted and nothing changes; at
/// the cap nothing is launched.
pub proof fn no_admission_beyond_the_limits(
    c: CoreView,
    config: OrchestratorConfigView,
    saturated: bool,
    d: CoreView,
    r: AdmissionView,
)
    requires
        decides(c, config, saturated, d, r),
    ensures
        saturated ==> r is Rest && d == c,
        !has_slot(c, config) ==> !(r is Launch),
{
}

/// The scheduler rests for a reason only: the machine is saturated, no task
/// waits, or the cap is reached and no idle worker suits the next task.
pub proof fn rest_has_a_reason(
    c: CoreView,
    config: OrchestratorConfigView,
    saturated: bool,
    d: CoreView,
    r: AdmissionView,
    i: int,
)
    requires
        decides(c, config, saturated, d, r),
        r is Rest,
        is_next(c.tasks, i),
    ensures
        d == c,
        saturated || (!has_slot(c, config) && !can_reuse(c, config, c.tasks[i].assigned())),
{
    if may_admit(c, config, saturated) {
        let j = choose|j: int| #[trigger] admits(c, config, saturated, j) && d == taken(c, j);
    } else {
        assert(!admits(c, config, saturated, i));
    }
}

/// Reusing a pooled worker occupies no further slot: as many workers are active
/// once it works on the task as before.
pub proof fn reuse_takes_no_slot(
    c: CoreView,
    config: OrchestratorConfigView,
    saturated: bool,
    d: CoreView,
    r: AdmissionView,
    now: i64,
)
    requires
        c.valid(),
        decides(c, config, saturated, d, r),
        r is Reuse,
    ensures
        ({
            let e = assigned_to(d, r->session_id, r->Reuse_task.id, now).state;
            let f = message_delivered(e, r->session_id, r->Reuse_task.prompt, now).state;
            &&& count_if(f.sessions, active_worker()) == count_if(c.sessions, active_worker())
            &&& f.has_session(r->session_id)
            &&& f.info(r->session_id).current_task == Some(r->Reuse_task.id)
            &&& f.info(r->session_id).status is Busy
        }),
{
    let sid = r->session_id;
    let task = r->Reuse_task;
    let i = choose|i: int|
        #[trigger] admits(c, config, saturated, i) && d == taken(c, i) && task
            == c.tasks[i].assigned();
    let k = choose|k: int|
        #[trigger] is_first_suited(c.sessions, task, k) && c.sessions[k].info.id == sid;
    assert(suits(c.sessions[k], task));
    lemma_taken_valid(c, i);
    let after_task = d.update_task(task.id, d.task(task.id).started(sid, now)).state;
    assert(d.tasks[i].id == task.id);
    assert(d.has_task(task.id));
    lemma_task_at(d, i);
    lemma_put_task_valid(d, task.id, d.task(task.id).started(sid, now));
    assert(after_task.sessions == c.sessions);
    lemma_session_at(after_task, k);
    let bound = SessionView {
        info: after_task.info(sid).bound_to(task.id).touched(now),
        ..after_task.session(sid)
    };
    assert(after_task.sessions[k].coherent());
    assert(bound.info.attached ==> after_task.attach_lru.contains(sid)) by {
        assert(after_task.sessions[k].info.attached ==> after_task.attach_lru.contains(
            after_task.sessions[k].info.id,
        ));
    }
    lemma_put_session_at(after_task, k, bound);
    lemma_put_session_valid(after_task, sid, bound);
    lemma_count_update(after_task.sessions, active_worker(), k, bound);
    let e = assigned_to(d, sid, task.id, now).state;
    assert(e == after_task.put_session(sid, bound));
    assert(e.sessions[k] == bound);
    lemma_session_at(e, k);
    let busy = SessionView { info: e.info(sid).working().touched(now), ..e.session(sid) };
    assert(e.sessions[k].coherent());
    assert(busy.info.attached ==> e.attach_lru.contains(sid)) by {
        assert(e.sessions[k].info.attached ==> e.attach_lru.contains(e.sessions[k].info.id));
    }
    lemma_put_session_at(e, k, busy);
    lemma_put_session_valid(e, sid, busy);
    lemma_count_update(e.sessions, active_worker(), k, busy);
    let f = message_delivered(e, sid, task.prompt, now).state;
    assert(f == e.put_session(sid, busy));
    assert(f.sessions[k] == busy);
    lemma_session_at(f, k);
}

/// An admitted task is in the queue no longer, so no later round admits it
/// again while it is under way.
pub proof fn a_task_is_admitted_once(
    c: CoreView,
    config: OrchestratorConfigView,
    saturated: bool,
    d: CoreView,
    r: AdmissionView,
)
    requires
        c.valid(),
        decides(c, config, saturated, d, r),
        !(r is Rest),
    ensures
        exists|i: int|
            #[trigger] is_next(c.tasks, i) && d.tasks[i].status is Assigned && !is_next(d.tasks, i),
{
    let i = choose|i: int| #[trigger] admits(c, config, saturated, i) && d == taken(c, i);
    assert(d.tasks[i].status is Assigned);
    assert(!is_next(d.tasks, i));
}

/// A worker occupies a slot exactly while it is headless and starting, idle or
/// busy.
pub proof fn what_occupies_a_slot(s: SessionView)
    ensures
        active_worker()(s) <==> s.info.mode == SessionMode::Headless && (s.info.status
            == SessionStatus::Starting || s.info.status == SessionStatus::Idle || s.info.status
            == SessionStatus::Busy),
{
}

/// A task is handed to a pooled session only if that is an idle worker without a
/// task, in the task's directory and launched with the task's model, and only
/// where pooling is on.
pub proof fn a_reused_worker_matches_the_task(
    c: CoreView,
    config: OrchestratorConfigView,
    saturated: bool,
    d: CoreView,
    r: AdmissionView,
)
    requires
        c.valid(),
        decides(c, config, saturated, d, r),
        r is Reuse,
    ensures
        config.session_pooling,
        !saturated,
        c.has_session(r->session_id),
        c.session(r->session_id).info.cwd == r->Reuse_task.cwd,
        c.session(r->session_id).spec.model == r->Reuse_task.model,
        c.session(r->session_id).info.mode == SessionMode::Headless,
        c.session(r->session_id).info.status == SessionStatus::Idle,
        c.session(r->session_id).info.current_task is None,
        d.sessions == c.sessions,
{
    let k = choose|k: int|
        #[trigger] is_first_suited(c.sessions, r->Reuse_task, k) && c.sessions[k].info.id
            == r->session_id;
    lemma_session_at(c, k);
}

/// A worker is launched for a task exactly as the task asks: its directory, its
/// model, its permission mode and its tools, and nothing to say or to resume.
/// With pooling on, no idle worker in that directory and with that model was
/// left over; and there is a slot.
pub proof fn a_launched_worker_matches_the_task(
    c: CoreView,
    config: OrchestratorConfigView,
    saturated: bool,
    d: CoreView,
    r: AdmissionView,
    k: int,
)
    requires
        decides(c, config, saturated, d, r),
        r is Launch,
        0 <= k < c.sessions.len(),
    ensures
        r->spec.mode == SessionMode::Headless,
        r->spec.cwd == r->Launch_task.cwd,
        r->spec.model == r->Launch_task.model,
        r->spec.permission_mode == r->Launch_task.permission_mode,
        r->spec.allowed_tools == r->Launch_task.allowed_tools,
        r->spec.name is None,
        r->spec.initial_prompt is None,
        r->spec.resume is None,
        !saturated,
        count_if(c.sessions, active_worker()) < config.max_concurrent,
        config.session_pooling ==> !(c.sessions[k].info.mode == SessionMode::Headless
            && c.sessions[k].info.status == SessionStatus::Idle
            && c.sessions[k].info.current_task is None && c.sessions[k].info.cwd
            == r->Launch_task.cwd && c.sessions[k].spec.model == r->Launch_task.model),
        d.sessions == c.sessions,
{
}

/// The task that is admitted was queued, and no queued task has a higher
/// priority or, with the same priority, is older; it is marked as assigned, and
/// nothing else of it or of any other task changes.
pub proof fn the_admitted_task_was_first(
    c: CoreView,
    config: OrchestratorConfigView,
    saturated: bool,
    d: CoreView,
    r: AdmissionView,
)
    requires
        decides(c, config, saturated, d, r),
        !(r is Rest),
    ensures
        exists|i: int|
            {
                let t = if r is Reuse {
                    r->Reuse_task
                } else {
                    r->Launch_task
                };
                &&& 0 <= i < c.tasks.len()
                &&& (#[trigger] c.tasks[i]).status == TaskStatus::Queued
                &&& t == (TaskView { status: TaskStatus::Assigned, ..c.tasks[i] })
                &&& d == (CoreView { tasks: c.tasks.update(i, t), ..c })
                &&& forall|q: int|
                    0 <= q < c.tasks.len() && (#[trigger] c.tasks[q]).status
                        == TaskStatus::Queued ==> c.tasks[i].priority >= c.tasks[q].priority && (
                    c.tasks[i].priority == c.tasks[q].priority ==> c.tasks[i].created_at
                        <= c.tasks[q].created_at)
            },
{
    let i = choose|i: int|
        #[trigger] admits(c, config, saturated, i) && d == taken(c, i) && (r is Reuse
            ==> r->Reuse_task == c.tasks[i].assigned()) && (r is Launch ==> r->Launch_task
            == c.tasks[i].assigned());
    assert(is_next(c.tasks, i));
    assert(c.tasks[i].status == TaskStatus::Queued);
}

/// An idle worker is put to use, whether or not there is a slot: where pooling is
/// on, the machine is not saturated, and the task that is ahead of all that wait
/// is for a worker's directory and model, that task goes to such a worker, the
/// first one in the registry.
pub proof fn an_idle_worker_is_put_to_use(
    c: CoreView,
    config: OrchestratorConfigView,
    saturated: bool,
    d: CoreView,
    r: AdmissionView,
    i: int,
    k: int,
)
    requires
        decides(c, config, saturated, d, r),
        !saturated,
        config.session_pooling,
        0 <= i < c.tasks.len(),
        c.tasks[i].status == TaskStatus::Queued,
        forall|q: int|
            0 <= q < c.tasks.len() && q != i && (#[trigger] c.tasks[q]).status
                == TaskStatus::Queued ==> c.tasks[i].priority > c.tasks[q].priority || (
            c.tasks[i].priority == c.tasks[q].priority && c.tasks[i].created_at
                < c.tasks[q].created_at),
        0 <= k < c.sessions.len(),
        c.sessions[k].info.mode == SessionMode::Headless,
        c.sessions[k].info.status == SessionStatus::Idle,
        c.sessions[k].info.current_task is None,
        c.sessions[k].info.cwd == c.tasks[i].cwd,
        c.sessions[k].spec.model == c.tasks[i].model,
    ensures
        r is Reuse,
        r->Reuse_task == (TaskView { status: TaskStatus::Assigned, ..c.tasks[i] }),
        exists|j: int| 0 <= j <= k && (#[trigger] c.sessions[j]).info.id == r->session_id,
{
    let t = c.tasks[i].assigned();
    assert(is_next(c.tasks, i));
    assert(suits(c.sessions[k], t));
    assert(!none_suits(c.sessions, t));
    assert(admits(c, config, saturated, i));
    let j = choose|j: int|
        #[trigger] admits(c, config, saturated, j) && d == taken(c, j) && (r is Reuse
            ==> r->Reuse_task == c.tasks[j].assigned()) && (r is Launch ==> r->Launch_task
            == c.tasks[j].assigned() && none_suits(c.sessions, c.tasks[j].assigned())) && !(
        r is Rest);
    the_next_task_is_unique(c.tasks, i, j);
    let w = choose|w: int|
        #[trigger] is_first_suited(c.sessions, r->Reuse_task, w) && c.sessions[w].info.id
            == r->session_id;
    assert(w <= k);
    assert(c.sessions[w].info.id == r->session_id);
}

/// At the cap, and with no idle worker for the task that is ahead of all that
/// wait, nothing is admitted; neither is anything where no task waits.
pub proof fn nothing_is_admitted_without_room(
    c: CoreView,
    config: OrchestratorConfigView,
    saturated: bool,
    d: CoreView,
    r: AdmissionView,
)
    requires
        decides(c, config, saturated, d, r),
        ({
            ||| saturated
            ||| forall|q: int|
                0 <= q < c.tasks.len() ==> (#[trigger] c.tasks[q]).status != TaskStatus::Queued
            ||| count_if(c.sessions, active_worker()) >= config.max_concurrent && (
            !config.session_pooling || forall|k: int|
                0 <= k < c.sessions.len() ==> (#[trigger] c.sessions[k]).info.status
                    != SessionStatus::Idle || c.sessions[k].info.current_task is Some)
        }),
    ensures
        r is Rest,
        d == c,
{
    if may_admit(c, config, saturated) {
        let i = choose|i: int| #[trigger] admits(c, config, saturated, i);
        assert(c.tasks[i].status is Queued);
        assert(!has_slot(c, config));
        let t = c.tasks[i].assigned();
        let k = choose|k: int| 0 <= k < c.sessions.len() && suits(#[trigger] c.sessions[k], t);
        assert(c.sessions[k].info.status is Idle);
    }
}

} // verus!
