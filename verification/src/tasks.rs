//! The task queue: priorities, attempts, completion and crash recovery.
use crate::counting::count_if;
use crate::counting::lemma_count_take;
use crate::effects::add_effect;
use crate::effects::effects_of;
use crate::effects::no_effects;
use crate::effects::Effect;
use crate::effects::EffectView;
use crate::model::Task;
use crate::model::TaskId;
use crate::model::TaskStatus;
use crate::model::TaskView;
use crate::naming::fresh_id;
use crate::naming::is_uuid_v4;
use crate::state::lemma_put_task_at;
use crate::state::task_views;
use crate::state::Core;
use crate::state::CoreView;
use crate::state::Step;
use crate::text::truncate;
use crate::text::truncated;
use vstd::prelude::*;

verus! {

// ---- what happens to a task ------------------------------------------------

/// How much of a turn's summary a task keeps.
pub const SUMMARY_CHARS: usize = 300;

impl TaskView {
    /// Put into the queue under the given id.
    pub open spec fn queued_as(self, id: Seq<char>, now: i64) -> TaskView {
        TaskView { id, status: TaskStatus::Queued, created_at: now, ..self }
    }

    /// Taken from the queue.
    pub open spec fn assigned(self) -> TaskView {
        TaskView { status: TaskStatus::Assigned, ..self }
    }

    /// Handed to a session.
    pub open spec fn started(self, sid: Seq<char>, now: i64) -> TaskView {
        TaskView {
            status: TaskStatus::Running,
            session_id: Some(sid),
            started_at: Some(now),
            attempts: (self.attempts + 1) as u32,
            ..self
        }
    }

    /// Taken out of the queue on request.
    pub open spec fn canceled(self, now: i64) -> TaskView {
        TaskView { status: TaskStatus::Canceled, finished_at: Some(now), ..self }
    }

    /// Given up, for a reason.
    pub open spec fn failed(self, error: Seq<char>, now: i64) -> TaskView {
        TaskView {
            status: TaskStatus::Failed,
            finished_at: Some(now),
            error: Some(error),
            ..self
        }
    }

    /// Brought to its end by a turn.
    pub open spec fn finished(self, is_error: bool, summary: Seq<char>, now: i64) -> TaskView {
        let kept = truncated(summary, SUMMARY_CHARS as int);
        if is_error {
            self.failed(kept, now)
        } else {
            TaskView {
                status: TaskStatus::Done,
                finished_at: Some(now),
                result_summary: Some(kept),
                ..self
            }
        }
    }

    /// Put back into the queue after its session crashed.
    pub open spec fn requeued(self) -> TaskView {
        TaskView { status: TaskStatus::Queued, session_id: None, started_at: None, ..self }
    }

    /// Whether a crash leaves an attempt to spare.
    pub open spec fn may_retry(self) -> bool {
        self.attempts < self.max_attempts
    }
}

// ---- what happens to the queue ---------------------------------------------

/// A task enters the queue; one with the same id gives way to it.
pub open spec fn enqueue(c: CoreView, task: TaskView, id: Seq<char>, now: i64) -> Step {
    let queued = task.queued_as(id, now);
    Step {
        state: if c.has_task(id) {
            c.put_task(id, queued)
        } else {
            CoreView { tasks: c.tasks.push(queued), ..c }
        },
        effects: seq![EffectView::TaskChanged(queued)],
    }
}

/// A task that is still queued leaves the queue.
pub open spec fn cancel(c: CoreView, tid: Seq<char>, now: i64) -> Step {
    if c.has_task(tid) && c.task(tid).status is Queued {
        c.update_task(tid, c.task(tid).canceled(now))
    } else {
        c.unchanged()
    }
}

/// A task fails.
pub open spec fn fail(c: CoreView, tid: Seq<char>, error: Seq<char>, now: i64) -> Step {
    c.update_task(tid, c.task(tid).failed(error, now))
}

/// A task whose session crashed is queued again where the policy and its
/// attempts allow, and fails otherwise.
pub open spec fn recover(c: CoreView, tid: Seq<char>, now: i64) -> Step {
    c.update_task(
        tid,
        if c.config.auto_restart && c.task(tid).may_retry() {
            c.task(tid).requeued()
        } else {
            c.task(tid).failed("session crashed"@, now)
        },
    )
}

// ---- order -----------------------------------------------------------------

/// Whether `a` may stand before `b`: a higher priority first, then the older.
pub open spec fn runs_before(a: TaskView, b: TaskView) -> bool {
    a.priority > b.priority || (a.priority == b.priority && a.created_at <= b.created_at)
}

/// Whether a list of tasks is in the order in which they run.
pub open spec fn in_run_order(tasks: Seq<TaskView>) -> bool {
    forall|i: int, j: int|
        #![trigger tasks[i], tasks[j]]
        0 <= i < j < tasks.len() ==> runs_before(tasks[i], tasks[j])
}

/// Whether the task at index `i` is the one to run next: queued, of the highest
/// priority, the oldest of those, and the first of equals.
pub open spec fn is_next(tasks: Seq<TaskView>, i: int) -> bool {
    &&& 0 <= i < tasks.len()
    &&& tasks[i].status is Queued
    &&& forall|j: int|
        0 <= j < tasks.len() && (#[trigger] tasks[j]).status is Queued ==> runs_before(
            tasks[i],
            tasks[j],
        ) && (j < i ==> !runs_before(tasks[j], tasks[i]))
}

/// The condition of waiting in the queue.
pub open spec fn waiting() -> spec_fn(TaskView) -> bool {
    |t: TaskView| t.status is Queued
}

/// The condition of being under way.
pub open spec fn under_way() -> spec_fn(TaskView) -> bool {
    |t: TaskView| t.status is Running || t.status is Assigned
}

fn stands_before(a: &Task, b: &Task) -> (r: bool)
    ensures
        r == runs_before(a@, b@),
{
    a.priority > b.priority || (a.priority == b.priority && a.created_at <= b.created_at)
}

impl Core {
    /// Queue a task and return its id, which is generated where it has none.
    pub fn enqueue_task(&mut self, task: Task, now: i64) -> (r: (TaskId, Vec<Effect>))
        requires
            old(self).wf(),
        ensures
            final(self).wf(),
            task@.id.len() > 0 ==> r.0@ == task@.id,
            task@.id.len() == 0 ==> is_uuid_v4(r.0@),
            final(self)@ == enqueue(old(self)@, task@, r.0@, now).state,
            effects_of(r.1@) == enqueue(old(self)@, task@, r.0@, now).effects,
    {
        let ghost before = self@;
        let ghost given = task@;
        let mut task = task;
        if task.id.as_str().is_empty() {
            task.id = fresh_id();
        }
        task.status = TaskStatus::Queued;
        task.created_at = now;
        let id = task.id.clone();
        assert(task@ == given.queued_as(id@, now));
        let mut out = no_effects();
        add_effect(&mut out, Effect::TaskChanged(task.clone()));
        assert(effects_of(out@) =~= enqueue(before, given, id@, now).effects);
        match self.find_task(id.as_str()) {
            Some(i) => {
                self.set_task(i, task);
            },
            None => {
                proof {
                    assert forall|i: int| 0 <= i < before.tasks.len() implies (
                    #[trigger] before.tasks[i]).id != id@ by {}
                }
                self.tasks.push(task);
                proof {
                    assert(task_views(self.tasks@) =~= before.tasks.push(task@));
                }
            },
        }
        (id, out)
    }

    /// All tasks in the order in which they run.
    pub fn list_tasks(&self) -> (r: Vec<Task>)
        ensures
            in_run_order(task_views(r@)),
            task_views(r@).to_multiset() == self@.tasks.to_multiset(),
            forall|i: int, j: int|
                #![trigger r@[i], r@[j]]
                0 <= i < j < r@.len() ==> r@[i].priority >= r@[j].priority && (r@[i].priority
                    == r@[j].priority ==> r@[i].created_at <= r@[j].created_at),
    {
        let mut out: Vec<Task> = Vec::new();
        let mut i: usize = 0;
        proof {
            assert(task_views(out@) =~= self@.tasks.take(0));
        }
        while i < self.tasks.len()
            invariant
                i <= self.tasks@.len(),
                in_run_order(task_views(out@)),
                task_views(out@).to_multiset() == self@.tasks.take(i as int).to_multiset(),
            decreases self.tasks@.len() - i,
        {
            let task = self.tasks[i].clone();
            let mut at: usize = out.len();
            while at > 0 && !stands_before(&out[at - 1], &task)
                invariant
                    at <= out@.len(),
                    forall|j: int|
                        at <= j < out@.len() ==> !runs_before(
                            #[trigger] task_views(out@)[j],
                            task@,
                        ),
                decreases at,
            {
                at = at - 1;
            }
            let ghost had = task_views(out@);
            out.insert(at, task);
            proof {
                let all = self@.tasks;
                assert(task_views(out@) =~= had.insert(at as int, task@));
                vstd::seq_lib::to_multiset_insert(had, at as int, task@);
                assert(all.take(i + 1) =~= all.take(i as int).push(all[i as int]));
                vstd::seq_lib::to_multiset_build(all.take(i as int), task@);
                let now_out = task_views(out@);
                assert forall|a: int, b: int|
                    #![trigger now_out[a], now_out[b]]
                    0 <= a < b < now_out.len() implies runs_before(now_out[a], now_out[b]) by {
                    if b < at {
                        assert(runs_before(had[a], had[b]));
                    } else if b == at {
                        assert(runs_before(had[at - 1], task@));
                        if a < at - 1 {
                            assert(runs_before(had[a], had[at - 1]));
                        }
                    } else if a < at {
                        assert(runs_before(had[a], had[b - 1]));
                    } else if a == at {
                        assert(!runs_before(had[b - 1], task@));
                    } else {
                        assert(runs_before(had[a - 1], had[b - 1]));
                    }
                }
            }
            i = i + 1;
        }
        proof {
            assert(self@.tasks.take(i as int) =~= self@.tasks);
            assert forall|a: int, b: int|
                #![trigger out@[a], out@[b]]
                0 <= a < b < out@.len() implies out@[a].priority >= out@[b].priority && (
            out@[a].priority == out@[b].priority ==> out@[a].created_at <= out@[b].created_at) by {
                assert(runs_before(task_views(out@)[a], task_views(out@)[b]));
            }
        }
        out
    }

    /// Take a task that is still queued out of the queue.
    pub fn cancel_task(&mut self, tid: &str, now: i64) -> (r: Vec<Effect>)
        requires
            old(self).wf(),
        ensures
            final(self).wf(),
            final(self)@ == cancel(old(self)@, tid@, now).state,
            effects_of(r@) == cancel(old(self)@, tid@, now).effects,
    {
        let mut out = no_effects();
        match self.find_task(tid) {
            Some(i) => {
                let mut task = self.tasks[i].clone();
                if task.status == TaskStatus::Queued {
                    task.status = TaskStatus::Canceled;
                    task.finished_at = Some(now);
                    self.change_task(i, task, &mut out);
                    assert(effects_of(out@) =~= cancel(old(self)@, tid@, now).effects);
                }
            },
            None => {},
        }
        out
    }

    /// How many tasks are queued, and how many are under way.
    pub fn task_counts(&self) -> (r: (usize, usize))
        ensures
            r.0 == count_if(self@.tasks, waiting()),
            r.1 == count_if(self@.tasks, under_way()),
    {
        let mut queued: usize = 0;
        let mut running: usize = 0;
        let mut i: usize = 0;
        while i < self.tasks.len()
            invariant
                i <= self.tasks@.len(),
                queued <= i,
                running <= i,
                queued == count_if(self@.tasks.take(i as int), waiting()),
                running == count_if(self@.tasks.take(i as int), under_way()),
            decreases self.tasks@.len() - i,
        {
            proof {
                lemma_count_take(self@.tasks, waiting(), i as int);
                lemma_count_take(self@.tasks, under_way(), i as int);
            }
            match self.tasks[i].status {
                TaskStatus::Queued => {
                    queued = queued + 1;
                },
                TaskStatus::Running | TaskStatus::Assigned => {
                    running = running + 1;
                },
                _ => {},
            }
            i = i + 1;
        }
        proof {
            assert(self@.tasks.take(i as int) =~= self@.tasks);
        }
        (queued, running)
    }

    /// Where the next task stands: the queued one of the highest priority, the
    /// oldest of those.
    pub(crate) fn find_next(&self) -> (r: Option<usize>)
        ensures
            match r {
                Some(i) => is_next(self@.tasks, i as int),
                None => forall|i: int|
                    0 <= i < self@.tasks.len() ==> !((
                    #[trigger] self@.tasks[i]).status is Queued),
            },
    {
        let mut best: Option<usize> = None;
        let mut i: usize = 0;
        while i < self.tasks.len()
            invariant
                i <= self.tasks@.len(),
                match best {
                    Some(b) => b < i && is_next(self@.tasks.take(i as int), b as int),
                    None => forall|j: int|
                        0 <= j < i ==> !((#[trigger] self@.tasks[j]).status is Queued),
                },
            decreases self.tasks@.len() - i,
        {
            let ghost all = self@.tasks;
            let ghost front = all.take(i as int);
            let ghost next = all.take(i + 1);
            proof {
                assert(forall|j: int| 0 <= j < i ==> front[j] == all[j]);
                assert(forall|j: int| 0 <= j <= i ==> #[trigger] next[j] == all[j]);
            }
            if self.tasks[i].status == TaskStatus::Queued {
                match best {
                    Some(b) => {
                        assert(front[b as int].status is Queued);
                        if !stands_before(&self.tasks[b], &self.tasks[i]) {
                            best = Some(i);
                            assert forall|j: int|
                                0 <= j < next.len() && (
                                #[trigger] next[j]).status is Queued implies runs_before(
                                next[i as int],
                                next[j],
                            ) && (j < i ==> !runs_before(next[j], next[i as int])) by {
                                if j < i {
                                    assert(front[j].status is Queued);
                                    assert(runs_before(front[b as int], front[j]));
                                }
                            }
                        } else {
                            assert forall|j: int|
                                0 <= j < next.len() && (
                                #[trigger] next[j]).status is Queued implies runs_before(
                                next[b as int],
                                next[j],
                            ) && (j < b ==> !runs_before(next[j], next[b as int])) by {
                                if j < i {
                                    assert(front[j].status is Queued);
                                }
                            }
                        }
                    },
                    None => {
                        best = Some(i);
                        assert(is_next(next, i as int));
                    },
                }
            } else {
                match best {
                    Some(b) => {
                        assert forall|j: int|
                            0 <= j < next.len() && (
                            #[trigger] next[j]).status is Queued implies runs_before(
                            next[b as int],
                            next[j],
                        ) && (j < b ==> !runs_before(next[j], next[b as int])) by {
                            assert(front[j].status is Queued);
                        }
                        assert(front[b as int].status is Queued);
                    },
                    None => {},
                }
            }
            i = i + 1;
        }
        proof {
            assert(self@.tasks.take(i as int) =~= self@.tasks);
        }
        best
    }

    /// Pop the highest-priority queued task, marking it `Assigned`.
    pub fn take_next_task(&mut self) -> (r: Option<Task>)
        requires
            old(self).wf(),
        ensures
            final(self).wf(),
            match r {
                Some(t) => exists|i: int|
                    {
                        &&& #[trigger] is_next(old(self)@.tasks, i)
                        &&& t@ == old(self)@.tasks[i].assigned()
                        &&& final(self)@ == (CoreView {
                            tasks: old(self)@.tasks.update(i, t@),
                            ..old(self)@
                        })
                        &&& old(self)@.tasks[i].status is Queued
                        &&& forall|q: int|
                            0 <= q < old(self)@.tasks.len() && (
                            #[trigger] old(self)@.tasks[q]).status is Queued ==> t.priority
                                >= old(self)@.tasks[q].priority && (t.priority
                                == old(self)@.tasks[q].priority ==> t.created_at
                                <= old(self)@.tasks[q].created_at)
                    },
                None => {
                    &&& final(self)@ == old(self)@
                    &&& forall|i: int|
                        0 <= i < old(self)@.tasks.len() ==> !((
                        #[trigger] old(self)@.tasks[i]).status is Queued)
                },
            },
    {
        match self.find_next() {
            Some(b) => {
                let mut task = self.tasks[b].clone();
                task.status = TaskStatus::Assigned;
                proof {
                    lemma_put_task_at(self@, b as int, task@);
                }
                self.set_task(b, task.clone());
                assert(is_next(old(self)@.tasks, b as int));
                Some(task)
            },
            None => None,
        }
    }

    /// Give a task up, for a reason.
    pub fn fail_task(&mut self, tid: &str, err: &str, now: i64) -> (r: Vec<Effect>)
        requires
            old(self).wf(),
        ensures
            final(self).wf(),
            final(self)@ == fail(old(self)@, tid@, err@, now).state,
            effects_of(r@) == fail(old(self)@, tid@, err@, now).effects,
    {
        let mut out = no_effects();
        match self.find_task(tid) {
            Some(i) => {
                let mut task = self.tasks[i].clone();
                task.status = TaskStatus::Failed;
                task.finished_at = Some(now);
                task.error = Some(err.to_owned());
                self.change_task(i, task, &mut out);
                assert(effects_of(out@) =~= fail(old(self)@, tid@, err@, now).effects);
            },
            None => {},
        }
        out
    }

    /// Re-queue the task of a crashed session if policy allows.
    pub fn recover_task(&mut self, tid: &str, now: i64) -> (r: Vec<Effect>)
        requires
            old(self).wf(),
        ensures
            final(self).wf(),
            final(self)@ == recover(old(self)@, tid@, now).state,
            effects_of(r@) == recover(old(self)@, tid@, now).effects,
    {
        let mut out = no_effects();
        match self.find_task(tid) {
            Some(i) => {
                let mut task = self.tasks[i].clone();
                if self.config.auto_restart && task.attempts < task.max_attempts {
                    task.status = TaskStatus::Queued;
                    task.session_id = None;
                    task.started_at = None;
                } else {
                    task.status = TaskStatus::Failed;
                    task.finished_at = Some(now);
                    task.error = Some("session crashed".to_owned());
                }
                self.change_task(i, task, &mut out);
                assert(effects_of(out@) =~= recover(old(self)@, tid@, now).effects);
            },
            None => {},
        }
        out
    }

    /// Complete, or fail, a task whose turn came to its end.
    pub(crate) fn finish_task(
        &mut self,
        tid: &str,
        is_error: bool,
        summary: &str,
        now: i64,
    ) -> (r: Vec<Effect>)
        requires
            old(self).wf(),
        ensures
            final(self).wf(),
            final(self)@ == old(self)@.update_task(
                tid@,
                old(self)@.task(tid@).finished(is_error, summary@, now),
            ).state,
            effects_of(r@) == old(self)@.update_task(
                tid@,
                old(self)@.task(tid@).finished(is_error, summary@, now),
            ).effects,
    {
        let mut out = no_effects();
        match self.find_task(tid) {
            Some(i) => {
                let mut task = self.tasks[i].clone();
                task.finished_at = Some(now);
                if is_error {
                    task.status = TaskStatus::Failed;
                    task.error = Some(truncate(summary, SUMMARY_CHARS));
                } else {
                    task.status = TaskStatus::Done;
                    task.result_summary = Some(truncate(summary, SUMMARY_CHARS));
                }
                self.change_task(i, task, &mut out);
                assert(effects_of(out@) =~= old(self)@.update_task(
                    tid@,
                    old(self)@.task(tid@).finished(is_error, summary@, now),
                ).effects);
            },
            None => {},
        }
        out
    }
}

/// The next task is one: no two places in the list are next.
pub proof fn the_next_task_is_unique(tasks: Seq<TaskView>, i: int, j: int)
    requires
        is_next(tasks, i),
        is_next(tasks, j),
    ensures
        i == j,
{
    if i < j {
        assert(tasks[i].status is Queued);
        assert(runs_before(tasks[i], tasks[j]));
    } else if j < i {
        assert(tasks[j].status is Queued);
        assert(runs_before(tasks[j], tasks[i]));
    }
}

} // verus!
