//! The orchestrator's state: the session registry, the tasks, the policy and
//! the order in which sessions were attached.
use crate::effects::add_effect;
use crate::effects::effects_of;
use crate::effects::Effect;
use crate::effects::EffectView;
use crate::model::OrchestratorConfig;
use crate::model::OrchestratorConfigView;
use crate::model::SessionId;
use crate::model::SessionInfo;
use crate::model::SessionInfoView;
use crate::model::SessionSpec;
use crate::model::SessionSpecView;
use crate::model::Task;
use crate::model::TaskView;
use crate::ring::RingBuffer;
use crate::text::same_text;
use crate::text::texts;
use vstd::prelude::*;

verus! {

/// Where a session's input goes.
#[derive(Debug, Clone, Copy, PartialEq, Eq, Structural)]
pub enum Transport {
    /// Headless worker: a JSON line written to the child's stdin per turn.
    Headless,
    /// Terminal: raw keystrokes written to the pseudo terminal.
    Interactive,
}

/// The state of one session: its [`SessionInfo`], the spec it was launched from
/// (for restart/snapshot) and its recent output.
pub struct Session {
    pub info: SessionInfo,
    pub spec: SessionSpec,
    pub transport: Transport,
    /// Recent terminal output, replayed to the UI on attach (terminals only).
    pub ring: RingBuffer,
    /// Whether the readers of the session's output were asked to stop.
    pub stop: bool,
}

/// The mathematical content of a [`Session`].
pub struct SessionView {
    pub info: SessionInfoView,
    pub spec: SessionSpecView,
    pub transport: Transport,
    pub ring: Seq<u8>,
    pub ring_capacity: int,
    pub stop: bool,
}

impl SessionView {
    /// A session in headless mode, and no other, is fed by messages; no more
    /// output is retained than there is room for.
    pub open spec fn coherent(self) -> bool {
        &&& (self.info.mode is Headless) == (self.transport is Headless)
        &&& self.ring.len() <= self.ring_capacity
    }
}

impl View for Session {
    type V = SessionView;

    open spec fn view(&self) -> SessionView {
        SessionView {
            info: self.info@,
            spec: self.spec@,
            transport: self.transport,
            ring: self.ring@,
            ring_capacity: self.ring.capacity(),
            stop: self.stop,
        }
    }
}

/// How many terminals are ever rendered at once, whatever the policy says.
pub const MAX_RENDERED: usize = 4;

/// Everything the orchestrator knows.
pub struct Core {
    pub config: OrchestratorConfig,
    pub sessions: Vec<Session>,
    pub tasks: Vec<Task>,
    /// Attach order, oldest first; the tail is the most recently attached.
    pub attach_lru: Vec<SessionId>,
}

/// The mathematical content of a [`Core`].
pub struct CoreView {
    pub config: OrchestratorConfigView,
    pub sessions: Seq<SessionView>,
    pub tasks: Seq<TaskView>,
    pub attach_lru: Seq<Seq<char>>,
}

/// The views of the registered sessions.
pub open spec fn session_views(v: Seq<Session>) -> Seq<SessionView> {
    v.map_values(|s: Session| s@)
}

/// The views of the tasks.
pub open spec fn task_views(v: Seq<Task>) -> Seq<TaskView> {
    v.map_values(|t: Task| t@)
}

impl View for Core {
    type V = CoreView;

    open spec fn view(&self) -> CoreView {
        CoreView {
            config: self.config@,
            sessions: session_views(self.sessions@),
            tasks: task_views(self.tasks@),
            attach_lru: texts(self.attach_lru@),
        }
    }
}

/// A state together with what the host has to do to get there.
pub struct Step {
    pub state: CoreView,
    pub effects: Seq<EffectView>,
}

impl Step {
    /// One more effect.
    pub open spec fn and(self, effect: EffectView) -> Step {
        Step { effects: self.effects.push(effect), ..self }
    }

    /// One more log line.
    pub open spec fn log(self, sid: Seq<char>, kind: Seq<char>, text: Seq<char>) -> Step {
        self.and(EffectView::Log { session_id: sid, kind, text })
    }

    /// Then another step, which starts from this one's state.
    pub open spec fn then_step(self, next: Step) -> Step {
        Step { state: next.state, effects: self.effects + next.effects }
    }
}

impl CoreView {
    // ---- sessions ----------------------------------------------------------

    /// Whether a session with this id is registered.
    pub open spec fn has_session(self, sid: Seq<char>) -> bool {
        exists|i: int| 0 <= i < self.sessions.len() && (#[trigger] self.sessions[i]).info.id == sid
    }

    /// The session with this id.
    pub open spec fn session(self, sid: Seq<char>) -> SessionView
        recommends
            self.has_session(sid),
    {
        self.sessions[choose|i: int|
            0 <= i < self.sessions.len() && (#[trigger] self.sessions[i]).info.id == sid]
    }

    /// The info of the session with this id.
    pub open spec fn info(self, sid: Seq<char>) -> SessionInfoView {
        self.session(sid).info
    }

    /// The state with another value for the session with this id.
    pub open spec fn put_session(self, sid: Seq<char>, session: SessionView) -> CoreView {
        CoreView {
            sessions: self.sessions.map_values(
                |s: SessionView|
                    if s.info.id == sid {
                        session
                    } else {
                        s
                    },
            ),
            ..self
        }
    }

    /// The state with another info for the session with this id.
    pub open spec fn put_info(self, sid: Seq<char>, info: SessionInfoView) -> CoreView {
        self.put_session(sid, SessionView { info, ..self.session(sid) })
    }

    // ---- tasks -------------------------------------------------------------

    /// Whether there is a task with this id.
    pub open spec fn has_task(self, tid: Seq<char>) -> bool {
        exists|i: int| 0 <= i < self.tasks.len() && (#[trigger] self.tasks[i]).id == tid
    }

    /// The task with this id.
    pub open spec fn task(self, tid: Seq<char>) -> TaskView
        recommends
            self.has_task(tid),
    {
        self.tasks[choose|i: int|
            0 <= i < self.tasks.len() && (#[trigger] self.tasks[i]).id == tid]
    }

    /// The state with another value for the task with this id.
    pub open spec fn put_task(self, tid: Seq<char>, task: TaskView) -> CoreView {
        CoreView {
            tasks: self.tasks.map_values(
                |t: TaskView|
                    if t.id == tid {
                        task
                    } else {
                        t
                    },
            ),
            ..self
        }
    }

    // ---- steps -------------------------------------------------------------

    /// Nothing changes and nothing is to be done.
    pub open spec fn unchanged(self) -> Step {
        Step { state: self, effects: Seq::empty() }
    }

    /// A session gets another info, which is persisted and announced. Where
    /// there is no such session, nothing happens.
    pub open spec fn update_info(self, sid: Seq<char>, info: SessionInfoView) -> Step {
        if self.has_session(sid) {
            Step { state: self.put_info(sid, info), effects: seq![EffectView::SessionChanged(info)] }
        } else {
            self.unchanged()
        }
    }

    /// A task gets another value, which is persisted and announced. Where there
    /// is no such task, nothing happens.
    pub open spec fn update_task(self, tid: Seq<char>, task: TaskView) -> Step {
        if self.has_task(tid) {
            Step { state: self.put_task(tid, task), effects: seq![EffectView::TaskChanged(task)] }
        } else {
            self.unchanged()
        }
    }

    // ---- validity ----------------------------------------------------------

    /// What every operation keeps: no two sessions and no two tasks share an
    /// id, no session stands twice in the attach order, which is never longer
    /// than [`MAX_RENDERED`], every attached session stands there, workers and
    /// no others are fed by messages, and no scrollback exceeds its capacity.
    pub open spec fn valid(self) -> bool {
        &&& forall|i: int, j: int|
            #![trigger self.sessions[i], self.sessions[j]]
            0 <= i < j < self.sessions.len() ==> self.sessions[i].info.id
                != self.sessions[j].info.id
        &&& forall|i: int, j: int|
            #![trigger self.tasks[i], self.tasks[j]]
            0 <= i < j < self.tasks.len() ==> self.tasks[i].id != self.tasks[j].id
        &&& self.attach_lru.no_duplicates()
        &&& self.attach_lru.len() <= MAX_RENDERED
        &&& forall|i: int|
            0 <= i < self.sessions.len() && (#[trigger] self.sessions[i]).info.attached
                ==> self.attach_lru.contains(self.sessions[i].info.id)
        &&& forall|i: int|
            0 <= i < self.sessions.len() ==> (#[trigger] self.sessions[i]).coherent()
    }
}

// ---- facts about the registry ----------------------------------------------

/// The session at index `i` is the one with its id.
pub(crate) proof fn lemma_session_at(c: CoreView, i: int)
    requires
        c.valid(),
        0 <= i < c.sessions.len(),
    ensures
        c.has_session(c.sessions[i].info.id),
        c.session(c.sessions[i].info.id) == c.sessions[i],
{
    let sid = c.sessions[i].info.id;
    assert(c.has_session(sid));
    let j = choose|j: int| 0 <= j < c.sessions.len() && (#[trigger] c.sessions[j]).info.id == sid;
    if i < j {
        assert(c.sessions[i].info.id != c.sessions[j].info.id);
    } else if j < i {
        assert(c.sessions[j].info.id != c.sessions[i].info.id);
    }
}

/// Replacing the session at index `i` is replacing the one with its id.
pub(crate) proof fn lemma_put_session_at(c: CoreView, i: int, session: SessionView)
    requires
        c.valid(),
        0 <= i < c.sessions.len(),
    ensures
        c.put_session(c.sessions[i].info.id, session).sessions == c.sessions.update(i, session),
{
    let sid = c.sessions[i].info.id;
    assert forall|j: int| 0 <= j < c.sessions.len() implies #[trigger] c.put_session(
        sid,
        session,
    ).sessions[j] == c.sessions.update(i, session)[j] by {
        if i < j {
            assert(c.sessions[i].info.id != c.sessions[j].info.id);
        } else if j < i {
            assert(c.sessions[j].info.id != c.sessions[i].info.id);
        }
    }
    assert(c.put_session(sid, session).sessions =~= c.sessions.update(i, session));
}

/// The task at index `i` is the one with its id.
pub(crate) proof fn lemma_task_at(c: CoreView, i: int)
    requires
        c.valid(),
        0 <= i < c.tasks.len(),
    ensures
        c.has_task(c.tasks[i].id),
        c.task(c.tasks[i].id) == c.tasks[i],
{
    let tid = c.tasks[i].id;
    assert(c.has_task(tid));
    let j = choose|j: int| 0 <= j < c.tasks.len() && (#[trigger] c.tasks[j]).id == tid;
    if i < j {
        assert(c.tasks[i].id != c.tasks[j].id);
    } else if j < i {
        assert(c.tasks[j].id != c.tasks[i].id);
    }
}

/// Replacing the task at index `i` is replacing the one with its id.
pub(crate) proof fn lemma_put_task_at(c: CoreView, i: int, task: TaskView)
    requires
        c.valid(),
        0 <= i < c.tasks.len(),
    ensures
        c.put_task(c.tasks[i].id, task).tasks == c.tasks.update(i, task),
{
    let tid = c.tasks[i].id;
    assert forall|j: int| 0 <= j < c.tasks.len() implies #[trigger] c.put_task(tid, task).tasks[j]
        == c.tasks.update(i, task)[j] by {
        if i < j {
            assert(c.tasks[i].id != c.tasks[j].id);
        } else if j < i {
            assert(c.tasks[j].id != c.tasks[i].id);
        }
    }
    assert(c.put_task(tid, task).tasks =~= c.tasks.update(i, task));
}

/// A session that keeps its id, and is attached only if it was, leaves the
/// state valid.
pub(crate) proof fn lemma_put_session_valid(c: CoreView, sid: Seq<char>, session: SessionView)
    requires
        c.valid(),
        session.info.id == sid,
        session.info.attached ==> c.attach_lru.contains(sid),
        session.coherent(),
    ensures
        c.put_session(sid, session).valid(),
{
    let d = c.put_session(sid, session);
    assert forall|i: int, j: int|
        #![trigger d.sessions[i], d.sessions[j]]
        0 <= i < j < d.sessions.len() implies d.sessions[i].info.id != d.sessions[j].info.id by {
        assert(c.sessions[i].info.id != c.sessions[j].info.id);
    }
    assert forall|i: int|
        0 <= i < d.sessions.len() && (#[trigger] d.sessions[i]).info.attached implies
        d.attach_lru.contains(d.sessions[i].info.id) by {
        assert(c.sessions[i].info.attached || c.sessions[i].info.id == sid);
    }
    assert forall|i: int| 0 <= i < d.sessions.len() implies (
    #[trigger] d.sessions[i]).coherent() by {
        assert(c.sessions[i].coherent());
    }
}

/// A task that keeps its id leaves the state valid.
pub(crate) proof fn lemma_put_task_valid(c: CoreView, tid: Seq<char>, task: TaskView)
    requires
        c.valid(),
        task.id == tid,
    ensures
        c.put_task(tid, task).valid(),
{
    let d = c.put_task(tid, task);
    assert forall|i: int, j: int|
        #![trigger d.tasks[i], d.tasks[j]]
        0 <= i < j < d.tasks.len() implies d.tasks[i].id != d.tasks[j].id by {
        assert(c.tasks[i].id != c.tasks[j].id);
    }
    assert(d.sessions == c.sessions);
}

impl Core {
    /// The state is valid, and so is every scrollback buffer in it.
    pub open spec fn wf(&self) -> bool {
        &&& self@.valid()
        &&& forall|i: int| 0 <= i < self.sessions@.len() ==> (#[trigger] self.sessions@[i]).ring.wf()
    }

    /// Where a session stands in the registry.
    pub(crate) fn find_session(&self, sid: &str) -> (r: Option<usize>)
        requires
            self.wf(),
        ensures
            match r {
                Some(i) => {
                    &&& i < self.sessions@.len()
                    &&& self@.sessions[i as int].info.id == sid@
                    &&& self@.has_session(sid@)
                    &&& self@.session(sid@) == self@.sessions[i as int]
                },
                None => !self@.has_session(sid@),
            },
    {
        let mut i: usize = 0;
        while i < self.sessions.len()
            invariant
                self.wf(),
                i <= self.sessions@.len(),
                forall|j: int| 0 <= j < i ==> (#[trigger] self@.sessions[j]).info.id != sid@,
            decreases self.sessions@.len() - i,
        {
            if same_text(self.sessions[i].info.id.as_str(), sid) {
                proof {
                    lemma_session_at(self@, i as int);
                }
                return Some(i);
            }
            i = i + 1;
        }
        None
    }

    /// Where a task stands in the list.
    pub(crate) fn find_task(&self, tid: &str) -> (r: Option<usize>)
        requires
            self.wf(),
        ensures
            match r {
                Some(i) => {
                    &&& i < self.tasks@.len()
                    &&& self@.tasks[i as int].id == tid@
                    &&& self@.has_task(tid@)
                    &&& self@.task(tid@) == self@.tasks[i as int]
                },
                None => !self@.has_task(tid@),
            },
    {
        let mut i: usize = 0;
        while i < self.tasks.len()
            invariant
                self.wf(),
                i <= self.tasks@.len(),
                forall|j: int| 0 <= j < i ==> (#[trigger] self@.tasks[j]).id != tid@,
            decreases self.tasks@.len() - i,
        {
            if same_text(self.tasks[i].id.as_str(), tid) {
                proof {
                    lemma_task_at(self@, i as int);
                }
                return Some(i);
            }
            i = i + 1;
        }
        None
    }

    /// Give the session at index `i` another info.
    pub(crate) fn set_info(&mut self, i: usize, info: SessionInfo)
        requires
            old(self).wf(),
            i < old(self).sessions@.len(),
            info@.id == old(self)@.sessions[i as int].info.id,
            info@.mode == old(self)@.sessions[i as int].info.mode,
            info@.attached ==> old(self)@.attach_lru.contains(info@.id),
        ensures
            final(self).wf(),
            final(self)@ == old(self)@.put_info(info@.id, info@),
            final(self).sessions@.len() == old(self).sessions@.len(),
    {
        let ghost before = self@;
        let ghost session = SessionView { info: info@, ..before.sessions[i as int] };
        proof {
            lemma_session_at(before, i as int);
            lemma_put_session_at(before, i as int, session);
            assert(before.sessions[i as int].coherent());
            lemma_put_session_valid(before, info@.id, session);
        }
        let ghost rings = self.sessions@;
        self.sessions[i].info = info;
        proof {
            assert(session_views(self.sessions@) =~= before.sessions.update(i as int, session));
            assert(self.sessions@[i as int].ring == rings[i as int].ring);
        }
    }

    /// Give the task at index `i` another value.
    pub(crate) fn set_task(&mut self, i: usize, task: Task)
        requires
            old(self).wf(),
            i < old(self).tasks@.len(),
            task@.id == old(self)@.tasks[i as int].id,
        ensures
            final(self).wf(),
            final(self)@ == old(self)@.put_task(task@.id, task@),
            final(self).tasks@.len() == old(self).tasks@.len(),
    {
        let ghost before = self@;
        proof {
            lemma_put_task_at(before, i as int, task@);
            lemma_put_task_valid(before, task@.id, task@);
        }
        self.tasks[i] = task;
        proof {
            assert(task_views(self.tasks@) =~= before.tasks.update(i as int, task@));
        }
    }

    /// Give the session at index `i` another info; persist and announce it.
    pub(crate) fn change_info(&mut self, i: usize, info: SessionInfo, out: &mut Vec<Effect>)
        requires
            old(self).wf(),
            i < old(self).sessions@.len(),
            info@.id == old(self)@.sessions[i as int].info.id,
            info@.mode == old(self)@.sessions[i as int].info.mode,
            info@.attached ==> old(self)@.attach_lru.contains(info@.id),
        ensures
            final(self).wf(),
            final(self)@ == old(self)@.update_info(info@.id, info@).state,
            effects_of(final(out)@) == effects_of(old(out)@) + old(self)@.update_info(
                info@.id,
                info@,
            ).effects,
    {
        proof {
            lemma_session_at(self@, i as int);
        }
        self.set_info(i, info.clone());
        add_effect(out, Effect::SessionChanged(info));
        assert(effects_of(out@) =~= effects_of(old(out)@) + old(self)@.update_info(
            info@.id,
            info@,
        ).effects);
    }

    /// Give the task at index `i` another value; persist and announce it.
    pub(crate) fn change_task(&mut self, i: usize, task: Task, out: &mut Vec<Effect>)
        requires
            old(self).wf(),
            i < old(self).tasks@.len(),
            task@.id == old(self)@.tasks[i as int].id,
        ensures
            final(self).wf(),
            final(self)@ == old(self)@.update_task(task@.id, task@).state,
            effects_of(final(out)@) == effects_of(old(out)@) + old(self)@.update_task(
                task@.id,
                task@,
            ).effects,
    {
        proof {
            lemma_task_at(self@, i as int);
        }
        self.set_task(i, task.clone());
        add_effect(out, Effect::TaskChanged(task));
        assert(effects_of(out@) =~= effects_of(old(out)@) + old(self)@.update_task(
            task@.id,
            task@,
        ).effects);
    }
}

} // verus!
