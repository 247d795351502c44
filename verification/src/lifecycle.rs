//! The life of a session: registration, input, output, renaming, termination
//! and removal.
use crate::counting::lemma_filter_all;
use crate::counting::lemma_select_none;
use crate::counting::lemma_select_take;
use crate::counting::select;
use crate::effects::add_all;
use crate::effects::add_effect;
use crate::effects::add_log;
use crate::effects::effects_of;
use crate::effects::no_effects;
use crate::effects::Effect;
use crate::effects::EffectView;
use crate::model::default_config;
use crate::model::F32Bits;
use crate::model::OrchestratorConfig;
use crate::model::OrchestratorConfigView;
use crate::model::SessionId;
use crate::model::SessionInfo;
use crate::model::SessionInfoView;
use crate::model::SessionMode;
use crate::model::SessionStatus;
use crate::model::Task;
use crate::model::TaskStatus;
use crate::model::TaskView;
use crate::protocol::user_line;
use crate::protocol::user_message_line;
use crate::ring::last_bytes;
use crate::state::lemma_put_session_at;
use crate::state::lemma_put_session_valid;
use crate::state::session_views;
use crate::state::task_views;
use crate::state::Core;
use crate::state::CoreView;
use crate::state::SessionView;
use crate::state::Step;
use crate::state::Transport;
use crate::tasks::fail;
use crate::tasks::recover;
use crate::tasks::waiting;
use crate::text::clone_opt;
use crate::text::same_text;
use crate::text::signed_decimal;
use crate::text::signed_decimal_text;
use crate::text::texts;
use vstd::prelude::*;
use vstd::string::StringExecFns;

verus! {

// ---- errors ----------------------------------------------------------------

/// Why a request to a session is refused.
#[derive(Debug)]
pub enum Refusal {
    /// There is no session with this id.
    UnknownSession(SessionId),
    /// A message was meant for a worker, but the session is a terminal.
    IsInteractive,
    /// Keystrokes were meant for a terminal, but the session is a worker.
    IsHeadless,
}

/// The mathematical content of a [`Refusal`].
pub enum RefusalView {
    UnknownSession(Seq<char>),
    IsInteractive,
    IsHeadless,
}

impl View for Refusal {
    type V = RefusalView;

    open spec fn view(&self) -> RefusalView {
        match *self {
            Refusal::UnknownSession(sid) => RefusalView::UnknownSession(sid@),
            Refusal::IsInteractive => RefusalView::IsInteractive,
            Refusal::IsHeadless => RefusalView::IsHeadless,
        }
    }
}

impl RefusalView {
    /// What the user reads.
    pub open spec fn text(self) -> Seq<char> {
        match self {
            RefusalView::UnknownSession(sid) => "unknown session "@ + sid,
            RefusalView::IsInteractive => "session is interactive; use send_input"@,
            RefusalView::IsHeadless => "session is headless; use send_message"@,
        }
    }
}

impl Refusal {
    /// What the user reads.
    pub fn message(&self) -> (r: String)
        ensures
            r@ == self@.text(),
    {
        match self {
            Refusal::UnknownSession(sid) => {
                let mut text = "unknown session ".to_owned();
                text.append(sid.as_str());
                text
            },
            Refusal::IsInteractive => "session is interactive; use send_input".to_owned(),
            Refusal::IsHeadless => "session is headless; use send_message".to_owned(),
        }
    }
}

/// How many characters a terminal shows.
#[derive(Debug, Clone, Copy, PartialEq, Eq, Structural)]
pub struct TermSize {
    pub rows: u16,
    pub cols: u16,
}

/// The error of a task that could not be handed to its session.
pub fn send_failure(reason: &str) -> (r: String)
    ensures
        r@ == "send failed: "@ + reason@,
{
    let mut text = "send failed: ".to_owned();
    text.append(reason);
    text
}

/// The error of a task for which no worker could be started.
pub fn spawn_failure(reason: &str) -> (r: String)
    ensures
        r@ == "spawn failed: "@ + reason@,
{
    let mut text = "spawn failed: ".to_owned();
    text.append(reason);
    text
}

// ---- termination -----------------------------------------------------------

/// How often the host asks for a process's exit code before it gives up.
pub const REAP_POLLS: u32 = 120;

/// How long the host waits between two such questions, in milliseconds.
pub const REAP_POLL_MS: u64 = 50;

/// What the host does after it asked for a process's exit code.
#[derive(Debug, Clone, Copy, PartialEq, Eq, Structural)]
pub enum ReapStep {
    /// The process is gone, with this exit code.
    Reaped(i32),
    /// Wait, and ask once more.
    Wait,
    /// Go on without an exit code.
    GiveUp,
}

/// Decide what to do after the `polls`-th question for a process's exit code.
pub fn reap_step(polls: u32, code: Option<i32>) -> (r: ReapStep)
    ensures
        code is Some ==> r == ReapStep::Reaped(code->0),
        r is GiveUp <==> code is None && polls >= REAP_POLLS,
        r is Wait <==> code is None && polls < REAP_POLLS,
{
    match code {
        Some(c) => ReapStep::Reaped(c),
        None => if polls < REAP_POLLS {
            ReapStep::Wait
        } else {
            ReapStep::GiveUp
        },
    }
}

/// The exit code of a worker's process; one that a signal ended has none, and
/// counts as -1.
pub fn worker_exit(code: Option<i32>) -> (r: i32)
    ensures
        r == match code {
            Some(c) => c,
            None => -1i32,
        },
{
    match code {
        Some(c) => c,
        None => -1,
    }
}

/// The exit code of a terminal's process, with its bits read as signed.
pub fn terminal_exit(code: u32) -> (r: i32)
    ensures
        r == code as i32,
        code <= i32::MAX ==> r == code,
        code > i32::MAX ==> r == code - 0x1_0000_0000,
{
    #[verifier::truncate]
    let r: i32 = code as i32;
    proof {
        assert(code <= 0x7fff_ffff ==> (code as i32) == code) by (bit_vector);
        assert(code > 0x7fff_ffff ==> (code as i32) == code - 0x1_0000_0000) by (bit_vector);
    }
    r
}

/// The status that a session ends in: stopped where that was asked for, else
/// completed where the process returned zero, else crashed.
pub open spec fn end_status(code: Option<i32>, requested_stop: bool) -> SessionStatus {
    if requested_stop {
        SessionStatus::Stopped
    } else if code == Some(0i32) {
        SessionStatus::Completed
    } else {
        SessionStatus::Crashed
    }
}

/// What is said of a session that ended.
pub open spec fn end_activity(code: Option<i32>, requested_stop: bool) -> Seq<char> {
    match end_status(code, requested_stop) {
        SessionStatus::Stopped => "stopped"@,
        SessionStatus::Completed => "completed"@,
        _ => "crashed (exit "@ + signed_decimal(
            match code {
                Some(c) => c as int,
                None => -1,
            },
        ) + ")"@,
    }
}

impl SessionInfoView {
    /// Gone, with its exit code where one was obtained.
    pub open spec fn ended(self, code: Option<i32>, requested_stop: bool) -> SessionInfoView {
        SessionInfoView {
            status: end_status(code, requested_stop),
            exit_code: code,
            cpu: F32Bits(0),
            mem_bytes: 0,
            activity: end_activity(code, requested_stop),
            ..self
        }
    }

    /// What is known of a session once its process is gone. One that crashed has
    /// handed its task back.
    pub open spec fn at_end(self, code: Option<i32>, requested_stop: bool, now: i64) -> SessionInfoView {
        let info = self.ended(code, requested_stop).touched(now);
        if info.status is Crashed {
            info.released()
        } else {
            info
        }
    }

    /// Working on a message.
    pub open spec fn working(self) -> SessionInfoView {
        SessionInfoView { status: SessionStatus::Busy, activity: "working"@, ..self }
    }

    /// Under another name.
    pub open spec fn renamed(self, name: Seq<char>) -> SessionInfoView {
        SessionInfoView { name, ..self }
    }

    /// Bound to a task.
    pub open spec fn bound_to(self, tid: Seq<char>) -> SessionInfoView {
        SessionInfoView { current_task: Some(tid), ..self }
    }
}

/// A session's process is gone. Where it crashed, the task it ran is handed back
/// and recovered.
pub open spec fn finalized(
    c: CoreView,
    sid: Seq<char>,
    code: Option<i32>,
    requested_stop: bool,
    now: i64,
) -> Step {
    if c.has_session(sid) {
        let info = c.info(sid).at_end(code, requested_stop, now);
        let task = c.info(sid).current_task;
        let step = c.update_info(sid, info).log(sid, "system"@, info.activity);
        if info.status is Crashed && task is Some {
            step.then_step(recover(step.state, task->0, now))
        } else {
            step
        }
    } else {
        c.unchanged()
    }
}

/// The condition of being another session.
pub open spec fn other_session(sid: Seq<char>) -> spec_fn(SessionView) -> bool {
    |s: SessionView| s.info.id != sid
}

/// The condition of being another id.
pub open spec fn other_id(sid: Seq<char>) -> spec_fn(Seq<char>) -> bool {
    |x: Seq<char>| x != sid
}

/// The state without a session.
pub open spec fn without_session(c: CoreView, sid: Seq<char>) -> CoreView {
    CoreView {
        sessions: c.sessions.filter(other_session(sid)),
        attach_lru: c.attach_lru.filter(other_id(sid)),
        ..c
    }
}

/// A session leaves the registry: it is killed if it still runs, and the task
/// it was mid-flight on fails.
pub open spec fn removed(c: CoreView, sid: Seq<char>, now: i64) -> Step {
    if c.has_session(sid) {
        let info = c.info(sid);
        let gone = Step {
            state: without_session(c, sid),
            effects: if info.status.terminal() {
                Seq::empty()
            } else {
                seq![EffectView::Kill(sid)]
            },
        };
        (match info.current_task {
            Some(tid) => gone.then_step(fail(gone.state, tid, "session removed"@, now)),
            None => gone,
        }).and(EffectView::SessionRemoved(sid))
    } else {
        c.unchanged()
    }
}

// ---- input -----------------------------------------------------------------

/// A message was handed to a worker.
pub open spec fn message_delivered(
    c: CoreView,
    sid: Seq<char>,
    prompt: Seq<char>,
    now: i64,
) -> Step {
    c.update_info(sid, c.info(sid).working().touched(now)).log(sid, "user"@, prompt)
}

/// A task is bound to a session.
pub open spec fn assigned_to(c: CoreView, sid: Seq<char>, tid: Seq<char>, now: i64) -> Step {
    let step = c.update_task(tid, c.task(tid).started(sid, now));
    step.then_step(
        step.state.update_info(sid, step.state.info(sid).bound_to(tid).touched(now)),
    )
}

/// A chunk of terminal output: retained, and shown where the session is
/// attached.
pub open spec fn terminal_output(c: CoreView, sid: Seq<char>, chunk: Seq<u8>, now: i64) -> Step {
    if c.has_session(sid) {
        let s = c.session(sid);
        Step {
            state: c.put_session(
                sid,
                SessionView {
                    info: s.info.touched(now),
                    ring: last_bytes(s.ring + chunk, s.ring_capacity),
                    ..s
                },
            ),
            effects: if s.info.attached {
                seq![EffectView::TermData { session_id: sid, data: chunk, replay: false }]
            } else {
                Seq::empty()
            },
        }
    } else {
        c.unchanged()
    }
}

/// What a broadcast sends to one session.
#[derive(Debug)]
pub enum Delivery {
    /// A message for a worker.
    Message { session_id: SessionId, prompt: String },
    /// Keystrokes for a terminal.
    Keys { session_id: SessionId, keys: String },
}

/// The mathematical content of a [`Delivery`].
#[allow(inconsistent_fields)]
pub enum DeliveryView {
    Message { session_id: Seq<char>, prompt: Seq<char> },
    Keys { session_id: Seq<char>, keys: Seq<char> },
}

impl View for Delivery {
    type V = DeliveryView;

    open spec fn view(&self) -> DeliveryView {
        match *self {
            Delivery::Message { session_id, prompt } => DeliveryView::Message {
                session_id: session_id@,
                prompt: prompt@,
            },
            Delivery::Keys { session_id, keys } => DeliveryView::Keys {
                session_id: session_id@,
                keys: keys@,
            },
        }
    }
}

/// The views of a list of deliveries.
pub open spec fn deliveries_of(v: Seq<Delivery>) -> Seq<DeliveryView> {
    v.map_values(|d: Delivery| d@)
}

/// The condition of not having ended.
pub open spec fn live() -> spec_fn(SessionView) -> bool {
    |s: SessionView| !s.info.status.terminal()
}

/// What a broadcast sends to a session: a worker gets the text as a message, a
/// terminal gets it as keystrokes that end with a carriage return.
pub open spec fn delivery(text: Seq<char>) -> spec_fn(SessionView) -> DeliveryView {
    |s: SessionView|
        if s.info.mode is Headless {
            DeliveryView::Message { session_id: s.info.id, prompt: text }
        } else {
            DeliveryView::Keys { session_id: s.info.id, keys: text.push('\r') }
        }
}

// ---- order -----------------------------------------------------------------

/// Whether sessions stand in the order in which they were created.
pub open spec fn in_creation_order(infos: Seq<SessionInfoView>) -> bool {
    forall|i: int, j: int|
        #![trigger infos[i], infos[j]]
        0 <= i < j < infos.len() ==> infos[i].created_at <= infos[j].created_at
}

/// The infos of a list of sessions.
pub open spec fn infos_of(sessions: Seq<SessionView>) -> Seq<SessionInfoView> {
    sessions.map_values(|s: SessionView| s.info)
}

/// The views of a list of infos.
pub open spec fn info_views(v: Seq<SessionInfo>) -> Seq<SessionInfoView> {
    v.map_values(|i: SessionInfo| i@)
}

// ---- policy ----------------------------------------------------------------

/// The highest cap on rendered terminals that a stored policy may be stuck at.
pub const LOW_MAX_ATTACHED: usize = 4;

/// A stored policy that is stuck at a low cap on rendered terminals is raised to
/// the default.
pub open spec fn migrated(config: OrchestratorConfigView) -> OrchestratorConfigView {
    if config.max_attached <= LOW_MAX_ATTACHED {
        OrchestratorConfigView { max_attached: default_config().max_attached, ..config }
    } else {
        config
    }
}

/// Whether no two tasks share an id.
pub open spec fn distinct_ids(tasks: Seq<TaskView>) -> bool {
    forall|i: int, j: int|
        #![trigger tasks[i], tasks[j]]
        0 <= i < j < tasks.len() ==> tasks[i].id != tasks[j].id
}

/// The state at the start: the stored policy, migrated unless that was done
/// before, and the stored tasks that still wait.
pub open spec fn started(
    config: OrchestratorConfigView,
    migrated_before: bool,
    tasks: Seq<TaskView>,
) -> CoreView {
    CoreView {
        config: if migrated_before {
            config
        } else {
            migrated(config)
        },
        sessions: Seq::empty(),
        tasks: tasks.filter(waiting()),
        attach_lru: Seq::empty(),
    }
}

pub(crate) proof fn lemma_distinct_filter(tasks: Seq<TaskView>, p: spec_fn(TaskView) -> bool)
    requires
        distinct_ids(tasks),
    ensures
        distinct_ids(tasks.filter(p)),
        forall|i: int|
            0 <= i < tasks.filter(p).len() ==> tasks.contains(#[trigger] tasks.filter(p)[i]),
    decreases tasks.len(),
{
    reveal(Seq::filter);
    if tasks.len() > 0 {
        let front = tasks.drop_last();
        let last = tasks.last();
        assert(distinct_ids(front)) by {
            assert forall|i: int, j: int|
                #![trigger front[i], front[j]]
                0 <= i < j < front.len() implies front[i].id != front[j].id by {
                assert(tasks[i].id != tasks[j].id);
            }
        }
        lemma_distinct_filter(front, p);
        let kept = front.filter(p);
        let all = tasks.filter(p);
        assert forall|i: int| 0 <= i < all.len() implies tasks.contains(#[trigger] all[i]) by {
            if i < kept.len() {
                assert(all[i] == kept[i]);
                assert(front.contains(kept[i]));
                let k = choose|k: int| 0 <= k < front.len() && front[k] == kept[i];
                assert(tasks[k] == all[i]);
            } else {
                assert(tasks[tasks.len() - 1] == all[i]);
            }
        }
        assert forall|i: int, j: int|
            #![trigger all[i], all[j]]
            0 <= i < j < all.len() implies all[i].id != all[j].id by {
            assert(all[i] == kept[i]);
            if j < kept.len() {
                assert(kept[i].id != kept[j].id);
            } else {
                assert(front.contains(kept[i]));
                let k = choose|k: int| 0 <= k < front.len() && front[k] == kept[i];
                assert(tasks[k].id != tasks[tasks.len() - 1].id);
            }
        }
    }
}

// ---- facts about the registry ----------------------------------------------

proof fn lemma_without_at(c: CoreView, i: int)
    requires
        c.valid(),
        0 <= i < c.sessions.len(),
    ensures
        c.sessions.remove(i) == c.sessions.filter(other_session(c.sessions[i].info.id)),
{
    let sid = c.sessions[i].info.id;
    let p = other_session(sid);
    let front = c.sessions.take(i);
    let back = c.sessions.skip(i + 1);
    let mid = seq![c.sessions[i]];
    assert(c.sessions =~= front + mid + back);
    Seq::filter_distributes_over_add(front + mid, back, p);
    Seq::filter_distributes_over_add(front, mid, p);
    assert forall|j: int| 0 <= j < front.len() implies #[trigger] p(front[j]) by {
        assert(c.sessions[j].info.id != c.sessions[i].info.id);
    }
    assert forall|j: int| 0 <= j < back.len() implies #[trigger] p(back[j]) by {
        assert(c.sessions[i].info.id != c.sessions[j + i + 1].info.id);
    }
    lemma_filter_all(front, p);
    lemma_filter_all(back, p);
    reveal_with_fuel(Seq::filter, 2);
    assert(!p(c.sessions[i]));
    assert(mid.drop_last() =~= Seq::<SessionView>::empty());
    assert(mid.filter(p) =~= Seq::<SessionView>::empty());
    assert(c.sessions.remove(i) =~= front + back);
}

/// The order of attachment without one id.
pub(crate) proof fn lemma_lru_without(lru: Seq<Seq<char>>, sid: Seq<char>)
    requires
        lru.no_duplicates(),
    ensures
        lru.filter(other_id(sid)).no_duplicates(),
        !lru.filter(other_id(sid)).contains(sid),
        forall|x: Seq<char>|
            #![trigger lru.filter(other_id(sid)).contains(x)]
            lru.filter(other_id(sid)).contains(x) <==> lru.contains(x) && x != sid,
    decreases lru.len(),
{
    reveal(Seq::filter);
    let p = other_id(sid);
    if lru.len() > 0 {
        let front = lru.drop_last();
        let last = lru.last();
        assert(front.no_duplicates());
        lemma_lru_without(front, sid);
        let kept = front.filter(p);
        let all = lru.filter(p);
        assert(!front.contains(last)) by {
            if front.contains(last) {
                let k = choose|k: int| 0 <= k < front.len() && front[k] == last;
                assert(lru[k] == lru[lru.len() - 1]);
            }
        }
        assert forall|x: Seq<char>| #![trigger all.contains(x)]
            all.contains(x) <==> lru.contains(x) && x != sid by {
            if lru.contains(x) && x != sid {
                let k = choose|k: int| 0 <= k < lru.len() && lru[k] == x;
                if k < front.len() {
                    assert(front[k] == x);
                    assert(front.contains(x));
                    assert(kept.contains(x));
                    let m = choose|m: int| 0 <= m < kept.len() && kept[m] == x;
                    assert(all[m] == x);
                } else {
                    assert(all[all.len() - 1] == x);
                }
            }
            if all.contains(x) {
                let m = choose|m: int| 0 <= m < all.len() && all[m] == x;
                if m < kept.len() {
                    assert(kept[m] == x);
                    assert(kept.contains(x));
                    assert(front.contains(x));
                    let k = choose|k: int| 0 <= k < front.len() && front[k] == x;
                    assert(lru[k] == x);
                } else {
                    assert(x == last);
                    assert(lru[lru.len() - 1] == x);
                }
            }
        }
        assert(all.no_duplicates()) by {
            if p(last) {
                assert(!kept.contains(last));
                assert forall|a: int, b: int|
                    0 <= a < all.len() && 0 <= b < all.len() && a != b implies all[a] != all[b] by {
                    if a == all.len() - 1 {
                        assert(kept[b] == all[b]);
                        assert(kept.contains(all[b]));
                    } else if b == all.len() - 1 {
                        assert(kept[a] == all[a]);
                        assert(kept.contains(all[a]));
                    } else {
                        assert(kept[a] == all[a] && kept[b] == all[b]);
                    }
                }
            }
        }
    }
}

/// A list of ids without one of them.
pub(crate) fn ids_without(ids: &Vec<SessionId>, sid: &str) -> (r: Vec<SessionId>)
    ensures
        texts(r@) == texts(ids@).filter(other_id(sid@)),
{
    let ghost all = texts(ids@);
    let mut kept: Vec<SessionId> = Vec::new();
    let mut i: usize = 0;
    proof {
        reveal(Seq::filter);
        assert(all.take(0) =~= Seq::<Seq<char>>::empty());
        assert(texts(kept@) =~= all.take(0).filter(other_id(sid@)));
    }
    while i < ids.len()
        invariant
            all == texts(ids@),
            i <= ids@.len(),
            texts(kept@) == all.take(i as int).filter(other_id(sid@)),
        decreases ids@.len() - i,
    {
        proof {
            reveal(Seq::filter);
            assert(all.take(i + 1).drop_last() =~= all.take(i as int));
            assert(all.take(i + 1).last() == ids@[i as int]@);
        }
        let ghost had = kept@;
        if !same_text(ids[i].as_str(), sid) {
            kept.push(ids[i].clone());
            assert(texts(kept@) =~= texts(had).push(ids@[i as int]@));
        }
        i = i + 1;
    }
    assert(all.take(i as int) =~= all);
    kept
}

impl Core {
    // ---- policy ------------------------------------------------------------

    /// An orchestrator without sessions, under a stored policy and with the
    /// stored tasks that still wait. A policy that was migrated before is taken
    /// as it is. The second result tells whether the policy was raised and is to
    /// be saved.
    pub fn new(config: OrchestratorConfig, migrated_before: bool, tasks: Vec<Task>) -> (r: (
        Self,
        bool,
    ))
        requires
            distinct_ids(task_views(tasks@)),
        ensures
            r.0.wf(),
            r.0@ == started(config@, migrated_before, task_views(tasks@)),
            r.1 == (!migrated_before && config@.max_attached <= LOW_MAX_ATTACHED),
    {
        let ghost all = task_views(tasks@);
        let mut config = config;
        let stuck = !migrated_before && config.max_attached <= LOW_MAX_ATTACHED;
        if stuck {
            config.max_attached = OrchestratorConfig::default().max_attached;
        }
        let mut kept: Vec<Task> = Vec::new();
        let mut i: usize = 0;
        proof {
            lemma_select_none(all, waiting(), |t: TaskView| t);
            assert(task_views(kept@) =~= Seq::empty());
        }
        while i < tasks.len()
            invariant
                all == task_views(tasks@),
                i <= tasks@.len(),
                task_views(kept@) == select(all.take(i as int), waiting(), |t: TaskView| t),
            decreases tasks@.len() - i,
        {
            proof {
                lemma_select_take(all, waiting(), |t: TaskView| t, i as int);
            }
            if tasks[i].status == TaskStatus::Queued {
                let ghost had = kept@;
                kept.push(tasks[i].clone());
                assert(task_views(kept@) =~= task_views(had).push(all[i as int]));
            }
            i = i + 1;
        }
        let core = Core { config, sessions: Vec::new(), tasks: kept, attach_lru: Vec::new() };
        proof {
            assert(all.take(i as int) =~= all);
            assert(core@.tasks =~= all.filter(waiting()));
            lemma_distinct_filter(all, waiting());
            assert(session_views(core.sessions@) =~= Seq::empty());
            assert(texts(core.attach_lru@) =~= Seq::empty());
        }
        (core, stuck)
    }

    /// The policy in force.
    pub fn get_config(&self) -> (r: OrchestratorConfig)
        ensures
            r@ == self@.config,
    {
        self.config.clone()
    }

    /// Put another policy in force.
    pub fn set_config(&mut self, cfg: OrchestratorConfig)
        requires
            old(self).wf(),
        ensures
            final(self).wf(),
            final(self)@ == (CoreView { config: cfg@, ..old(self)@ }),
    {
        self.config = cfg;
    }

    // ---- input -------------------------------------------------------------

    /// The line to write to a worker's stdin for a prompt.
    pub fn send_message(&self, sid: &str, prompt: &str) -> (r: Result<String, Refusal>)
        requires
            self.wf(),
        ensures
            match r {
                Ok(line) => {
                    &&& self@.has_session(sid@)
                    &&& self@.session(sid@).transport is Headless
                    &&& line@ == user_line(prompt@)
                },
                Err(e) => if self@.has_session(sid@) {
                    &&& self@.session(sid@).transport is Interactive
                    &&& e@ == RefusalView::IsInteractive
                } else {
                    e@ == RefusalView::UnknownSession(sid@)
                },
            },
    {
        match self.find_session(sid) {
            Some(i) => match self.sessions[i].transport {
                Transport::Headless => Ok(user_message_line(prompt)),
                Transport::Interactive => Err(Refusal::IsInteractive),
            },
            None => Err(Refusal::UnknownSession(sid.to_owned())),
        }
    }

    /// Record that a prompt was written to a worker's stdin.
    pub fn message_sent(&mut self, sid: &str, prompt: &str, now: i64) -> (r: Vec<Effect>)
        requires
            old(self).wf(),
        ensures
            final(self).wf(),
            final(self)@ == message_delivered(old(self)@, sid@, prompt@, now).state,
            effects_of(r@) == message_delivered(old(self)@, sid@, prompt@, now).effects,
    {
        let mut out = no_effects();
        let ghost step = self@.update_info(sid@, self@.info(sid@).working().touched(now));
        match self.find_session(sid) {
            Some(i) => {
                let mut info = self.sessions[i].info.clone();
                assert(self@.sessions[i as int].info.attached ==> self@.attach_lru.contains(sid@));
                info.status = SessionStatus::Busy;
                info.activity = "working".to_owned();
                info.last_activity = now;
                self.change_info(i, info, &mut out);
            },
            None => {},
        }
        assert(effects_of(out@) =~= step.effects);
        add_log(&mut out, sid, "user", prompt.to_owned());
        out
    }

    /// The keystrokes to write to a session's terminal.
    pub fn send_input(&self, sid: &str, data: &str) -> (r: Result<String, Refusal>)
        requires
            self.wf(),
        ensures
            match r {
                Ok(keys) => {
                    &&& self@.has_session(sid@)
                    &&& self@.session(sid@).transport is Interactive
                    &&& keys@ == data@
                },
                Err(e) => if self@.has_session(sid@) {
                    &&& self@.session(sid@).transport is Headless
                    &&& e@ == RefusalView::IsHeadless
                } else {
                    e@ == RefusalView::UnknownSession(sid@)
                },
            },
    {
        match self.find_session(sid) {
            Some(i) => match self.sessions[i].transport {
                Transport::Interactive => Ok(data.to_owned()),
                Transport::Headless => Err(Refusal::IsHeadless),
            },
            None => Err(Refusal::UnknownSession(sid.to_owned())),
        }
    }

    /// The size to give a session's terminal; a worker has nothing to resize.
    pub fn resize(&self, sid: &str, cols: u16, rows: u16) -> (r: Result<Option<TermSize>, Refusal>)
        requires
            self.wf(),
        ensures
            match r {
                Ok(size) => {
                    &&& self@.has_session(sid@)
                    &&& size == match self@.session(sid@).transport {
                        Transport::Interactive => Some(TermSize { rows, cols }),
                        Transport::Headless => None,
                    }
                },
                Err(e) => !self@.has_session(sid@) && e@ == RefusalView::UnknownSession(sid@),
            },
    {
        match self.find_session(sid) {
            Some(i) => match self.sessions[i].transport {
                Transport::Interactive => Ok(Some(TermSize { rows, cols })),
                Transport::Headless => Ok(None),
            },
            None => Err(Refusal::UnknownSession(sid.to_owned())),
        }
    }

    /// What to send so that the same text reaches every live session.
    pub fn broadcast(&self, text: &str) -> (r: Vec<Delivery>)
        ensures
            deliveries_of(r@) == select(self@.sessions, live(), delivery(text@)),
    {
        let ghost all = self@.sessions;
        let mut out: Vec<Delivery> = Vec::new();
        let mut i: usize = 0;
        proof {
            lemma_select_none(all, live(), delivery(text@));
            assert(deliveries_of(out@) =~= Seq::<DeliveryView>::empty());
        }
        while i < self.sessions.len()
            invariant
                all == self@.sessions,
                i <= self.sessions@.len(),
                deliveries_of(out@) == select(all.take(i as int), live(), delivery(text@)),
            decreases self.sessions@.len() - i,
        {
            proof {
                lemma_select_take(all, live(), delivery(text@), i as int);
            }
            let ghost had = out@;
            let info = &self.sessions[i].info;
            if !info.status.is_terminal() {
                let session_id = info.id.clone();
                let next = match info.mode {
                    SessionMode::Headless => Delivery::Message {
                        session_id,
                        prompt: text.to_owned(),
                    },
                    SessionMode::Interactive | SessionMode::Shell => {
                        let mut keys = text.to_owned();
                        keys.push('\r');
                        Delivery::Keys { session_id, keys }
                    },
                };
                assert(next@ == delivery(text@)(all[i as int]));
                out.push(next);
                assert(deliveries_of(out@) =~= deliveries_of(had).push(next@));
            }
            i = i + 1;
        }
        assert(all.take(i as int) =~= all);
        out
    }

    /// Whether another attempt at a task can be counted.
    pub fn can_attempt(&self, tid: &str) -> (r: bool)
        requires
            self.wf(),
        ensures
            r == (self@.has_task(tid@) ==> self@.task(tid@).attempts < u32::MAX),
    {
        match self.find_task(tid) {
            Some(i) => self.tasks[i].attempts < u32::MAX,
            None => true,
        }
    }

    /// Bind a task to a session. The host then sends the task's prompt.
    pub fn assign_task_to_session(&mut self, sid: &str, task: &Task, now: i64) -> (r: Vec<Effect>)
        requires
            old(self).wf(),
            old(self)@.has_task(task@.id) ==> old(self)@.task(task@.id).attempts < u32::MAX,
        ensures
            final(self).wf(),
            final(self)@ == assigned_to(old(self)@, sid@, task@.id, now).state,
            effects_of(r@) == assigned_to(old(self)@, sid@, task@.id, now).effects,
    {
        let mut out = no_effects();
        let ghost first = self@.update_task(task@.id, self@.task(task@.id).started(sid@, now));
        match self.find_task(task.id.as_str()) {
            Some(i) => {
                let mut t = self.tasks[i].clone();
                t.status = TaskStatus::Running;
                t.session_id = Some(sid.to_owned());
                t.started_at = Some(now);
                t.attempts = t.attempts + 1;
                self.change_task(i, t, &mut out);
            },
            None => {},
        }
        assert(effects_of(out@) =~= first.effects);
        assert(self@ == first.state);
        let ghost second = self@.update_info(sid@, self@.info(sid@).bound_to(task@.id).touched(now));
        match self.find_session(sid) {
            Some(i) => {
                let mut info = self.sessions[i].info.clone();
                assert(self@.sessions[i as int].info.attached ==> self@.attach_lru.contains(sid@));
                info.current_task = Some(task.id.clone());
                info.last_activity = now;
                self.change_info(i, info, &mut out);
            },
            None => {},
        }
        assert(effects_of(out@) =~= first.effects + second.effects);
        out
    }

    // ---- output ------------------------------------------------------------

    /// Record that a session was active.
    pub fn touch_activity(&mut self, sid: &str, now: i64)
        requires
            old(self).wf(),
        ensures
            final(self).wf(),
            final(self)@ == if old(self)@.has_session(sid@) {
                old(self)@.put_info(sid@, old(self)@.info(sid@).touched(now))
            } else {
                old(self)@
            },
    {
        match self.find_session(sid) {
            Some(i) => {
                let mut info = self.sessions[i].info.clone();
                assert(self@.sessions[i as int].info.attached ==> self@.attach_lru.contains(sid@));
                info.last_activity = now;
                self.set_info(i, info);
            },
            None => {},
        }
    }

    /// Take a chunk of terminal output: retain it, and show it where the
    /// session is attached.
    pub fn on_terminal_output(&mut self, sid: &str, chunk: &[u8], now: i64) -> (r: Vec<Effect>)
        requires
            old(self).wf(),
        ensures
            final(self).wf(),
            final(self)@ == terminal_output(old(self)@, sid@, chunk@, now).state,
            effects_of(r@) == terminal_output(old(self)@, sid@, chunk@, now).effects,
    {
        let ghost before = self@;
        let mut out = no_effects();
        match self.find_session(sid) {
            Some(i) => {
                let ghost olds = self.sessions@;
                let ghost s = before.sessions[i as int];
                let ghost next = SessionView {
                    info: s.info.touched(now),
                    ring: last_bytes(s.ring + chunk@, s.ring_capacity),
                    ..s
                };
                if self.sessions[i].info.attached {
                    let mut data: Vec<u8> = Vec::new();
                    data.extend_from_slice(chunk);
                    assert(data@ =~= chunk@);
                    add_effect(
                        &mut out,
                        Effect::TermData { session_id: sid.to_owned(), data, replay: false },
                    );
                }
                assert(olds[i as int].ring.wf());
                self.sessions[i].ring.push(chunk);
                self.sessions[i].info.last_activity = now;
                proof {
                    assert(before.sessions[i as int].info.attached ==> before.attach_lru.contains(
                        sid@,
                    ));
                    assert(session_views(self.sessions@) =~= before.sessions.update(
                        i as int,
                        next,
                    ));
                    self.sessions@[i as int].ring.bounded();
                    lemma_put_session_at(before, i as int, next);
                    lemma_put_session_valid(before, sid@, next);
                    assert(effects_of(out@) =~= terminal_output(
                        before,
                        sid@,
                        chunk@,
                        now,
                    ).effects);
                }
            },
            None => {},
        }
        out
    }

    /// Whether the readers of a session's output are to stop: the session was
    /// killed, or is gone.
    pub fn stop_requested(&self, sid: &str) -> (r: bool)
        requires
            self.wf(),
        ensures
            r == (self@.has_session(sid@) ==> self@.session(sid@).stop),
    {
        match self.find_session(sid) {
            Some(i) => self.sessions[i].stop,
            None => true,
        }
    }

    // ---- lifecycle ---------------------------------------------------------

    /// Change a session's display name in-place.
    pub fn rename(&mut self, sid: &str, name: &str, now: i64) -> (r: Result<Vec<Effect>, Refusal>)
        requires
            old(self).wf(),
        ensures
            final(self).wf(),
            match r {
                Ok(effects) => {
                    let step = old(self)@.update_info(
                        sid@,
                        old(self)@.info(sid@).renamed(name@).touched(now),
                    );
                    &&& old(self)@.has_session(sid@)
                    &&& final(self)@ == step.state
                    &&& effects_of(effects@) == step.effects
                    &&& effects_of(effects@) == seq![
                        EffectView::SessionChanged(
                            SessionInfoView {
                                name: name@,
                                last_activity: now,
                                ..old(self)@.info(sid@)
                            },
                        ),
                    ]
                },
                Err(e) => {
                    &&& !old(self)@.has_session(sid@)
                    &&& final(self)@ == old(self)@
                    &&& e@ == RefusalView::UnknownSession(sid@)
                },
            },
    {
        match self.find_session(sid) {
            Some(i) => {
                let mut out = no_effects();
                let mut info = self.sessions[i].info.clone();
                assert(self@.sessions[i as int].info.attached ==> self@.attach_lru.contains(sid@));
                info.name = name.to_owned();
                info.last_activity = now;
                let ghost step = self@.update_info(sid@, info@);
                self.change_info(i, info, &mut out);
                assert(effects_of(out@) =~= step.effects);
                Ok(out)
            },
            None => Err(Refusal::UnknownSession(sid.to_owned())),
        }
    }

    /// Ask a session's readers to stop and kill its process.
    pub fn kill(&mut self, sid: &str) -> (r: Result<Vec<Effect>, Refusal>)
        requires
            old(self).wf(),
        ensures
            final(self).wf(),
            match r {
                Ok(effects) => {
                    &&& old(self)@.has_session(sid@)
                    &&& final(self)@ == old(self)@.put_session(
                        sid@,
                        SessionView { stop: true, ..old(self)@.session(sid@) },
                    )
                    &&& effects_of(effects@) == seq![EffectView::Kill(sid@)]
                },
                Err(e) => {
                    &&& !old(self)@.has_session(sid@)
                    &&& final(self)@ == old(self)@
                    &&& e@ == RefusalView::UnknownSession(sid@)
                },
            },
    {
        let ghost before = self@;
        match self.find_session(sid) {
            Some(i) => {
                let ghost olds = self.sessions@;
                let ghost next = SessionView { stop: true, ..before.sessions[i as int] };
                self.sessions[i].stop = true;
                proof {
                    assert(before.sessions[i as int].info.attached ==> before.attach_lru.contains(
                        sid@,
                    ));
                    assert(self.sessions@[i as int].ring == olds[i as int].ring);
                    assert(session_views(self.sessions@) =~= before.sessions.update(
                        i as int,
                        next,
                    ));
                    lemma_put_session_at(before, i as int, next);
                    lemma_put_session_valid(before, sid@, next);
                }
                let mut out = no_effects();
                add_effect(&mut out, Effect::Kill(sid.to_owned()));
                assert(effects_of(out@) =~= seq![EffectView::Kill(sid@)]);
                Ok(out)
            },
            None => Err(Refusal::UnknownSession(sid.to_owned())),
        }
    }

    /// Record that a session's process is gone, and recover the task it ran if
    /// it crashed.
    pub fn finalize(
        &mut self,
        sid: &str,
        code: Option<i32>,
        requested_stop: bool,
        now: i64,
    ) -> (r: Vec<Effect>)
        requires
            old(self).wf(),
        ensures
            final(self).wf(),
            final(self)@ == finalized(old(self)@, sid@, code, requested_stop, now).state,
            effects_of(r@) == finalized(old(self)@, sid@, code, requested_stop, now).effects,
    {
        let mut out = no_effects();
        match self.find_session(sid) {
            Some(i) => {
                let mut info = self.sessions[i].info.clone();
                assert(self@.sessions[i as int].info.attached ==> self@.attach_lru.contains(sid@));
                let completed = match code {
                    Some(c) => c == 0,
                    None => false,
                };
                let status = if requested_stop {
                    SessionStatus::Stopped
                } else if completed {
                    SessionStatus::Completed
                } else {
                    SessionStatus::Crashed
                };
                let activity = match status {
                    SessionStatus::Stopped => "stopped".to_owned(),
                    SessionStatus::Completed => "completed".to_owned(),
                    _ => {
                        let shown: i32 = match code {
                            Some(c) => c,
                            None => -1,
                        };
                        let mut text = "crashed (exit ".to_owned();
                        text.append(signed_decimal_text(shown).as_str());
                        text.append(")");
                        text
                    },
                };
                info.status = status;
                info.exit_code = code;
                info.cpu = F32Bits(0);
                info.mem_bytes = 0;
                info.activity = activity.clone();
                info.last_activity = now;
                assert(info@ == self@.info(sid@).ended(code, requested_stop).touched(now));
                let mut handed_back: Option<String> = None;
                if status == SessionStatus::Crashed {
                    handed_back = clone_opt(&info.current_task);
                    info.current_task = None;
                }
                assert(info@ == self@.info(sid@).at_end(code, requested_stop, now));
                let ghost step = self@.update_info(sid@, info@);
                self.change_info(i, info, &mut out);
                assert(effects_of(out@) =~= step.effects);
                add_log(&mut out, sid, "system", activity);
                match handed_back {
                    Some(tid) => {
                        let more = self.recover_task(tid.as_str(), now);
                        add_all(&mut out, more);
                    },
                    None => {},
                }
            },
            None => {},
        }
        out
    }

    /// Remove a session from the registry entirely. If it is still running it
    /// is force-stopped first; any task it was mid-flight on is failed.
    pub fn remove(&mut self, sid: &str, now: i64) -> (r: Vec<Effect>)
        requires
            old(self).wf(),
        ensures
            final(self).wf(),
            final(self)@ == removed(old(self)@, sid@, now).state,
            effects_of(r@) == removed(old(self)@, sid@, now).effects,
    {
        let ghost before = self@;
        let mut out = no_effects();
        match self.find_session(sid) {
            Some(i) => {
                let ghost olds = self.sessions@;
                let session = self.sessions.remove(i);
                proof {
                    lemma_without_at(before, i as int);
                    lemma_lru_without(before.attach_lru, sid@);
                    assert(session_views(self.sessions@) =~= before.sessions.remove(i as int));
                }
                self.attach_lru = ids_without(&self.attach_lru, sid);
                proof {
                    let d = self@;
                    assert(d == without_session(before, sid@));
                    assert forall|j: int| 0 <= j < d.sessions.len() implies #[trigger] d.sessions[j]
                        == before.sessions[if j < i {
                        j
                    } else {
                        j + 1
                    }] by {}
                    assert forall|a: int, b: int|
                        #![trigger d.sessions[a], d.sessions[b]]
                        0 <= a < b < d.sessions.len() implies d.sessions[a].info.id
                        != d.sessions[b].info.id by {
                        let x = if a < i { a } else { a + 1 };
                        let y = if b < i { b } else { b + 1 };
                        assert(before.sessions[x].info.id != before.sessions[y].info.id);
                    }
                    assert forall|j: int|
                        0 <= j < d.sessions.len() && (#[trigger] d.sessions[j]).info.attached
                        implies d.attach_lru.contains(d.sessions[j].info.id) by {
                        let x = if j < i { j } else { j + 1 };
                        assert(before.sessions[x].info.attached);
                        if x < i {
                            assert(before.sessions[x].info.id != before.sessions[i as int].info.id);
                        } else {
                            assert(before.sessions[i as int].info.id != before.sessions[x].info.id);
                        }
                    }
                    assert forall|j: int| 0 <= j < self.sessions@.len() implies (
                    #[trigger] self.sessions@[j]).ring.wf() by {
                        let x = if j < i { j } else { j + 1 };
                        assert(self.sessions@[j] == olds[x]);
                    }
                    assert(d.valid());
                }
                if !session.info.status.is_terminal() {
                    add_effect(&mut out, Effect::Kill(sid.to_owned()));
                    assert(effects_of(out@) =~= seq![EffectView::Kill(sid@)]);
                }
                match &session.info.current_task {
                    Some(tid) => {
                        let more = self.fail_task(tid.as_str(), "session removed", now);
                        add_all(&mut out, more);
                    },
                    None => {},
                }
                add_effect(&mut out, Effect::SessionRemoved(sid.to_owned()));
            },
            None => {},
        }
        out
    }

    /// All sessions in the order in which they were created.
    pub fn list_sessions(&self) -> (r: Vec<SessionInfo>)
        ensures
            in_creation_order(info_views(r@)),
            info_views(r@).to_multiset() == infos_of(self@.sessions).to_multiset(),
    {
        let ghost all = infos_of(self@.sessions);
        let mut out: Vec<SessionInfo> = Vec::new();
        let mut i: usize = 0;
        proof {
            assert(info_views(out@) =~= all.take(0));
        }
        while i < self.sessions.len()
            invariant
                i <= self.sessions@.len(),
                all == infos_of(self@.sessions),
                in_creation_order(info_views(out@)),
                info_views(out@).to_multiset() == all.take(i as int).to_multiset(),
            decreases self.sessions@.len() - i,
        {
            let info = self.sessions[i].info.clone();
            let mut at: usize = out.len();
            while at > 0 && out[at - 1].created_at > info.created_at
                invariant
                    at <= out@.len(),
                    forall|j: int|
                        at <= j < out@.len() ==> (#[trigger] info_views(out@)[j]).created_at
                            > info@.created_at,
                decreases at,
            {
                at = at - 1;
            }
            let ghost had = info_views(out@);
            out.insert(at, info);
            proof {
                assert(info_views(out@) =~= had.insert(at as int, info@));
                vstd::seq_lib::to_multiset_insert(had, at as int, info@);
                assert(all.take(i + 1) =~= all.take(i as int).push(all[i as int]));
                vstd::seq_lib::to_multiset_build(all.take(i as int), info@);
                let now_out = info_views(out@);
                assert forall|a: int, b: int|
                    #![trigger now_out[a], now_out[b]]
                    0 <= a < b < now_out.len() implies now_out[a].created_at
                    <= now_out[b].created_at by {
                    if b < at {
                        assert(had[a].created_at <= had[b].created_at);
                    } else if b == at {
                        assert(had[at - 1].created_at <= info@.created_at);
                        if a < at - 1 {
                            assert(had[a].created_at <= had[at - 1].created_at);
                        }
                    } else if a < at {
                        assert(had[a].created_at <= had[b - 1].created_at);
                    } else if a == at {
                        assert(had[b - 1].created_at > info@.created_at);
                    } else {
                        assert(had[a - 1].created_at <= had[b - 1].created_at);
                    }
                }
            }
            i = i + 1;
        }
        proof {
            assert(all.take(i as int) =~= all);
        }
        out
    }
}

} // verus!
