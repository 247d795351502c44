//! Sets of sessions: workspace snapshots and project files.
use crate::counting::lemma_select_none;
use crate::counting::lemma_select_push;
use crate::counting::lemma_select_take;
use crate::counting::select;
use crate::launcher::AgentProbes;
use crate::launcher::AgentProbesView;
use crate::launcher::ShellProbes;
use crate::launcher::ShellProbesView;
use crate::lifecycle::live;
use crate::model::OrchestratorConfig;
use crate::model::OrchestratorConfigView;
use crate::model::SessionMode;
use crate::model::SessionSpec;
use crate::model::SessionSpecView;
use crate::spawning::launch_in;
use crate::spawning::new_session;
use crate::spawning::plans;
use crate::spawning::Spawn;
use crate::spawning::SpawnView;
use crate::state::Core;
use crate::state::CoreView;
use crate::state::SessionView;
use crate::text::clone_opt;
use crate::text::is_blank;
use crate::text::opt_text;
use crate::text::or_opt;
use crate::text::or_text;
use crate::text::trimmed;
use vstd::prelude::*;

verus! {

// ---- snapshots -------------------------------------------------------------

/// One session in a snapshot.
#[derive(Debug)]
pub struct SnapSession {
    pub name: String,
    pub mode: SessionMode,
    pub cwd: String,
    pub model: Option<String>,
    pub agent_session_id: Option<String>,
}

/// The mathematical content of a [`SnapSession`].
pub struct SnapSessionView {
    pub name: Seq<char>,
    pub mode: SessionMode,
    pub cwd: Seq<char>,
    pub model: Option<Seq<char>>,
    pub agent_session_id: Option<Seq<char>>,
}

impl View for SnapSession {
    type V = SnapSessionView;

    open spec fn view(&self) -> SnapSessionView {
        SnapSessionView {
            name: self.name@,
            mode: self.mode,
            cwd: self.cwd@,
            model: opt_text(self.model),
            agent_session_id: opt_text(self.agent_session_id),
        }
    }
}

/// The views of a list of snapshot sessions.
pub open spec fn snap_views(v: Seq<SnapSession>) -> Seq<SnapSessionView> {
    v.map_values(|s: SnapSession| s@)
}

/// A workspace snapshot: the live sessions and the policy.
#[derive(Debug)]
pub struct SnapshotData {
    pub sessions: Vec<SnapSession>,
    pub config: OrchestratorConfig,
}

/// The mathematical content of a [`SnapshotData`].
pub struct SnapshotDataView {
    pub sessions: Seq<SnapSessionView>,
    pub config: OrchestratorConfigView,
}

impl View for SnapshotData {
    type V = SnapshotDataView;

    open spec fn view(&self) -> SnapshotDataView {
        SnapshotDataView { sessions: snap_views(self.sessions@), config: self.config@ }
    }
}

/// What a snapshot keeps of a session.
pub open spec fn snap() -> spec_fn(SessionView) -> SnapSessionView {
    |s: SessionView|
        SnapSessionView {
            name: s.info.name,
            mode: s.info.mode,
            cwd: s.info.cwd,
            model: s.info.model,
            agent_session_id: s.info.agent_session_id,
        }
}

/// The snapshot of a state.
pub open spec fn snapshot_of(c: CoreView) -> SnapshotDataView {
    SnapshotDataView { sessions: select(c.sessions, live(), snap()), config: c.config }
}

/// How a session in a snapshot is launched again: it resumes the conversation
/// of the agent where its id was recorded.
pub open spec fn restored(s: SnapSessionView) -> SessionSpecView {
    SessionSpecView {
        name: Some(s.name),
        mode: s.mode,
        cwd: s.cwd,
        model: s.model,
        permission_mode: None,
        allowed_tools: None,
        initial_prompt: None,
        resume: s.agent_session_id,
    }
}

/// How the sessions of a snapshot are launched again.
pub open spec fn restored_specs(snap: SnapshotDataView) -> Seq<SessionSpecView> {
    snap.sessions.map_values(|s: SnapSessionView| restored(s))
}

/// Metadata of a saved snapshot.
#[derive(Debug)]
pub struct SnapshotMeta {
    pub id: String,
    pub name: String,
    pub created_at: i64,
}

/// The mathematical content of a [`SnapshotMeta`].
pub struct SnapshotMetaView {
    pub id: Seq<char>,
    pub name: Seq<char>,
    pub created_at: i64,
}

impl View for SnapshotMeta {
    type V = SnapshotMetaView;

    open spec fn view(&self) -> SnapshotMetaView {
        SnapshotMetaView { id: self.id@, name: self.name@, created_at: self.created_at }
    }
}

/// Label the stored rows of the saved snapshots, in their order.
pub fn list_snapshots(rows: Vec<(String, String, i64)>) -> (r: Vec<SnapshotMeta>)
    ensures
        r@.len() == rows@.len(),
        forall|i: int|
            0 <= i < r@.len() ==> (#[trigger] r@[i])@ == (SnapshotMetaView {
                id: rows@[i].0@,
                name: rows@[i].1@,
                created_at: rows@[i].2,
            }),
{
    let mut out: Vec<SnapshotMeta> = Vec::new();
    let mut i: usize = 0;
    while i < rows.len()
        invariant
            i <= rows@.len(),
            out@.len() == i,
            forall|j: int|
                0 <= j < i ==> (#[trigger] out@[j])@ == (SnapshotMetaView {
                    id: rows@[j].0@,
                    name: rows@[j].1@,
                    created_at: rows@[j].2,
                }),
        decreases rows@.len() - i,
    {
        out.push(
            SnapshotMeta {
                id: rows[i].0.clone(),
                name: rows[i].1.clone(),
                created_at: rows[i].2,
            },
        );
        i = i + 1;
    }
    out
}

// ---- project files ---------------------------------------------------------

/// One session in a project file. A field that it leaves out is taken from the
/// file's shared defaults, where there is one.
#[derive(Debug)]
pub struct ProjectSession {
    pub mode: SessionMode,
    pub cwd: Option<String>,
    pub model: Option<String>,
    pub permission_mode: Option<String>,
    pub allowed_tools: Option<String>,
    /// Initial prompt for headless workers.
    pub prompt: Option<String>,
    /// Optional; auto-generated from the cwd when omitted.
    pub name: Option<String>,
    pub resume: Option<String>,
}

/// The mathematical content of a [`ProjectSession`].
pub struct ProjectSessionView {
    pub mode: SessionMode,
    pub cwd: Option<Seq<char>>,
    pub model: Option<Seq<char>>,
    pub permission_mode: Option<Seq<char>>,
    pub allowed_tools: Option<Seq<char>>,
    pub prompt: Option<Seq<char>>,
    pub name: Option<Seq<char>>,
    pub resume: Option<Seq<char>>,
}

impl View for ProjectSession {
    type V = ProjectSessionView;

    open spec fn view(&self) -> ProjectSessionView {
        ProjectSessionView {
            mode: self.mode,
            cwd: opt_text(self.cwd),
            model: opt_text(self.model),
            permission_mode: opt_text(self.permission_mode),
            allowed_tools: opt_text(self.allowed_tools),
            prompt: opt_text(self.prompt),
            name: opt_text(self.name),
            resume: opt_text(self.resume),
        }
    }
}

/// The views of a list of project sessions.
pub open spec fn project_views(v: Seq<ProjectSession>) -> Seq<ProjectSessionView> {
    v.map_values(|s: ProjectSession| s@)
}

/// A shareable, hand-editable description of a set of sessions to open at once.
#[derive(Debug)]
pub struct ProjectFile {
    /// Shared default working directory for sessions that omit their own.
    pub cwd: Option<String>,
    pub model: Option<String>,
    pub permission_mode: Option<String>,
    pub sessions: Vec<ProjectSession>,
}

/// The mathematical content of a [`ProjectFile`].
pub struct ProjectFileView {
    pub cwd: Option<Seq<char>>,
    pub model: Option<Seq<char>>,
    pub permission_mode: Option<Seq<char>>,
    pub sessions: Seq<ProjectSessionView>,
}

impl View for ProjectFile {
    type V = ProjectFileView;

    open spec fn view(&self) -> ProjectFileView {
        ProjectFileView {
            cwd: opt_text(self.cwd),
            model: opt_text(self.model),
            permission_mode: opt_text(self.permission_mode),
            sessions: project_views(self.sessions@),
        }
    }
}

/// Result of opening a project: how many sessions launched, plus the shared
/// context so the UI can enter "project mode" and add more like them.
#[derive(Debug)]
pub struct OpenProjectResult {
    pub count: usize,
    pub cwd: Option<String>,
    pub model: Option<String>,
    pub permission_mode: Option<String>,
}

/// The mathematical content of a [`OpenProjectResult`].
pub struct OpenProjectResultView {
    pub count: usize,
    pub cwd: Option<Seq<char>>,
    pub model: Option<Seq<char>>,
    pub permission_mode: Option<Seq<char>>,
}

impl View for OpenProjectResult {
    type V = OpenProjectResultView;

    open spec fn view(&self) -> OpenProjectResultView {
        OpenProjectResultView {
            count: self.count,
            cwd: opt_text(self.cwd),
            model: opt_text(self.model),
            permission_mode: opt_text(self.permission_mode),
        }
    }
}

/// Whether a session of a project can be opened: it has a directory, its own or
/// the shared one, that is not blank.
pub open spec fn has_cwd(proj: ProjectFileView) -> spec_fn(ProjectSessionView) -> bool {
    |s: ProjectSessionView|
        match or_text(s.cwd, proj.cwd) {
            Some(c) => trimmed(c).len() > 0,
            None => false,
        }
}

/// How a session of a project is launched: its own fields override the shared
/// defaults.
pub open spec fn opened(proj: ProjectFileView) -> spec_fn(ProjectSessionView) -> SessionSpecView {
    |s: ProjectSessionView|
        SessionSpecView {
            name: s.name,
            mode: s.mode,
            cwd: or_text(s.cwd, proj.cwd)->0,
            model: or_text(s.model, proj.model),
            permission_mode: or_text(s.permission_mode, proj.permission_mode),
            allowed_tools: s.allowed_tools,
            initial_prompt: s.prompt,
            resume: s.resume,
        }
}

/// How the sessions of a project are launched; those without a directory are
/// skipped.
pub open spec fn opened_specs(proj: ProjectFileView) -> Seq<SessionSpecView> {
    select(proj.sessions, has_cwd(proj), opened(proj))
}

/// What a project file keeps of a session.
pub open spec fn exported() -> spec_fn(SessionView) -> ProjectSessionView {
    |s: SessionView|
        ProjectSessionView {
            mode: s.info.mode,
            cwd: Some(s.info.cwd),
            model: s.info.model,
            permission_mode: s.spec.permission_mode,
            allowed_tools: s.spec.allowed_tools,
            prompt: None,
            name: Some(s.info.name),
            resume: s.info.agent_session_id,
        }
}

/// The live sessions of a state as a project.
pub open spec fn project_of(c: CoreView) -> ProjectFileView {
    ProjectFileView {
        cwd: None,
        model: None,
        permission_mode: None,
        sessions: select(c.sessions, live(), exported()),
    }
}

/// The result of opening a project of which `count` sessions launched.
pub fn project_opened(proj: &ProjectFile, count: usize) -> (r: OpenProjectResult)
    ensures
        r@ == (OpenProjectResultView {
            count,
            cwd: proj@.cwd,
            model: proj@.model,
            permission_mode: proj@.permission_mode,
        }),
{
    OpenProjectResult {
        count,
        cwd: clone_opt(&proj.cwd),
        model: clone_opt(&proj.model),
        permission_mode: clone_opt(&proj.permission_mode),
    }
}

// ---- launching a set of sessions -------------------------------------------

/// The views of a list of specs.
pub open spec fn spec_views(v: Seq<SessionSpec>) -> Seq<SessionSpecView> {
    v.map_values(|s: SessionSpec| s@)
}

/// Whether each plan starts a session as the spec at its place says.
pub open spec fn plans_each(
    r: Seq<Spawn>,
    specs: Seq<SessionSpecView>,
    config: OrchestratorConfigView,
    agents: AgentProbesView,
    shells: ShellProbesView,
) -> bool {
    &&& r.len() == specs.len()
    &&& forall|i: int|
        0 <= i < r.len() ==> plans(
            (#[trigger] r[i])@,
            specs[i].mode,
            specs[i],
            config,
            launch_in(specs[i].mode, specs[i], config, agents, shells),
        )
}

impl Core {
    fn create_all(
        &self,
        specs: &Vec<SessionSpec>,
        agents: &AgentProbes,
        shells: &ShellProbes,
    ) -> (r: Vec<Spawn>)
        ensures
            plans_each(r@, spec_views(specs@), self@.config, agents@, shells@),
    {
        let mut out: Vec<Spawn> = Vec::new();
        let mut i: usize = 0;
        while i < specs.len()
            invariant
                i <= specs@.len(),
                plans_each(
                    out@,
                    spec_views(specs@).take(i as int),
                    self@.config,
                    agents@,
                    shells@,
                ),
            decreases specs@.len() - i,
        {
            let plan = self.create_session(specs[i].clone(), agents, shells);
            out.push(plan);
            i = i + 1;
        }
        assert(spec_views(specs@).take(i as int) =~= spec_views(specs@));
        out
    }

    /// The live sessions and the policy, to be saved.
    pub fn save_snapshot(&self) -> (r: SnapshotData)
        ensures
            r@ == snapshot_of(self@),
    {
        let ghost all = self@.sessions;
        let mut sessions: Vec<SnapSession> = Vec::new();
        let mut i: usize = 0;
        proof {
            lemma_select_none(all, live(), snap());
            assert(snap_views(sessions@) =~= Seq::<SnapSessionView>::empty());
        }
        while i < self.sessions.len()
            invariant
                all == self@.sessions,
                i <= self.sessions@.len(),
                snap_views(sessions@) == select(all.take(i as int), live(), snap()),
            decreases self.sessions@.len() - i,
        {
            proof {
                lemma_select_take(all, live(), snap(), i as int);
            }
            let ghost had = sessions@;
            let info = &self.sessions[i].info;
            if !info.status.is_terminal() {
                let next = SnapSession {
                    name: info.name.clone(),
                    mode: info.mode,
                    cwd: info.cwd.clone(),
                    model: clone_opt(&info.model),
                    agent_session_id: clone_opt(&info.agent_session_id),
                };
                assert(next@ == snap()(all[i as int]));
                sessions.push(next);
                assert(snap_views(sessions@) =~= snap_views(had).push(next@));
            }
            i = i + 1;
        }
        assert(all.take(i as int) =~= all);
        SnapshotData { sessions, config: self.config.clone() }
    }

    /// Plan the sessions captured in a snapshot, resuming agent conversations
    /// where an id was recorded.
    pub fn restore_snapshot(
        &self,
        snap: &SnapshotData,
        agents: &AgentProbes,
        shells: &ShellProbes,
    ) -> (r: Vec<Spawn>)
        ensures
            plans_each(r@, restored_specs(snap@), self@.config, agents@, shells@),
    {
        let mut specs: Vec<SessionSpec> = Vec::new();
        let mut i: usize = 0;
        while i < snap.sessions.len()
            invariant
                i <= snap.sessions@.len(),
                spec_views(specs@) == restored_specs(snap@).take(i as int),
            decreases snap.sessions@.len() - i,
        {
            let ghost had = specs@;
            let s = &snap.sessions[i];
            let spec = SessionSpec {
                name: Some(s.name.clone()),
                mode: s.mode,
                cwd: s.cwd.clone(),
                model: clone_opt(&s.model),
                permission_mode: None,
                allowed_tools: None,
                initial_prompt: None,
                resume: clone_opt(&s.agent_session_id),
            };
            assert(spec@ == restored(snap@.sessions[i as int]));
            specs.push(spec);
            assert(spec_views(specs@) =~= spec_views(had).push(spec@));
            assert(restored_specs(snap@).take(i + 1) =~= restored_specs(snap@).take(
                i as int,
            ).push(spec@));
            i = i + 1;
        }
        assert(restored_specs(snap@).take(i as int) =~= restored_specs(snap@));
        self.create_all(&specs, agents, shells)
    }

    /// Plan every session described in a project. Per-session fields override
    /// the shared defaults; sessions need no name (auto-generated).
    pub fn open_project(
        &self,
        proj: &ProjectFile,
        agents: &AgentProbes,
        shells: &ShellProbes,
    ) -> (r: Vec<Spawn>)
        ensures
            plans_each(r@, opened_specs(proj@), self@.config, agents@, shells@),
    {
        let ghost all = proj@.sessions;
        let ghost p = has_cwd(proj@);
        let ghost f = opened(proj@);
        let mut specs: Vec<SessionSpec> = Vec::new();
        let mut i: usize = 0;
        proof {
            lemma_select_none(all, p, f);
            assert(spec_views(specs@) =~= Seq::<SessionSpecView>::empty());
        }
        while i < proj.sessions.len()
            invariant
                all == proj@.sessions,
                p == has_cwd(proj@),
                f == opened(proj@),
                i <= proj.sessions@.len(),
                spec_views(specs@) == select(all.take(i as int), p, f),
            decreases proj.sessions@.len() - i,
        {
            proof {
                lemma_select_take(all, p, f, i as int);
            }
            let ghost had = specs@;
            let s = &proj.sessions[i];
            match or_opt(&s.cwd, &proj.cwd) {
                Some(cwd) => {
                    if !is_blank(cwd.as_str()) {
                        let spec = SessionSpec {
                            name: clone_opt(&s.name),
                            mode: s.mode,
                            cwd,
                            model: or_opt(&s.model, &proj.model),
                            permission_mode: or_opt(&s.permission_mode, &proj.permission_mode),
                            allowed_tools: clone_opt(&s.allowed_tools),
                            initial_prompt: clone_opt(&s.prompt),
                            resume: clone_opt(&s.resume),
                        };
                        assert(spec@ == f(all[i as int]));
                        specs.push(spec);
                        assert(spec_views(specs@) =~= spec_views(had).push(spec@));
                    }
                },
                None => {},
            }
            i = i + 1;
        }
        assert(all.take(i as int) =~= all);
        self.create_all(&specs, agents, shells)
    }

    /// The current live sessions as a project.
    pub fn save_project(&self) -> (r: ProjectFile)
        ensures
            r@ == project_of(self@),
    {
        let ghost all = self@.sessions;
        let mut sessions: Vec<ProjectSession> = Vec::new();
        let mut i: usize = 0;
        proof {
            lemma_select_none(all, live(), exported());
            assert(project_views(sessions@) =~= Seq::<ProjectSessionView>::empty());
        }
        while i < self.sessions.len()
            invariant
                all == self@.sessions,
                i <= self.sessions@.len(),
                project_views(sessions@) == select(all.take(i as int), live(), exported()),
            decreases self.sessions@.len() - i,
        {
            proof {
                lemma_select_take(all, live(), exported(), i as int);
            }
            let ghost had = sessions@;
            let s = &self.sessions[i];
            if !s.info.status.is_terminal() {
                let next = ProjectSession {
                    mode: s.info.mode,
                    cwd: Some(s.info.cwd.clone()),
                    model: clone_opt(&s.info.model),
                    permission_mode: clone_opt(&s.spec.permission_mode),
                    allowed_tools: clone_opt(&s.spec.allowed_tools),
                    prompt: None,
                    name: Some(s.info.name.clone()),
                    resume: clone_opt(&s.info.agent_session_id),
                };
                assert(next@ == exported()(all[i as int]));
                sessions.push(next);
                assert(project_views(sessions@) =~= project_views(had).push(next@));
            }
            i = i + 1;
        }
        assert(all.take(i as int) =~= all);
        ProjectFile { cwd: None, model: None, permission_mode: None, sessions }
    }
}

// ---- laws ------------------------------------------------------------------

/// Restoring what was saved launches the sessions that were live, in their order
/// and no others, each as [`restored`] says.
pub proof fn a_saved_snapshot_restores(c: CoreView)
    ensures
        restored_specs(snapshot_of(c)) == select(
            c.sessions,
            live(),
            |s: SessionView| restored(snap()(s)),
        ),
{
    assert(restored_specs(snapshot_of(c)) =~= select(
        c.sessions,
        live(),
        |s: SessionView| restored(snap()(s)),
    ));
}

/// A session that is restored from a snapshot has the name, the mode and the
/// directory it had, and the model where one was recorded; the agent is asked to
/// resume the conversation where its id was recorded.
pub proof fn restoring_recreates_a_session(
    s: SessionView,
    config: OrchestratorConfigView,
    agents: AgentProbesView,
    shells: ShellProbesView,
    plan: SpawnView,
    pid: Option<u32>,
    now: i64,
)
    requires
        ({
            let spec = restored(snap()(s));
            plans(plan, spec.mode, spec, config, launch_in(spec.mode, spec, config, agents, shells))
        }),
    ensures
        ({
            let info = new_session(plan, pid, now).info;
            let args = plan.launch.args;
            &&& info.name == s.info.name
            &&& info.mode == s.info.mode
            &&& info.cwd == s.info.cwd
            &&& plan.launch.cwd == s.info.cwd
            &&& !(s.info.mode is Shell) && s.info.model is Some ==> info.model == s.info.model
            &&& !(s.info.mode is Shell) ==> match s.info.agent_session_id {
                Some(id) => args.len() >= 2 && args[args.len() - 2] == "--resume"@
                    && args.last() == id,
                None => true,
            }
        }),
{
}

/// Opening what was saved launches the sessions that were live and have a
/// directory: same name, mode, directory, model, permission mode and tools, and
/// the same conversation.
pub proof fn a_saved_project_opens_again(c: CoreView)
    ensures
        opened_specs(project_of(c)) == select(c.sessions, reopens(), reopened()),
{
    lemma_reopened(c.sessions, project_of(c));
}

proof fn lemma_reopened(sessions: Seq<SessionView>, proj: ProjectFileView)
    requires
        proj.cwd is None,
        proj.model is None,
        proj.permission_mode is None,
    ensures
        select(select(sessions, live(), exported()), has_cwd(proj), opened(proj)) == select(
            sessions,
            reopens(),
            reopened(),
        ),
    decreases sessions.len(),
{
    if sessions.len() > 0 {
        let front = sessions.drop_last();
        let last = sessions.last();
        let files = select(front, live(), exported());
        let file = exported()(last);
        lemma_reopened(front, proj);
        assert(sessions =~= front.push(last));
        lemma_select_push(front, last, live(), exported());
        lemma_select_push(files, file, has_cwd(proj), opened(proj));
        lemma_select_push(front, last, reopens(), reopened());
        assert(opened(proj)(file) == reopened()(last));
    } else {
        assert(sessions =~= sessions.take(0));
        lemma_select_none(sessions, live(), exported());
        lemma_select_none(sessions, reopens(), reopened());
        let files = Seq::<ProjectSessionView>::empty();
        assert(files =~= files.take(0));
        lemma_select_none(files, has_cwd(proj), opened(proj));
    }
}

/// The condition of being launched again from a saved project.
pub open spec fn reopens() -> spec_fn(SessionView) -> bool {
    |s: SessionView| !s.info.status.terminal() && trimmed(s.info.cwd).len() > 0
}

/// How a session that was saved in a project is launched again.
pub open spec fn reopened() -> spec_fn(SessionView) -> SessionSpecView {
    |s: SessionView|
        SessionSpecView {
            name: Some(s.info.name),
            mode: s.info.mode,
            cwd: s.info.cwd,
            model: s.info.model,
            permission_mode: s.spec.permission_mode,
            allowed_tools: s.spec.allowed_tools,
            initial_prompt: None,
            resume: s.info.agent_session_id,
        }
}

} // verus!
