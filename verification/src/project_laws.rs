//! What is launched from a project file and from a snapshot, field by field.
use crate::counting::lemma_select_none;
use crate::counting::lemma_select_push;
use crate::launch_laws::a_plan_keeps_to_its_spec;
use crate::launch_laws::followed_by;
use crate::launcher::AgentProbesView;
use crate::launcher::ShellProbesView;
use crate::lifecycle::live;
use crate::model::OrchestratorConfigView;
use crate::model::SessionMode;
use crate::model::SessionSpecView;
use crate::model::SessionStatus;
use crate::project::exported;
use crate::project::has_cwd;
use crate::project::opened;
use crate::project::opened_specs;
use crate::project::plans_each;
use crate::project::project_of;
use crate::project::restored_specs;
use crate::project::snap;
use crate::project::snapshot_of;
use crate::project::ProjectFileView;
use crate::project::ProjectSessionView;
use crate::project::SnapSessionView;
use crate::project::SnapshotDataView;
use crate::spawning::Spawn;
use crate::state::CoreView;
use crate::state::SessionView;
use crate::text::trimmed;
use vstd::prelude::*;

verus! {

// ---- projects --------------------------------------------------------------

/// The project with one more session.
pub open spec fn with_session(proj: ProjectFileView, s: ProjectSessionView) -> ProjectFileView {
    ProjectFileView { sessions: proj.sessions.push(s), ..proj }
}

/// A project without sessions launches nothing.
pub proof fn an_empty_project_launches_nothing(proj: ProjectFileView)
    requires
        proj.sessions.len() == 0,
    ensures
        opened_specs(proj).len() == 0,
{
    assert(proj.sessions =~= proj.sessions.take(0));
    lemma_select_none(proj.sessions, has_cwd(proj), opened(proj));
}

/// One more session in a project is launched after the others, and leaves them
/// as they are. Its directory is its own where it gives one, else the shared one;
/// without either, or where that is blank, it is skipped. What else it gives it
/// keeps, what it leaves out of the model and the permission mode is shared.
pub proof fn one_more_session_in_a_project(proj: ProjectFileView, s: ProjectSessionView)
    ensures
        ({
            let before = opened_specs(proj);
            let after = opened_specs(with_session(proj, s));
            let own = s.cwd is Some && trimmed(s.cwd->0).len() > 0;
            let shared = s.cwd is None && proj.cwd is Some && trimmed(proj.cwd->0).len() > 0;
            &&& !own && !shared ==> after == before
            &&& own || shared ==> {
                &&& after.len() == before.len() + 1
                &&& after.take(before.len() as int) == before
                &&& after.last().name == s.name
                &&& after.last().mode == s.mode
                &&& own ==> after.last().cwd == s.cwd->0
                &&& shared ==> after.last().cwd == proj.cwd->0
                &&& s.model is Some ==> after.last().model == s.model
                &&& s.model is None ==> after.last().model == proj.model
                &&& s.permission_mode is Some ==> after.last().permission_mode == s.permission_mode
                &&& s.permission_mode is None ==> after.last().permission_mode
                    == proj.permission_mode
                &&& after.last().allowed_tools == s.allowed_tools
                &&& after.last().initial_prompt == s.prompt
                &&& after.last().resume == s.resume
            }
        }),
{
    let more = with_session(proj, s);
    assert(has_cwd(more) =~= has_cwd(proj));
    assert(opened(more) =~= opened(proj));
    lemma_select_push(proj.sessions, s, has_cwd(proj), opened(proj));
    let before = opened_specs(proj);
    assert(before.push(opened(proj)(s)).take(before.len() as int) =~= before);
}

/// A session that leaves a field out is launched with what the file shares: the
/// plan that opening the project makes for it carries the shared directory, the
/// shared model and the shared permission mode, and so does the command line of
/// an agent; a field that it gives is used in place of the shared one.
pub proof fn what_is_left_out_is_shared(
    plans: Seq<Spawn>,
    proj: ProjectFileView,
    s: ProjectSessionView,
    config: OrchestratorConfigView,
    agents: AgentProbesView,
    shells: ShellProbesView,
)
    requires
        plans_each(plans, opened_specs(with_session(proj, s)), config, agents, shells),
        s.cwd is Some ==> trimmed(s.cwd->0).len() > 0,
        s.cwd is None ==> proj.cwd is Some && trimmed(proj.cwd->0).len() > 0,
    ensures
        plans.len() > 0,
        ({
            let plan = plans.last()@;
            let agent = s.mode != SessionMode::Shell;
            &&& plan.mode == s.mode
            &&& s.cwd is None ==> Some(plan.spec.cwd) == proj.cwd && Some(plan.launch.cwd)
                == proj.cwd
            &&& s.cwd is Some ==> Some(plan.spec.cwd) == s.cwd && Some(plan.launch.cwd) == s.cwd
            &&& s.model is None ==> plan.spec.model == proj.model
            &&& s.model is Some ==> plan.spec.model == s.model
            &&& agent && s.model is None && proj.model is Some ==> plan.model == proj.model
                && followed_by(plan.launch.args, "--model"@, proj.model->0)
            &&& agent && s.model is Some ==> plan.model == s.model && followed_by(
                plan.launch.args,
                "--model"@,
                s.model->0,
            )
            &&& s.permission_mode is None ==> plan.spec.permission_mode == proj.permission_mode
            &&& s.permission_mode is Some ==> plan.spec.permission_mode == s.permission_mode
            &&& plan.spec.allowed_tools == s.allowed_tools
            &&& plan.spec.initial_prompt == s.prompt
            &&& plan.spec.resume == s.resume
            &&& s.name is Some ==> plan.name == s.name->0
        }),
{
    one_more_session_in_a_project(proj, s);
    let specs = opened_specs(with_session(proj, s));
    let i = plans.len() - 1;
    assert(plans[i] == plans.last());
    a_plan_keeps_to_its_spec(plans[i]@, specs[i].mode, specs[i], config, agents, shells);
}

/// Every session of a project that names a directory, or shares one, is
/// launched, wherever in the file it stands.
pub proof fn every_session_with_a_directory_is_launched(proj: ProjectFileView)
    requires
        forall|i: int|
            0 <= i < proj.sessions.len() ==> {
                ||| (#[trigger] proj.sessions[i]).cwd is Some && trimmed(
                    proj.sessions[i].cwd->0,
                ).len() > 0
                ||| proj.sessions[i].cwd is None && proj.cwd is Some && trimmed(proj.cwd->0).len()
                    > 0
            },
    ensures
        opened_specs(proj).len() == proj.sessions.len(),
        forall|i: int|
            0 <= i < proj.sessions.len() ==> {
                let s = proj.sessions[i];
                let spec = #[trigger] opened_specs(proj)[i];
                &&& spec.name == s.name
                &&& spec.mode == s.mode
                &&& Some(spec.cwd) == if s.cwd is Some {
                    s.cwd
                } else {
                    proj.cwd
                }
                &&& spec.model == if s.model is Some {
                    s.model
                } else {
                    proj.model
                }
                &&& spec.permission_mode == if s.permission_mode is Some {
                    s.permission_mode
                } else {
                    proj.permission_mode
                }
            },
    decreases proj.sessions.len(),
{
    if proj.sessions.len() == 0 {
        an_empty_project_launches_nothing(proj);
    } else {
        let n = proj.sessions.len() - 1;
        let less = ProjectFileView { sessions: proj.sessions.drop_last(), ..proj };
        assert forall|i: int| 0 <= i < less.sessions.len() implies {
            ||| (#[trigger] less.sessions[i]).cwd is Some && trimmed(less.sessions[i].cwd->0).len()
                > 0
            ||| less.sessions[i].cwd is None && less.cwd is Some && trimmed(less.cwd->0).len() > 0
        } by {
            assert(less.sessions[i] == proj.sessions[i]);
        }
        every_session_with_a_directory_is_launched(less);
        one_more_session_in_a_project(less, proj.sessions[n]);
        assert(proj.sessions =~= less.sessions.push(proj.sessions[n]));
        assert(with_session(less, proj.sessions[n]) == proj);
        let all = opened_specs(proj);
        assert forall|i: int| 0 <= i < n implies #[trigger] all[i] == opened_specs(less)[i] by {
            assert(all.take(n)[i] == all[i]);
        }
    }
}

// ---- what is saved ---------------------------------------------------------

/// The state with one more session.
pub open spec fn and_session(c: CoreView, s: SessionView) -> CoreView {
    CoreView { sessions: c.sessions.push(s), ..c }
}

/// Whether a session has ended, by its status.
pub open spec fn ended(s: SessionView) -> bool {
    ||| s.info.status == SessionStatus::Completed
    ||| s.info.status == SessionStatus::Crashed
    ||| s.info.status == SessionStatus::Stopped
}

/// Without sessions nothing is saved but the policy.
pub proof fn nothing_to_save(c: CoreView)
    requires
        c.sessions.len() == 0,
    ensures
        snapshot_of(c).sessions.len() == 0,
        project_of(c).sessions.len() == 0,
{
    assert(c.sessions =~= c.sessions.take(0));
    lemma_select_none(c.sessions, live(), snap());
    lemma_select_none(c.sessions, live(), exported());
}

/// A snapshot keeps every session that has not ended, in order: its name, mode,
/// directory and model, and the conversation of its agent; and the policy.
pub proof fn a_snapshot_keeps_what_runs(c: CoreView, s: SessionView)
    ensures
        snapshot_of(c).config == c.config,
        ended(s) ==> snapshot_of(and_session(c, s)).sessions == snapshot_of(c).sessions,
        !ended(s) ==> snapshot_of(and_session(c, s)).sessions == snapshot_of(c).sessions.push(
            SnapSessionView {
                name: s.info.name,
                mode: s.info.mode,
                cwd: s.info.cwd,
                model: s.info.model,
                agent_session_id: s.info.agent_session_id,
            },
        ),
{
    lemma_select_push(c.sessions, s, live(), snap());
}

/// A snapshot is launched session by session, in order: under the name, mode,
/// directory and model it holds, with the conversation that it holds to resume.
pub proof fn a_snapshot_is_launched_as_it_is(data: SnapshotDataView)
    ensures
        restored_specs(data).len() == data.sessions.len(),
        forall|i: int|
            0 <= i < data.sessions.len() ==> #[trigger] restored_specs(data)[i] == (
            SessionSpecView {
                name: Some(data.sessions[i].name),
                mode: data.sessions[i].mode,
                cwd: data.sessions[i].cwd,
                model: data.sessions[i].model,
                permission_mode: None,
                allowed_tools: None,
                initial_prompt: None,
                resume: data.sessions[i].agent_session_id,
            }),
{
}

/// A saved project holds every session that has not ended, in order, each with
/// all it was launched with but the prompt, and shares nothing.
pub proof fn a_project_keeps_what_runs(c: CoreView, s: SessionView)
    ensures
        project_of(c).cwd is None,
        project_of(c).model is None,
        project_of(c).permission_mode is None,
        ended(s) ==> project_of(and_session(c, s)).sessions == project_of(c).sessions,
        !ended(s) ==> project_of(and_session(c, s)).sessions == project_of(c).sessions.push(
            ProjectSessionView {
                mode: s.info.mode,
                cwd: Some(s.info.cwd),
                model: s.info.model,
                permission_mode: s.spec.permission_mode,
                allowed_tools: s.spec.allowed_tools,
                prompt: None,
                name: Some(s.info.name),
                resume: s.info.agent_session_id,
            },
        ),
{
    lemma_select_push(c.sessions, s, live(), exported());
}

} // verus!
