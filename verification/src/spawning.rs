//! New sessions: what to start for them, how they enter the registry and what
//! they are told first.
use crate::effects::add_effect;
use crate::effects::add_log;
use crate::effects::effects_of;
use crate::effects::no_effects;
use crate::effects::Effect;
use crate::effects::EffectView;
use crate::launcher::effective_model;
use crate::launcher::headless_launch;
use crate::launcher::headless_launch_of;
use crate::launcher::interactive_launch;
use crate::launcher::interactive_launch_of;
use crate::launcher::shell_launch;
use crate::launcher::shell_launch_of;
use crate::launcher::AgentProbes;
use crate::launcher::AgentProbesView;
use crate::launcher::Launch;
use crate::launcher::LaunchView;
use crate::launcher::ShellProbes;
use crate::launcher::ShellProbesView;
use crate::model::starting_info;
use crate::model::OrchestratorConfigView;
use crate::model::SessionId;
use crate::model::SessionInfo;
use crate::model::SessionInfoView;
use crate::model::SessionMode;
use crate::model::SessionSpec;
use crate::model::SessionSpecView;
use crate::model::SessionStatus;
use crate::naming::fresh_id;
use crate::naming::is_name_of;
use crate::naming::is_uuid_v4;
use crate::naming::session_name;
use crate::ring::RingBuffer;
use crate::ring::MIN_RING_BYTES;
use crate::state::lemma_put_session_at;
use crate::state::lemma_put_session_valid;
use crate::state::session_views;
use crate::state::Core;
use crate::state::CoreView;
use crate::state::Session;
use crate::state::SessionView;
use crate::state::Step;
use crate::state::Transport;
use crate::text::clone_opt;
use crate::text::decimal;
use crate::text::decimal_text;
use crate::text::opt_text;
use crate::text::or_opt;
use vstd::prelude::*;
use vstd::string::StringExecFns;

verus! {

// ---- plans -----------------------------------------------------------------

/// How many rows a fresh terminal has.
pub const INITIAL_ROWS: u16 = 30;

/// How many columns a fresh terminal has.
pub const INITIAL_COLS: u16 = 120;

/// A session about to be started.
#[derive(Debug)]
pub struct Spawn {
    pub id: SessionId,
    pub name: String,
    pub mode: SessionMode,
    pub spec: SessionSpec,
    /// The model that the session runs, where that is known.
    pub model: Option<String>,
    /// The scrollback that the policy allows, in bytes.
    pub ring_bytes: usize,
    pub launch: Launch,
}

/// The mathematical content of a [`Spawn`].
pub struct SpawnView {
    pub id: Seq<char>,
    pub name: Seq<char>,
    pub mode: SessionMode,
    pub spec: SessionSpecView,
    pub model: Option<Seq<char>>,
    pub ring_bytes: usize,
    pub launch: LaunchView,
}

impl View for Spawn {
    type V = SpawnView;

    open spec fn view(&self) -> SpawnView {
        SpawnView {
            id: self.id@,
            name: self.name@,
            mode: self.mode,
            spec: self.spec@,
            model: opt_text(self.model),
            ring_bytes: self.ring_bytes,
            launch: self.launch@,
        }
    }
}

/// What is started in a mode: the agent for a worker or an interactive session,
/// the shell for a plain terminal.
pub open spec fn launch_in(
    mode: SessionMode,
    spec: SessionSpecView,
    config: OrchestratorConfigView,
    agents: AgentProbesView,
    shells: ShellProbesView,
) -> LaunchView {
    match mode {
        SessionMode::Headless => headless_launch_of(spec, config, agents),
        SessionMode::Interactive => interactive_launch_of(spec, config, agents),
        SessionMode::Shell => shell_launch_of(spec, config, shells),
    }
}

/// Whether a plan starts a session as the spec and the policy say, under a
/// random id and, where the spec gives none, a generated name.
pub open spec fn plans(
    plan: SpawnView,
    mode: SessionMode,
    spec: SessionSpecView,
    config: OrchestratorConfigView,
    launch: LaunchView,
) -> bool {
    &&& is_uuid_v4(plan.id)
    &&& is_name_of(plan.name, spec, plan.id)
    &&& plan.mode == mode
    &&& plan.spec == spec
    &&& plan.model == if mode is Shell {
        None
    } else {
        effective_model(spec, config)
    }
    &&& plan.ring_bytes == config.ring_buffer_bytes
    &&& plan.launch == launch
}

impl SpawnView {
    /// What the user reads where the program cannot be started.
    pub open spec fn failure(self) -> Seq<char> {
        match self.mode {
            SessionMode::Headless => "failed to spawn agent at "@ + self.launch.program,
            _ => "spawning "@ + self.launch.program + " in ConPTY failed"@,
        }
    }

    /// The first message for the session: a worker's initial prompt. No other
    /// session is told anything.
    pub open spec fn opening(self) -> Option<Seq<char>> {
        if self.mode is Headless {
            self.spec.initial_prompt
        } else {
            None
        }
    }
}

impl Spawn {
    /// What the user reads where the program cannot be started.
    pub fn failure(&self) -> (r: String)
        ensures
            r@ == self@.failure(),
    {
        match self.mode {
            SessionMode::Headless => {
                let mut text = "failed to spawn agent at ".to_owned();
                text.append(self.launch.program.as_str());
                text
            },
            _ => {
                let mut text = "spawning ".to_owned();
                text.append(self.launch.program.as_str());
                text.append(" in ConPTY failed");
                text
            },
        }
    }

    /// The first message for the session, if any.
    pub fn opening(&self) -> (r: Option<String>)
        ensures
            opt_text(r) == self@.opening(),
    {
        if self.mode == SessionMode::Headless {
            clone_opt(&self.spec.initial_prompt)
        } else {
            None
        }
    }
}

// ---- registration ----------------------------------------------------------

/// The scrollback that a session gets.
pub open spec fn scrollback(ring_bytes: usize) -> int {
    if ring_bytes < MIN_RING_BYTES {
        MIN_RING_BYTES as int
    } else {
        ring_bytes as int
    }
}

/// A process id, as it is logged.
pub open spec fn pid_text(pid: Option<u32>) -> Seq<char> {
    match pid {
        Some(p) => "Some("@ + decimal(p as nat) + ")"@,
        None => "None"@,
    }
}

fn write_pid(pid: Option<u32>) -> (r: String)
    ensures
        r@ == pid_text(pid),
{
    match pid {
        Some(p) => {
            let mut text = "Some(".to_owned();
            text.append(decimal_text(p as u64).as_str());
            text.append(")");
            text
        },
        None => "None".to_owned(),
    }
}

/// The session that a plan, once carried out, amounts to.
pub open spec fn new_session(plan: SpawnView, pid: Option<u32>, now: i64) -> SessionView {
    SessionView {
        info: SessionInfoView {
            pid,
            status: if plan.mode is Headless {
                SessionStatus::Starting
            } else {
                SessionStatus::Idle
            },
            activity: match plan.mode {
                SessionMode::Headless => "initializing"@,
                SessionMode::Interactive => "interactive"@,
                SessionMode::Shell => "terminal"@,
            },
            ..starting_info(plan.id, plan.name, plan.mode, plan.spec.cwd, plan.model, now)
        },
        spec: plan.spec,
        transport: if plan.mode is Headless {
            Transport::Headless
        } else {
            Transport::Interactive
        },
        ring: Seq::empty(),
        ring_capacity: scrollback(plan.ring_bytes),
        stop: false,
    }
}

/// What is logged of a plan that was carried out.
pub open spec fn spawn_line(plan: SpawnView, pid: Option<u32>) -> Seq<char> {
    match plan.mode {
        SessionMode::Headless => "spawned headless worker (pid "@ + pid_text(pid) + ")"@,
        _ => "spawned "@ + plan.launch.program + " (pid "@ + pid_text(pid) + ")"@,
    }
}

/// A session enters the registry; one with the same id gives way to it.
pub open spec fn add_session(c: CoreView, session: SessionView) -> CoreView {
    if c.has_session(session.info.id) {
        c.put_session(session.info.id, session)
    } else {
        CoreView { sessions: c.sessions.push(session), ..c }
    }
}

/// A session was spawned: it enters the registry and is persisted, announced
/// and logged.
pub open spec fn spawned(c: CoreView, session: SessionView, line: Seq<char>) -> Step {
    Step {
        state: add_session(c, session),
        effects: seq![EffectView::SessionChanged(session.info)],
    }.log(session.info.id, "system"@, line)
}


impl Core {
    // ---- plans -------------------------------------------------------------

    fn plan(&self, mode: SessionMode, spec: SessionSpec, launch: Launch) -> (r: Spawn)
        ensures
            plans(r@, mode, spec@, self@.config, launch@),
    {
        let id = fresh_id();
        let name = session_name(&spec, id.as_str());
        let model = match mode {
            SessionMode::Shell => None,
            _ => or_opt(&spec.model, &self.config.default_model),
        };
        assert(opt_text(model) == if mode is Shell {
            None
        } else {
            effective_model(spec@, self@.config)
        });
        Spawn { id, name, mode, spec, model, ring_bytes: self.config.ring_buffer_bytes, launch }
    }

    /// Plan a headless `stream-json` worker.
    pub fn spawn_headless(&self, spec: SessionSpec, agents: &AgentProbes) -> (r: Spawn)
        ensures
            plans(
                r@,
                SessionMode::Headless,
                spec@,
                self@.config,
                headless_launch_of(spec@, self@.config, agents@),
            ),
    {
        let launch = headless_launch(&spec, &self.config, agents);
        self.plan(SessionMode::Headless, spec, launch)
    }

    /// Plan an interactive agent TUI in a terminal.
    pub fn spawn_interactive(&self, spec: SessionSpec, agents: &AgentProbes) -> (r: Spawn)
        ensures
            plans(
                r@,
                SessionMode::Interactive,
                spec@,
                self@.config,
                interactive_launch_of(spec@, self@.config, agents@),
            ),
    {
        let launch = interactive_launch(&spec, &self.config, agents);
        self.plan(SessionMode::Interactive, spec, launch)
    }

    /// Plan a plain shell in a terminal.
    pub fn spawn_shell(&self, spec: SessionSpec, shells: &ShellProbes) -> (r: Spawn)
        ensures
            plans(
                r@,
                SessionMode::Shell,
                spec@,
                self@.config,
                shell_launch_of(spec@, self@.config, shells@),
            ),
    {
        let launch = shell_launch(&spec, &self.config, shells);
        self.plan(SessionMode::Shell, spec, launch)
    }

    /// Plan the session that a spec describes.
    pub fn create_session(
        &self,
        spec: SessionSpec,
        agents: &AgentProbes,
        shells: &ShellProbes,
    ) -> (r: Spawn)
        ensures
            plans(
                r@,
                spec@.mode,
                spec@,
                self@.config,
                launch_in(spec@.mode, spec@, self@.config, agents@, shells@),
            ),
    {
        match spec.mode {
            SessionMode::Headless => self.spawn_headless(spec, agents),
            SessionMode::Interactive => self.spawn_interactive(spec, agents),
            SessionMode::Shell => self.spawn_shell(spec, shells),
        }
    }

    // ---- registration ------------------------------------------------------

    fn register(&mut self, session: Session, line: String) -> (r: Vec<Effect>)
        requires
            old(self).wf(),
            session.ring.wf(),
            (session@.info.mode is Headless) == (session@.transport is Headless),
            !session@.info.attached,
        ensures
            final(self).wf(),
            final(self)@ == spawned(old(self)@, session@, line@).state,
            effects_of(r@) == spawned(old(self)@, session@, line@).effects,
    {
        let ghost before = self@;
        let mut out = no_effects();
        let sid = session.info.id.clone();
        add_effect(&mut out, Effect::SessionChanged(session.info.clone()));
        add_log(&mut out, sid.as_str(), "system", line);
        assert(effects_of(out@) =~= spawned(before, session@, line@).effects);
        proof {
            session.ring.bounded();
        }
        match self.find_session(sid.as_str()) {
            Some(i) => {
                proof {
                    lemma_put_session_at(before, i as int, session@);
                    lemma_put_session_valid(before, sid@, session@);
                }
                self.sessions[i] = session;
                assert(session_views(self.sessions@) =~= before.sessions.update(
                    i as int,
                    session@,
                ));
            },
            None => {
                proof {
                    assert forall|i: int| 0 <= i < before.sessions.len() implies (
                    #[trigger] before.sessions[i]).info.id != sid@ by {}
                }
                self.sessions.push(session);
                assert(session_views(self.sessions@) =~= before.sessions.push(session@));
                proof {
                    let d = self@;
                    assert forall|i: int| 0 <= i < d.sessions.len() && (
                    #[trigger] d.sessions[i]).info.attached implies d.attach_lru.contains(
                        d.sessions[i].info.id,
                    ) by {
                        assert(d.sessions[i] == before.sessions[i]);
                    }
                    assert forall|i: int| 0 <= i < d.sessions.len() implies (
                    #[trigger] d.sessions[i]).coherent() by {
                        if i < before.sessions.len() {
                            assert(before.sessions[i].coherent());
                        }
                    }
                }
            },
        }
        out
    }

    /// Enter a session that was just started according to a plan.
    pub fn on_spawned(&mut self, plan: Spawn, pid: Option<u32>, now: i64) -> (r: Vec<Effect>)
        requires
            old(self).wf(),
        ensures
            final(self).wf(),
            ({
                let step = spawned(
                    old(self)@,
                    new_session(plan@, pid, now),
                    spawn_line(plan@, pid),
                );
                final(self)@ == step.state && effects_of(r@) == step.effects
            }),
    {
        let ghost planned = plan@;
        let line = match plan.mode {
            SessionMode::Headless => {
                let mut line = "spawned headless worker (pid ".to_owned();
                line.append(write_pid(pid).as_str());
                line.append(")");
                line
            },
            _ => {
                let mut line = "spawned ".to_owned();
                line.append(plan.launch.program.as_str());
                line.append(" (pid ");
                line.append(write_pid(pid).as_str());
                line.append(")");
                line
            },
        };
        assert(line@ == spawn_line(planned, pid));
        let cwd = plan.spec.cwd.clone();
        let mut info = SessionInfo::starting_at(
            plan.id,
            plan.name,
            plan.mode,
            cwd,
            plan.model,
            now,
        );
        info.pid = pid;
        let transport = match plan.mode {
            SessionMode::Headless => {
                info.activity = "initializing".to_owned();
                Transport::Headless
            },
            SessionMode::Interactive => {
                info.status = SessionStatus::Idle;
                info.activity = "interactive".to_owned();
                Transport::Interactive
            },
            SessionMode::Shell => {
                info.status = SessionStatus::Idle;
                info.activity = "terminal".to_owned();
                Transport::Interactive
            },
        };
        let session = Session {
            info,
            spec: plan.spec,
            transport,
            ring: RingBuffer::new(plan.ring_bytes),
            stop: false,
        };
        assert(session@ == new_session(planned, pid, now));
        self.register(session, line)
    }
}

} // verus!
