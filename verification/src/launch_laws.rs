//! What a launch promises: the program, the command line, and the session that
//! comes of it, in terms of the spec and the policy.
use crate::effects::EffectView;
use crate::launcher::agent_program;
use crate::launcher::headless_arg_list;
use crate::launcher::interactive_arg_list;
use crate::launcher::shell_args;
use crate::launcher::shell_program;
use crate::launcher::AgentProbesView;
use crate::launcher::ShellProbesView;
use crate::laws::agree_elsewhere;
use crate::laws::lemma_put_session;
use crate::model::F32Bits;
use crate::model::F64Bits;
use crate::model::OrchestratorConfigView;
use crate::model::SessionInfoView;
use crate::model::SessionMode;
use crate::model::SessionSpecView;
use crate::model::SessionStatus;
use crate::model::TokenUsage;
use crate::naming::ascii_short_id;
use crate::naming::is_uuid_v4;
use crate::naming::uuid_is_ascii;
use crate::spawning::launch_in;
use crate::spawning::new_session;
use crate::spawning::plans;
use crate::spawning::spawn_line;
use crate::spawning::spawned;
use crate::spawning::SpawnView;
use crate::state::lemma_session_at;
use crate::state::CoreView;
use crate::state::SessionView;
use crate::state::Transport;
use crate::text::ascii_lowered;
use crate::text::contains_text;
use crate::text::decimal;
use crate::text::stands_at;
use crate::text::trimmed;
use vstd::prelude::*;

verus! {

// ---- command lines ---------------------------------------------------------

/// Whether `name` stands in a command line directly before `value`.
pub open spec fn followed_by(args: Seq<Seq<char>>, name: Seq<char>, value: Seq<char>) -> bool {
    exists|i: int| 0 <= i < args.len() - 1 && #[trigger] args[i] == name && args[i + 1] == value
}

/// An agent runs the model of its session, whatever the default is; the default
/// counts only where the session has none, and then as if the session had asked
/// for it. Without either there is no such flag.
pub proof fn a_sessions_own_model_wins(
    spec: SessionSpecView,
    config: OrchestratorConfigView,
    m: Seq<char>,
    other: Option<Seq<char>>,
)
    ensures
        ({
            let own = SessionSpecView { model: Some(m), ..spec };
            let none = SessionSpecView { model: None, ..spec };
            let by_default = OrchestratorConfigView { default_model: Some(m), ..config };
            let elsewhere = OrchestratorConfigView { default_model: other, ..config };
            let silent = OrchestratorConfigView { default_model: None, ..config };
            &&& followed_by(headless_arg_list(own, config), "--model"@, m)
            &&& followed_by(interactive_arg_list(own, config), "--model"@, m)
            &&& headless_arg_list(own, elsewhere) == headless_arg_list(own, config)
            &&& interactive_arg_list(own, elsewhere) == interactive_arg_list(own, config)
            &&& headless_arg_list(none, by_default) == headless_arg_list(own, config)
            &&& interactive_arg_list(none, by_default) == interactive_arg_list(own, config)
            &&& headless_arg_list(none, silent).len() + 2 == headless_arg_list(own, config).len()
            &&& interactive_arg_list(none, silent).len() + 2 == interactive_arg_list(
                own,
                config,
            ).len()
        }),
{
    let own = SessionSpecView { model: Some(m), ..spec };
    let none = SessionSpecView { model: None, ..spec };
    let by_default = OrchestratorConfigView { default_model: Some(m), ..config };
    let a = headless_arg_list(own, config);
    let at: int = if config.bare_mode {
        7
    } else {
        6
    };
    assert(a[at] == "--model"@);
    assert(a[at + 1] == m);
    let b = interactive_arg_list(own, config);
    assert(b[0] == "--model"@);
    assert(b[1] == m);
    assert(headless_arg_list(none, by_default) =~= headless_arg_list(own, config));
}

/// A worker gets the permission mode of its session, whatever the default is;
/// the default counts where the session has none. An empty one is no flag.
pub proof fn a_sessions_own_permission_mode_wins(
    spec: SessionSpecView,
    config: OrchestratorConfigView,
    p: Seq<char>,
    other: Seq<char>,
)
    ensures
        ({
            let own = SessionSpecView { permission_mode: Some(p), ..spec };
            let none = SessionSpecView { permission_mode: None, ..spec };
            let by_default = OrchestratorConfigView { default_permission_mode: p, ..config };
            let elsewhere = OrchestratorConfigView { default_permission_mode: other, ..config };
            let empty = SessionSpecView { permission_mode: Some(Seq::empty()), ..spec };
            &&& p.len() > 0 ==> followed_by(headless_arg_list(own, config), "--permission-mode"@, p)
            &&& p.len() > 0 ==> headless_arg_list(own, config).len() == headless_arg_list(
                empty,
                config,
            ).len() + 2
            &&& headless_arg_list(own, elsewhere) == headless_arg_list(own, config)
            &&& headless_arg_list(none, by_default) == headless_arg_list(own, config)
        }),
{
    let own = SessionSpecView { permission_mode: Some(p), ..spec };
    let none = SessionSpecView { permission_mode: None, ..spec };
    let by_default = OrchestratorConfigView { default_permission_mode: p, ..config };
    let a = headless_arg_list(own, config);
    let bare: int = if config.bare_mode {
        1
    } else {
        0
    };
    let model: int = if spec.model is Some || config.default_model is Some {
        2
    } else {
        0
    };
    if p.len() > 0 {
        assert(a[6 + bare + model] == "--permission-mode"@);
        assert(a[6 + bare + model + 1] == p);
    }
    assert(headless_arg_list(none, by_default) =~= headless_arg_list(own, config));
}

/// The tools that a session allows, and the conversation it resumes, stand on
/// the command line; no tools and none at all are the same.
pub proof fn tools_and_conversation_are_passed_on(
    spec: SessionSpecView,
    config: OrchestratorConfigView,
    t: Seq<char>,
    r: Seq<char>,
)
    requires
        t.len() > 0,
    ensures
        ({
            let full = SessionSpecView { allowed_tools: Some(t), resume: Some(r), ..spec };
            let untold = SessionSpecView { allowed_tools: None, ..spec };
            let empty = SessionSpecView { allowed_tools: Some(Seq::empty()), ..spec };
            let some = SessionSpecView { allowed_tools: Some(t), ..spec };
            let fresh = SessionSpecView { resume: None, ..spec };
            let resumed = SessionSpecView { resume: Some(r), ..spec };
            let a = headless_arg_list(full, config);
            &&& followed_by(a, "--allowedTools"@, t)
            &&& a.len() >= 4
            &&& a[a.len() - 2] == "--resume"@
            &&& a[a.len() - 1] == r
            &&& headless_arg_list(untold, config) == headless_arg_list(empty, config)
            &&& headless_arg_list(some, config).len() == headless_arg_list(untold, config).len() + 2
            &&& headless_arg_list(resumed, config) == headless_arg_list(fresh, config) + seq![
                "--resume"@,
                r,
            ]
            &&& interactive_arg_list(resumed, config) == interactive_arg_list(fresh, config)
                + seq!["--resume"@, r]
        }),
{
    let full = SessionSpecView { allowed_tools: Some(t), resume: Some(r), ..spec };
    let fresh = SessionSpecView { resume: None, ..spec };
    let resumed = SessionSpecView { resume: Some(r), ..spec };
    let a = headless_arg_list(full, config);
    let n = a.len() as int;
    assert(a[n - 4] == "--allowedTools"@);
    assert(a[n - 3] == t);
    assert(headless_arg_list(resumed, config) =~= headless_arg_list(fresh, config) + seq![
        "--resume"@,
        r,
    ]);
    assert(interactive_arg_list(resumed, config) =~= interactive_arg_list(fresh, config) + seq![
        "--resume"@,
        r,
    ]);
}

/// Every worker speaks the protocol in both directions, and bare mode is one
/// more flag right after that.
pub proof fn every_worker_speaks_the_protocol(
    spec: SessionSpecView,
    config: OrchestratorConfigView,
)
    ensures
        ({
            let a = headless_arg_list(spec, config);
            let plain = headless_arg_list(
                spec,
                OrchestratorConfigView { bare_mode: false, ..config },
            );
            let bare = headless_arg_list(
                spec,
                OrchestratorConfigView { bare_mode: true, ..config },
            );
            &&& a.len() >= 6
            &&& a[0] == "--print"@
            &&& a[1] == "--input-format"@
            &&& a[2] == "stream-json"@
            &&& a[3] == "--output-format"@
            &&& a[4] == "stream-json"@
            &&& a[5] == "--verbose"@
            &&& bare == plain.insert(6, "--bare"@)
        }),
{
    let plain = headless_arg_list(spec, OrchestratorConfigView { bare_mode: false, ..config });
    let bare = headless_arg_list(spec, OrchestratorConfigView { bare_mode: true, ..config });
    assert(bare =~= plain.insert(6, "--bare"@));
}

/// The order of the flags of a worker, all of them given.
pub proof fn a_full_command_line(
    spec: SessionSpecView,
    config: OrchestratorConfigView,
    m: Seq<char>,
    p: Seq<char>,
    t: Seq<char>,
    r: Seq<char>,
)
    requires
        spec.model == Some(m),
        spec.permission_mode == Some(p),
        spec.allowed_tools == Some(t),
        spec.resume == Some(r),
        p.len() > 0,
        t.len() > 0,
        !config.bare_mode,
    ensures
        headless_arg_list(spec, config) == seq![
            "--print"@,
            "--input-format"@,
            "stream-json"@,
            "--output-format"@,
            "stream-json"@,
            "--verbose"@,
            "--model"@,
            m,
            "--permission-mode"@,
            p,
            "--allowedTools"@,
            t,
            "--resume"@,
            r,
        ],
        interactive_arg_list(spec, config) == seq!["--model"@, m, "--resume"@, r],
{
    assert(headless_arg_list(spec, config) =~= seq![
        "--print"@,
        "--input-format"@,
        "stream-json"@,
        "--output-format"@,
        "stream-json"@,
        "--verbose"@,
        "--model"@,
        m,
        "--permission-mode"@,
        p,
        "--allowedTools"@,
        t,
        "--resume"@,
        r,
    ]);
    assert(interactive_arg_list(spec, config) =~= seq!["--model"@, m, "--resume"@, r]);
}

// ---- programs --------------------------------------------------------------

/// A configured agent is run as it is written; without one the native executable
/// comes first, then what is on the path, the executable before the bare name,
/// and at last the executable's name alone.
pub proof fn the_agent_that_is_run(config: OrchestratorConfigView, found: AgentProbesView)
    ensures
        ({
            let run = agent_program(config, found);
            let configured = trimmed(config.agent_bin).len() > 0;
            &&& configured ==> run == config.agent_bin
            &&& !configured && found.native is Some ==> run == found.native->0
            &&& !configured && found.native is None && found.exe_on_path is Some ==> run
                == found.exe_on_path->0
            &&& !configured && found.native is None && found.exe_on_path is None
                && found.on_path is Some ==> run == found.on_path->0
            &&& !configured && found.native is None && found.exe_on_path is None
                && found.on_path is None ==> run == found.exe_name
        }),
{
}

/// A configured shell is run without the white space around it; without one
/// PowerShell 7 comes first, then Windows PowerShell, then the command
/// interpreter. A PowerShell that was found starts without its banner, the
/// command interpreter without arguments.
pub proof fn the_shell_that_is_run(config: OrchestratorConfigView, found: ShellProbesView)
    ensures
        ({
            let run = shell_program(config, found);
            let args = shell_args(config, found);
            let configured = trimmed(config.shell_program).len() > 0;
            &&& configured ==> run == trimmed(config.shell_program)
            &&& !configured && found.pwsh is Some ==> run == found.pwsh->0 && args
                == seq!["-NoLogo"@]
            &&& !configured && found.pwsh is None && found.powershell is Some ==> run
                == found.powershell->0 && args == seq!["-NoLogo"@]
            &&& !configured && found.pwsh is None && found.powershell is None
                && found.comspec is Some ==> run == found.comspec->0 && args.len() == 0
            &&& !configured && found.pwsh is None && found.powershell is None
                && found.comspec is None ==> run == "cmd.exe"@ && args.len() == 0
            &&& configured ==> args.len() == 0 || args == seq!["-NoLogo"@]
        }),
{
}

/// Whether `piece` is `word`, a word in lower-case letters, in whatever case.
pub open spec fn spells(piece: Seq<char>, word: Seq<char>) -> bool {
    &&& piece.len() == word.len()
    &&& forall|k: int|
        0 <= k < word.len() ==> #[trigger] piece[k] == word[k] || piece[k] as int + 32
            == word[k] as int
}

/// Whether `word` is spelled in a program's name from index `i` on.
pub open spec fn spelled_at(program: Seq<char>, word: Seq<char>, i: int) -> bool {
    0 <= i <= program.len() - word.len() && spells(program.subrange(i, i + word.len()), word)
}

/// A configured shell starts without its banner exactly where its name holds, in
/// whatever case, the name of a PowerShell; any other starts without arguments.
pub proof fn a_configured_powershell_is_quiet(
    config: OrchestratorConfigView,
    found: ShellProbesView,
)
    requires
        trimmed(config.shell_program).len() > 0,
    ensures
        ({
            let program = trimmed(config.shell_program);
            let args = shell_args(config, found);
            &&& args == seq!["-NoLogo"@] <==> (exists|i: int|
                spelled_at(program, "powershell"@, i)) || (exists|i: int|
                spelled_at(program, "pwsh"@, i))
            &&& args == seq!["-NoLogo"@] || args.len() == 0
        }),
{
    reveal_strlit("powershell");
    reveal_strlit("pwsh");
    reveal_strlit("-NoLogo");
    let program = trimmed(config.shell_program);
    let low = ascii_lowered(program);
    assert forall|i: int| #[trigger]
        spelled_at(program, "powershell"@, i) == stands_at(low, "powershell"@, i) by {
        lemma_spelled(program, "powershell"@, i);
    }
    assert forall|i: int| #[trigger]
        spelled_at(program, "pwsh"@, i) == stands_at(low, "pwsh"@, i) by {
        lemma_spelled(program, "pwsh"@, i);
    }
    if contains_text(low, "powershell"@) {
        let i = choose|i: int| stands_at(low, "powershell"@, i);
        assert(spelled_at(program, "powershell"@, i));
    }
    if contains_text(low, "pwsh"@) {
        let i = choose|i: int| stands_at(low, "pwsh"@, i);
        assert(spelled_at(program, "pwsh"@, i));
    }
    if exists|i: int| spelled_at(program, "powershell"@, i) {
        let i = choose|i: int| spelled_at(program, "powershell"@, i);
        assert(stands_at(low, "powershell"@, i));
    }
    if exists|i: int| spelled_at(program, "pwsh"@, i) {
        let i = choose|i: int| spelled_at(program, "pwsh"@, i);
        assert(stands_at(low, "pwsh"@, i));
    }
    let some = (exists|i: int| spelled_at(program, "powershell"@, i)) || (exists|i: int|
        spelled_at(program, "pwsh"@, i));
    assert(some == (contains_text(low, "powershell"@) || contains_text(low, "pwsh"@)));
    let args = shell_args(config, found);
    if some {
        assert(args == seq!["-NoLogo"@]);
    } else {
        assert(args == Seq::<Seq<char>>::empty());
        assert(seq!["-NoLogo"@].len() == 1);
        assert(args.len() == 0);
    }
}

proof fn lemma_spelled(program: Seq<char>, word: Seq<char>, i: int)
    requires
        forall|k: int| 0 <= k < word.len() ==> 'a' <= #[trigger] word[k] <= 'z',
    ensures
        spelled_at(program, word, i) == stands_at(ascii_lowered(program), word, i),
{
    let low = ascii_lowered(program);
    if 0 <= i <= program.len() - word.len() {
        let piece = program.subrange(i, i + word.len());
        let low_piece = low.subrange(i, i + word.len());
        if spells(piece, word) {
            assert forall|k: int| 0 <= k < word.len() implies low_piece[k] == word[k] by {
                assert(piece[k] == word[k] || piece[k] as int + 32 == word[k] as int);
                assert('a' <= word[k] <= 'z');
            }
            assert(low_piece =~= word);
        }
        if low_piece == word {
            assert forall|k: int| 0 <= k < word.len() implies #[trigger] piece[k] == word[k]
                || piece[k] as int + 32 == word[k] as int by {
                assert(low_piece[k] == word[k]);
            }
        }
    }
}

// ---- plans and sessions ----------------------------------------------------

/// A plan runs what its mode asks for, in the directory of its spec, under the
/// name of its spec or one that ends with the first four characters of its id;
/// the model that it shows is the session's own, else the default, and is the one
/// on the command line. A shell has none.
pub proof fn a_plan_keeps_to_its_spec(
    plan: SpawnView,
    mode: SessionMode,
    spec: SessionSpecView,
    config: OrchestratorConfigView,
    agents: AgentProbesView,
    shells: ShellProbesView,
)
    requires
        plans(plan, mode, spec, config, launch_in(mode, spec, config, agents, shells)),
    ensures
        is_uuid_v4(plan.id),
        plan.mode == mode,
        plan.spec == spec,
        plan.ring_bytes == config.ring_buffer_bytes,
        plan.launch.cwd == spec.cwd,
        mode == SessionMode::Shell ==> plan.launch.program == shell_program(config, shells)
            && plan.launch.args == shell_args(config, shells) && plan.model is None,
        mode != SessionMode::Shell ==> plan.launch.program == agent_program(config, agents),
        mode != SessionMode::Shell && spec.model is Some ==> plan.model == spec.model,
        mode != SessionMode::Shell && spec.model is None ==> plan.model == config.default_model,
        mode != SessionMode::Shell && plan.model is Some ==> followed_by(
            plan.launch.args,
            "--model"@,
            plan.model->0,
        ),
        mode == SessionMode::Headless ==> plan.launch.args.len() > 0 && plan.launch.args[0]
            == "--print"@,
        mode == SessionMode::Headless ==> plan.launch.args == headless_arg_list(spec, config),
        mode == SessionMode::Interactive ==> plan.launch.args == interactive_arg_list(spec, config),
        spec.name is Some ==> plan.name == spec.name->0,
        spec.name is None ==> plan.name.len() >= 5 && plan.name.skip(plan.name.len() - 5)
            == seq!['-'] + plan.id.take(4),
{
    if mode != SessionMode::Shell && plan.model is Some {
        let m = plan.model->0;
        a_sessions_own_model_wins(spec, config, m, None);
        if spec.model is None {
            assert(SessionSpecView { model: None, ..spec } == spec);
            assert(OrchestratorConfigView { default_model: Some(m), ..config } == config);
        } else {
            assert(SessionSpecView { model: Some(m), ..spec } == spec);
        }
    }
    every_worker_speaks_the_protocol(spec, config);
    if spec.name is None {
        uuid_is_ascii(plan.id);
        ascii_short_id(plan.id);
        reveal_strlit("-");
        assert("-"@ =~= seq!['-']);
        assert(plan.name.skip(plan.name.len() - 5) =~= seq!['-'] + plan.id.take(4));
    }
}

/// A session that was just started: nothing done yet, under the plan's id, name,
/// mode and model, in its directory. A worker waits for the handshake and is fed
/// by messages; a terminal is ready and is fed by keystrokes. At least 4096
/// bytes of output are retained.
pub proof fn a_fresh_session(plan: SpawnView, pid: Option<u32>, now: i64)
    ensures
        ({
            let s = new_session(plan, pid, now);
            let worker = plan.mode == SessionMode::Headless;
            &&& s.info == (SessionInfoView {
                id: plan.id,
                name: plan.name,
                mode: plan.mode,
                status: if worker {
                    SessionStatus::Starting
                } else {
                    SessionStatus::Idle
                },
                cwd: plan.spec.cwd,
                model: plan.model,
                agent_session_id: None,
                attached: false,
                pid,
                created_at: now,
                last_activity: now,
                usage: TokenUsage {
                    input_tokens: 0,
                    output_tokens: 0,
                    cache_creation_tokens: 0,
                    cache_read_tokens: 0,
                },
                cost_usd: F64Bits(0),
                turns: 0,
                current_task: None,
                activity: if worker {
                    "initializing"@
                } else if plan.mode == SessionMode::Shell {
                    "terminal"@
                } else {
                    "interactive"@
                },
                cpu: F32Bits(0),
                mem_bytes: 0,
                exit_code: None,
            })
            &&& s.spec == plan.spec
            &&& worker ==> s.transport == Transport::Headless
            &&& !worker ==> s.transport == Transport::Interactive
            &&& s.ring.len() == 0
            &&& s.ring_capacity >= 4096
            &&& plan.ring_bytes >= 4096 ==> s.ring_capacity == plan.ring_bytes
            &&& plan.ring_bytes < 4096 ==> s.ring_capacity == 4096
            &&& !s.stop
        }),
{
}

/// A worker is told its initial prompt first, word for word; a terminal nothing.
pub proof fn only_workers_are_prompted(plan: SpawnView)
    ensures
        plan.mode == SessionMode::Headless ==> plan.opening() == plan.spec.initial_prompt,
        plan.mode != SessionMode::Headless ==> plan.opening() is None,
{
}

/// What the log says of a started session names the program and the process.
pub proof fn a_start_is_logged(plan: SpawnView, pid: u32)
    ensures
        plan.mode == SessionMode::Headless ==> spawn_line(plan, Some(pid))
            == "spawned headless worker (pid "@ + ("Some("@ + decimal(pid as nat) + ")"@) + ")"@,
        plan.mode != SessionMode::Headless ==> spawn_line(plan, Some(pid)) == "spawned "@
            + plan.launch.program + " (pid "@ + ("Some("@ + decimal(pid as nat) + ")"@) + ")"@,
        plan.mode == SessionMode::Headless ==> plan.failure() == "failed to spawn agent at "@
            + plan.launch.program,
        plan.mode != SessionMode::Headless ==> plan.failure() == "spawning "@ + plan.launch.program
            + " in ConPTY failed"@,
{
}

/// A registered session is there under its id, persisted, announced and logged;
/// no other session changes.
pub proof fn registering_adds_one_session(c: CoreView, s: SessionView, line: Seq<char>)
    requires
        c.valid(),
    ensures
        ({
            let step = spawned(c, s, line);
            let d = step.state;
            let sid = s.info.id;
            &&& d.has_session(sid)
            &&& d.session(sid) == s
            &&& agree_elsewhere(c, d, sid)
            &&& d.tasks == c.tasks
            &&& d.config == c.config
            &&& d.attach_lru == c.attach_lru
            &&& step.effects == seq![
                EffectView::SessionChanged(s.info),
                EffectView::Log { session_id: sid, kind: "system"@, text: line },
            ]
        }),
{
    let sid = s.info.id;
    let step = spawned(c, s, line);
    let d = step.state;
    assert(step.effects =~= seq![
        EffectView::SessionChanged(s.info),
        EffectView::Log { session_id: sid, kind: "system"@, text: line },
    ]);
    if c.has_session(sid) {
        lemma_put_session(c, sid, s);
    } else {
        let k = c.sessions.len() as int;
        assert(d.sessions[k] == s);
        assert(d.has_session(sid));
        let m = choose|m: int| 0 <= m < d.sessions.len() && (#[trigger] d.sessions[m]).info.id == sid;
        if m < k {
            assert(c.sessions[m].info.id == sid);
        }
        assert forall|other: Seq<char>| #![trigger d.has_session(other)] other != sid implies
            d.has_session(other) == c.has_session(other) && (c.has_session(other) ==> d.session(
            other,
        ) == c.session(other)) by {
            if c.has_session(other) {
                let i = choose|i: int|
                    0 <= i < c.sessions.len() && (#[trigger] c.sessions[i]).info.id == other;
                assert(d.sessions[i].info.id == other);
                let j = choose|j: int|
                    0 <= j < d.sessions.len() && (#[trigger] d.sessions[j]).info.id == other;
                assert(j < k);
                assert(c.sessions[j].info.id == other);
                lemma_session_at(c, j);
            }
            if d.has_session(other) {
                let j = choose|j: int|
                    0 <= j < d.sessions.len() && (#[trigger] d.sessions[j]).info.id == other;
                assert(c.sessions[j].info.id == other);
            }
        }
    }
}

/// How long a command line is: nothing stands on it but the flags that are asked
/// for.
pub proof fn nothing_else_is_passed(spec: SessionSpecView, config: OrchestratorConfigView)
    ensures
        ({
            let bare: int = if config.bare_mode {
                1
            } else {
                0
            };
            let model: int = if spec.model is Some || config.default_model is Some {
                2
            } else {
                0
            };
            let permission: int = if (spec.permission_mode is Some && spec.permission_mode->0.len()
                > 0) || (spec.permission_mode is None && config.default_permission_mode.len()
                > 0) {
                2
            } else {
                0
            };
            let tools: int = if spec.allowed_tools is Some && spec.allowed_tools->0.len() > 0 {
                2
            } else {
                0
            };
            let resume: int = if spec.resume is Some {
                2
            } else {
                0
            };
            &&& headless_arg_list(spec, config).len() == 6 + bare + model + permission + tools
                + resume
            &&& interactive_arg_list(spec, config).len() == model + resume
        }),
{
}

/// A process whose id is not known is logged so.
pub proof fn an_unknown_process_is_logged(plan: SpawnView)
    ensures
        plan.mode == SessionMode::Headless ==> spawn_line(plan, None)
            == "spawned headless worker (pid "@ + "None"@ + ")"@,
        plan.mode != SessionMode::Headless ==> spawn_line(plan, None) == "spawned "@
            + plan.launch.program + " (pid "@ + "None"@ + ")"@,
{
}

} // verus!
