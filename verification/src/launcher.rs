//! Choosing the agent CLI executable or the shell, and assembling the argument
//! lists for the two transports.
//!
//! The default agent CLI ships a native exe inside its npm package; spawning
//! that directly avoids the `.cmd` shim and all of `cmd.exe`'s argument-quoting
//! hazards, so prompts and tool patterns pass through untouched. A configured
//! `agent_bin` overrides this default.
use crate::model::OrchestratorConfig;
use crate::model::OrchestratorConfigView;
use crate::model::SessionSpec;
use crate::model::SessionSpecView;
use crate::text::ascii_lowered;
use crate::text::clone_opt;
use crate::text::contains;
use crate::text::contains_text;
use crate::text::is_blank;
use crate::text::opt_text;
use crate::text::or_opt;
use crate::text::or_text;
use crate::text::texts;
use crate::text::trimmed;
use vstd::prelude::*;

verus! {

// ---- programs --------------------------------------------------------------

/// Where the host found an agent CLI.
#[derive(Debug)]
pub struct AgentProbes {
    /// The native exe inside the npm global package, where it exists.
    pub native: Option<String>,
    /// The CLI's exe, where it is on `PATH`.
    pub exe_on_path: Option<String>,
    /// The CLI under its name without `.exe`, where that is on `PATH`.
    pub on_path: Option<String>,
    /// The file name of the CLI's exe, for the OS to resolve.
    pub exe_name: String,
}

/// The mathematical content of a [`AgentProbes`].
pub struct AgentProbesView {
    pub native: Option<Seq<char>>,
    pub exe_on_path: Option<Seq<char>>,
    pub on_path: Option<Seq<char>>,
    pub exe_name: Seq<char>,
}

impl View for AgentProbes {
    type V = AgentProbesView;

    open spec fn view(&self) -> AgentProbesView {
        AgentProbesView {
            native: opt_text(self.native),
            exe_on_path: opt_text(self.exe_on_path),
            on_path: opt_text(self.on_path),
            exe_name: self.exe_name@,
        }
    }
}

/// The agent CLI to run: a configured one, else the native npm exe, else
/// anything on `PATH`, else the bare name for the OS to resolve.
pub open spec fn agent_program(config: OrchestratorConfigView, found: AgentProbesView) -> Seq<char> {
    if trimmed(config.agent_bin).len() > 0 {
        config.agent_bin
    } else if found.native is Some {
        found.native->0
    } else if found.exe_on_path is Some {
        found.exe_on_path->0
    } else if found.on_path is Some {
        found.on_path->0
    } else {
        found.exe_name
    }
}

/// Locate the agent CLI executable, preferring an explicit config override,
/// then the native npm package's `bin` exe, then anything on `PATH`.
pub fn resolve_agent(config: &OrchestratorConfig, found: &AgentProbes) -> (r: String)
    ensures
        r@ == agent_program(config@, found@),
{
    if !is_blank(config.agent_bin.as_str()) {
        return config.agent_bin.clone();
    }
    match &found.native {
        Some(p) => p.clone(),
        None => match &found.exe_on_path {
            Some(p) => p.clone(),
            None => match &found.on_path {
                Some(p) => p.clone(),
                None => found.exe_name.clone(),
            },
        },
    }
}

/// Where the host found a shell.
#[derive(Debug)]
pub struct ShellProbes {
    /// `pwsh.exe`, where it is on `PATH`.
    pub pwsh: Option<String>,
    /// `powershell.exe`, where it is on `PATH`.
    pub powershell: Option<String>,
    /// The value of `ComSpec`, where it is set.
    pub comspec: Option<String>,
}

/// The mathematical content of a [`ShellProbes`].
pub struct ShellProbesView {
    pub pwsh: Option<Seq<char>>,
    pub powershell: Option<Seq<char>>,
    pub comspec: Option<Seq<char>>,
}

impl View for ShellProbes {
    type V = ShellProbesView;

    open spec fn view(&self) -> ShellProbesView {
        ShellProbesView {
            pwsh: opt_text(self.pwsh),
            powershell: opt_text(self.powershell),
            comspec: opt_text(self.comspec),
        }
    }
}

/// Whether a configured shell is a PowerShell.
pub open spec fn is_powershell(program: Seq<char>) -> bool {
    contains_text(ascii_lowered(program), "powershell"@) || contains_text(
        ascii_lowered(program),
        "pwsh"@,
    )
}

/// The shell to run: a configured one, else PowerShell 7, else Windows
/// PowerShell, else the command interpreter.
pub open spec fn shell_program(config: OrchestratorConfigView, found: ShellProbesView) -> Seq<char> {
    if trimmed(config.shell_program).len() > 0 {
        trimmed(config.shell_program)
    } else if found.pwsh is Some {
        found.pwsh->0
    } else if found.powershell is Some {
        found.powershell->0
    } else if found.comspec is Some {
        found.comspec->0
    } else {
        "cmd.exe"@
    }
}

/// The shell's startup arguments: a PowerShell starts without its banner.
pub open spec fn shell_args(config: OrchestratorConfigView, found: ShellProbesView) -> Seq<
    Seq<char>,
> {
    let quiet = if trimmed(config.shell_program).len() > 0 {
        is_powershell(trimmed(config.shell_program))
    } else {
        found.pwsh is Some || found.powershell is Some
    };
    if quiet {
        seq!["-NoLogo"@]
    } else {
        Seq::empty()
    }
}

/// Resolve the shell to launch for a plain terminal session, returning the
/// program and its startup args. Honors a config override, else prefers
/// PowerShell 7 (`pwsh`), then Windows PowerShell, then `cmd`.
pub fn resolve_shell(config: &OrchestratorConfig, found: &ShellProbes) -> (r: (
    String,
    Vec<String>,
))
    ensures
        r.0@ == shell_program(config@, found@),
        texts(r.1@) == shell_args(config@, found@),
{
    let mut args: Vec<String> = Vec::new();
    assert(texts(args@) =~= Seq::<Seq<char>>::empty());
    let configured = config.shell_program.as_str().trim();
    if !configured.is_empty() {
        let lower = configured.to_ascii_lowercase();
        if contains(lower.as_str(), "powershell") || contains(lower.as_str(), "pwsh") {
            args.push("-NoLogo".to_owned());
            assert(texts(args@) =~= seq!["-NoLogo"@]);
        }
        return (configured.to_owned(), args);
    }
    let found_powershell = match &found.pwsh {
        Some(p) => Some(p.clone()),
        None => clone_opt(&found.powershell),
    };
    match found_powershell {
        Some(p) => {
            args.push("-NoLogo".to_owned());
            assert(texts(args@) =~= seq!["-NoLogo"@]);
            (p, args)
        },
        None => match &found.comspec {
            Some(p) => (p.clone(), args),
            None => ("cmd.exe".to_owned(), args),
        },
    }
}

// ---- arguments -------------------------------------------------------------

/// A flag and its value, where there is one.
pub open spec fn flag(name: Seq<char>, value: Option<Seq<char>>) -> Seq<Seq<char>> {
    match value {
        Some(v) => seq![name, v],
        None => Seq::empty(),
    }
}

/// The value itself where it is not empty.
pub open spec fn nonempty(value: Option<Seq<char>>) -> Option<Seq<char>> {
    match value {
        Some(v) => if v.len() > 0 {
            Some(v)
        } else {
            None
        },
        None => None,
    }
}

/// The model that a session runs: its own, else the configured default.
pub open spec fn effective_model(spec: SessionSpecView, config: OrchestratorConfigView) -> Option<
    Seq<char>,
> {
    or_text(spec.model, config.default_model)
}

/// The arguments that every headless worker gets.
pub open spec fn protocol_args() -> Seq<Seq<char>> {
    seq![
        "--print"@,
        "--input-format"@,
        "stream-json"@,
        "--output-format"@,
        "stream-json"@,
        "--verbose"@,
    ]
}

/// The arguments of a headless worker.
pub open spec fn headless_arg_list(
    spec: SessionSpecView,
    config: OrchestratorConfigView,
) -> Seq<Seq<char>> {
    protocol_args() + (if config.bare_mode {
        seq!["--bare"@]
    } else {
        Seq::empty()
    }) + flag("--model"@, effective_model(spec, config)) + flag(
        "--permission-mode"@,
        nonempty(or_text(spec.permission_mode, Some(config.default_permission_mode))),
    ) + flag("--allowedTools"@, nonempty(spec.allowed_tools)) + flag("--resume"@, spec.resume)
}

/// The arguments of an interactive session.
pub open spec fn interactive_arg_list(
    spec: SessionSpecView,
    config: OrchestratorConfigView,
) -> Seq<Seq<char>> {
    flag("--model"@, effective_model(spec, config)) + flag("--resume"@, spec.resume)
}

fn push_text(args: &mut Vec<String>, text: &str)
    ensures
        texts(final(args)@) == texts(old(args)@).push(text@),
{
    args.push(text.to_owned());
    assert(texts(args@) =~= texts(old(args)@).push(text@));
}

fn push_flag(args: &mut Vec<String>, name: &str, value: &Option<String>)
    ensures
        texts(final(args)@) == texts(old(args)@) + flag(name@, opt_text(*value)),
{
    match value {
        Some(v) => {
            push_text(args, name);
            push_text(args, v.as_str());
            assert(texts(args@) =~= texts(old(args)@) + flag(name@, opt_text(*value)));
        },
        None => {
            assert(texts(args@) =~= texts(old(args)@) + flag(name@, opt_text(*value)));
        },
    }
}

fn keep_nonempty(value: &Option<String>) -> (r: Option<String>)
    ensures
        opt_text(r) == nonempty(opt_text(*value)),
{
    match value {
        Some(v) => if v.as_str().is_empty() {
            None
        } else {
            Some(v.clone())
        },
        None => None,
    }
}

/// Build the argument vector for a **headless** worker speaking the
/// bidirectional `stream-json` protocol. The prompt is *not* an argument; it is
/// written to stdin, which sidesteps all shell-quoting concerns.
pub fn headless_args(spec: &SessionSpec, config: &OrchestratorConfig) -> (r: Vec<String>)
    ensures
        texts(r@) == headless_arg_list(spec@, config@),
{
    let mut args: Vec<String> = Vec::new();
    push_text(&mut args, "--print");
    push_text(&mut args, "--input-format");
    push_text(&mut args, "stream-json");
    push_text(&mut args, "--output-format");
    push_text(&mut args, "stream-json");
    push_text(&mut args, "--verbose");
    assert(texts(args@) =~= protocol_args());
    let ghost before = texts(args@);
    if config.bare_mode {
        push_text(&mut args, "--bare");
        assert(texts(args@) =~= before + seq!["--bare"@]);
    } else {
        assert(before + Seq::<Seq<char>>::empty() =~= before);
    }
    push_flag(&mut args, "--model", &or_opt(&spec.model, &config.default_model));
    let perm = match &spec.permission_mode {
        Some(p) => p.clone(),
        None => config.default_permission_mode.clone(),
    };
    push_flag(&mut args, "--permission-mode", &keep_nonempty(&Some(perm)));
    push_flag(&mut args, "--allowedTools", &keep_nonempty(&spec.allowed_tools));
    push_flag(&mut args, "--resume", &spec.resume);
    args
}

/// Build the argument vector for an **interactive** session: the agent's normal
/// TUI, optionally resuming a prior conversation.
pub fn interactive_args(spec: &SessionSpec, config: &OrchestratorConfig) -> (r: Vec<String>)
    ensures
        texts(r@) == interactive_arg_list(spec@, config@),
{
    let mut args: Vec<String> = Vec::new();
    assert(texts(args@) =~= Seq::<Seq<char>>::empty());
    push_flag(&mut args, "--model", &or_opt(&spec.model, &config.default_model));
    push_flag(&mut args, "--resume", &spec.resume);
    assert(texts(args@) =~= interactive_arg_list(spec@, config@));
    args
}

/// No prompt ever becomes an argument: whatever the initial prompt is, the
/// argument lists are the same.
pub proof fn prompt_is_not_an_argument(
    spec: SessionSpecView,
    prompt: Option<Seq<char>>,
    config: OrchestratorConfigView,
)
    ensures
        headless_arg_list(spec, config) == headless_arg_list(
            SessionSpecView { initial_prompt: prompt, ..spec },
            config,
        ),
        interactive_arg_list(spec, config) == interactive_arg_list(
            SessionSpecView { initial_prompt: prompt, ..spec },
            config,
        ),
{
}

// ---- launches --------------------------------------------------------------

/// A program to start.
#[derive(Debug)]
pub struct Launch {
    pub program: String,
    pub args: Vec<String>,
    pub cwd: String,
}

/// The mathematical content of a [`Launch`].
pub struct LaunchView {
    pub program: Seq<char>,
    pub args: Seq<Seq<char>>,
    pub cwd: Seq<char>,
}

impl View for Launch {
    type V = LaunchView;

    open spec fn view(&self) -> LaunchView {
        LaunchView { program: self.program@, args: texts(self.args@), cwd: self.cwd@ }
    }
}

/// What is started for a headless worker.
pub open spec fn headless_launch_of(
    spec: SessionSpecView,
    config: OrchestratorConfigView,
    agents: AgentProbesView,
) -> LaunchView {
    LaunchView {
        program: agent_program(config, agents),
        args: headless_arg_list(spec, config),
        cwd: spec.cwd,
    }
}

/// What is started for an interactive session.
pub open spec fn interactive_launch_of(
    spec: SessionSpecView,
    config: OrchestratorConfigView,
    agents: AgentProbesView,
) -> LaunchView {
    LaunchView {
        program: agent_program(config, agents),
        args: interactive_arg_list(spec, config),
        cwd: spec.cwd,
    }
}

/// What is started for a plain terminal.
pub open spec fn shell_launch_of(
    spec: SessionSpecView,
    config: OrchestratorConfigView,
    shells: ShellProbesView,
) -> LaunchView {
    LaunchView {
        program: shell_program(config, shells),
        args: shell_args(config, shells),
        cwd: spec.cwd,
    }
}

/// What to start for a headless worker.
pub fn headless_launch(
    spec: &SessionSpec,
    config: &OrchestratorConfig,
    agents: &AgentProbes,
) -> (r: Launch)
    ensures
        r@ == headless_launch_of(spec@, config@, agents@),
{
    Launch {
        program: resolve_agent(config, agents),
        args: headless_args(spec, config),
        cwd: spec.cwd.clone(),
    }
}

/// What to start for an interactive session.
pub fn interactive_launch(
    spec: &SessionSpec,
    config: &OrchestratorConfig,
    agents: &AgentProbes,
) -> (r: Launch)
    ensures
        r@ == interactive_launch_of(spec@, config@, agents@),
{
    Launch {
        program: resolve_agent(config, agents),
        args: interactive_args(spec, config),
        cwd: spec.cwd.clone(),
    }
}

/// What to start for a plain terminal.
pub fn shell_launch(
    spec: &SessionSpec,
    config: &OrchestratorConfig,
    shells: &ShellProbes,
) -> (r: Launch)
    ensures
        r@ == shell_launch_of(spec@, config@, shells@),
{
    let (program, args) = resolve_shell(config, shells);
    Launch { program, args, cwd: spec.cwd.clone() }
}

} // verus!
