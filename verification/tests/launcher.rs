use agentlane::launcher::{
    headless_args, interactive_args, resolve_agent, resolve_shell, AgentProbes, ShellProbes,
};
use agentlane::model::{OrchestratorConfig, SessionMode, SessionSpec};

fn spec() -> SessionSpec {
    SessionSpec {
        name: None,
        mode: SessionMode::Headless,
        cwd: "/w".to_string(),
        model: None,
        permission_mode: None,
        allowed_tools: None,
        initial_prompt: Some("secret words".to_string()),
        resume: None,
    }
}

fn agents(native: Option<&str>, exe: Option<&str>, bare: Option<&str>) -> AgentProbes {
    AgentProbes {
        native: native.map(str::to_string),
        exe_on_path: exe.map(str::to_string),
        on_path: bare.map(str::to_string),
        exe_name: "agent.exe".to_string(),
    }
}

fn shells(pwsh: Option<&str>, ps: Option<&str>, comspec: Option<&str>) -> ShellProbes {
    ShellProbes {
        pwsh: pwsh.map(str::to_string),
        powershell: ps.map(str::to_string),
        comspec: comspec.map(str::to_string),
    }
}

#[test]
fn an_agent_is_found_in_order() {
    let mut c = OrchestratorConfig::default();
    assert_eq!(resolve_agent(&c, &agents(Some("n"), Some("e"), Some("b"))), "n");
    assert_eq!(resolve_agent(&c, &agents(None, Some("e"), Some("b"))), "e");
    assert_eq!(resolve_agent(&c, &agents(None, None, Some("b"))), "b");
    assert_eq!(resolve_agent(&c, &agents(None, None, None)), "agent.exe");
    c.agent_bin = "  ".to_string();
    assert_eq!(resolve_agent(&c, &agents(None, None, None)), "agent.exe");
    c.agent_bin = " mine ".to_string();
    assert_eq!(resolve_agent(&c, &agents(Some("n"), None, None)), " mine ");
}

#[test]
fn a_shell_is_found_in_order() {
    let quiet = vec!["-NoLogo".to_string()];
    let none: Vec<String> = Vec::new();
    let mut c = OrchestratorConfig::default();
    assert_eq!(
        resolve_shell(&c, &shells(Some("p7"), Some("p5"), Some("cs"))),
        ("p7".to_string(), quiet.clone())
    );
    assert_eq!(
        resolve_shell(&c, &shells(None, Some("p5"), Some("cs"))),
        ("p5".to_string(), quiet.clone())
    );
    assert_eq!(
        resolve_shell(&c, &shells(None, None, Some("cs"))),
        ("cs".to_string(), none.clone())
    );
    assert_eq!(
        resolve_shell(&c, &shells(None, None, None)),
        ("cmd.exe".to_string(), none.clone())
    );
    c.shell_program = " C:\\PowerShell.exe ".to_string();
    assert_eq!(
        resolve_shell(&c, &shells(Some("p7"), None, None)),
        ("C:\\PowerShell.exe".to_string(), quiet)
    );
    c.shell_program = "bash".to_string();
    assert_eq!(resolve_shell(&c, &shells(Some("p7"), None, None)), ("bash".to_string(), none));
}

#[test]
fn the_arguments_of_a_worker() {
    let mut c = OrchestratorConfig::default();
    let base = ["--print", "--input-format", "stream-json", "--output-format", "stream-json", "--verbose"];
    let mut want: Vec<String> = base.iter().map(|s| s.to_string()).collect();
    let mut plain = want.clone();
    plain.push("--permission-mode".to_string());
    plain.push("acceptEdits".to_string());
    assert_eq!(headless_args(&spec(), &c), plain);

    c.bare_mode = true;
    c.default_model = Some("dm".to_string());
    let mut s = spec();
    s.permission_mode = Some(String::new());
    s.allowed_tools = Some("Bash".to_string());
    s.resume = Some("r".to_string());
    for a in ["--bare", "--model", "dm", "--allowedTools", "Bash", "--resume", "r"] {
        want.push(a.to_string());
    }
    assert_eq!(headless_args(&s, &c), want);
}

#[test]
fn the_arguments_of_an_interactive_session() {
    let c = OrchestratorConfig::default();
    let mut s = spec();
    assert!(interactive_args(&s, &c).is_empty());
    s.model = Some("m".to_string());
    s.resume = Some("r".to_string());
    assert_eq!(
        interactive_args(&s, &c),
        vec!["--model".to_string(), "m".to_string(), "--resume".to_string(), "r".to_string()]
    );
}

#[test]
fn no_prompt_among_the_arguments() {
    let c = OrchestratorConfig::default();
    for a in headless_args(&spec(), &c) {
        assert_ne!(a, "secret words");
    }
}
