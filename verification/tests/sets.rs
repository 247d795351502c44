use agentlane::launcher::{AgentProbes, ShellProbes};
use agentlane::model::{LogEntry, OrchestratorConfig, SessionMode, SessionSpec};
use agentlane::project::{list_snapshots, project_opened, ProjectFile, ProjectSession};
use agentlane::state::Core;
use agentlane::storage::{load_config, log_entry, log_limit, recent_logs};

fn agents() -> AgentProbes {
    AgentProbes { native: None, exe_on_path: None, on_path: None, exe_name: "agent.exe".to_string() }
}

fn shells() -> ShellProbes {
    ShellProbes { pwsh: None, powershell: None, comspec: None }
}

fn fresh() -> Core {
    Core::new(OrchestratorConfig::default(), true, Vec::new()).0
}

fn start(core: &mut Core, name: &str, mode: SessionMode, cwd: &str) -> String {
    let spec = SessionSpec {
        name: Some(name.to_string()),
        mode,
        cwd: cwd.to_string(),
        model: Some("m".to_string()),
        permission_mode: Some("plan".to_string()),
        allowed_tools: Some("Bash".to_string()),
        initial_prompt: Some("hi".to_string()),
        resume: None,
    };
    let plan = core.create_session(spec, &agents(), &shells());
    let id = plan.id.clone();
    core.on_spawned(plan, None, 1);
    id
}

fn session(mode: SessionMode) -> ProjectSession {
    ProjectSession {
        mode,
        cwd: None,
        model: None,
        permission_mode: None,
        allowed_tools: None,
        prompt: None,
        name: None,
        resume: None,
    }
}

#[test]
fn a_snapshot_brings_the_sessions_back() {
    let mut core = fresh();
    let a = start(&mut core, "a", SessionMode::Headless, "/a");
    let gone = start(&mut core, "gone", SessionMode::Shell, "/g");
    start(&mut core, "s", SessionMode::Shell, "/s");
    core.on_headless_line(&a, "{\"type\":\"system\",\"subtype\":\"init\",\"session_id\":\"conv\"}", 2)
        .unwrap();
    core.finalize(&gone, Some(0), false, 3);
    let snap = core.save_snapshot();
    assert_eq!(snap.sessions.len(), 2);
    assert_eq!(snap.config.max_attached, 8);
    assert_eq!(snap.sessions[0].agent_session_id, Some("conv".to_string()));
    let plans = core.restore_snapshot(&snap, &agents(), &shells());
    assert_eq!(plans.len(), 2);
    assert_eq!((plans[0].name.as_str(), plans[0].mode), ("a", SessionMode::Headless));
    assert_eq!(plans[0].spec.cwd, "/a");
    assert_eq!(plans[0].model, Some("m".to_string()));
    assert!(plans[0].spec.permission_mode.is_none() && plans[0].spec.initial_prompt.is_none());
    let n = plans[0].launch.args.len();
    assert_eq!(plans[0].launch.args[n - 2..].to_vec(), vec!["--resume", "conv"]);
    assert_eq!((plans[1].name.as_str(), plans[1].mode), ("s", SessionMode::Shell));
    assert!(plans[1].model.is_none());
}

#[test]
fn a_project_opens_with_its_defaults() {
    let core = fresh();
    let mut own = session(SessionMode::Headless);
    own.cwd = Some("/own".to_string());
    own.model = Some("om".to_string());
    own.permission_mode = Some("op".to_string());
    own.prompt = Some("go".to_string());
    own.name = Some("n".to_string());
    let mut blank = session(SessionMode::Shell);
    blank.cwd = Some("  ".to_string());
    let mut proj = ProjectFile {
        cwd: Some("/shared".to_string()),
        model: Some("sm".to_string()),
        permission_mode: Some("sp".to_string()),
        sessions: vec![own, blank, session(SessionMode::Interactive)],
    };
    let plans = core.open_project(&proj, &agents(), &shells());
    assert_eq!(plans.len(), 2);
    assert_eq!(plans[0].name, "n");
    assert_eq!(plans[0].spec.cwd, "/own");
    assert_eq!(plans[0].spec.model, Some("om".to_string()));
    assert_eq!(plans[0].spec.permission_mode, Some("op".to_string()));
    assert_eq!(plans[0].spec.initial_prompt, Some("go".to_string()));
    assert_eq!(plans[1].mode, SessionMode::Interactive);
    assert_eq!(plans[1].spec.cwd, "/shared");
    assert_eq!(plans[1].spec.model, Some("sm".to_string()));
    assert_eq!(plans[1].name, format!("shared-{}", &plans[1].id[..4]));
    let r = project_opened(&proj, 2);
    assert_eq!((r.count, r.cwd), (2, Some("/shared".to_string())));
    assert_eq!((r.model, r.permission_mode), (Some("sm".to_string()), Some("sp".to_string())));
    proj.cwd = None;
    assert_eq!(core.open_project(&proj, &agents(), &shells()).len(), 1);
}

#[test]
fn a_saved_project_reads_back() {
    let mut core = fresh();
    start(&mut core, "a", SessionMode::Interactive, "/a");
    start(&mut core, "nowhere", SessionMode::Shell, " ");
    let gone = start(&mut core, "gone", SessionMode::Shell, "/g");
    core.finalize(&gone, None, true, 2);
    let proj = core.save_project();
    assert_eq!(proj.sessions.len(), 2);
    assert!(proj.cwd.is_none() && proj.sessions[0].prompt.is_none());
    let plans = core.open_project(&proj, &agents(), &shells());
    assert_eq!(plans.len(), 1);
    assert_eq!(plans[0].name, "a");
    assert_eq!(plans[0].spec.permission_mode, Some("plan".to_string()));
    assert_eq!(plans[0].spec.allowed_tools, Some("Bash".to_string()));
}

#[test]
fn snapshot_rows_are_labelled() {
    let m = list_snapshots(vec![("i".to_string(), "n".to_string(), 4)]);
    assert_eq!(m.len(), 1);
    assert_eq!((m[0].id.as_str(), m[0].name.as_str(), m[0].created_at), ("i", "n", 4));
}

#[test]
fn logs_are_read_oldest_first() {
    assert_eq!(log_limit(None), 500);
    assert_eq!(log_limit(Some(-1)), -1);
    let entry = |id: i64| -> LogEntry {
        log_entry(id, "s".to_string(), 9, "info".to_string(), "t".to_string())
    };
    let rows = || {
        let mut other = entry(4);
        other.session_id = "x".to_string();
        vec![entry(5), other, entry(3), entry(2), entry(1)]
    };
    let read = |limit: i64| -> Vec<i64> {
        recent_logs(rows(), "s", limit).iter().map(|e| e.id).collect()
    };
    assert_eq!(read(10), vec![1, 2, 3, 5]);
    assert_eq!(read(2), vec![3, 5]);
    assert_eq!(read(0), Vec::<i64>::new());
    assert_eq!(read(-1), vec![1, 2, 3, 5]);
    assert!(entry(1).data.is_none());
}

#[test]
fn a_missing_policy_is_the_default() {
    assert_eq!(load_config(None).max_concurrent, 8);
    let mut c = OrchestratorConfig::default();
    c.max_concurrent = 2;
    assert_eq!(load_config(Some(c)).max_concurrent, 2);
}
