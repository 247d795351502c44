use agentlane::effects::Effect;
use agentlane::launcher::{AgentProbes, ShellProbes};
use agentlane::lifecycle::{
    reap_step, send_failure, spawn_failure, terminal_exit, worker_exit, Delivery, ReapStep, Refusal,
    TermSize,
};
use agentlane::model::{
    F32Bits, OrchestratorConfig, SessionMode, SessionSpec, SessionStatus, Task, TaskStatus,
};
use agentlane::state::Core;

fn agents() -> AgentProbes {
    AgentProbes { native: None, exe_on_path: Some("agent".to_string()), on_path: None, exe_name: "agent.exe".to_string() }
}

fn shells() -> ShellProbes {
    ShellProbes { pwsh: None, powershell: None, comspec: Some("sh".to_string()) }
}

fn spec(mode: SessionMode, prompt: Option<&str>) -> SessionSpec {
    SessionSpec {
        name: None,
        mode,
        cwd: "/w/proj".to_string(),
        model: None,
        permission_mode: None,
        allowed_tools: None,
        initial_prompt: prompt.map(str::to_string),
        resume: None,
    }
}

fn start(core: &mut Core, mode: SessionMode, now: i64) -> String {
    let plan = core.create_session(spec(mode, None), &agents(), &shells());
    let id = plan.id.clone();
    core.on_spawned(plan, Some(42), now);
    id
}

fn fresh() -> Core {
    Core::new(OrchestratorConfig::default(), true, Vec::new()).0
}

fn task(id: &str) -> Task {
    Task {
        id: id.to_string(),
        prompt: "do it".to_string(),
        cwd: "/w/proj".to_string(),
        model: None,
        permission_mode: None,
        allowed_tools: None,
        status: TaskStatus::Done,
        session_id: None,
        priority: 0,
        attempts: 0,
        max_attempts: 2,
        created_at: 0,
        started_at: None,
        finished_at: None,
        result_summary: None,
        error: None,
    }
}

fn logs(effects: &[Effect]) -> Vec<(String, String)> {
    effects
        .iter()
        .filter_map(|e| match e {
            Effect::Log { kind, text, .. } => Some((kind.clone(), text.clone())),
            _ => None,
        })
        .collect()
}

fn policy(max_attached: usize) -> OrchestratorConfig {
    let mut c = OrchestratorConfig::default();
    c.max_attached = max_attached;
    c
}

#[test]
fn a_stuck_policy_is_raised_once() {
    let (core, saved) = Core::new(policy(4), false, Vec::new());
    assert!(saved);
    assert_eq!(core.get_config().max_attached, 8);
    let (core, saved) = Core::new(policy(5), false, Vec::new());
    assert!(!saved);
    assert_eq!(core.get_config().max_attached, 5);
    let (mut core, saved) = Core::new(policy(2), true, Vec::new());
    assert!(!saved);
    assert_eq!(core.get_config().max_attached, 2);
    let mut c = OrchestratorConfig::default();
    c.max_concurrent = 3;
    core.set_config(c);
    assert_eq!(core.get_config().max_concurrent, 3);
}

#[test]
fn the_queue_survives_a_restart() {
    let mut first = fresh();
    first.enqueue_task(task("a"), 5);
    first.enqueue_task(task("b"), 6);
    first.take_next_task();
    let stored = first.list_tasks();
    let (mut second, _) = Core::new(OrchestratorConfig::default(), true, stored);
    assert_eq!(second.tasks.len(), 1);
    assert_eq!(second.tasks[0].id, "b");
    assert_eq!(second.tasks[0].prompt, "do it");
    assert_eq!(second.tasks[0].created_at, 6);
    assert_eq!(second.take_next_task().unwrap().id, "b");
}

#[test]
fn an_exit_code_is_waited_for() {
    assert_eq!(reap_step(1, None), ReapStep::Wait);
    assert_eq!(reap_step(119, None), ReapStep::Wait);
    assert_eq!(reap_step(120, None), ReapStep::GiveUp);
    assert_eq!(reap_step(120, Some(3)), ReapStep::Reaped(3));
    assert_eq!(reap_step(1, Some(0)), ReapStep::Reaped(0));
}

#[test]
fn a_worker_is_planned_and_registered() {
    let mut core = fresh();
    let mut s = spec(SessionMode::Headless, Some(" hello "));
    s.resume = Some("conv".to_string());
    let plan = core.spawn_headless(s, &agents());
    assert_eq!(plan.name, format!("proj-{}", &plan.id[..4]));
    assert_eq!(plan.launch.program, "agent");
    assert_eq!(plan.launch.cwd, "/w/proj");
    assert_eq!(plan.launch.args.last().unwrap(), "conv");
    assert_eq!(plan.failure(), "failed to spawn agent at agent");
    assert_eq!(plan.opening(), Some(" hello ".to_string()));
    let id = plan.id.clone();
    let effects = core.on_spawned(plan, Some(7), 10);
    assert_eq!(
        logs(&effects),
        vec![("system".to_string(), "spawned headless worker (pid Some(7))".to_string())]
    );
    let s = &core.sessions[0];
    assert_eq!(s.info.id, id);
    assert_eq!(s.info.status, SessionStatus::Starting);
    assert_eq!(s.info.activity, "initializing");
    assert_eq!(s.info.pid, Some(7));
    assert_eq!(s.info.created_at, 10);
}

#[test]
fn a_terminal_is_planned_and_registered() {
    let mut core = fresh();
    let mut s = spec(SessionMode::Shell, Some("  ls \n"));
    s.name = Some("mine".to_string());
    let plan = core.spawn_shell(s, &shells());
    assert_eq!(plan.name, "mine");
    assert_eq!(plan.failure(), "spawning sh in ConPTY failed");
    assert_eq!(plan.opening(), None);
    let effects = core.on_spawned(plan, None, 10);
    assert_eq!(logs(&effects)[0].1, "spawned sh (pid None)");
    assert_eq!(core.sessions[0].info.activity, "terminal");
    assert_eq!(core.sessions[0].info.status, SessionStatus::Idle);

    let plan = core.spawn_interactive(spec(SessionMode::Interactive, Some("ls")), &agents());
    assert_eq!(plan.opening(), None);
    core.on_spawned(plan, Some(1), 11);
    assert_eq!(core.sessions[1].info.activity, "interactive");
}

#[test]
fn input_goes_to_the_right_kind() {
    let mut core = fresh();
    let w = start(&mut core, SessionMode::Headless, 1);
    let t = start(&mut core, SessionMode::Shell, 2);
    assert!(core.send_message(&w, "hi").unwrap().ends_with("}\n"));
    assert_eq!(core.send_input(&t, "ls").unwrap(), "ls");
    assert_eq!(
        core.send_message(&t, "hi").unwrap_err().message(),
        "session is interactive; use send_input"
    );
    assert_eq!(
        core.send_input(&w, "x").unwrap_err().message(),
        "session is headless; use send_message"
    );
    assert_eq!(core.send_message("zz", "hi").unwrap_err().message(), "unknown session zz");
    assert!(matches!(core.send_input("zz", ""), Err(Refusal::UnknownSession(_))));
    assert_eq!(core.resize(&t, 80, 24).unwrap(), Some(TermSize { rows: 24, cols: 80 }));
    assert_eq!(core.resize(&w, 80, 24).unwrap(), None);
    assert!(core.resize("zz", 1, 1).is_err());
    let effects = core.message_sent(&w, "hi", 5);
    assert_eq!(logs(&effects), vec![("user".to_string(), "hi".to_string())]);
    assert_eq!(core.sessions[0].info.status, SessionStatus::Busy);
    assert_eq!(core.sessions[0].info.activity, "working");
    assert_eq!(core.sessions[0].info.last_activity, 5);
    assert_eq!(core.sessions[1].info.last_activity, 2);
}

#[test]
fn a_broadcast_goes_to_live_sessions() {
    let mut core = fresh();
    let w = start(&mut core, SessionMode::Headless, 1);
    let t = start(&mut core, SessionMode::Interactive, 2);
    let gone = start(&mut core, SessionMode::Shell, 3);
    core.finalize(&gone, Some(0), false, 4);
    let d = core.broadcast("go");
    assert_eq!(d.len(), 2);
    match &d[0] {
        Delivery::Message { session_id, prompt } => {
            assert_eq!(session_id, &w);
            assert_eq!(prompt, "go");
        }
        other => panic!("unexpected {:?}", other),
    }
    match &d[1] {
        Delivery::Keys { session_id, keys } => {
            assert_eq!(session_id, &t);
            assert_eq!(keys, "go\r");
        }
        other => panic!("unexpected {:?}", other),
    }
}

#[test]
fn an_ended_session_tells_how() {
    for (code, stop, status, activity) in [
        (Some(0), false, SessionStatus::Completed, "completed"),
        (Some(3), false, SessionStatus::Crashed, "crashed (exit 3)"),
        (None, false, SessionStatus::Crashed, "crashed (exit -1)"),
        (Some(0), true, SessionStatus::Stopped, "stopped"),
    ] {
        let mut core = fresh();
        let id = start(&mut core, SessionMode::Headless, 1);
        core.sessions[0].info.cpu = F32Bits(5);
        core.sessions[0].info.mem_bytes = 9;
        let effects = core.finalize(&id, code, stop, 7);
        let i = &core.sessions[0].info;
        assert_eq!(i.status, status);
        assert_eq!(i.activity, activity);
        assert_eq!(i.exit_code, code);
        assert_eq!((i.cpu, i.mem_bytes, i.last_activity), (F32Bits(0), 0, 7));
        assert_eq!(logs(&effects), vec![("system".to_string(), activity.to_string())]);
    }
    assert!(fresh().finalize("zz", None, false, 1).is_empty());
    assert_eq!(worker_exit(None), -1);
    assert_eq!(worker_exit(Some(2)), 2);
    assert_eq!(terminal_exit(0xffff_ffff), -1);
    assert_eq!(terminal_exit(7), 7);
}

#[test]
fn a_crash_requeues_the_task() {
    let mut core = fresh();
    let id = start(&mut core, SessionMode::Headless, 1);
    core.enqueue_task(task("t"), 2);
    let t = core.take_next_task().unwrap();
    assert!(core.can_attempt("t"));
    core.assign_task_to_session(&id, &t, 3);
    assert_eq!(core.tasks[0].status, TaskStatus::Running);
    assert_eq!(core.tasks[0].attempts, 1);
    assert_eq!(core.sessions[0].info.current_task, Some("t".to_string()));
    core.finalize(&id, Some(1), false, 4);
    assert_eq!(core.tasks[0].status, TaskStatus::Queued);
    assert_eq!(core.tasks[0].session_id, None);
    assert_eq!(core.sessions[0].info.current_task, None);
    core.remove(&id, 4);
    assert_eq!(core.tasks[0].status, TaskStatus::Queued);
    assert_eq!(core.tasks[0].error, None);

    let id2 = start(&mut core, SessionMode::Headless, 5);
    let t = core.take_next_task().unwrap();
    core.assign_task_to_session(&id2, &t, 6);
    core.finalize(&id2, Some(1), false, 7);
    assert_eq!(core.tasks[0].status, TaskStatus::Failed);
    assert_eq!(core.tasks[0].error, Some("session crashed".to_string()));
    assert_eq!(core.tasks[0].finished_at, Some(7));
}

#[test]
fn a_session_is_renamed_killed_and_removed() {
    let mut core = fresh();
    let id = start(&mut core, SessionMode::Headless, 1);
    let other = start(&mut core, SessionMode::Shell, 2);
    assert_eq!(core.rename(&id, "new", 3).unwrap().len(), 1);
    assert_eq!(core.sessions[0].info.name, "new");
    assert_eq!(core.rename("zz", "new", 3).unwrap_err().message(), "unknown session zz");
    assert!(!core.stop_requested(&id));
    assert!(matches!(core.kill(&id).unwrap()[0], Effect::Kill(_)));
    assert!(core.stop_requested(&id));
    assert!(core.kill("zz").is_err());
    assert!(core.stop_requested("zz"));

    core.enqueue_task(task("t"), 4);
    let t = core.take_next_task().unwrap();
    core.assign_task_to_session(&id, &t, 5);
    core.attach(&id);
    let effects = core.remove(&id, 6);
    assert_eq!(effects.len(), 3);
    assert!(matches!(effects[0], Effect::Kill(_)));
    assert!(matches!(effects[1], Effect::TaskChanged(_)));
    assert!(matches!(effects[2], Effect::SessionRemoved(_)));
    assert_eq!(core.tasks[0].error, Some("session removed".to_string()));
    assert_eq!(core.sessions.len(), 1);
    assert_eq!(core.sessions[0].info.id, other);
    assert!(core.attach_lru.is_empty());
    assert!(core.remove(&id, 7).is_empty());

    core.finalize(&other, Some(0), false, 8);
    let effects = core.remove(&other, 9);
    assert_eq!(effects.len(), 1);
}

#[test]
fn sessions_are_listed_by_age() {
    let mut core = fresh();
    let b = start(&mut core, SessionMode::Shell, 20);
    let a = start(&mut core, SessionMode::Shell, 10);
    let c = start(&mut core, SessionMode::Shell, 30);
    let ids: Vec<String> = core.list_sessions().into_iter().map(|i| i.id).collect();
    assert_eq!(ids, vec![a, b, c]);
}

#[test]
fn failures_have_texts() {
    assert_eq!(send_failure("broken pipe"), "send failed: broken pipe");
    assert_eq!(spawn_failure("no agent"), "spawn failed: no agent");
}

#[test]
fn activity_is_noted() {
    let mut core = fresh();
    let id = start(&mut core, SessionMode::Shell, 1);
    core.touch_activity(&id, 9);
    core.touch_activity("zz", 9);
    assert_eq!(core.sessions[0].info.last_activity, 9);
}

#[test]
fn a_worker_lives_through_a_turn() {
    let mut core = fresh();
    let id = start(&mut core, SessionMode::Headless, 1);
    let init = "{\"type\":\"system\",\"subtype\":\"init\",\"session_id\":\"conv\",\"model\":\"m\"}";
    core.on_headless_line(&id, init, 2).unwrap();
    assert_eq!(core.sessions[0].info.status, SessionStatus::Idle);
    assert_eq!(core.sessions[0].info.activity, "ready");
    assert_eq!(core.sessions[0].info.agent_session_id, Some("conv".to_string()));
    core.enqueue_task(task("t"), 2);
    let t = core.take_next_task().unwrap();
    core.assign_task_to_session(&id, &t, 3);
    let said = "{\"type\":\"assistant\",\"message\":{\"content\":[{\"type\":\"text\",\"text\":\"ok\"},{\"type\":\"tool_use\",\"name\":\"Read\"}]}}";
    let effects = core.on_headless_line(&id, said, 4).unwrap();
    assert_eq!(
        logs(&effects),
        vec![
            ("tool_use".to_string(), "Read".to_string()),
            ("assistant".to_string(), "ok".to_string())
        ]
    );
    assert_eq!(core.sessions[0].info.activity, "using Read");
    let done = "{\"type\":\"result\",\"is_error\":false,\"result\":\"all done\",\"usage\":{\"input_tokens\":3},\"total_cost_usd\":0.5}";
    for n in 1..3u32 {
        core.on_headless_line(&id, done, 5).unwrap();
        assert_eq!(core.sessions[0].info.usage.input_tokens, 3 * n as u64);
        assert_eq!(core.sessions[0].info.turns, n);
    }
    let i = &core.sessions[0].info;
    assert_eq!(i.status, SessionStatus::Idle);
    assert_eq!(i.activity, "idle");
    assert_eq!(i.current_task, None);
    assert_eq!(f64::from_bits(i.cost_usd.0), 0.5);
    assert_eq!(core.tasks[0].status, TaskStatus::Done);
    assert_eq!(core.tasks[0].result_summary, Some("all done".to_string()));
    let failed = "{\"type\":\"result\",\"is_error\":true}";
    let effects = core.on_headless_line(&id, failed, 6).unwrap();
    assert_eq!(logs(&effects), vec![("result".to_string(), "(turn complete)".to_string())]);
    assert_eq!(core.sessions[0].info.activity, "turn failed");
}

#[test]
fn counters_that_are_full_are_left_alone() {
    let mut core = fresh();
    let id = start(&mut core, SessionMode::Headless, 1);
    core.sessions[0].info.turns = u32::MAX;
    let done = "{\"type\":\"result\"}";
    assert!(core.on_headless_line(&id, done, 5).is_none());
    assert_eq!(core.sessions[0].info.status, SessionStatus::Starting);
}

#[test]
fn diagnostics_are_logged_unless_blank() {
    let core = fresh();
    assert!(core.on_stderr_line("s", "  ").is_empty());
    assert_eq!(
        logs(&core.on_stderr_line("s", "oops ")),
        vec![("stderr".to_string(), "oops ".to_string())]
    );
}
