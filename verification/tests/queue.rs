use agentlane::effects::Effect;
use agentlane::launcher::{AgentProbes, ShellProbes};
use agentlane::model::{
    F32Bits, F64Bits, OrchestratorConfig, SessionMode, SessionSpec, SessionStatus, Task, TaskStatus,
    TokenUsage,
};
use agentlane::monitor::{HostSample, Sample};
use agentlane::scheduler::Admission;
use agentlane::state::Core;

fn fresh() -> Core {
    Core::new(OrchestratorConfig::default(), true, Vec::new()).0
}

fn task(id: &str, priority: i32) -> Task {
    Task {
        id: id.to_string(),
        prompt: "do it".to_string(),
        cwd: "/w".to_string(),
        model: None,
        permission_mode: Some("plan".to_string()),
        allowed_tools: Some("Bash".to_string()),
        status: TaskStatus::Done,
        session_id: None,
        priority,
        attempts: 0,
        max_attempts: 1,
        created_at: 0,
        started_at: None,
        finished_at: None,
        result_summary: None,
        error: None,
    }
}

fn start(core: &mut Core, mode: SessionMode, pid: u32) -> String {
    let agents = AgentProbes { native: None, exe_on_path: None, on_path: None, exe_name: "agent.exe".to_string() };
    let shells = ShellProbes { pwsh: None, powershell: None, comspec: None };
    let spec = SessionSpec {
        name: None,
        mode,
        cwd: "/w".to_string(),
        model: None,
        permission_mode: None,
        allowed_tools: None,
        initial_prompt: None,
        resume: None,
    };
    let plan = core.create_session(spec, &agents, &shells);
    let id = plan.id.clone();
    core.on_spawned(plan, Some(pid), 1);
    id
}

#[test]
fn a_task_gets_an_id_and_is_queued() {
    let mut core = fresh();
    let (id, effects) = core.enqueue_task(task("", 0), 7);
    assert_eq!(id.len(), 36);
    assert_eq!(effects.len(), 1);
    assert_eq!(core.tasks[0].status, TaskStatus::Queued);
    assert_eq!(core.tasks[0].created_at, 7);
    let (id, _) = core.enqueue_task(task("mine", 0), 8);
    assert_eq!(id, "mine");
    core.enqueue_task(task("mine", 5), 9);
    assert_eq!(core.tasks.len(), 2);
    assert_eq!(core.tasks[1].priority, 5);
}

#[test]
fn tasks_run_by_priority_and_age() {
    let mut core = fresh();
    core.enqueue_task(task("late", 1), 30);
    core.enqueue_task(task("low", 0), 10);
    core.enqueue_task(task("early", 1), 20);
    let ids: Vec<String> = core.list_tasks().into_iter().map(|t| t.id).collect();
    assert_eq!(ids, vec!["early", "late", "low"]);
    assert_eq!(core.task_counts(), (3, 0));
    for want in ["early", "late", "low"] {
        let t = core.take_next_task().unwrap();
        assert_eq!(t.id, want);
        assert_eq!(t.status, TaskStatus::Assigned);
    }
    assert!(core.take_next_task().is_none());
    assert_eq!(core.task_counts(), (0, 3));
}

#[test]
fn only_queued_tasks_are_canceled() {
    let mut core = fresh();
    core.enqueue_task(task("a", 0), 1);
    core.enqueue_task(task("b", 1), 1);
    core.take_next_task();
    assert!(core.cancel_task("b", 2).is_empty());
    assert!(core.cancel_task("zz", 2).is_empty());
    assert_eq!(core.cancel_task("a", 2).len(), 1);
    assert_eq!(core.tasks[0].status, TaskStatus::Canceled);
    assert_eq!(core.tasks[0].finished_at, Some(2));
    assert!(core.take_next_task().is_none());
}

#[test]
fn a_task_fails_with_its_reason() {
    let mut core = fresh();
    core.enqueue_task(task("a", 0), 1);
    core.fail_task("a", "because", 5);
    assert_eq!(core.tasks[0].status, TaskStatus::Failed);
    assert_eq!(core.tasks[0].error, Some("because".to_string()));
    assert!(core.fail_task("zz", "because", 5).is_empty());
}

#[test]
fn recovery_follows_the_policy() {
    let mut core = fresh();
    core.enqueue_task(task("a", 0), 1);
    core.take_next_task();
    core.recover_task("a", 2);
    assert_eq!(core.tasks[0].status, TaskStatus::Queued);
    let mut c = core.get_config();
    c.auto_restart = false;
    core.set_config(c);
    core.take_next_task();
    core.recover_task("a", 3);
    assert_eq!(core.tasks[0].status, TaskStatus::Failed);
    assert_eq!(core.tasks[0].error, Some("session crashed".to_string()));
}

#[test]
fn a_worker_is_launched_for_a_task() {
    let mut core = fresh();
    let cfg = core.get_config();
    assert!(matches!(core.schedule_next(&cfg, false), Admission::Rest));
    core.enqueue_task(task("a", 0), 1);
    assert!(matches!(core.schedule_next(&cfg, true), Admission::Rest));
    match core.schedule_next(&cfg, false) {
        Admission::Launch { spec, task } => {
            assert_eq!(task.id, "a");
            assert_eq!(spec.mode, SessionMode::Headless);
            assert_eq!(spec.cwd, "/w");
            assert_eq!(spec.permission_mode, Some("plan".to_string()));
            assert_eq!(spec.allowed_tools, Some("Bash".to_string()));
            assert!(spec.name.is_none() && spec.resume.is_none());
        }
        other => panic!("unexpected {:?}", other),
    }
    assert!(matches!(core.schedule_next(&cfg, false), Admission::Rest));
}

#[test]
fn an_idle_worker_is_reused() {
    let mut core = fresh();
    let mut cfg = core.get_config();
    let id = start(&mut core, SessionMode::Headless, 1);
    core.on_headless_line(&id, "{\"type\":\"system\",\"subtype\":\"init\"}", 2).unwrap();
    core.enqueue_task(task("a", 0), 3);
    core.enqueue_task(task("b", 0), 4);
    match core.schedule_next(&cfg, false) {
        Admission::Reuse { session_id, task } => {
            assert_eq!(session_id, id);
            core.assign_task_to_session(&session_id, &task, 5);
        }
        other => panic!("unexpected {:?}", other),
    }
    assert_eq!(core.count_active_headless(), 1);
    assert!(core.find_idle_session(&task("x", 0)).is_none());
    let done = "{\"type\":\"result\"}";
    core.on_headless_line(&id, done, 6).unwrap();
    assert_eq!(core.find_idle_session(&task("x", 0)), Some(id));
    cfg.session_pooling = false;
    assert!(matches!(core.schedule_next(&cfg, false), Admission::Launch { .. }));
}

#[test]
fn the_concurrency_cap_holds() {
    let mut core = fresh();
    let mut cfg = core.get_config();
    cfg.max_concurrent = 1;
    start(&mut core, SessionMode::Shell, 1);
    let w = start(&mut core, SessionMode::Headless, 2);
    assert_eq!(core.count_active_headless(), 1);
    core.enqueue_task(task("a", 0), 1);
    assert!(matches!(core.schedule_next(&cfg, false), Admission::Rest));
    assert_eq!(core.task_counts(), (1, 0));
    core.finalize(&w, Some(0), false, 2);
    assert_eq!(core.count_active_headless(), 0);
    assert!(matches!(core.schedule_next(&cfg, false), Admission::Launch { .. }));
}

#[test]
fn an_idle_worker_is_reused_at_the_cap() {
    let mut core = fresh();
    let mut cfg = core.get_config();
    cfg.max_concurrent = 1;
    let id = start(&mut core, SessionMode::Headless, 1);
    core.on_headless_line(&id, "{\"type\":\"system\",\"subtype\":\"init\"}", 2).unwrap();
    core.enqueue_task(task("a", 0), 3);
    cfg.session_pooling = false;
    assert!(matches!(core.schedule_next(&cfg, false), Admission::Rest));
    cfg.session_pooling = true;
    match core.schedule_next(&cfg, false) {
        Admission::Reuse { session_id, task } => {
            assert_eq!(session_id, id);
            assert_eq!(task.id, "a");
            core.assign_task_to_session(&session_id, &task, 5);
        }
        other => panic!("unexpected {:?}", other),
    }
    assert_eq!(core.count_active_headless(), 1);
    core.enqueue_task(task("b", 0), 6);
    assert!(matches!(core.schedule_next(&cfg, false), Admission::Rest));
    assert_eq!(core.task_counts(), (1, 1));
}

#[test]
fn a_round_ends_at_the_cap() {
    let mut core = fresh();
    let mut cfg = core.get_config();
    cfg.max_concurrent = 2;
    for (n, id) in ["a", "b", "c"].iter().enumerate() {
        core.enqueue_task(task(id, 0), n as i64);
    }
    loop {
        match core.schedule_next(&cfg, false) {
            Admission::Rest => break,
            Admission::Reuse { .. } => panic!("nothing is idle"),
            Admission::Launch { task, .. } => {
                let id = start(&mut core, SessionMode::Headless, 1);
                core.assign_task_to_session(&id, &task, 9);
                core.message_sent(&id, &task.prompt, 9);
            }
        }
    }
    assert_eq!(core.count_active_headless(), 2);
    assert_eq!(core.task_counts(), (1, 2));
    assert_eq!(core.tasks[0].status, TaskStatus::Running);
    assert_eq!(core.tasks[1].status, TaskStatus::Running);
    assert_eq!(core.tasks[2].status, TaskStatus::Queued);
}

#[test]
fn samples_reach_their_sessions() {
    let mut core = fresh();
    let a = start(&mut core, SessionMode::Shell, 1);
    let b = start(&mut core, SessionMode::Shell, 2);
    let c = start(&mut core, SessionMode::Headless, 3);
    core.sessions[1].info.cpu = F32Bits(9);
    core.sessions[1].info.mem_bytes = 9;
    core.finalize(&c, Some(0), false, 2);
    let samples = vec![Sample { pid: 1, cpu: F32Bits(77), mem_bytes: 1000 }];
    let effects = core.take_samples(&samples);
    assert_eq!(core.sessions[0].info.cpu, F32Bits(77));
    assert_eq!(core.sessions[0].info.mem_bytes, 1000);
    assert_eq!(core.sessions[1].info.cpu, F32Bits(0));
    assert_eq!(core.sessions[1].info.mem_bytes, 9);
    let shown: Vec<String> = effects
        .iter()
        .map(|e| match e {
            Effect::SessionShown(i) => i.id.clone(),
            other => panic!("unexpected {:?}", other),
        })
        .collect();
    assert_eq!(shown, vec![a, b]);
}

#[test]
fn metrics_are_collected() {
    let mut core = fresh();
    start(&mut core, SessionMode::Shell, 1);
    let b = start(&mut core, SessionMode::Headless, 2);
    core.sessions[0].info.usage = TokenUsage {
        input_tokens: 1,
        output_tokens: 2,
        cache_creation_tokens: 3,
        cache_read_tokens: 4,
    };
    core.sessions[1].info.usage = core.sessions[0].info.usage;
    core.sessions[1].info.cost_usd = F64Bits(5);
    core.finalize(&b, Some(0), false, 2);
    core.enqueue_task(task("a", 0), 1);
    assert_eq!(core.total_tokens(), Some(10));
    assert_eq!(core.session_costs(), vec![F64Bits(0), F64Bits(5)]);
    let host = HostSample { cpu_percent: F32Bits(1), mem_used: 2, mem_total: 3 };
    let m = core.system_metrics(host, F64Bits(5), 99);
    assert_eq!(m.cpu_percent, F32Bits(1));
    assert_eq!((m.mem_used, m.mem_total), (2, 3));
    assert_eq!((m.active_sessions, m.total_sessions), (1, 2));
    assert_eq!((m.queued_tasks, m.running_tasks), (1, 0));
    assert_eq!((m.total_tokens, m.total_cost_usd, m.ts), (10, F64Bits(5), 99));
    core.sessions[0].info.usage.input_tokens = u64::MAX;
    assert_eq!(core.total_tokens(), None);
    assert_eq!(core.sessions[0].info.status, SessionStatus::Idle);
    assert_eq!(core.count_active(), 1);
}
