use agentlane::effects::Effect;
use agentlane::launcher::{AgentProbes, ShellProbes};
use agentlane::model::{OrchestratorConfig, SessionMode, SessionSpec};
use agentlane::state::Core;

fn fresh(max: usize) -> Core {
    let mut core = Core::new(OrchestratorConfig::default(), true, Vec::new()).0;
    let mut c = OrchestratorConfig::default();
    c.max_attached = max;
    core.set_config(c);
    core
}

fn start(core: &mut Core, mode: SessionMode) -> String {
    let agents = AgentProbes { native: None, exe_on_path: None, on_path: None, exe_name: "agent.exe".to_string() };
    let shells = ShellProbes { pwsh: None, powershell: None, comspec: None };
    let spec = SessionSpec {
        name: None,
        mode,
        cwd: "/w".to_string(),
        model: None,
        permission_mode: None,
        allowed_tools: None,
        initial_prompt: None,
        resume: None,
    };
    let plan = core.create_session(spec, &agents, &shells);
    let id = plan.id.clone();
    core.on_spawned(plan, None, 1);
    id
}

fn rendered(core: &Core) -> Vec<String> {
    core.sessions.iter().filter(|s| s.info.attached).map(|s| s.info.id.clone()).collect()
}

#[test]
fn the_oldest_gives_way() {
    let mut core = fresh(2);
    let ids: Vec<String> = (0..3).map(|_| start(&mut core, SessionMode::Shell)).collect();
    core.attach(&ids[0]);
    core.attach(&ids[1]);
    core.attach(&ids[0]);
    let effects = core.attach(&ids[2]);
    assert_eq!(rendered(&core), vec![ids[0].clone(), ids[2].clone()]);
    assert_eq!(core.attach_lru, vec![ids[0].clone(), ids[2].clone()]);
    match (&effects[0], &effects[1]) {
        (Effect::SessionShown(a), Effect::SessionShown(b)) => {
            assert_eq!((&a.id, a.attached), (&ids[1], false));
            assert_eq!((&b.id, b.attached), (&ids[2], true));
        }
        other => panic!("unexpected {:?}", other),
    }
}

#[test]
fn attaching_again_changes_nothing() {
    let mut core = fresh(2);
    let a = start(&mut core, SessionMode::Shell);
    core.attach(&a);
    let before = core.attach_lru.clone();
    core.attach(&a);
    assert_eq!(core.attach_lru, before);
    assert_eq!(rendered(&core), vec![a]);
}

#[test]
fn the_cap_is_kept_within_bounds() {
    for (max, most) in [(0usize, 1usize), (1, 1), (3, 3), (9, 4), (100, 4)] {
        let mut core = fresh(max);
        let ids: Vec<String> = (0..20).map(|_| start(&mut core, SessionMode::Shell)).collect();
        for id in &ids {
            core.attach(id);
        }
        assert_eq!(rendered(&core).len(), most);
        assert_eq!(rendered(&core), ids[20 - most..].to_vec());
    }
}

#[test]
fn detached_output_is_replayed_once() {
    let mut core = fresh(2);
    let id = start(&mut core, SessionMode::Shell);
    assert!(core.on_terminal_output(&id, b"ab", 5).is_empty());
    assert!(core.on_terminal_output(&id, b"c", 6).is_empty());
    assert_eq!(core.sessions[0].info.last_activity, 6);
    let effects = core.attach(&id);
    match &effects[..] {
        [Effect::SessionShown(_), Effect::TermData { session_id, data, replay }] => {
            assert_eq!(session_id, &id);
            assert_eq!(data, b"abc");
            assert!(*replay);
        }
        other => panic!("unexpected {:?}", other),
    }
    match &core.on_terminal_output(&id, b"d", 7)[..] {
        [Effect::TermData { data, replay, .. }] => {
            assert_eq!(data, b"d");
            assert!(!*replay);
        }
        other => panic!("unexpected {:?}", other),
    }
    let effects = core.detach(&id);
    assert_eq!(effects.len(), 1);
    assert!(rendered(&core).is_empty() && core.attach_lru.is_empty());
    assert!(core.on_terminal_output(&id, b"e", 8).is_empty());
}

#[test]
fn a_worker_has_nothing_to_replay() {
    let mut core = fresh(2);
    let id = start(&mut core, SessionMode::Headless);
    assert_eq!(core.attach(&id).len(), 1);
    let quiet = start(&mut core, SessionMode::Shell);
    assert_eq!(core.attach(&quiet).len(), 1);
}

#[test]
fn an_unknown_session_takes_a_place_in_the_order() {
    let mut core = fresh(1);
    let id = start(&mut core, SessionMode::Shell);
    core.attach(&id);
    core.attach("zz");
    assert!(rendered(&core).is_empty());
    assert_eq!(core.attach_lru, vec!["zz".to_string()]);
    assert!(core.on_terminal_output("zz", b"x", 1).is_empty());
}
