use agentlane::model::{
    elapsed_ms, epoch_ms, now_ms, F64Bits, OrchestratorConfig, SessionInfo, SessionMode, SessionStatus,
    TokenUsage, timestamp,
};

fn usage(a: u64, b: u64, c: u64, d: u64) -> TokenUsage {
    TokenUsage {
        input_tokens: a,
        output_tokens: b,
        cache_creation_tokens: c,
        cache_read_tokens: d,
    }
}

#[test]
fn the_clock_counts_milliseconds() {
    assert_eq!(elapsed_ms(2, 3_999_999), 2003);
    assert_eq!(elapsed_ms(0, 999_999), 0);
    assert_eq!(timestamp(Some((5, 6_000_000))), 5006);
    assert_eq!(timestamp(None), 0);
    assert_eq!(epoch_ms(None), 0);
    assert_eq!(epoch_ms(Some(1_700_000_000_123)), 1_700_000_000_123);
    assert!(now_ms() > 1_600_000_000_000);
}

#[test]
fn a_status_is_active_or_terminal() {
    for s in [SessionStatus::Starting, SessionStatus::Idle, SessionStatus::Busy] {
        assert!(s.is_active() && !s.is_terminal());
    }
    for s in [SessionStatus::Completed, SessionStatus::Crashed, SessionStatus::Stopped] {
        assert!(!s.is_active() && s.is_terminal());
    }
}

#[test]
fn usage_adds_up() {
    let mut u = TokenUsage::default();
    assert_eq!(u.total(), 0);
    u.add(&usage(1, 2, 3, 4));
    u.add(&usage(10, 20, 30, 40));
    assert_eq!(u, usage(11, 22, 33, 44));
    assert_eq!(u.total(), 110);
    assert_eq!(u.checked_total(), Some(110));
}

#[test]
fn usage_knows_its_limits() {
    let full = usage(u64::MAX, 0, 0, 0);
    assert!(!full.has_room(&usage(1, 0, 0, 0)));
    assert!(full.has_room(&usage(0, 1, 1, 1)));
    assert_eq!(usage(u64::MAX, 1, 0, 0).checked_total(), None);
}

#[test]
fn a_session_starts_with_nothing_done() {
    let i = SessionInfo::new(
        "id".to_string(),
        "n".to_string(),
        SessionMode::Shell,
        "/w".to_string(),
        None,
    );
    assert_eq!(i.status, SessionStatus::Starting);
    assert_eq!(i.activity, "starting");
    assert_eq!(i.created_at, i.last_activity);
    assert_eq!(i.cost_usd, F64Bits(0));
    assert!(!i.attached && i.pid.is_none() && i.current_task.is_none());
}

#[test]
fn the_default_policy() {
    let c = OrchestratorConfig::default();
    assert_eq!(c.max_concurrent, 8);
    assert_eq!(c.max_attached, 8);
    assert_eq!(f32::from_bits(c.cpu_limit_percent.0), 85.0);
    assert_eq!(f32::from_bits(c.mem_limit_percent.0), 85.0);
    assert!(c.auto_restart && c.session_pooling && !c.bare_mode);
    assert_eq!(c.default_permission_mode, "acceptEdits");
    assert_eq!(c.ring_buffer_bytes, 256 * 1024);
}
