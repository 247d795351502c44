use agentlane::effects::Effect;
use agentlane::events::{event_name, METRICS};
use agentlane::terminal::term_data;

#[test]
fn terminal_output_is_base64() {
    for (raw, text) in [
        ("", ""),
        ("f", "Zg=="),
        ("fo", "Zm8="),
        ("foo", "Zm9v"),
        ("foob", "Zm9vYg=="),
        ("fooba", "Zm9vYmE="),
        ("foobar", "Zm9vYmFy"),
    ] {
        assert_eq!(term_data("s", raw.as_bytes(), false).data, text);
    }
    let t = term_data("s", &[0xfb, 0xff, 0xfe], true);
    assert_eq!(t.data, "+//+");
    assert_eq!(t.session_id, "s");
    assert!(t.replay);
}

#[test]
fn effects_have_event_names() {
    assert_eq!(event_name(&Effect::Kill("s".to_string())), None);
    assert_eq!(event_name(&Effect::SessionRemoved("s".to_string())), Some("session:removed"));
    assert_eq!(
        event_name(&Effect::TermData { session_id: "s".to_string(), data: vec![1], replay: false }),
        Some("term:data")
    );
    assert_eq!(
        event_name(&Effect::Log {
            session_id: "s".to_string(),
            kind: "k".to_string(),
            text: "t".to_string()
        }),
        Some("log")
    );
    assert_eq!(METRICS, "metrics");
}
