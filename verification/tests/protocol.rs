use agentlane::protocol::{parse_line, user_message_line, Event};

#[test]
fn a_prompt_is_one_line() {
    assert_eq!(
        user_message_line("fix \"it\"\nnow"),
        "{\"message\":{\"content\":\"fix \\\"it\\\"\\nnow\",\"role\":\"user\"},\"type\":\"user\"}\n"
    );
}

#[test]
fn a_prompt_reads_back() {
    match parse_line(&user_message_line("a\nb\u{1}")) {
        Some(Event::ToolResult { text }) => assert_eq!(text, "a\nb\u{1}"),
        other => panic!("unexpected {:?}", other),
    }
}

#[test]
fn blank_and_broken_lines_are_skipped() {
    assert!(parse_line("   \t").is_none());
    assert!(parse_line("not json").is_none());
    assert!(parse_line("{\"type\":").is_none());
}

#[test]
fn the_handshake_is_read() {
    match parse_line("{\"type\":\"system\",\"subtype\":\"init\",\"session_id\":\"s1\",\"model\":\"m\",\"cwd\":\"/w\"}") {
        Some(Event::Init { session_id, model, cwd }) => {
            assert_eq!(session_id, Some("s1".to_string()));
            assert_eq!(model, Some("m".to_string()));
            assert_eq!(cwd, Some("/w".to_string()));
        }
        other => panic!("unexpected {:?}", other),
    }
}

#[test]
fn an_assistant_turn_is_read() {
    let line = "{\"type\":\"assistant\",\"message\":{\"content\":[{\"type\":\"text\",\"text\":\"hi\"},{\"type\":\"tool_use\",\"name\":\"Bash\"}]}}";
    match parse_line(line) {
        Some(Event::Assistant { text, tools }) => {
            assert_eq!(text, "hi");
            assert_eq!(tools, vec!["Bash".to_string()]);
        }
        other => panic!("unexpected {:?}", other),
    }
}

#[test]
fn a_result_is_read() {
    let line = "{\"type\":\"result\",\"is_error\":false,\"result\":\"done\",\"usage\":{\"input_tokens\":3,\"output_tokens\":4,\"cache_creation_input_tokens\":5,\"cache_read_input_tokens\":6},\"total_cost_usd\":0.25,\"num_turns\":2,\"session_id\":\"s\"}";
    match parse_line(line) {
        Some(Event::Result { is_error, text, usage, cost_usd, num_turns, session_id }) => {
            assert!(!is_error);
            assert_eq!(text, Some("done".to_string()));
            assert_eq!(usage.input_tokens, 3);
            assert_eq!(usage.output_tokens, 4);
            assert_eq!(usage.cache_creation_tokens, 5);
            assert_eq!(usage.cache_read_tokens, 6);
            assert_eq!(cost_usd.map(|c| f64::from_bits(c.0)), Some(0.25));
            assert_eq!(num_turns, Some(2));
            assert_eq!(session_id, Some("s".to_string()));
        }
        other => panic!("unexpected {:?}", other),
    }
}

#[test]
fn an_unknown_line_keeps_its_kind() {
    match parse_line("{\"type\":\"weather\"}") {
        Some(Event::Other { kind }) => assert_eq!(kind, "weather"),
        other => panic!("unexpected {:?}", other),
    }
}
