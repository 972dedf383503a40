use studio_core::config::{port_from, DEFAULT_PORT};
use studio_core::copilot::surface_of;
use studio_core::relay::{relay_step, RelayAction};

fn token(line: &str) -> Option<String> {
    match relay_step(line) {
        RelayAction::Token(t) => Some(t),
        _ => None,
    }
}

#[test]
fn text_deltas_are_forwarded_and_the_stream_stops_where_it_ends() {
    let delta = r#"data: {"type":"content_block_delta","index":0,"delta":{"type":"text_delta","text":"Hi there"}}"#;
    assert_eq!(token(delta).as_deref(), Some("Hi there"));
    assert!(matches!(relay_step("data: [DONE]"), RelayAction::Stop));
    assert!(matches!(relay_step(r#"data: {"type":"message_stop"}"#), RelayAction::Stop));
}

#[test]
fn everything_else_is_skipped() {
    for line in [
        "",
        "event: content_block_delta",
        "data:{\"type\":\"message_stop\"}",
        r#"data: {"type":"ping"}"#,
        r#"data: {"type":"content_block_delta","delta":{"type":"input_json_delta"}}"#,
        "data: not json",
        "data: [DONE] ",
    ] {
        assert!(matches!(relay_step(line), RelayAction::Skip), "{line:?}");
    }
}

#[test]
fn surface_defaults_to_the_editor() {
    assert_eq!(surface_of(""), "editor");
    assert_eq!(surface_of("governance"), "governance");
}

#[test]
fn the_request_follows_the_context() {
    assert_eq!(studio_core::copilot::user_message("Policy: p1\n", "tighten it"), "Policy: p1\n\n\nRequest: tighten it");
}

#[test]
fn the_port_comes_from_its_text_or_defaults() {
    assert_eq!(DEFAULT_PORT, 8787);
    assert_eq!(port_from(None), 8787);
    assert_eq!(port_from(Some("9000")), 9000);
    assert_eq!(port_from(Some("+80")), 80);
    assert_eq!(port_from(Some("65535")), 65535);
    for bad in ["65536", "", "-1", "80 ", "http"] {
        assert_eq!(port_from(Some(bad)), 8787, "{bad:?}");
        assert_eq!(bad.parse::<u16>().ok().unwrap_or(8787), 8787);
    }
}
