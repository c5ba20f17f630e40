use bridge_core::mcp::{
    answers_id, local_probe_urls, manual_probe_target, parse_rpc_reply, project_path_to_inject,
    server_info, session_expired, sse_data_payloads, sse_over_limit, sse_reply_payload,
    upstream_next, UpstreamAction, UpstreamEvent, UpstreamOp, UpstreamState,
};

#[test]
fn probe_endpoints() {
    assert_eq!(
        local_probe_urls(),
        vec![
            "http://127.0.0.1:64342/stream",
            "http://127.0.0.1:64342/sse",
            "http://127.0.0.1:63342/stream",
            "http://127.0.0.1:63342/sse"
        ]
    );
}

#[test]
fn pasted_configurations() {
    assert_eq!(
        manual_probe_target("http://127.0.0.1:64342/sse", "sse"),
        ("http://127.0.0.1:64342/stream".to_string(), true)
    );
    assert_eq!(
        manual_probe_target("http://127.0.0.1:64342//", "sse"),
        ("http://127.0.0.1:64342/stream".to_string(), true)
    );
    assert_eq!(
        manual_probe_target("http://127.0.0.1:64342/stream", "streamable-http"),
        ("http://127.0.0.1:64342/stream".to_string(), false)
    );
}

#[test]
fn sse_payloads() {
    let body = "event: message\ndata: {\"jsonrpc\":\"2.0\",\"id\":2,\"result\":{}}\r\n\r\n: comment\ndata:x\n\n";
    assert_eq!(
        sse_data_payloads(body),
        vec!["{\"jsonrpc\":\"2.0\",\"id\":2,\"result\":{}}".to_string(), "x".to_string()]
    );
    assert!(sse_data_payloads("").is_empty());
    assert!(!sse_over_limit("small"));
    assert!(sse_over_limit(&"a".repeat(4 * 1024 * 1024 + 1)));
    assert!(!sse_over_limit(&"a".repeat(4 * 1024 * 1024)));
}

#[test]
fn tool_call_rules() {
    let d = Some("/home/me/proj".to_string());
    assert_eq!(project_path_to_inject(true, false, &d), d.clone());
    assert_eq!(project_path_to_inject(true, true, &d), None);
    assert_eq!(project_path_to_inject(false, false, &d), None);
    assert_eq!(project_path_to_inject(true, false, &None), None);
    assert!(session_expired(404));
    assert!(!session_expired(200));
}

#[test]
fn reply_fields() {
    let f = parse_rpc_reply(r#"{"jsonrpc":"2.0","id":1,"result":{"serverInfo":{"name":"JetBrains","version":"2025.1"}}}"#).unwrap();
    assert_eq!(f.id, Some(1));
    assert!(f.has_result && !f.has_error);
    assert_eq!(server_info(&f), ("JetBrains".to_string(), "2025.1".to_string()));
    let e = parse_rpc_reply(r#"{"jsonrpc":"2.0","id":7,"error":{"code":-1}}"#).unwrap();
    assert_eq!(e.id, Some(7));
    assert!(e.has_error && !e.has_result);
    assert_eq!(server_info(&e), ("unknown".to_string(), "?".to_string()));
    let n = parse_rpc_reply(r#"{"jsonrpc":"2.0","method":"notifications/x"}"#).unwrap();
    assert_eq!(n.id, None);
    assert!(parse_rpc_reply("not json").is_none());
    assert!(answers_id(&parse_rpc_reply(r#"{"id":3,"result":null}"#), 3));
    assert!(!answers_id(&parse_rpc_reply(r#"{"id":3}"#), 3));
    assert!(!answers_id(&parse_rpc_reply(r#"{"id":4,"result":{}}"#), 3));
    assert!(!answers_id(&None, 3));
}

#[test]
fn reply_in_event_stream() {
    let body = "data: {\"jsonrpc\":\"2.0\",\"method\":\"notifications/progress\"}\n\n\
                data: {\"jsonrpc\":\"2.0\",\"id\":1,\"result\":{\"a\":1}}\n\n\
                data: {\"jsonrpc\":\"2.0\",\"id\":2,\"result\":{\"b\":2}}\n\n";
    assert_eq!(sse_reply_payload(body, 2), Some("{\"jsonrpc\":\"2.0\",\"id\":2,\"result\":{\"b\":2}}".to_string()));
    assert_eq!(sse_reply_payload(body, 1), Some("{\"jsonrpc\":\"2.0\",\"id\":1,\"result\":{\"a\":1}}".to_string()));
    assert_eq!(sse_reply_payload(body, 3), None);
    assert_eq!(sse_reply_payload("data: {\"id\":5}\n", 5), None);
}

fn fresh() -> UpstreamState {
    UpstreamState { session: None, tools_cached: false, op: None, retried: false }
}

#[test]
fn upstream_decisions() {
    // no session yet: initialize, then send on the session given
    let (s, a) = upstream_next(&fresh(), UpstreamEvent::Begin(UpstreamOp::Tools { force_refresh: false }));
    assert_eq!(a, UpstreamAction::Initialize);
    let (s, a) = upstream_next(&s, UpstreamEvent::Initialized(Some("sid-1".to_string())));
    assert_eq!(a, UpstreamAction::Send);
    assert_eq!(s.session.as_deref(), Some("sid-1"));
    let (s, a) = upstream_next(&s, UpstreamEvent::Answered(200));
    assert_eq!(a, UpstreamAction::Read);
    let (s, a) = upstream_next(&s, UpstreamEvent::ToolsStored);
    assert_eq!(a, UpstreamAction::Idle);
    assert!(s.tools_cached);
    // cached list: no request unless a refresh is asked
    let (_, a) = upstream_next(&s, UpstreamEvent::Begin(UpstreamOp::Tools { force_refresh: false }));
    assert_eq!(a, UpstreamAction::ServeCachedTools);
    let (_, a) = upstream_next(&s, UpstreamEvent::Begin(UpstreamOp::Tools { force_refresh: true }));
    assert_eq!(a, UpstreamAction::Send);
    // a call reuses the session; 404 gives one new session and one retry
    let (s, a) = upstream_next(&s, UpstreamEvent::Begin(UpstreamOp::Call));
    assert_eq!(a, UpstreamAction::Send);
    let (s, a) = upstream_next(&s, UpstreamEvent::Answered(404));
    assert_eq!(a, UpstreamAction::Initialize);
    let (s, a) = upstream_next(&s, UpstreamEvent::Initialized(Some("sid-2".to_string())));
    assert_eq!(a, UpstreamAction::Send);
    assert_eq!(s.session.as_deref(), Some("sid-2"));
    let (_, a) = upstream_next(&s, UpstreamEvent::Answered(404));
    assert_eq!(a, UpstreamAction::Read);
    // a list request answered 404 is not retried
    let t = UpstreamState { session: Some("x".to_string()), tools_cached: false, op: Some(UpstreamOp::Tools { force_refresh: true }), retried: false };
    let (_, a) = upstream_next(&t, UpstreamEvent::Answered(404));
    assert_eq!(a, UpstreamAction::Read);
}
