use bridge_core::gateway::{
    local_result, truncate_texts, LocalResult,
    as_metadata, authorize_get, authorized_at, bearer_token, classify_rpc, hidden_inputs,
    html_escape, method_not_found_message, protected_resource, public_base, render_consent,
    render_error, rpc_status, truncate_text, www_authenticate, AuthorizePage, RpcMethod,
};
use bridge_core::oauth::OAuthServer;
use bridge_core::store::Params;

#[test]
fn html_escape_replaces_markup() {
    assert_eq!(html_escape("a<b>&\"c'"), "a&lt;b&gt;&amp;&quot;c'");
    assert_eq!(html_escape(""), "");
    assert_eq!(html_escape("&amp;"), "&amp;amp;");
}

#[test]
fn hidden_inputs_follow_insertion_order() {
    let mut q = Params::new();
    q.set("state", "s<1>");
    q.set("client_id", "c");
    q.set("state", "s2");
    assert_eq!(
        hidden_inputs(&q),
        "<input type='hidden' name='state' value='s2'><input type='hidden' name='client_id' value='c'>"
    );
}

#[test]
fn consent_and_error_pages() {
    let mut q = Params::new();
    q.set("client_id", "c");
    let page = render_consent(&q, Some("bad <code>"));
    assert!(page.starts_with("<!DOCTYPE html>"));
    assert!(page.contains("<input type='hidden' name='client_id' value='c'>"));
    assert!(page.contains("<div class=\"err\">bad &lt;code&gt;</div>"));
    assert!(page.ends_with("</body></html>"));
    let plain = render_consent(&q, None);
    assert!(!plain.contains("class=\"err\">"));
    let err = render_error("x & y");
    assert!(err.contains("<p>x &amp; y</p>"));
}

#[test]
fn public_base_and_challenge() {
    assert_eq!(public_base(Some("abc.trycloudflare.com")), "https://abc.trycloudflare.com");
    assert_eq!(public_base(None), "https://127.0.0.1");
    let wa = www_authenticate("https://h");
    assert_eq!(
        wa,
        "Bearer resource_metadata=\"https://h/.well-known/oauth-protected-resource\""
    );
    assert!(wa.contains("oauth-protected-resource"));
}

#[test]
fn bearer_token_extraction() {
    assert_eq!(bearer_token(Some("Bearer abc")), Some("abc".to_string()));
    assert_eq!(bearer_token(Some("bearer abc")), None);
    assert_eq!(bearer_token(Some("Basic abc")), None);
    assert_eq!(bearer_token(None), None);
    assert_eq!(bearer_token(Some("Bearer ")), Some(String::new()));
}

#[test]
fn admission_rules() {
    let mut oauth = OAuthServer::new();
    let t = oauth.mint_local_with(Some("https://h.example/mcp".to_string()), "tok".to_string(), 0);
    assert!(authorized_at(&oauth, true, None, None, 0));
    assert!(!authorized_at(&oauth, false, Some("h.example"), None, 0));
    let header = format!("Bearer {}", t);
    assert!(authorized_at(&oauth, false, Some("h.example"), Some(&header), 5));
    assert!(!authorized_at(&oauth, false, Some("other.example"), Some(&header), 5));
    assert!(!authorized_at(&oauth, false, Some("h.example"), Some(&header), 3_600_001));
    assert!(!authorized_at(&oauth, false, Some("h.example"), Some("Bearer nope"), 5));
}

#[test]
fn rpc_classification() {
    assert_eq!(classify_rpc("initialize"), RpcMethod::Initialize);
    assert_eq!(classify_rpc("notifications/initialized"), RpcMethod::Notification);
    assert_eq!(classify_rpc("ping"), RpcMethod::Ping);
    assert_eq!(classify_rpc("tools/list"), RpcMethod::ToolsList);
    assert_eq!(classify_rpc("tools/call"), RpcMethod::ToolsCall);
    assert_eq!(classify_rpc(""), RpcMethod::Unknown);
    assert_eq!(classify_rpc("resources/list"), RpcMethod::Unknown);
    assert_eq!(rpc_status(RpcMethod::Notification), 202);
    assert_eq!(rpc_status(RpcMethod::Ping), 200);
    assert_eq!(method_not_found_message("x/y"), "method not found: x/y");
}

#[test]
fn short_output_is_kept() {
    assert_eq!(truncate_text("hello"), None);
    let exact = "a".repeat(8192);
    assert_eq!(truncate_text(&exact), None);
}

#[test]
fn long_output_is_truncated() {
    let long = "a".repeat(20_000);
    let cut = truncate_text(&long).unwrap();
    let expected = format!(
        "{}\n\n… [MCP Bridge] 输出过长已截断(原 19 KB),请缩小范围或分页",
        "a".repeat(8192)
    );
    assert_eq!(cut, expected);
    // multi-byte text: 3000 chars of 3 bytes = 9000 bytes; 2730 whole characters
    // (8190 bytes) fit in 8 KB
    let wide = "汉".repeat(3000);
    let cut = truncate_text(&wide).unwrap();
    let expected = format!("{}\n\n… [MCP Bridge] 输出过长已截断(原 8 KB),请缩小范围或分页", "汉".repeat(2730));
    assert_eq!(cut, expected);
    // a cut never splits a character: 1 + 2730 * 3 = 8191 bytes kept
    let mixed = format!("a{}", "汉".repeat(3000));
    let cut = truncate_text(&mixed).unwrap();
    assert!(cut.starts_with(&format!("a{}\n", "汉".repeat(2730))));
}

#[test]
fn metadata_documents() {
    let m = as_metadata("https://h");
    assert_eq!(m.issuer, "https://h");
    assert_eq!(m.authorization_endpoint, "https://h/oauth/authorize");
    assert_eq!(m.token_endpoint, "https://h/oauth/token");
    assert_eq!(m.registration_endpoint, "https://h/oauth/register");
    assert_eq!(m.code_challenge_methods_supported, vec!["S256".to_string()]);
    assert!(m.authorization_response_iss_parameter_supported);
    let r = protected_resource("https://h");
    assert_eq!(r.resource, "https://h");
    assert_eq!(r.authorization_servers, vec!["https://h".to_string()]);
    assert_eq!(r.scopes_supported, vec!["mcp".to_string()]);
}

#[test]
fn invalid_authorize_request_gets_error_page() {
    let mut oauth = OAuthServer::new();
    let mut q = Params::new();
    q.set("response_type", "code");
    match authorize_get(&mut oauth, q) {
        AuthorizePage::Rejected { message, html } => {
            assert_eq!(message, "缺少 client_id");
            assert!(html.contains("授权请求无效"));
            assert!(html.contains("缺少 client_id"));
        }
        _ => panic!("expected rejection"),
    }
}

#[test]
fn error_page_message_adds_no_markup() {
    let plain = render_error("bad");
    let hostile = render_error("<script>alert(1)</script><b>");
    assert_eq!(plain.matches('<').count(), hostile.matches('<').count());
    assert!(hostile.contains("<p>&lt;script&gt;alert(1)&lt;/script&gt;&lt;b&gt;</p>"));
}

#[test]
fn local_answers() {
    match local_result(RpcMethod::Initialize) {
        Some(LocalResult::Initialize { protocol_version, tools_list_changed, server_name }) => {
            assert_eq!(protocol_version, "2025-03-26");
            assert!(!tools_list_changed);
            assert_eq!(server_name, "MCP Bridge (JetBrains)");
        }
        _ => panic!("initialize is answered locally"),
    }
    assert!(matches!(local_result(RpcMethod::Ping), Some(LocalResult::Empty)));
    assert!(local_result(RpcMethod::ToolsList).is_none());
    assert!(local_result(RpcMethod::ToolsCall).is_none());
    assert!(local_result(RpcMethod::Notification).is_none());
    assert!(local_result(RpcMethod::Unknown).is_none());
}

#[test]
fn content_items_are_cut_one_by_one() {
    let long = "b".repeat(9000);
    let texts = vec![Some("short".to_string()), None, Some(long.clone())];
    let cut = truncate_texts(&texts);
    assert_eq!(cut.len(), 3);
    assert_eq!(cut[0], None);
    assert_eq!(cut[1], None);
    assert_eq!(cut[2], truncate_text(&long));
    assert!(cut[2].as_ref().unwrap().starts_with(&"b".repeat(8192)));
}
