use bridge_core::gateway::{
    approval_incomplete_at, authorize_get, authorize_post, authorize_post_at, AuthorizeOutcome,
    AuthorizePage,
};
use bridge_core::oauth::{gen_pairing_code, normalize_pairing_code, rand_token, OAuthServer, TokenError};
use bridge_core::store::Params;

const REDIRECT: &str = "https://chatgpt.com/connector_platform_oauth_redirect";
const VERIFIER: &str = "test-verifier-0123456789-0123456789-0123456789";
const CHALLENGE: &str = "cr44KV5YSKLyleX1Lm_6fEu7NYZExuMmIJCfFloMT1o";
const BASE: &str = "http://127.0.0.1:8080";

fn params(pairs: &[(&str, &str)]) -> Params {
    let mut p = Params::new();
    for (k, v) in pairs {
        p.set(k, v);
    }
    p
}

fn authorize_query(client_id: &str) -> Params {
    params(&[
        ("response_type", "code"),
        ("client_id", client_id),
        ("redirect_uri", REDIRECT),
        ("state", "s1"),
        ("scope", "mcp"),
        ("code_challenge", CHALLENGE),
        ("code_challenge_method", "S256"),
        ("resource", BASE),
    ])
}

fn query_value(url: &str, key: &str) -> Option<String> {
    let q = url.split_once('?')?.1;
    q.split('&')
        .find_map(|kv| kv.strip_prefix(&format!("{}=", key)).map(|v| v.to_string()))
}

/// Runs DCR, the consent page and the pairing code up to an authorization code.
fn obtain_code(oauth: &mut OAuthServer) -> (String, String) {
    let reg = oauth.register(vec![REDIRECT.to_string()]);
    let client_id = reg.client_id.clone();
    let q = authorize_query(&client_id);
    let page = authorize_get(oauth, q);
    let pairing = match page {
        AuthorizePage::Consent { pairing_code, html } => {
            assert!(html.contains("pairing_code"));
            assert!(html.contains(&format!("value='{}'", client_id)));
            pairing_code
        }
        AuthorizePage::Rejected { message, .. } => panic!("rejected: {}", message),
    };
    assert!(pairing.len() == 9 && pairing.contains('-'), "pairing code: {}", pairing);
    let mut form = authorize_query(&client_id);
    form.set("decision", "allow");
    form.set("pairing_code", &pairing);
    let out = authorize_post(oauth, &form, BASE);
    let url = match out {
        AuthorizeOutcome::Approved(url) => url,
        _ => panic!("expected approval"),
    };
    assert!(url.starts_with(&format!("{}?code=", REDIRECT)));
    assert!(url.contains("iss=") && url.contains("state=s1"));
    (client_id, query_value(&url, "code").unwrap())
}

#[test]
fn oauth_full_flow_with_refresh_rotation() {
    let mut oauth = OAuthServer::new();
    let (client_id, code) = obtain_code(&mut oauth);
    assert!(code.starts_with("mcpb_code_"));

    let form = params(&[
        ("grant_type", "authorization_code"),
        ("code", &code),
        ("client_id", &client_id),
        ("redirect_uri", REDIRECT),
        ("code_verifier", VERIFIER),
    ]);
    let tk = oauth.token(&form).expect("token exchange");
    assert_eq!(tk.token_type, "Bearer");
    assert_eq!(tk.expires_in, 3600);
    assert_eq!(tk.scope, "mcp");
    assert!(tk.access_token.starts_with("mcpb_at_"));
    assert!(tk.refresh_token.starts_with("mcpb_rt_"));

    let accepted = vec![BASE.to_string(), format!("{}/mcp", BASE)];
    assert!(oauth.verify(&tk.access_token, &accepted));
    // audience comparison ignores the scheme
    let accepted_https = vec!["https://127.0.0.1:8080".to_string()];
    assert!(oauth.verify(&tk.access_token, &accepted_https));
    let other = vec!["https://elsewhere.example".to_string()];
    assert!(!oauth.verify(&tk.access_token, &other));

    // the authorization code is used up
    assert_eq!(oauth.token(&form).err(), Some(TokenError::InvalidGrant));

    // refresh rotation: the old refresh token works once
    let refresh = params(&[("grant_type", "refresh_token"), ("refresh_token", &tk.refresh_token)]);
    let tk2 = oauth.token(&refresh).expect("refresh");
    assert_ne!(tk2.refresh_token, tk.refresh_token);
    let again = oauth.token(&refresh);
    assert_eq!(again.err(), Some(TokenError::InvalidGrant));
    assert_eq!(TokenError::InvalidGrant.status(), 400);
    assert_eq!(TokenError::InvalidGrant.error(), "invalid_grant");
    // the new refresh token works
    let refresh2 = params(&[("grant_type", "refresh_token"), ("refresh_token", &tk2.refresh_token)]);
    assert!(oauth.token(&refresh2).is_ok());
}

#[test]
fn pkce_mismatch_is_refused_and_burns_the_code() {
    let mut oauth = OAuthServer::new();
    let (client_id, code) = obtain_code(&mut oauth);
    let bad = params(&[
        ("grant_type", "authorization_code"),
        ("code", &code),
        ("client_id", &client_id),
        ("redirect_uri", REDIRECT),
        ("code_verifier", "wrong-verifier"),
    ]);
    let e = oauth.token(&bad).err().unwrap();
    assert_eq!(e, TokenError::PkceFailed);
    assert_eq!(e.error(), "invalid_grant");
    assert_eq!(e.description(), Some("PKCE verification failed"));
    let good = params(&[
        ("grant_type", "authorization_code"),
        ("code", &code),
        ("client_id", &client_id),
        ("redirect_uri", REDIRECT),
        ("code_verifier", VERIFIER),
    ]);
    assert_eq!(oauth.token(&good).err(), Some(TokenError::InvalidGrant));
}

#[test]
fn token_request_errors() {
    let mut oauth = OAuthServer::new();
    assert_eq!(oauth.token(&params(&[])).err(), Some(TokenError::UnsupportedGrantType));
    assert_eq!(
        oauth.token(&params(&[("grant_type", "password")])).err(),
        Some(TokenError::UnsupportedGrantType)
    );
    assert_eq!(
        oauth.token(&params(&[("grant_type", "authorization_code")])).err(),
        Some(TokenError::InvalidRequest)
    );
    assert_eq!(
        oauth.token(&params(&[("grant_type", "refresh_token")])).err(),
        Some(TokenError::InvalidRequest)
    );
    assert_eq!(
        oauth.token(&params(&[("grant_type", "refresh_token"), ("refresh_token", "nope")])).err(),
        Some(TokenError::InvalidGrant)
    );
    assert_eq!(TokenError::UnsupportedGrantType.error(), "unsupported_grant_type");
    assert_eq!(TokenError::MissingCodeVerifier.error(), "invalid_request");
    assert_eq!(TokenError::MissingCodeVerifier.description(), Some("missing code_verifier"));
    assert_eq!(TokenError::InvalidRequest.description(), None);
}

#[test]
fn client_mismatch_and_missing_verifier() {
    let mut oauth = OAuthServer::new();
    let (client_id, code) = obtain_code(&mut oauth);
    let wrong_client = params(&[
        ("grant_type", "authorization_code"),
        ("code", &code),
        ("client_id", "someone-else"),
        ("redirect_uri", REDIRECT),
        ("code_verifier", VERIFIER),
    ]);
    assert_eq!(oauth.token(&wrong_client).err(), Some(TokenError::ClientRedirectMismatch));
    let (client_id2, code2) = obtain_code(&mut oauth);
    assert_ne!(client_id, client_id2);
    let no_verifier = params(&[
        ("grant_type", "authorization_code"),
        ("code", &code2),
        ("client_id", &client_id2),
        ("redirect_uri", REDIRECT),
    ]);
    assert_eq!(oauth.token(&no_verifier).err(), Some(TokenError::MissingCodeVerifier));
}

#[test]
fn expired_code_is_refused() {
    let mut oauth = OAuthServer::new();
    let reg = oauth.register(vec![REDIRECT.to_string()]);
    let q = authorize_query(&reg.client_id);
    oauth.approve_with(&q, BASE, "mcpb_code_fixed".to_string(), 1000);
    let form = params(&[
        ("grant_type", "authorization_code"),
        ("code", "mcpb_code_fixed"),
        ("client_id", &reg.client_id),
        ("redirect_uri", REDIRECT),
        ("code_verifier", VERIFIER),
    ]);
    let r = oauth.token_with(&form, 1000 + 300_001, "at".to_string(), "rt".to_string());
    assert_eq!(r.err(), Some(TokenError::CodeExpired));
}

#[test]
fn code_within_lifetime_is_granted() {
    let mut oauth = OAuthServer::new();
    let reg = oauth.register(vec![REDIRECT.to_string()]);
    let q = authorize_query(&reg.client_id);
    let url = oauth.approve_with(&q, BASE, "mcpb_code_fixed".to_string(), 1000);
    assert_eq!(
        url,
        format!(
            "{}?code=mcpb_code_fixed&iss=http%3A%2F%2F127.0.0.1%3A8080&state=s1",
            REDIRECT
        )
    );
    let form = params(&[
        ("grant_type", "authorization_code"),
        ("code", "mcpb_code_fixed"),
        ("client_id", &reg.client_id),
        ("redirect_uri", REDIRECT),
        ("code_verifier", VERIFIER),
    ]);
    let r = oauth
        .token_with(&form, 1000 + 300_000, "at-1".to_string(), "rt-1".to_string())
        .unwrap();
    assert_eq!(r.access_token, "at-1");
    assert_eq!(r.refresh_token, "rt-1");
    let accepted = vec![BASE.to_string()];
    assert!(oauth.verify_at("at-1", &accepted, 1000 + 300_000 + 3_600_000));
    assert!(!oauth.verify_at("at-1", &accepted, 1000 + 300_000 + 3_600_001));
}

#[test]
fn check_authorize_messages() {
    let mut oauth = OAuthServer::new();
    let reg = oauth.register(vec![REDIRECT.to_string()]);
    let mut q = authorize_query(&reg.client_id);
    let checked = oauth.check_authorize(&q).ok().unwrap();
    assert_eq!(checked.len(), q.len());
    for name in ["response_type", "client_id", "redirect_uri", "code_challenge", "code_challenge_method", "state"] {
        assert_eq!(checked.get_string(name), q.get_string(name));
    }
    q.set("response_type", "token");
    assert_eq!(oauth.check_authorize(&q).err().unwrap(), "response_type 必须为 code");
    let q2 = params(&[("response_type", "code")]);
    assert_eq!(oauth.check_authorize(&q2).err().unwrap(), "缺少 client_id");
    let q3 = params(&[("response_type", "code"), ("client_id", "x")]);
    assert_eq!(oauth.check_authorize(&q3).err().unwrap(), "缺少 redirect_uri");
    let q4 = authorize_query("unknown-client");
    assert_eq!(
        oauth.check_authorize(&q4).err().unwrap(),
        "client_id 未注册或 redirect_uri 不匹配"
    );
    let mut q5 = authorize_query(&reg.client_id);
    q5.set("code_challenge_method", "plain");
    assert_eq!(oauth.check_authorize(&q5).err().unwrap(), "需要 PKCE(S256 code_challenge)");
    let mut q6 = authorize_query(&reg.client_id);
    q6.set("code_challenge", "");
    assert_eq!(oauth.check_authorize(&q6).err().unwrap(), "需要 PKCE(S256 code_challenge)");
    assert!(oauth.client_redirect_ok(&reg.client_id, REDIRECT));
    assert!(!oauth.client_redirect_ok(&reg.client_id, "https://evil.example/cb"));
}

#[test]
fn pairing_code_is_single_use_and_normalized() {
    let mut oauth = OAuthServer::new();
    let q = authorize_query("c");
    let code = oauth.create_pending(q);
    assert_eq!(code.len(), 9);
    assert_eq!(&code[4..5], "-");
    let typed = format!("  {}  ", code.to_lowercase());
    let p = oauth.take_pending(&typed).expect("pending request");
    assert_eq!(p.code, code);
    assert_eq!(p.query.get_string("client_id"), Some("c".to_string()));
    assert!(oauth.take_pending(&code).is_none());
}

#[test]
fn pairing_code_expires_after_two_minutes() {
    let mut oauth = OAuthServer::new();
    oauth.create_pending_with(authorize_query("c"), "ABCD-EFGH".to_string(), 0);
    assert!(oauth.take_pending_at("ABCD-EFGH", 120_001).is_none());
    oauth.create_pending_with(authorize_query("c"), "ABCD-EFGH".to_string(), 0);
    assert!(oauth.take_pending_at("abcd-efgh", 120_000).is_some());
}

#[test]
fn deny_redirects_with_access_denied() {
    let mut oauth = OAuthServer::new();
    let code = oauth.create_pending(authorize_query("c"));
    let mut form = authorize_query("c");
    form.set("decision", "deny");
    form.set("pairing_code", &code);
    match authorize_post(&mut oauth, &form, "https://x.example") {
        AuthorizeOutcome::Denied(url) => assert_eq!(
            url,
            format!("{}?error=access_denied&iss=https%3A%2F%2Fx.example&state=s1", REDIRECT)
        ),
        _ => panic!("expected denial"),
    }
    assert!(oauth.take_pending(&code).is_none());
}

#[test]
fn wrong_pairing_code_shows_the_form_again() {
    let mut oauth = OAuthServer::new();
    let _code = oauth.create_pending(authorize_query("c"));
    let mut form = authorize_query("c");
    form.set("decision", "allow");
    form.set("pairing_code", "ZZZZ-ZZZZ");
    match authorize_post(&mut oauth, &form, BASE) {
        AuthorizeOutcome::BadCode(html) => assert!(html.contains("授权码错误或已过期")),
        _ => panic!("expected the consent page"),
    }
}

#[test]
fn mismatched_state_is_refused() {
    let mut oauth = OAuthServer::new();
    let code = oauth.create_pending(authorize_query("c"));
    let mut form = authorize_query("c");
    form.set("state", "other");
    form.set("pairing_code", &code);
    match authorize_post(&mut oauth, &form, BASE) {
        AuthorizeOutcome::Mismatch(html) => assert!(html.contains("授权参数不一致")),
        _ => panic!("expected mismatch"),
    }
}

#[test]
fn redirect_uri_with_query_uses_ampersand() {
    let mut oauth = OAuthServer::new();
    let q = params(&[
        ("client_id", "c"),
        ("redirect_uri", "https://cb.example/x?a=1"),
        ("code_challenge", CHALLENGE),
    ]);
    let url = oauth.approve_with(&q, "https://i.example", "k e y".to_string(), 0);
    assert_eq!(url, "https://cb.example/x?a=1&code=k%20e%20y&iss=https%3A%2F%2Fi.example");
}

#[test]
fn minted_token_verifies() {
    let mut oauth = OAuthServer::new();
    let t = oauth.mint_local(None);
    assert!(t.starts_with("mcpb_local_"));
    assert!(oauth.verify(&t, &[]));
    assert!(!oauth.verify("unknown", &[]));
    let t2 = oauth.mint_local_with(Some("https://a.example".to_string()), "tok".to_string(), 0);
    assert!(oauth.verify_at(&t2, &["http://a.example".to_string()], 10));
    assert!(!oauth.verify_at(&t2, &["http://b.example".to_string()], 10));
}

#[test]
fn token_and_pairing_formats() {
    let t = rand_token("mcpb_at");
    assert_eq!(t.len(), "mcpb_at_".len() + 48);
    assert!(t["mcpb_at_".len()..].chars().all(|c| c.is_ascii_hexdigit() && !c.is_ascii_uppercase()));
    let p = gen_pairing_code();
    let alphabet = "ABCDEFGHJKMNPQRSTUVWXYZ23456789";
    for (i, c) in p.chars().enumerate() {
        if i == 4 {
            assert_eq!(c, '-');
        } else {
            assert!(alphabet.contains(c));
        }
    }
    let fixed = bridge_core::oauth::pairing_code_from_bytes(&[0, 1, 30, 31, 32, 255, 62, 7]);
    assert_eq!(fixed, "AB9A-BHAH");
}

#[test]
fn register_records_the_client() {
    let mut oauth = OAuthServer::new();
    let r = bridge_core::gateway::register_client(&mut oauth, vec![]);
    assert!(r.is_none());
    let r = bridge_core::gateway::register_client(&mut oauth, vec![REDIRECT.to_string()]).unwrap();
    assert!(r.client_id.starts_with("mcpb_client_"));
    assert_eq!(r.redirect_uris, vec![REDIRECT.to_string()]);
    assert!(r.client_id_issued_at > 1_600_000_000);
    assert_eq!(r.grant_types, vec!["authorization_code".to_string(), "refresh_token".to_string()]);
    assert_eq!(r.response_types, vec!["code".to_string()]);
    assert_eq!(r.token_endpoint_auth_method, "none");
    assert_eq!(r.client_secret_expires_at, 0);
    let fixed = oauth.register_with(vec!["u".to_string()], "cid".to_string(), 7);
    assert_eq!(fixed.client_id, "cid");
    assert_eq!(fixed.client_id_issued_at, 7);
    assert!(oauth.client_redirect_ok("cid", "u"));
}

#[test]
fn consent_form_at_a_known_time() {
    let mut oauth = OAuthServer::new();
    let reg = oauth.register(vec![REDIRECT.to_string()]);
    oauth.create_pending_with(authorize_query(&reg.client_id), "ABCD-EFGH".to_string(), 1_000);
    // typed in lower case with spaces, within two minutes: approved with the given code
    let form = params(&[
        ("decision", "allow"),
        ("pairing_code", " abcd-efgh "),
        ("client_id", &reg.client_id),
        ("state", "s1"),
    ]);
    match authorize_post_at(&mut oauth, &form, BASE, 121_000, "mcpb_code_fixed".to_string()) {
        AuthorizeOutcome::Approved(url) => {
            assert!(url.starts_with(REDIRECT));
            assert_eq!(query_value(&url, "code").as_deref(), Some("mcpb_code_fixed"));
            assert_eq!(query_value(&url, "state").as_deref(), Some("s1"));
        }
        _ => panic!("expected approval"),
    }
    // the pairing code is used up
    match authorize_post_at(&mut oauth, &form, BASE, 121_000, "mcpb_code_other".to_string()) {
        AuthorizeOutcome::BadCode(_) => {}
        _ => panic!("expected a bad code"),
    }
    // one millisecond after two minutes the request has expired
    oauth.create_pending_with(authorize_query(&reg.client_id), "ABCD-EFGH".to_string(), 1_000);
    match authorize_post_at(&mut oauth, &form, BASE, 121_001, "mcpb_code_late".to_string()) {
        AuthorizeOutcome::BadCode(_) => {}
        _ => panic!("expected a bad code"),
    }
}

#[test]
fn pairing_code_typed_loosely_is_normalized() {
    assert_eq!(normalize_pairing_code(" abcd-ef2h\t"), "ABCD-EF2H");
    assert_eq!(normalize_pairing_code("ABCD-EF2H"), "ABCD-EF2H");
    let c = gen_pairing_code();
    assert_eq!(normalize_pairing_code(&format!("  {}  ", c.to_lowercase())), c);
}

#[test]
fn any_query_can_wait_for_pairing() {
    let mut oauth = OAuthServer::new();
    let q = params(&[("state", "only")]);
    let code = oauth.create_pending_with(q, "WXYZ-2345".to_string(), 0);
    assert_eq!(code, "WXYZ-2345");
    let p = oauth.take_pending_at(" wxyz-2345 ", 120_000).unwrap();
    assert_eq!(p.code, "WXYZ-2345");
    assert_eq!(p.query.get_string("state"), Some("only".to_string()));
    assert_eq!(p.query.len(), 1);
    assert!(oauth.take_pending_at("WXYZ-2345", 0).is_none());
    // drop_pending removes it as typed loosely
    oauth.create_pending_with(params(&[]), "WXYZ-2345".to_string(), 0);
    oauth.drop_pending("  wxyz-2345");
    assert!(oauth.take_pending_at("WXYZ-2345", 0).is_none());
}

#[test]
fn approving_an_incomplete_request_is_detected() {
    let mut oauth = OAuthServer::new();
    oauth.create_pending_with(params(&[("state", "s")]), "ABCD-EFGH".to_string(), 0);
    let form = params(&[("decision", "allow"), ("pairing_code", "ABCD-EFGH"), ("state", "s")]);
    assert!(approval_incomplete_at(&oauth, &form, 1_000));
    // once expired, or for another state, it is not approved at all
    assert!(!approval_incomplete_at(&oauth, &form, 200_000));
    let other = params(&[("decision", "allow"), ("pairing_code", "ABCD-EFGH"), ("state", "t")]);
    assert!(!approval_incomplete_at(&oauth, &other, 1_000));
    let deny = params(&[("decision", "deny"), ("pairing_code", "ABCD-EFGH"), ("redirect_uri", "x")]);
    assert!(!approval_incomplete_at(&oauth, &deny, 1_000));
    let reg = oauth.register(vec![REDIRECT.to_string()]);
    oauth.create_pending_with(authorize_query(&reg.client_id), "JKMN-PQRS".to_string(), 0);
    let ok = params(&[("decision", "allow"), ("pairing_code", "JKMN-PQRS"), ("client_id", &reg.client_id), ("state", "s1")]);
    assert!(!approval_incomplete_at(&oauth, &ok, 1_000));
}
