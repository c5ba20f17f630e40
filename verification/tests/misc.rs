use bridge_core::logbus::LogEvent;
use bridge_core::primitives::{b64url_encode, sha256};
use bridge_core::store::Params;
use bridge_core::text::{trim, urlencode};
use bridge_core::{api_key_from_bytes, gen_api_key};

#[test]
fn log_event_clock() {
    let e = LogEvent::at("INFO", "网关", "hello".to_string(), 0);
    assert_eq!(e.time, "08:00:00");
    assert_eq!(e.level, "INFO");
    assert_eq!(e.source, "网关");
    assert_eq!(e.message, "hello");
    assert_eq!(LogEvent::at("OK", "s", String::new(), 57_599).time, "23:59:59");
    assert_eq!(LogEvent::at("OK", "s", String::new(), 57_600).time, "00:00:00");
    assert_eq!(LogEvent::at("OK", "s", String::new(), u64::MAX).time.len(), 8);
    let now = LogEvent::new("WARN", "自检", "m".to_string());
    assert_eq!(now.time.len(), 8);
    assert_eq!(&now.time[2..3], ":");
}

#[test]
fn api_keys() {
    assert_eq!(
        api_key_from_bytes(&[0x00, 0x0f, 0xa0, 0xff]),
        "sk-mcp-000fa0ff"
    );
    let k = gen_api_key();
    assert_eq!(k.len(), 39);
    assert!(k.starts_with("sk-mcp-"));
    assert!(k[7..].chars().all(|c| c.is_ascii_digit() || ('a'..='f').contains(&c)));
    assert_ne!(gen_api_key(), k);
}

#[test]
fn url_encoding() {
    assert_eq!(urlencode("aZ09-_.~"), "aZ09-_.~");
    assert_eq!(urlencode("a b&c=d/é"), "a%20b%26c%3Dd%2F%C3%A9");
    assert_eq!(urlencode(""), "");
}

#[test]
fn trimming() {
    assert_eq!(trim("\t x y \r\n"), "x y");
    assert_eq!(trim("\u{3000}全角\u{3000}"), "全角");
    assert_eq!(trim("   "), "");
}

#[test]
fn pkce_challenge_vector() {
    let d = sha256(b"test-verifier-0123456789-0123456789-0123456789");
    assert_eq!(d.len(), 32);
    assert_eq!(b64url_encode(&d), "cr44KV5YSKLyleX1Lm_6fEu7NYZExuMmIJCfFloMT1o");
    assert_eq!(b64url_encode(&[0xfb, 0xff]), "-_8");
    assert_eq!(b64url_encode(&[]), "");
}

#[test]
fn params_replace_in_place() {
    let mut p = Params::new();
    p.set("a", "1");
    p.set("b", "2");
    p.set("a", "3");
    assert_eq!(p.len(), 2);
    assert_eq!(p.get_string("a"), Some("3".to_string()));
    assert_eq!(p.key_at(0), "a");
    assert!(p.contains("b"));
    assert_eq!(p.remove("b"), Some("2".to_string()));
    assert!(!p.contains("b"));
    assert_eq!(p.remove("b"), None);
}
