//! The decisions of the public gateway: who is let in, what each JSON-RPC method
//! gets, how long tool output may be, and the OAuth pages and redirects. The HTTP
//! server itself (routing, JSON bodies, sockets) stands around these functions.
use vstd::prelude::*;

use crate::oauth::{
    create_step, is_pairing_code, pairing_key, redirect_url, take_step,
    token_valid, approve_step, is_token, AuthModel, OAuthServer, Registration, register_step,
    authorize_check, grantable, rand_token, strip_scheme,
};
use crate::store::Params;
use crate::text::{
    fitting_prefix, fitting_prefix_len, lemma_fitting_prefix, chars_of, decimal, has_prefix, push_char, push_decimal, push_str, starts_with,
    str_eq, string_from_chars, to_owned_string,
};

verus! {

/// The consent page up to the hidden form fields.
pub const CONSENT_HEAD: &'static str = r###"<!DOCTYPE html><html lang="zh-CN"><head><meta charset="utf-8">
<meta name="viewport" content="width=device-width,initial-scale=1"><title>MCP Bridge · 授权</title>
<style>
*{margin:0;box-sizing:border-box}
body{min-height:100vh;overflow:hidden;font-family:-apple-system,"Helvetica Neue","PingFang SC",sans-serif;color:#0b0b10}
#gl{position:fixed;inset:0;width:100%;height:100%}
.noise{position:fixed;inset:0;background-image:radial-gradient(rgba(20,20,40,.13) 1px,transparent 1px);background-size:22px 22px;pointer-events:none}
/* ── 品牌 ── */
.brand{position:fixed;top:22px;left:26px;font:600 12px/1 ui-monospace,Menlo,monospace;letter-spacing:.22em;color:rgba(20,20,40,.55);z-index:3}
.brand b{color:#0b0b10}
/* ── 玻璃卡 ── */
.wrap{position:relative;z-index:2;min-height:100vh;display:flex;align-items:center;justify-content:center;padding:24px}
.card{width:470px;padding:36px 36px 24px;border-radius:22px;
background:rgba(255,255,255,.52);backdrop-filter:blur(26px) saturate(1.5);-webkit-backdrop-filter:blur(26px) saturate(1.5);
border:1px solid rgba(255,255,255,.75);box-shadow:0 24px 70px rgba(40,50,90,.16),inset 0 1px 0 rgba(255,255,255,.9);
animation:rise .55s cubic-bezier(.2,.9,.25,1.1) both}
@keyframes rise{from{opacity:0;transform:translateY(16px) scale(.97)}to{opacity:1;transform:none}}
.tag{font:600 11px/1 ui-monospace,Menlo,monospace;letter-spacing:.18em;color:#7a7f96;margin-bottom:14px}
h1{font-size:23px;font-weight:700;letter-spacing:-.3px;margin-bottom:8px}
.sub{font-size:13px;color:#5b6072;line-height:1.7;margin-bottom:20px}
/* ── 三点连线 ── */
.link{display:flex;align-items:center;justify-content:space-between;margin-bottom:22px;padding:0 4px}
.node{display:flex;flex-direction:column;align-items:center;gap:6px;font:500 10.5px/1 ui-monospace,Menlo,monospace;color:#7a7f96}
.node .ic{width:38px;height:38px;border-radius:12px;background:rgba(255,255,255,.85);border:1px solid rgba(255,255,255,.9);box-shadow:0 4px 14px rgba(40,50,90,.12);display:flex;align-items:center;justify-content:center;font-size:17px}
.wire{flex:1;height:2px;margin:0 8px 16px;background:repeating-linear-gradient(90deg,#b8bdd4 0 6px,transparent 6px 12px);position:relative;overflow:visible}
.wire::after{content:"";position:absolute;top:-3px;left:0;width:8px;height:8px;border-radius:50%;background:#0b0b10;animation:pulse 2.2s linear infinite}
@keyframes pulse{to{left:calc(100% - 8px)}}
/* ── 输入 ── */
input.code{width:100%;height:66px;border:1.5px solid rgba(20,20,50,.16);border-radius:14px;background:rgba(255,255,255,.65);
font:600 27px/1 ui-monospace,Menlo,monospace;letter-spacing:.16em;text-align:center;color:#0b0b10;outline:none;transition:.18s}
input.code:focus{border-color:#0b0b10;background:#fff;box-shadow:0 0 0 4px rgba(11,11,16,.07)}
input.code::placeholder{color:#b6bacb;letter-spacing:.14em}
.err{margin-top:10px;font-size:12px;color:#D70022;line-height:1.5;animation:rise .3s both}
.row{display:flex;gap:10px;margin-top:22px}
.btn{flex:1;height:44px;border-radius:12px;font-size:14px;font-weight:600;cursor:pointer;
border:1px solid rgba(20,20,50,.16);background:rgba(255,255,255,.6);color:#0b0b10;transition:.15s}
.btn:hover{background:rgba(255,255,255,.9)}
.btn.primary{background:#0b0b10;border-color:#0b0b10;color:#fff}
.btn.primary:hover{background:#26262e}
.btn.primary:disabled{opacity:.25;cursor:not-allowed}
.foot{margin-top:22px;padding-top:14px;border-top:1px solid rgba(20,20,40,.08);font:400 11px/1.7 ui-monospace,Menlo,monospace;color:#9aa0b5;text-align:center}
@media (prefers-reduced-motion:reduce){.wire::after,.card,.err{animation:none}}
</style></head><body>
<canvas id="gl"></canvas>
<div class="noise"></div>
<div class="brand">MCP<b>·</b>BRIDGE</div>
<div class="wrap"><div class="card">
  <div class="tag">AUTHORIZATION — STEP 01/02</div>
  <h1>输入授权码</h1>
  <div class="sub">桌面软件 MCP Bridge 已弹出授权窗口,将其中的 8 位配对码输入下方,即可完成 ChatGPT 与本机 IDE 的安全连接。</div>
  <div class="link">
    <div class="node"><div class="ic"><svg width="18" height="18" viewBox="0 0 24 24" fill="none" stroke="#0b0b10" stroke-width="1.8" stroke-linecap="round"><rect x="3" y="4" width="18" height="12" rx="2"/><path d="M8 20h8M12 16v4"/></svg></div>本机 IDE</div>
    <div class="wire"></div>
    <div class="node"><div class="ic"><svg width="18" height="18" viewBox="0 0 24 24" fill="none" stroke="#0b0b10" stroke-width="1.8" stroke-linecap="round"><path d="M3 17c3-4 6-6 9-6s6 2 9 6"/><path d="M3 17v3M21 17v3M12 11V5"/></svg></div>Bridge</div>
    <div class="wire"></div>
    <div class="node"><div class="ic"><svg width="18" height="18" viewBox="0 0 24 24" fill="none" stroke="#0b0b10" stroke-width="1.8" stroke-linejoin="round"><path d="M12 3l1.8 5.2L19 10l-5.2 1.8L12 17l-1.8-5.2L5 10l5.2-1.8z"/><path d="M19 15l.9 2.6L22.5 18.5l-2.6.9L19 22l-.9-2.6-2.6-.9 2.6-.9z"/></svg></div>ChatGPT</div>
  </div>
  <form method="post" action="/oauth/authorize" id="f">
    "###;

/// The consent page between the hidden fields and the error line.
pub const CONSENT_MID: &'static str = r###"
    <input class="code" id="code" name="pairing_code" placeholder="XXXX-XXXX" maxlength="9" autocomplete="off" autofocus>
    "###;

/// The consent page after the error line. The canvas `#gl` behind the card stays
/// blank: the page carries no animation script of its own.
pub const CONSENT_TAIL: &'static str = r###"
    <div class="row">
      <button type="submit" class="btn" name="decision" value="deny" formnovalidate>拒绝</button>
      <button type="submit" class="btn primary" id="ok" name="decision" value="allow" disabled>允许访问 IDE</button>
    </div>
  </form>
  <div class="foot">配对码 120 秒内有效 · 一次性 · 仅你本人发起的流程</div>
</div></div>
<script>
const i=document.getElementById('code'),ok=document.getElementById('ok');
i.addEventListener('input',()=>{
  let v=i.value.toUpperCase().replace(/[^A-Z0-9]/g,'').slice(0,8);
  i.value=v.length>4?v.slice(0,4)+'-'+v.slice(4):v;
  ok.disabled=v.length<8;
});
</script>
</body></html>"###;

/// The error page up to the message.
pub const ERROR_HEAD: &'static str = r###"<!DOCTYPE html><html lang="zh-CN"><head><meta charset="utf-8"><title>MCP Bridge · 授权</title>
<style>body{min-height:100vh;display:flex;align-items:center;justify-content:center;background:#fafafa;font-family:-apple-system,"PingFang SC",sans-serif;background-image:radial-gradient(#d4d4d4 1px,transparent 1px);background-size:22px 22px}
.card{width:400px;background:#fff;border:1px solid #e5e5e5;border-radius:16px;padding:30px;text-align:center}
h1{font-size:18px;margin-bottom:8px}p{font-size:13px;color:#6E6E73;line-height:1.6}</style></head>
<body><div class="card"><h1>授权请求无效</h1><p>"###;

/// The error page after the message.
pub const ERROR_TAIL: &'static str = r###"</p></div></body></html>"###;


/* ───────────── HTML ───────────── */

/// The HTML escape of one character (`&`, `<`, `>` and `"`).
pub open spec fn escape_char(c: char) -> Seq<char> {
    if c == '&' {
        seq!['&', 'a', 'm', 'p', ';']
    } else if c == '<' {
        seq!['&', 'l', 't', ';']
    } else if c == '>' {
        seq!['&', 'g', 't', ';']
    } else if c == '"' {
        seq!['&', 'q', 'u', 'o', 't', ';']
    } else {
        seq![c]
    }
}

/// `escape_char` applied to every character.
pub open spec fn html_escape_seq(s: Seq<char>) -> Seq<char>
    decreases s.len(),
{
    if s.len() == 0 {
        Seq::empty()
    } else {
        html_escape_seq(s.drop_last()) + escape_char(s.last())
    }
}

/// Escapes `&`, `<`, `>` and `"` for HTML.
pub fn html_escape(s: &str) -> (r: String)
    ensures
        r@ == html_escape_seq(s@),
{
    let cs = chars_of(s);
    let mut out = String::new();
    let mut i: usize = 0;
    while i < cs.len()
        invariant
            i <= cs@.len(),
            cs@ == s@,
            out@ == html_escape_seq(cs@.take(i as int)),
        decreases cs.len() - i,
    {
        let c = cs[i];
        let ghost before = out@;
        if c == '&' {
            push_char(&mut out, '&');
            push_char(&mut out, 'a');
            push_char(&mut out, 'm');
            push_char(&mut out, 'p');
            push_char(&mut out, ';');
        } else if c == '<' {
            push_char(&mut out, '&');
            push_char(&mut out, 'l');
            push_char(&mut out, 't');
            push_char(&mut out, ';');
        } else if c == '>' {
            push_char(&mut out, '&');
            push_char(&mut out, 'g');
            push_char(&mut out, 't');
            push_char(&mut out, ';');
        } else if c == '"' {
            push_char(&mut out, '&');
            push_char(&mut out, 'q');
            push_char(&mut out, 'u');
            push_char(&mut out, 'o');
            push_char(&mut out, 't');
            push_char(&mut out, ';');
        } else {
            push_char(&mut out, c);
        }
        proof {
            assert(out@ =~= before + escape_char(c));
            let t = cs@.take(i + 1);
            assert(t.drop_last() =~= cs@.take(i as int));
            assert(t.last() == c);
        }
        i = i + 1;
    }
    proof {
        assert(cs@.take(cs@.len() as int) =~= cs@);
    }
    out
}

/// The escaped text never holds a raw `<`, `>` or `"`.
pub proof fn law_html_escape_no_markup(s: Seq<char>)
    ensures
        forall|i: int|
            0 <= i < html_escape_seq(s).len() ==> #[trigger] html_escape_seq(s)[i] != '<'
                && html_escape_seq(s)[i] != '>' && html_escape_seq(s)[i] != '"',
    decreases s.len(),
{
    if s.len() > 0 {
        let prev = html_escape_seq(s.drop_last());
        let tail = escape_char(s.last());
        law_html_escape_no_markup(s.drop_last());
        assert forall|i: int|
            0 <= i < html_escape_seq(s).len() implies #[trigger] html_escape_seq(s)[i] != '<'
            && html_escape_seq(s)[i] != '>' && html_escape_seq(s)[i] != '"' by {
            if i < prev.len() {
                assert(html_escape_seq(s)[i] == prev[i]);
            } else {
                assert(html_escape_seq(s)[i] == tail[i - prev.len()]);
            }
        }
    }
}

/// How many times `c` occurs in `s`.
pub open spec fn count_char(s: Seq<char>, c: char) -> nat
    decreases s.len(),
{
    if s.len() == 0 {
        0
    } else {
        count_char(s.drop_last(), c) + if s.last() == c {
            1nat
        } else {
            0nat
        }
    }
}

/// Occurrences add up over a concatenation.
pub proof fn lemma_count_char_concat(a: Seq<char>, b: Seq<char>, c: char)
    ensures
        count_char(a + b, c) == count_char(a, c) + count_char(b, c),
    decreases b.len(),
{
    if b.len() > 0 {
        assert((a + b).drop_last() =~= a + b.drop_last());
        lemma_count_char_concat(a, b.drop_last(), c);
    } else {
        assert(a + b =~= a);
    }
}

/// A sequence without `c` has no occurrence of it.
pub proof fn lemma_count_char_absent(s: Seq<char>, c: char)
    requires
        forall|i: int| 0 <= i < s.len() ==> s[i] != c,
    ensures
        count_char(s, c) == 0,
    decreases s.len(),
{
    if s.len() > 0 {
        lemma_count_char_absent(s.drop_last(), c);
    }
}

/// The message adds no markup to the error page: every error page has the same
/// number of `<`, and the escaped message is followed by the closing `</p>`.
pub proof fn law_error_page_markup(m1: Seq<char>, m2: Seq<char>)
    ensures
        count_char(error_page(m1), '<') == count_char(error_page(m2), '<'),
        has_prefix(ERROR_TAIL@, "</p>"@),
        error_page(m1) == ERROR_HEAD@ + html_escape_seq(m1) + ERROR_TAIL@,
{
    law_html_escape_no_markup(m1);
    law_html_escape_no_markup(m2);
    lemma_count_char_absent(html_escape_seq(m1), '<');
    lemma_count_char_absent(html_escape_seq(m2), '<');
    lemma_count_char_concat(ERROR_HEAD@, html_escape_seq(m1), '<');
    lemma_count_char_concat(ERROR_HEAD@ + html_escape_seq(m1), ERROR_TAIL@, '<');
    lemma_count_char_concat(ERROR_HEAD@, html_escape_seq(m2), '<');
    lemma_count_char_concat(ERROR_HEAD@ + html_escape_seq(m2), ERROR_TAIL@, '<');
    reveal_strlit("</p>");
    reveal_strlit("</p></div></body></html>");
    assert(ERROR_TAIL@.take(4) =~= "</p>"@);
}

/// One hidden form field carrying a request parameter.
pub open spec fn hidden_input(k: Seq<char>, v: Seq<char>) -> Seq<char> {
    "<input type='hidden' name='"@ + html_escape_seq(k) + "' value='"@ + html_escape_seq(v)
        + "'>"@
}

/// Hidden fields for the first `n` parameters, in order.
pub open spec fn hidden_seq(keys: Seq<Seq<char>>, vals: Seq<Seq<char>>, n: int) -> Seq<char>
    decreases n,
{
    if n <= 0 {
        Seq::empty()
    } else {
        hidden_seq(keys, vals, n - 1) + hidden_input(keys[n - 1], vals[n - 1])
    }
}

/// Hidden fields for all parameters of `q`, in iteration order.
pub open spec fn hidden_inputs_seq(q: &Params) -> Seq<char> {
    hidden_seq(q.key_seq(), crate::oauth::string_views(q.val_seq()), q.key_seq().len() as int)
}

/// One hidden form field per request parameter, so that the consent form posts the
/// authorization request back.
pub fn hidden_inputs(q: &Params) -> (r: String)
    ensures
        r@ == hidden_inputs_seq(q),
{
    let n = q.len();
    let mut out = String::new();
    let mut i: usize = 0;
    while i < n
        invariant
            i <= n,
            n == q.key_seq().len(),
            n == q.val_seq().len(),
            out@ == hidden_seq(q.key_seq(), crate::oauth::string_views(q.val_seq()), i as int),
        decreases n - i,
    {
        let k = q.key_at(i);
        let v = q.val_at(i);
        push_str(&mut out, "<input type='hidden' name='");
        let ek = html_escape(k.as_str());
        push_str(&mut out, ek.as_str());
        push_str(&mut out, "' value='");
        let ev = html_escape(v.as_str());
        push_str(&mut out, ev.as_str());
        push_str(&mut out, "'>");
        proof {
            assert(crate::oauth::string_views(q.val_seq())[i as int] == v@);
        }
        i = i + 1;
    }
    out
}

/// The error line of the consent page.
pub open spec fn error_line(error: Option<Seq<char>>) -> Seq<char> {
    match error {
        Some(e) => "<div class=\"err\">"@ + html_escape_seq(e) + "</div>"@,
        None => Seq::empty(),
    }
}

/// The view of an optional string slice.
pub open spec fn opt_str_view(o: Option<&str>) -> Option<Seq<char>> {
    match o {
        Some(s) => Some(s@),
        None => None,
    }
}

/// The consent page for request `q`, with an optional error line.
pub open spec fn consent_page(q: &Params, error: Option<Seq<char>>) -> Seq<char> {
    CONSENT_HEAD@ + hidden_inputs_seq(q) + CONSENT_MID@ + error_line(error) + CONSENT_TAIL@
}

/// The pairing page: the request travels in hidden fields, the user types the
/// `XXXX-XXXX` code shown by the desktop app.
pub fn render_consent(q: &Params, error: Option<&str>) -> (r: String)
    ensures
        r@ == consent_page(q, opt_str_view(error)),
{
    let mut out = to_owned_string(CONSENT_HEAD);
    let hidden = hidden_inputs(q);
    push_str(&mut out, hidden.as_str());
    push_str(&mut out, CONSENT_MID);
    match error {
        Some(e) => {
            push_str(&mut out, "<div class=\"err\">");
            let ee = html_escape(e);
            push_str(&mut out, ee.as_str());
            push_str(&mut out, "</div>");
        },
        None => {},
    }
    push_str(&mut out, CONSENT_TAIL);
    proof {
        assert(out@ =~= consent_page(q, opt_str_view(error)));
    }
    out
}

/// The page shown for an invalid authorization request.
pub open spec fn error_page(msg: Seq<char>) -> Seq<char> {
    ERROR_HEAD@ + html_escape_seq(msg) + ERROR_TAIL@
}

/// Renders the invalid-request page around an escaped message.
pub fn render_error(msg: &str) -> (r: String)
    ensures
        r@ == error_page(msg@),
{
    let mut out = to_owned_string(ERROR_HEAD);
    let m = html_escape(msg);
    push_str(&mut out, m.as_str());
    push_str(&mut out, ERROR_TAIL);
    out
}

} // verus!

verus! {

/* ───────────── who is let in ───────────── */

/// The public origin the request came through: `https://` and its `Host` header,
/// or `https://127.0.0.1` when there is none.
pub open spec fn public_base_spec(host: Option<Seq<char>>) -> Seq<char> {
    match host {
        Some(h) => "https://"@ + h,
        None => "https://"@ + "127.0.0.1"@,
    }
}

/// `https://` followed by the `Host` header (or `127.0.0.1`).
pub fn public_base(host: Option<&str>) -> (r: String)
    ensures
        r@ == public_base_spec(opt_str_view(host)),
{
    let mut out = to_owned_string("https://");
    match host {
        Some(h) => push_str(&mut out, h),
        None => push_str(&mut out, "127.0.0.1"),
    }
    out
}

/// The `WWW-Authenticate` challenge of a 401 (RFC 9728): it points the client to the
/// protected-resource metadata under `base`.
pub open spec fn www_authenticate_spec(base: Seq<char>) -> Seq<char> {
    "Bearer resource_metadata=\""@ + base + "/.well-known/oauth-protected-resource\""@
}

/// Builds the `WWW-Authenticate` header value sent with a 401.
pub fn www_authenticate(base: &str) -> (r: String)
    ensures
        r@ == www_authenticate_spec(base@),
{
    let mut out = to_owned_string("Bearer resource_metadata=\"");
    push_str(&mut out, base);
    push_str(&mut out, "/.well-known/oauth-protected-resource\"");
    out
}

/// The token of an `Authorization: Bearer <token>` header.
pub open spec fn bearer_spec(authorization: Option<Seq<char>>) -> Option<Seq<char>> {
    match authorization {
        Some(h) => if has_prefix(h, "Bearer "@) {
            Some(h.skip(7))
        } else {
            None
        },
        None => None,
    }
}

/// Extracts the bearer token from the `Authorization` header.
pub fn bearer_token(authorization: Option<&str>) -> (r: Option<String>)
    ensures
        opt_str_view_owned(r) == bearer_spec(opt_str_view(authorization)),
{
    proof {
        reveal_strlit("Bearer ");
    }
    match authorization {
        Some(h) => {
            if starts_with(h, "Bearer ") {
                let n = h.unicode_len();
                Some(to_owned_string(h.substring_char(7, n)))
            } else {
                None
            }
        },
        None => None,
    }
}

/// The view of an optional owned string.
pub open spec fn opt_str_view_owned(o: Option<String>) -> Option<Seq<char>> {
    match o {
        Some(s) => Some(s@),
        None => None,
    }
}

/// The audiences a token may be bound to: the origin and the origin's `/mcp`.
pub open spec fn accepted_audiences(base: Seq<char>) -> Seq<Seq<char>> {
    seq![base, base + "/mcp"@]
}

/// The gateway's admission rule at clock reading `now`: everything when running
/// without authentication, otherwise a live bearer token bound to this origin.
pub open spec fn admitted(
    m: AuthModel,
    allow_noauth: bool,
    host: Option<Seq<char>>,
    authorization: Option<Seq<char>>,
    now: u64,
) -> bool {
    allow_noauth || match bearer_spec(authorization) {
        Some(t) => token_valid(m, t, accepted_audiences(public_base_spec(host)), now),
        None => false,
    }
}

/// Whether a request is let in, at clock reading `now`.
pub fn authorized_at(
    oauth: &OAuthServer,
    allow_noauth: bool,
    host: Option<&str>,
    authorization: Option<&str>,
    now: u64,
) -> (r: bool)
    ensures
        r == admitted(oauth@, allow_noauth, opt_str_view(host), opt_str_view(authorization), now),
{
    if allow_noauth {
        return true;
    }
    let token = match bearer_token(authorization) {
        Some(t) => t,
        None => {
            return false;
        },
    };
    let base = public_base(host);
    let mut with_mcp = base.clone();
    push_str(&mut with_mcp, "/mcp");
    let accepted = vec![base, with_mcp];
    let r = oauth.verify_at(token.as_str(), accepted.as_slice(), now);
    proof {
        assert(crate::oauth::string_views(accepted@) =~= accepted_audiences(
            public_base_spec(opt_str_view(host)),
        ));
    }
    r
}

/// Whether a request is let in: always when running without authentication,
/// otherwise when it carries a live bearer token bound to this origin.
pub fn authorized(
    oauth: &OAuthServer,
    allow_noauth: bool,
    host: Option<&str>,
    authorization: Option<&str>,
) -> (r: bool)
    ensures
        exists|now: u64|
            r == #[trigger] admitted(
                oauth@,
                allow_noauth,
                opt_str_view(host),
                opt_str_view(authorization),
                now,
            ),
{
    let now = oauth.now_ms();
    authorized_at(oauth, allow_noauth, host, authorization, now)
}

/// A request without a bearer token is refused unless the gateway runs without
/// authentication.
pub proof fn law_no_token_no_entry(
    m: AuthModel,
    host: Option<Seq<char>>,
    authorization: Option<Seq<char>>,
    now: u64,
)
    requires
        bearer_spec(authorization) is None,
    ensures
        !admitted(m, false, host, authorization, now),
        admitted(m, true, host, authorization, now),
{
}

/* ───────────── JSON-RPC ───────────── */

/// MCP protocol version the gateway answers `initialize` with.
pub const PROTOCOL_VERSION: &'static str = "2025-03-26";

/// Server name the gateway answers `initialize` with.
pub const GATEWAY_NAME: &'static str = "MCP Bridge (JetBrains)";

/// JSON-RPC error code for an unknown method.
pub const METHOD_NOT_FOUND: i64 = -32601;

/// JSON-RPC error code for an upstream failure.
pub const INTERNAL_ERROR: i64 = -32603;

/// JSON-RPC error code sent with a 401.
pub const UNAUTHORIZED: i64 = -32001;

/// How the gateway handles a JSON-RPC method.
#[derive(Clone, Copy, Debug, PartialEq, Eq, Structural)]
pub enum RpcMethod {
    /// Answered locally with the gateway's own capabilities.
    Initialize,
    /// `notifications/...`: accepted with 202 and no body.
    Notification,
    /// Answered locally with an empty result.
    Ping,
    /// Answered from the cached tool list.
    ToolsList,
    /// Forwarded upstream; the output is truncated.
    ToolsCall,
    /// Answered with `method not found`.
    Unknown,
}

/// A result that the gateway gives itself, without the upstream.
pub enum LocalResult {
    /// `initialize`: the protocol version, `capabilities.tools.listChanged`, and
    /// the gateway's name in `serverInfo`.
    Initialize { protocol_version: &'static str, tools_list_changed: bool, server_name: &'static str },
    /// `ping`: an empty result object.
    Empty,
}

/// The result answered locally for a method: `initialize` gets protocol
/// `2025-03-26`, tools whose list does not change, and the gateway's name;
/// `ping` gets an empty result; every other method is not answered locally.
pub fn local_result(m: RpcMethod) -> (r: Option<LocalResult>)
    ensures
        m == RpcMethod::Initialize ==> (r matches Some(
            LocalResult::Initialize { protocol_version, tools_list_changed, server_name },
        ) && protocol_version@ == PROTOCOL_VERSION@ && !tools_list_changed && server_name@
            == GATEWAY_NAME@),
        m == RpcMethod::Ping ==> r matches Some(LocalResult::Empty),
        m != RpcMethod::Initialize && m != RpcMethod::Ping ==> r is None,
{
    match m {
        RpcMethod::Initialize => Some(
            LocalResult::Initialize {
                protocol_version: PROTOCOL_VERSION,
                tools_list_changed: false,
                server_name: GATEWAY_NAME,
            },
        ),
        RpcMethod::Ping => Some(LocalResult::Empty),
        _ => None,
    }
}

/// The handling of each method name.
pub open spec fn rpc_method_of(method: Seq<char>) -> RpcMethod {
    if method == "initialize"@ {
        RpcMethod::Initialize
    } else if has_prefix(method, "notifications/"@) {
        RpcMethod::Notification
    } else if method == "ping"@ {
        RpcMethod::Ping
    } else if method == "tools/list"@ {
        RpcMethod::ToolsList
    } else if method == "tools/call"@ {
        RpcMethod::ToolsCall
    } else {
        RpcMethod::Unknown
    }
}

/// Classifies a JSON-RPC method name (a missing name is the empty string).
pub fn classify_rpc(method: &str) -> (r: RpcMethod)
    ensures
        r == rpc_method_of(method@),
{
    if str_eq(method, "initialize") {
        RpcMethod::Initialize
    } else if starts_with(method, "notifications/") {
        RpcMethod::Notification
    } else if str_eq(method, "ping") {
        RpcMethod::Ping
    } else if str_eq(method, "tools/list") {
        RpcMethod::ToolsList
    } else if str_eq(method, "tools/call") {
        RpcMethod::ToolsCall
    } else {
        RpcMethod::Unknown
    }
}

/// The HTTP status of the answer: 202 for notifications, 200 otherwise.
pub fn rpc_status(m: RpcMethod) -> (r: u16)
    ensures
        r == (if m == RpcMethod::Notification {
            202u16
        } else {
            200u16
        }),
{
    match m {
        RpcMethod::Notification => 202,
        _ => 200,
    }
}

/// `method not found: <method>`.
pub fn method_not_found_message(method: &str) -> (r: String)
    ensures
        r@ == "method not found: "@ + method@,
{
    let mut out = to_owned_string("method not found: ");
    push_str(&mut out, method);
    out
}

/* ───────────── output truncation ───────────── */

/// Tool output longer than this many UTF-8 bytes is cut.
pub const MAX_OUTPUT_BYTES: usize = 8192;

/// The note appended to cut output; `kb` is the original size in whole KiB.
pub open spec fn truncation_note(kb: nat) -> Seq<char> {
    "\n\n… [MCP Bridge] 输出过长已截断(原 "@ + decimal(kb) + " KB),请缩小范围或分页"@
}

/// The replacement of a tool output text: `None` when its UTF-8 size is within
/// the limit, else its longest prefix of at most 8192 UTF-8 bytes (whole
/// characters only) and the note.
pub open spec fn truncated_text(text: Seq<char>) -> Option<Seq<char>> {
    let bytes = vstd::utf8::encode_utf8(text).len();
    if bytes > MAX_OUTPUT_BYTES {
        Some(fitting_prefix(text, MAX_OUTPUT_BYTES as int) + truncation_note(bytes / 1024))
    } else {
        None
    }
}

/// Cuts an over-long tool output text (see [`truncated_text`]).
pub fn truncate_text(text: &str) -> (r: Option<String>)
    requires
        vstd::utf8::encode_utf8(text@).len() <= usize::MAX,
    ensures
        opt_str_view_owned(r) == truncated_text(text@),
{
    let bytes = text.len();
    if bytes > MAX_OUTPUT_BYTES {
        let cs = chars_of(text);
        let keep = fitting_prefix_len(&cs, MAX_OUTPUT_BYTES);
        let mut out = string_from_chars(&cs, 0, keep);
        push_str(&mut out, "\n\n… [MCP Bridge] 输出过长已截断(原 ");
        push_decimal(&mut out, (bytes / 1024) as u64);
        push_str(&mut out, " KB),请缩小范围或分页");
        proof {
            assert(cs@.subrange(0, keep as int) =~= cs@.take(keep as int));
            assert(bytes == vstd::utf8::encode_utf8(text@).len());
            assert(out@ =~= fitting_prefix(text@, MAX_OUTPUT_BYTES as int) + truncation_note(
                (bytes / 1024) as nat,
            ));
        }
        Some(out)
    } else {
        None
    }
}

/// The replacement of each text item of a tool result (`None` for an item
/// without text or within the limit).
pub open spec fn truncated_items(texts: Seq<Option<Seq<char>>>) -> Seq<Option<Seq<char>>> {
    texts.map_values(|t: Option<Seq<char>>| match t {
        Some(x) => truncated_text(x),
        None => None,
    })
}

/// Cuts each over-long text among the content items of a tool result, in order.
pub fn truncate_texts(texts: &Vec<Option<String>>) -> (r: Vec<Option<String>>)
    requires
        forall|i: int|
            0 <= i < texts@.len() ==> (#[trigger] texts@[i] matches Some(t)
                ==> vstd::utf8::encode_utf8(t@).len() <= usize::MAX),
    ensures
        r@.map_values(|o: Option<String>| opt_str_view_owned(o)) == truncated_items(
            texts@.map_values(|o: Option<String>| opt_str_view_owned(o)),
        ),
{
    let ghost tv = texts@.map_values(|o: Option<String>| opt_str_view_owned(o));
    let mut out: Vec<Option<String>> = Vec::new();
    let mut i: usize = 0;
    while i < texts.len()
        invariant
            i <= texts@.len(),
            tv == texts@.map_values(|o: Option<String>| opt_str_view_owned(o)),
            forall|j: int|
                0 <= j < texts@.len() ==> (#[trigger] texts@[j] matches Some(t)
                    ==> vstd::utf8::encode_utf8(t@).len() <= usize::MAX),
            out@.map_values(|o: Option<String>| opt_str_view_owned(o)) == truncated_items(tv.take(i as int)),
        decreases texts.len() - i,
    {
        let cut = match &texts[i] {
            Some(t) => truncate_text(t.as_str()),
            None => None,
        };
        let ghost prev = out@;
        out.push(cut);
        proof {
            assert(tv.take(i + 1) =~= tv.take(i as int).push(tv[i as int]));
            assert(out@ =~= prev.push(cut));
            assert(out@.map_values(|o: Option<String>| opt_str_view_owned(o)) =~= prev.map_values(
                |o: Option<String>| opt_str_view_owned(o),
            ).push(opt_str_view_owned(cut)));
            assert(truncated_items(tv.take(i + 1)) =~= truncated_items(tv.take(i as int)).push(
                truncated_items(tv.take(i + 1))[i as int],
            ));
        }
        i = i + 1;
    }
    proof {
        assert(tv.take(i as int) =~= tv);
    }
    out
}

/// Cut output keeps a prefix of the text of at most 8192 UTF-8 bytes that one
/// more character would overflow, and the note follows it.
pub proof fn law_truncation_keeps_byte_prefix(text: Seq<char>)
    requires
        vstd::utf8::encode_utf8(text).len() > MAX_OUTPUT_BYTES,
    ensures
        ({
            let kept = fitting_prefix(text, MAX_OUTPUT_BYTES as int);
            &&& truncated_text(text) == Some(kept + truncation_note(vstd::utf8::encode_utf8(text).len() / 1024))
            &&& kept == text.take(kept.len() as int)
            &&& vstd::utf8::encode_utf8(kept).len() <= MAX_OUTPUT_BYTES
            &&& kept.len() < text.len()
            &&& vstd::utf8::encode_utf8(text.take(kept.len() as int + 1)).len() > MAX_OUTPUT_BYTES
        }),
{
    let kept = fitting_prefix(text, MAX_OUTPUT_BYTES as int);
    lemma_fitting_prefix(text, MAX_OUTPUT_BYTES as int);
    if kept.len() == text.len() {
        assert(text.take(text.len() as int) =~= text);
    }
}

/* ───────────── OAuth endpoints ───────────── */

/// RFC 9728 protected-resource metadata.
pub struct ResourceMetadata {
    pub resource: String,
    pub authorization_servers: Vec<String>,
    pub scopes_supported: Vec<String>,
}

/// The protected-resource metadata of origin `base`: the resource and its
/// authorization server are both `base`, the scope is `mcp`.
pub fn protected_resource(base: &str) -> (r: ResourceMetadata)
    ensures
        r.resource@ == base@,
        crate::oauth::string_views(r.authorization_servers@) == seq![base@],
        crate::oauth::string_views(r.scopes_supported@) == seq!["mcp"@],
{
    let r = ResourceMetadata {
        resource: to_owned_string(base),
        authorization_servers: vec![to_owned_string(base)],
        scopes_supported: vec![to_owned_string("mcp")],
    };
    proof {
        assert(crate::oauth::string_views(r.authorization_servers@) =~= seq![base@]);
        assert(crate::oauth::string_views(r.scopes_supported@) =~= seq!["mcp"@]);
    }
    r
}

/// RFC 8414 authorization-server metadata.
pub struct ServerMetadata {
    pub issuer: String,
    pub authorization_endpoint: String,
    pub token_endpoint: String,
    pub registration_endpoint: String,
    pub grant_types_supported: Vec<String>,
    pub response_types_supported: Vec<String>,
    pub token_endpoint_auth_methods_supported: Vec<String>,
    pub code_challenge_methods_supported: Vec<String>,
    pub scopes_supported: Vec<String>,
    pub authorization_response_iss_parameter_supported: bool,
}

fn joined(base: &str, path: &str) -> (r: String)
    ensures
        r@ == base@ + path@,
{
    let mut out = to_owned_string(base);
    push_str(&mut out, path);
    out
}

/// The authorization-server metadata of origin `base`: endpoints under `base`,
/// code and refresh grants, public clients, PKCE S256 only, scope `mcp`, and `iss`
/// in authorization responses.
pub fn as_metadata(base: &str) -> (r: ServerMetadata)
    ensures
        r.issuer@ == base@,
        r.authorization_endpoint@ == base@ + "/oauth/authorize"@,
        r.token_endpoint@ == base@ + "/oauth/token"@,
        r.registration_endpoint@ == base@ + "/oauth/register"@,
        crate::oauth::string_views(r.grant_types_supported@) == seq![
            "authorization_code"@,
            "refresh_token"@,
        ],
        crate::oauth::string_views(r.response_types_supported@) == seq!["code"@],
        crate::oauth::string_views(r.token_endpoint_auth_methods_supported@) == seq!["none"@],
        crate::oauth::string_views(r.code_challenge_methods_supported@) == seq!["S256"@],
        crate::oauth::string_views(r.scopes_supported@) == seq!["mcp"@],
        r.authorization_response_iss_parameter_supported,
{
    let r = ServerMetadata {
        issuer: to_owned_string(base),
        authorization_endpoint: joined(base, "/oauth/authorize"),
        token_endpoint: joined(base, "/oauth/token"),
        registration_endpoint: joined(base, "/oauth/register"),
        grant_types_supported: vec![
            to_owned_string("authorization_code"),
            to_owned_string("refresh_token"),
        ],
        response_types_supported: vec![to_owned_string("code")],
        token_endpoint_auth_methods_supported: vec![to_owned_string("none")],
        code_challenge_methods_supported: vec![to_owned_string("S256")],
        scopes_supported: vec![to_owned_string("mcp")],
        authorization_response_iss_parameter_supported: true,
    };
    proof {
        assert(crate::oauth::string_views(r.grant_types_supported@) =~= seq![
            "authorization_code"@,
            "refresh_token"@,
        ]);
        assert(crate::oauth::string_views(r.response_types_supported@) =~= seq!["code"@]);
        assert(crate::oauth::string_views(r.token_endpoint_auth_methods_supported@) =~= seq![
            "none"@,
        ]);
        assert(crate::oauth::string_views(r.code_challenge_methods_supported@) =~= seq!["S256"@]);
        assert(crate::oauth::string_views(r.scopes_supported@) =~= seq!["mcp"@]);
    }
    r
}

/// Dynamic client registration: refused (`None`, answered 400
/// `invalid_client_metadata`) without redirect URIs, otherwise registered.
pub fn register_client(oauth: &mut OAuthServer, redirect_uris: Vec<String>) -> (r: Option<
    Registration,
>)
    ensures
        redirect_uris@.len() == 0 <==> r is None,
        r is None ==> final(oauth)@ == old(oauth)@,
        r matches Some(reg) ==> final(oauth)@ == register_step(
            old(oauth)@,
            reg.client_id@,
            redirect_uris@,
        ) && is_token(reg.client_id@, "mcpb_client"@) && reg.redirect_uris@ == redirect_uris@
            && crate::oauth::registration_constants(reg),
{
    if redirect_uris.len() == 0 {
        None
    } else {
        Some(oauth.register(redirect_uris))
    }
}

} // verus!

verus! {

/// The answer to `GET /oauth/authorize`.
pub enum AuthorizePage {
    /// The request is invalid: `message` says why, `html` is the error page.
    Rejected { message: String, html: String },
    /// The request is valid and waits for `pairing_code` (to be shown by the
    /// desktop app); `html` is the consent page.
    Consent { pairing_code: String, html: String },
}

/// Validates an authorization request; a valid one is registered for pairing and
/// answered with the consent page, an invalid one with the error page.
pub fn authorize_get(oauth: &mut OAuthServer, q: Params) -> (r: AuthorizePage)
    ensures
        authorize_check(old(oauth)@, q.view_map()) is Err <==> r is Rejected,
        r matches AuthorizePage::Rejected { message, html } ==> {
            &&& authorize_check(old(oauth)@, q.view_map()) == Err::<(), Seq<char>>(message@)
            &&& html@ == error_page(message@)
            &&& final(oauth)@ == old(oauth)@
        },
        r matches AuthorizePage::Consent { pairing_code, html } ==> {
            &&& is_pairing_code(pairing_code@)
            &&& html@ == consent_page(&q, None)
            &&& exists|now: u64|
                final(oauth)@ == #[trigger] create_step(
                    old(oauth)@,
                    q.view_map(),
                    pairing_code@,
                    now,
                )
        },
{
    match oauth.check_authorize(&q) {
        Err(message) => {
            let html = render_error(message.as_str());
            AuthorizePage::Rejected { message, html }
        },
        Ok(checked) => {
            let html = render_consent(&checked, None);
            let pairing_code = oauth.create_pending(checked);
            AuthorizePage::Consent { pairing_code, html }
        },
    }
}

/// The answer to `POST /oauth/authorize`.
pub enum AuthorizeOutcome {
    /// The user denied: redirect with `error=access_denied`.
    Denied(String),
    /// The pairing code matched the same request: redirect with a fresh code.
    Approved(String),
    /// The pairing code matched a request for another client or state: error page.
    Mismatch(String),
    /// The pairing code was wrong or had expired: the consent page again, with a note.
    BadCode(String),
}

/// The model of an [`AuthorizeOutcome`].
pub enum OutcomeModel {
    Denied(Seq<char>),
    Approved(Seq<char>),
    Mismatch(Seq<char>),
    BadCode(Seq<char>),
}

impl View for AuthorizeOutcome {
    type V = OutcomeModel;

    open spec fn view(&self) -> OutcomeModel {
        match self {
            AuthorizeOutcome::Denied(s) => OutcomeModel::Denied(s@),
            AuthorizeOutcome::Approved(s) => OutcomeModel::Approved(s@),
            AuthorizeOutcome::Mismatch(s) => OutcomeModel::Mismatch(s@),
            AuthorizeOutcome::BadCode(s) => OutcomeModel::BadCode(s@),
        }
    }
}

/// The value of `k`, if present.
pub open spec fn param_opt(q: Map<Seq<char>, Seq<char>>, k: Seq<char>) -> Option<Seq<char>> {
    if q.contains_key(k) {
        Some(q[k])
    } else {
        None
    }
}

/// The posted form belongs to the pending request: same `client_id`, same `state`.
pub open spec fn same_request(form: Map<Seq<char>, Seq<char>>, q: Map<Seq<char>, Seq<char>>) -> bool {
    param_opt(form, "client_id"@) == param_opt(q, "client_id"@) && param_opt(form, "state"@)
        == param_opt(q, "state"@)
}

/// The typed pairing code (empty when the field is missing).
pub open spec fn posted_code(form: Map<Seq<char>, Seq<char>>) -> Seq<char> {
    if form.contains_key("pairing_code"@) {
        form["pairing_code"@]
    } else {
        Seq::empty()
    }
}

/// The note shown when the typed pairing code is wrong or expired.
pub const BAD_CODE_NOTE: &'static str = "授权码错误或已过期,请核对软件弹窗中的最新配对码";

/// The message shown when the posted form differs from the pending request.
pub const MISMATCH_NOTE: &'static str = "授权参数不一致,请重新发起";

fn opt_string_eq(a: &Option<String>, b: &Option<String>) -> (r: bool)
    ensures
        r == (opt_str_view_owned(*a) == opt_str_view_owned(*b)),
{
    match (a, b) {
        (Some(x), Some(y)) => *x == *y,
        (None, None) => true,
        _ => false,
    }
}

/// The outcome of the consent form at clock reading `now`, with `code` as the
/// authorization code that an approval issues.
pub open spec fn authorize_post_spec(
    m: AuthModel,
    form: &Params,
    base: Seq<char>,
    now: u64,
    code: Seq<char>,
) -> (AuthModel, OutcomeModel) {
    let f = form.view_map();
    let key = pairing_key(posted_code(f));
    if crate::oauth::param_is(f, "decision"@, "deny"@) {
        (
            AuthModel { pending: m.pending.remove(key), ..m },
            OutcomeModel::Denied(redirect_url(f, "error"@, "access_denied"@, "iss"@, base)),
        )
    } else {
        let (m1, taken) = take_step(m, key, now);
        match taken {
            None => (m1, OutcomeModel::BadCode(consent_page(form, Some(BAD_CODE_NOTE@)))),
            Some(p) => if same_request(f, p.query) {
                (
                    approve_step(m1, p.query, code, now),
                    OutcomeModel::Approved(redirect_url(p.query, "code"@, code, "iss"@, base)),
                )
            } else {
                (m1, OutcomeModel::Mismatch(error_page(MISMATCH_NOTE@)))
            },
        }
    }
}

/// Handling the form at `now` would approve a pending request that lacks
/// `client_id`, `redirect_uri` or `code_challenge`, which approval needs.
pub open spec fn approval_incomplete(m: AuthModel, f: Map<Seq<char>, Seq<char>>, now: u64) -> bool {
    &&& !crate::oauth::param_is(f, "decision"@, "deny"@)
    &&& match take_step(m, pairing_key(posted_code(f)), now).1 {
        Some(p) => same_request(f, p.query) && !grantable(p.query),
        None => false,
    }
}

/// Whether handling the form at `now` would approve an incomplete request (see
/// [`approval_incomplete`]); the server is left unchanged.
pub fn approval_incomplete_at(oauth: &OAuthServer, form: &Params, now: u64) -> (r: bool)
    ensures
        r == approval_incomplete(oauth@, form.view_map(), now),
{
    let ghost f = form.view_map();
    let is_deny = match form.get_string("decision") {
        Some(d) => str_eq(d.as_str(), "deny"),
        None => false,
    };
    if is_deny {
        return false;
    }
    let typed = match form.get_string("pairing_code") {
        Some(c) => c,
        None => String::new(),
    };
    proof {
        assert(typed@ == posted_code(f));
    }
    match oauth.pending_query_at(typed.as_str(), now) {
        Some(q) => {
            let same = opt_string_eq(&form.get_string("client_id"), &q.get_string("client_id"))
                && opt_string_eq(&form.get_string("state"), &q.get_string("state"));
            same && !(q.contains("client_id") && q.contains("redirect_uri") && q.contains(
                "code_challenge",
            ))
        },
        None => false,
    }
}

/// Handles the consent form at clock reading `now`; an approval issues `code`.
/// "deny" drops the pairing request and redirects with `access_denied`. Otherwise
/// the typed code must take out a live pending request for the same client and
/// state; that request is approved and redirected with `code`. A wrong or expired
/// pairing code gets the consent page again; a request for another client or
/// state gets the error page.
pub fn authorize_post_at(
    oauth: &mut OAuthServer,
    form: &Params,
    base: &str,
    now: u64,
    code: String,
) -> (r: AuthorizeOutcome)
    requires
        crate::oauth::param_is(form.view_map(), "decision"@, "deny"@) ==> form.view_map().contains_key(
            "redirect_uri"@,
        ),
        !approval_incomplete(old(oauth)@, form.view_map(), now),
    ensures
        (final(oauth)@, r@) == authorize_post_spec(old(oauth)@, form, base@, now, code@),
{
    let ghost f = form.view_map();
    let typed = match form.get_string("pairing_code") {
        Some(c) => c,
        None => String::new(),
    };
    proof {
        assert(typed@ == posted_code(f));
    }
    let is_deny = match form.get_string("decision") {
        Some(d) => str_eq(d.as_str(), "deny"),
        None => false,
    };
    if is_deny {
        oauth.drop_pending(typed.as_str());
        let url = oauth.deny(form, base);
        return AuthorizeOutcome::Denied(url);
    }
    let ghost m0 = oauth@;
    let taken = oauth.take_pending_at(typed.as_str(), now);
    let ghost m1 = oauth@;
    proof {
        assert(take_step(m0, pairing_key(typed@), now).0 == m1);
    }
    match taken {
        Some(p) => {
            let same = opt_string_eq(&form.get_string("client_id"), &p.query.get_string("client_id"))
                && opt_string_eq(&form.get_string("state"), &p.query.get_string("state"));
            if !same {
                let html = render_error(MISMATCH_NOTE);
                AuthorizeOutcome::Mismatch(html)
            } else {
                let url = oauth.approve_with(&p.query, base, code, now);
                AuthorizeOutcome::Approved(url)
            }
        },
        None => {
            let html = render_consent(form, Some(BAD_CODE_NOTE));
            AuthorizeOutcome::BadCode(html)
        },
    }
}

/// Handles the consent form now, with a fresh authorization code (see
/// [`authorize_post_at`]).
pub fn authorize_post(oauth: &mut OAuthServer, form: &Params, base: &str) -> (r: AuthorizeOutcome)
    requires
        crate::oauth::param_is(form.view_map(), "decision"@, "deny"@) ==> form.view_map().contains_key(
            "redirect_uri"@,
        ),
        forall|now: u64| !#[trigger] approval_incomplete(old(oauth)@, form.view_map(), now),
    ensures
        exists|now: u64, code: Seq<char>|
            is_token(code, "mcpb_code"@) && (final(oauth)@, r@) == #[trigger] authorize_post_spec(
                old(oauth)@,
                form,
                base@,
                now,
                code,
            ),
{
    let now = oauth.now_ms();
    let code = rand_token("mcpb_code");
    let ghost c = code@;
    let r = authorize_post_at(oauth, form, base, now, code);
    proof {
        assert((oauth@, r@) == authorize_post_spec(old(oauth)@, form, base@, now, c));
    }
    r
}


/* ───────────── laws of the gateway ───────────── */

/// Every notification is acknowledged as one: a method name that starts with
/// `notifications/` is classified as a notification (answered 202 with no body),
/// whatever follows the prefix.
pub proof fn law_notifications_acknowledged(method: Seq<char>)
    requires
        has_prefix(method, "notifications/"@),
    ensures
        rpc_method_of(method) == RpcMethod::Notification,
{
    reveal_strlit("notifications/");
    reveal_strlit("initialize");
    if method == "initialize"@ {
        assert(method.len() == 10);
        assert("notifications/"@.len() == 14);
    }
}

/// A live token bound to the request's own origin is let in, whether its
/// audience is the origin itself (the resource that the protected-resource
/// metadata advertises) or the origin's `/mcp` endpoint.
pub proof fn law_origin_token_admitted(
    m: AuthModel,
    host: Option<Seq<char>>,
    token: Seq<char>,
    now: u64,
)
    requires
        m.access.contains_key(token),
        now <= m.access[token].expires,
        m.access[token].resource == Some(public_base_spec(host)) || m.access[token].resource == Some(
            public_base_spec(host) + "/mcp"@,
        ),
    ensures
        admitted(m, false, host, Some("Bearer "@ + token), now),
{
    reveal_strlit("Bearer ");
    let h = "Bearer "@ + token;
    assert(h.take(7) =~= "Bearer "@);
    assert(h.skip(7) =~= token);
    let base = public_base_spec(host);
    let acc = accepted_audiences(base);
    if m.access[token].resource == Some(base) {
        assert(acc[0] == base);
        assert(strip_scheme(acc[0]) == strip_scheme(base));
    } else {
        assert(acc[1] == base + "/mcp"@);
        assert(strip_scheme(acc[1]) == strip_scheme(base + "/mcp"@));
    }
}

/// An approval redirects to the client with the origin the form was posted to as
/// `iss`, which is the issuer that the authorization-server metadata of that
/// origin advertises, and with the parameters of the pending request that was
/// taken (not those of the form).
pub proof fn law_approval_carries_issuer(
    m: AuthModel,
    form: &Params,
    base: Seq<char>,
    now: u64,
    code: Seq<char>,
)
    ensures
        authorize_post_spec(m, form, base, now, code).1 matches OutcomeModel::Approved(u) ==> {
            let taken = take_step(m, pairing_key(posted_code(form.view_map())), now).1;
            &&& taken is Some
            &&& u == redirect_url(taken->0.query, "code"@, code, "iss"@, base)
        },
{
}

} // verus!
