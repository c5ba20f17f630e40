//! Embedded OAuth 2.1 authorization server: dynamic client registration,
//! authorization code with PKCE (S256), one-time pairing codes typed into the
//! consent page, access tokens and rotating refresh tokens, all held in memory.
//!
//! Time is the server's own monotonic clock in milliseconds since the server was
//! created. Each operation that reads the clock or draws random tokens has a
//! companion (`..._at` / `..._with`) that takes those values as arguments and is
//! specified exactly by a step function over [`AuthModel`].
use vstd::prelude::*;

use crate::primitives::{
    b64url_encode, b64url_nopad, elapsed_millis, instant_now, random_bytes, sha256, sha256_spec,
    to_uppercase, to_uppercase_spec, unix_time_secs,
};
use crate::store::{Params, Store};
use crate::text::{
    contains_seq, hex_lower, push_char, push_hex_lower, push_str, str_eq, to_owned_string, trim,
    trim_seq, url_encode, urlencode,
};

verus! {

/// Access tokens live one hour.
pub const ACCESS_TTL_MS: u64 = 3_600_000;

/// `expires_in` reported with each access token, in seconds.
pub const ACCESS_TTL_SECS: u64 = 3600;

/// Refresh tokens live thirty days.
pub const REFRESH_TTL_MS: u64 = 2_592_000_000;

/// Authorization codes live five minutes.
pub const CODE_TTL_MS: u64 = 300_000;

/// Pairing codes live two minutes.
pub const PAIRING_TTL_MS: u64 = 120_000;

/// `a + b`, or `u64::MAX` when that overflows.
pub open spec fn sat_add(a: u64, b: u64) -> u64 {
    if a + b > u64::MAX {
        u64::MAX
    } else {
        (a + b) as u64
    }
}

/// The views of a sequence of strings.
pub open spec fn string_views(v: Seq<String>) -> Seq<Seq<char>> {
    v.map_values(|s: String| s@)
}

/// The view of an optional string.
pub open spec fn opt_view(o: Option<String>) -> Option<Seq<char>> {
    match o {
        Some(s) => Some(s@),
        None => None,
    }
}

/* ───────────── records and their models ───────────── */

/// What an authorization code stands for.
pub struct GrantModel {
    pub client_id: Seq<char>,
    pub redirect_uri: Seq<char>,
    pub scope: Seq<char>,
    pub code_challenge: Seq<char>,
    pub resource: Option<Seq<char>>,
    pub expires: u64,
}

/// What an access or a refresh token stands for.
pub struct TokenModel {
    pub client_id: Seq<char>,
    pub scope: Seq<char>,
    pub resource: Option<Seq<char>>,
    pub expires: u64,
}

/// A pairing request waiting for its code.
pub struct PendingModel {
    pub query: Map<Seq<char>, Seq<char>>,
    pub code: Seq<char>,
    pub expires: u64,
}

/// The whole state of the server.
#[verifier::ext_equal]
pub struct AuthModel {
    /// Registered clients and their redirect URIs.
    pub clients: Map<Seq<char>, Seq<String>>,
    /// Unused authorization codes.
    pub codes: Map<Seq<char>, GrantModel>,
    /// Issued access tokens.
    pub access: Map<Seq<char>, TokenModel>,
    /// Issued refresh tokens.
    pub refresh: Map<Seq<char>, TokenModel>,
    /// Pairing requests keyed by their code.
    pub pending: Map<Seq<char>, PendingModel>,
}

struct CodeGrant {
    client_id: String,
    redirect_uri: String,
    scope: String,
    code_challenge: String,
    resource: Option<String>,
    expires: u64,
}

impl View for CodeGrant {
    type V = GrantModel;

    closed spec fn view(&self) -> GrantModel {
        GrantModel {
            client_id: self.client_id@,
            redirect_uri: self.redirect_uri@,
            scope: self.scope@,
            code_challenge: self.code_challenge@,
            resource: opt_view(self.resource),
            expires: self.expires,
        }
    }
}

/// An issued access token. `expires` is a reading of the server clock (ms).
pub struct TokenInfo {
    pub client_id: String,
    pub scope: String,
    pub resource: Option<String>,
    pub expires: u64,
}

impl View for TokenInfo {
    type V = TokenModel;

    open spec fn view(&self) -> TokenModel {
        TokenModel {
            client_id: self.client_id@,
            scope: self.scope@,
            resource: opt_view(self.resource),
            expires: self.expires,
        }
    }
}

struct RefreshInfo {
    client_id: String,
    scope: String,
    resource: Option<String>,
    expires: u64,
}

impl View for RefreshInfo {
    type V = TokenModel;

    closed spec fn view(&self) -> TokenModel {
        TokenModel {
            client_id: self.client_id@,
            scope: self.scope@,
            resource: opt_view(self.resource),
            expires: self.expires,
        }
    }
}

/// An authorization request waiting for the user to type its pairing code.
pub struct PendingAuth {
    pub query: Params,
    pub code: String,
    pub expires: u64,
}

impl View for PendingAuth {
    type V = PendingModel;

    open spec fn view(&self) -> PendingModel {
        PendingModel { query: self.query.view_map(), code: self.code@, expires: self.expires }
    }
}

/// The answer to a successful `/token` request.
pub struct TokenResponse {
    pub access_token: String,
    pub token_type: String,
    pub expires_in: u64,
    pub refresh_token: String,
    pub scope: String,
}

/// The model of a [`TokenResponse`].
pub struct TokenGrant {
    pub access_token: Seq<char>,
    pub token_type: Seq<char>,
    pub expires_in: u64,
    pub refresh_token: Seq<char>,
    pub scope: Seq<char>,
}

impl View for TokenResponse {
    type V = TokenGrant;

    open spec fn view(&self) -> TokenGrant {
        TokenGrant {
            access_token: self.access_token@,
            token_type: self.token_type@,
            expires_in: self.expires_in,
            refresh_token: self.refresh_token@,
            scope: self.scope@,
        }
    }
}

/// Why a `/token` request was refused. Every refusal is HTTP 400.
#[derive(Clone, Copy, Debug, PartialEq, Eq, Structural)]
pub enum TokenError {
    /// `grant_type` missing or neither `authorization_code` nor `refresh_token`.
    UnsupportedGrantType,
    /// `code` or `refresh_token` missing.
    InvalidRequest,
    /// `code_verifier` missing.
    MissingCodeVerifier,
    /// Unknown (or already used) code or refresh token.
    InvalidGrant,
    /// The authorization code has expired.
    CodeExpired,
    /// `client_id` or `redirect_uri` differs from the authorization request.
    ClientRedirectMismatch,
    /// The verifier does not hash to the code challenge.
    PkceFailed,
    /// The refresh token has expired.
    RefreshExpired,
}

impl TokenError {
    /// The HTTP status of the refusal.
    pub fn status(&self) -> (r: u16)
        ensures
            r == 400,
    {
        400
    }

    /// The OAuth `error` value.
    pub fn error(&self) -> (r: &'static str)
        ensures
            r@ == token_error_code(*self),
    {
        match self {
            TokenError::UnsupportedGrantType => "unsupported_grant_type",
            TokenError::InvalidRequest => "invalid_request",
            TokenError::MissingCodeVerifier => "invalid_request",
            _ => "invalid_grant",
        }
    }

    /// The `error_description`, where the refusal carries one.
    pub fn description(&self) -> (r: Option<&'static str>)
        ensures
            r matches Some(d) ==> token_error_description(*self) == Some(d@),
            r is None ==> token_error_description(*self) is None,
    {
        match self {
            TokenError::MissingCodeVerifier => Some("missing code_verifier"),
            TokenError::CodeExpired => Some("code expired"),
            TokenError::ClientRedirectMismatch => Some("client/redirect mismatch"),
            TokenError::PkceFailed => Some("PKCE verification failed"),
            TokenError::RefreshExpired => Some("refresh token expired"),
            _ => None,
        }
    }
}

/// The OAuth `error` value of each refusal.
pub open spec fn token_error_code(e: TokenError) -> Seq<char> {
    match e {
        TokenError::UnsupportedGrantType => "unsupported_grant_type"@,
        TokenError::InvalidRequest => "invalid_request"@,
        TokenError::MissingCodeVerifier => "invalid_request"@,
        _ => "invalid_grant"@,
    }
}

/// The `error_description` of each refusal.
pub open spec fn token_error_description(e: TokenError) -> Option<Seq<char>> {
    match e {
        TokenError::MissingCodeVerifier => Some("missing code_verifier"@),
        TokenError::CodeExpired => Some("code expired"@),
        TokenError::ClientRedirectMismatch => Some("client/redirect mismatch"@),
        TokenError::PkceFailed => Some("PKCE verification failed"@),
        TokenError::RefreshExpired => Some("refresh token expired"@),
        _ => None,
    }
}

/// The answer to a dynamic client registration.
pub struct Registration {
    pub client_id: String,
    pub client_id_issued_at: u64,
    pub redirect_uris: Vec<String>,
    pub grant_types: Vec<String>,
    pub response_types: Vec<String>,
    pub token_endpoint_auth_method: String,
    pub client_secret_expires_at: u64,
}

/// What every registration declares: the authorization-code and refresh-token
/// grants, the `code` response type, a public client (`none`) whose (absent)
/// secret never expires.
pub open spec fn registration_constants(r: Registration) -> bool {
    &&& string_views(r.grant_types@) == seq!["authorization_code"@, "refresh_token"@]
    &&& string_views(r.response_types@) == seq!["code"@]
    &&& r.token_endpoint_auth_method@ == "none"@
    &&& r.client_secret_expires_at == 0
}

} // verus!

verus! {

/* ───────────── tokens and pairing codes ───────────── */

/// A random token: the prefix, `_`, then the bytes in lowercase hex.
pub open spec fn token_text(prefix: Seq<char>, bytes: Seq<u8>) -> Seq<char> {
    prefix.push('_') + hex_lower(bytes)
}

/// `t` is `prefix_` followed by 48 lowercase hex digits (24 random bytes).
pub open spec fn is_token(t: Seq<char>, prefix: Seq<char>) -> bool {
    exists|bytes: Seq<u8>| bytes.len() == 24 && t == #[trigger] token_text(prefix, bytes)
}

/// Formats a token from its prefix and random bytes.
pub fn token_from_bytes(prefix: &str, bytes: &[u8]) -> (r: String)
    ensures
        r@ == token_text(prefix@, bytes@),
{
    let mut out = to_owned_string(prefix);
    push_char(&mut out, '_');
    push_hex_lower(&mut out, bytes);
    out
}

/// A fresh random token `prefix_<48 hex digits>`.
pub fn rand_token(prefix: &str) -> (r: String)
    ensures
        is_token(r@, prefix@),
{
    let bytes = random_bytes(24);
    let r = token_from_bytes(prefix, &bytes);
    proof {
        assert(r@ == token_text(prefix@, bytes@));
    }
    r
}

/// Characters of pairing codes: no `0 O 1 I L`, which are easily confused.
pub const PAIRING_ALPHABET: &'static str = "ABCDEFGHJKMNPQRSTUVWXYZ23456789";

/// The pairing-code character for one random byte.
pub open spec fn pairing_char(b: u8) -> char {
    PAIRING_ALPHABET@[(b as int) % 31]
}

/// The pairing code `XXXX-XXXX` made of eight random bytes.
pub open spec fn pairing_code_text(b: Seq<u8>) -> Seq<char> {
    seq![
        pairing_char(b[0]),
        pairing_char(b[1]),
        pairing_char(b[2]),
        pairing_char(b[3]),
        '-',
        pairing_char(b[4]),
        pairing_char(b[5]),
        pairing_char(b[6]),
        pairing_char(b[7]),
    ]
}

/// `c` has the shape of a pairing code: nine characters, a `-` in the middle,
/// the others from [`PAIRING_ALPHABET`].
pub open spec fn is_pairing_code(c: Seq<char>) -> bool {
    &&& c.len() == 9
    &&& c[4] == '-'
    &&& forall|i: int| 0 <= i < 9 && i != 4 ==> PAIRING_ALPHABET@.contains(#[trigger] c[i])
}

fn pairing_char_exec(b: u8) -> (c: char)
    ensures
        c == pairing_char(b),
{
    proof {
        reveal_strlit("ABCDEFGHJKMNPQRSTUVWXYZ23456789");
    }
    PAIRING_ALPHABET.get_char((b % 31) as usize)
}

/// Formats a pairing code from eight random bytes.
pub fn pairing_code_from_bytes(b: &[u8]) -> (r: String)
    requires
        b@.len() == 8,
    ensures
        r@ == pairing_code_text(b@),
{
    let mut out = String::new();
    push_char(&mut out, pairing_char_exec(b[0]));
    push_char(&mut out, pairing_char_exec(b[1]));
    push_char(&mut out, pairing_char_exec(b[2]));
    push_char(&mut out, pairing_char_exec(b[3]));
    push_char(&mut out, '-');
    push_char(&mut out, pairing_char_exec(b[4]));
    push_char(&mut out, pairing_char_exec(b[5]));
    push_char(&mut out, pairing_char_exec(b[6]));
    push_char(&mut out, pairing_char_exec(b[7]));
    proof {
        assert(out@ =~= pairing_code_text(b@));
    }
    out
}

/// Every pairing code has the pairing-code shape.
pub proof fn lemma_pairing_code_shape(b: Seq<u8>)
    requires
        b.len() == 8,
    ensures
        is_pairing_code(pairing_code_text(b)),
{
    reveal_strlit("ABCDEFGHJKMNPQRSTUVWXYZ23456789");
    let c = pairing_code_text(b);
    assert forall|i: int| 0 <= i < 9 && i != 4 implies PAIRING_ALPHABET@.contains(#[trigger] c[i]) by {
        let j = if i < 4 { i } else { i - 1 };
        assert(c[i] == PAIRING_ALPHABET@[(b[j] as int) % 31]);
    }
}

/// Generates an `XXXX-XXXX` pairing code from eight random bytes.
pub fn gen_pairing_code() -> (r: String)
    ensures
        is_pairing_code(r@),
{
    let b = random_bytes(8);
    let r = pairing_code_from_bytes(&b);
    proof {
        lemma_pairing_code_shape(b@);
    }
    r
}

/// The key under which a typed pairing code is looked up: trimmed, then uppercased.
pub open spec fn pairing_key(code: Seq<char>) -> Seq<char> {
    to_uppercase_spec(trim_seq(code))
}

/// Trims and uppercases a typed pairing code.
pub fn normalize_pairing_code(code: &str) -> (r: String)
    ensures
        r@ == pairing_key(code@),
        crate::primitives::is_ascii_text(trim_seq(code@)) ==> r@ == crate::primitives::ascii_upper(
            trim_seq(code@),
        ),
{
    let t = trim(code);
    to_uppercase(t.as_str())
}

/* ───────────── the state machine ───────────── */

/// The three parameters that an approved authorization request must carry.
pub open spec fn grantable(q: Map<Seq<char>, Seq<char>>) -> bool {
    &&& q.contains_key("client_id"@)
    &&& q.contains_key("redirect_uri"@)
    &&& q.contains_key("code_challenge"@)
}

/// `q[k] == v`.
pub open spec fn param_is(q: Map<Seq<char>, Seq<char>>, k: Seq<char>, v: Seq<char>) -> bool {
    q.contains_key(k) && q[k] == v
}

/// A server with nothing registered or issued.
pub open spec fn empty_model() -> AuthModel {
    AuthModel {
        clients: Map::empty(),
        codes: Map::empty(),
        access: Map::empty(),
        refresh: Map::empty(),
        pending: Map::empty(),
    }
}

/// Registers a pairing request under `code`, valid for two minutes.
pub open spec fn create_step(
    m: AuthModel,
    query: Map<Seq<char>, Seq<char>>,
    code: Seq<char>,
    now: u64,
) -> AuthModel {
    AuthModel {
        pending: m.pending.insert(
            code,
            PendingModel { query, code, expires: sat_add(now, PAIRING_TTL_MS) },
        ),
        ..m
    }
}

/// Takes the pairing request under `key` out (whatever happens); hands it back
/// only when it had not expired.
pub open spec fn take_step(m: AuthModel, key: Seq<char>, now: u64) -> (AuthModel, Option<
    PendingModel,
>) {
    let next = AuthModel { pending: m.pending.remove(key), ..m };
    if m.pending.contains_key(key) && !(now > m.pending[key].expires) {
        (next, Some(m.pending[key]))
    } else {
        (next, None)
    }
}

/// Records a client and its redirect URIs.
pub open spec fn register_step(m: AuthModel, client_id: Seq<char>, uris: Seq<String>) -> AuthModel {
    AuthModel { clients: m.clients.insert(client_id, uris), ..m }
}

/// `redirect_uri` is one of those registered for `client_id`.
pub open spec fn redirect_registered(m: AuthModel, client_id: Seq<char>, redirect_uri: Seq<char>) -> bool {
    &&& m.clients.contains_key(client_id)
    &&& exists|i: int|
        0 <= i < m.clients[client_id].len() && (#[trigger] m.clients[client_id][i])@ == redirect_uri
}

/// The verdict on an `/authorize` request.
pub open spec fn authorize_check(m: AuthModel, q: Map<Seq<char>, Seq<char>>) -> Result<(), Seq<char>> {
    if !param_is(q, "response_type"@, "code"@) {
        Err("response_type 必须为 code"@)
    } else if !q.contains_key("client_id"@) {
        Err("缺少 client_id"@)
    } else if !q.contains_key("redirect_uri"@) {
        Err("缺少 redirect_uri"@)
    } else if !redirect_registered(m, q["client_id"@], q["redirect_uri"@]) {
        Err("client_id 未注册或 redirect_uri 不匹配"@)
    } else if !param_is(q, "code_challenge_method"@, "S256"@) || !q.contains_key("code_challenge"@)
        || q["code_challenge"@].len() == 0 {
        Err("需要 PKCE(S256 code_challenge)"@)
    } else {
        Ok(())
    }
}

/// `k=v` with `v` percent-encoded.
pub open spec fn query_pair(k: Seq<char>, v: Seq<char>) -> Seq<char> {
    k.push('=') + url_encode(v)
}

/// The redirect to the client: `redirect_uri`, `?` (or `&` when it already has a
/// query), `k1=v1&k2=v2`, then `&state=...` when the request carried a state.
pub open spec fn redirect_url(
    q: Map<Seq<char>, Seq<char>>,
    k1: Seq<char>,
    v1: Seq<char>,
    k2: Seq<char>,
    v2: Seq<char>,
) -> Seq<char> {
    let base = q["redirect_uri"@];
    let sep = if contains_seq(base, seq!['?']) {
        '&'
    } else {
        '?'
    };
    let state = if q.contains_key("state"@) {
        seq!['&'] + query_pair("state"@, q["state"@])
    } else {
        Seq::empty()
    };
    base.push(sep) + query_pair(k1, v1) + seq!['&'] + query_pair(k2, v2) + state
}

/// The grant recorded when the user approves request `q` with authorization code `code`.
pub open spec fn grant_of(q: Map<Seq<char>, Seq<char>>, now: u64) -> GrantModel {
    GrantModel {
        client_id: q["client_id"@],
        redirect_uri: q["redirect_uri"@],
        scope: if q.contains_key("scope"@) {
            q["scope"@]
        } else {
            "mcp"@
        },
        code_challenge: q["code_challenge"@],
        resource: if q.contains_key("resource"@) {
            Some(q["resource"@])
        } else {
            None
        },
        expires: sat_add(now, CODE_TTL_MS),
    }
}

/// Records a fresh authorization code for an approved request.
pub open spec fn approve_step(m: AuthModel, q: Map<Seq<char>, Seq<char>>, code: Seq<char>, now: u64) -> AuthModel {
    AuthModel { codes: m.codes.insert(code, grant_of(q, now)), ..m }
}

/// The PKCE S256 challenge of a verifier: URL-safe Base64 (no padding) of the
/// SHA-256 digest of its UTF-8 bytes.
pub open spec fn pkce_challenge(verifier: Seq<char>) -> Seq<char> {
    b64url_nopad(sha256_spec(vstd::utf8::encode_utf8(verifier)))
}

/// Issues an access token `at` and a refresh token `rt` for a client.
pub open spec fn issue_step(
    m: AuthModel,
    client_id: Seq<char>,
    scope: Seq<char>,
    resource: Option<Seq<char>>,
    now: u64,
    at: Seq<char>,
    rt: Seq<char>,
) -> (AuthModel, Result<TokenGrant, TokenError>) {
    let next = AuthModel {
        access: m.access.insert(
            at,
            TokenModel { client_id, scope, resource, expires: sat_add(now, ACCESS_TTL_MS) },
        ),
        refresh: m.refresh.insert(
            rt,
            TokenModel { client_id, scope, resource, expires: sat_add(now, REFRESH_TTL_MS) },
        ),
        ..m
    };
    (
        next,
        Ok(
            TokenGrant {
                access_token: at,
                token_type: "Bearer"@,
                expires_in: ACCESS_TTL_SECS,
                refresh_token: rt,
                scope,
            },
        ),
    )
}

/// The `authorization_code` grant. The code is used up once it is found, even
/// when a later check fails.
pub open spec fn code_step(
    m: AuthModel,
    form: Map<Seq<char>, Seq<char>>,
    now: u64,
    at: Seq<char>,
    rt: Seq<char>,
) -> (AuthModel, Result<TokenGrant, TokenError>) {
    if !form.contains_key("code"@) {
        (m, Err(TokenError::InvalidRequest))
    } else if !m.codes.contains_key(form["code"@]) {
        (m, Err(TokenError::InvalidGrant))
    } else {
        let g = m.codes[form["code"@]];
        let m1 = AuthModel { codes: m.codes.remove(form["code"@]), ..m };
        if now > g.expires {
            (m1, Err(TokenError::CodeExpired))
        } else if !param_is(form, "client_id"@, g.client_id) || !param_is(
            form,
            "redirect_uri"@,
            g.redirect_uri,
        ) {
            (m1, Err(TokenError::ClientRedirectMismatch))
        } else if !form.contains_key("code_verifier"@) {
            (m1, Err(TokenError::MissingCodeVerifier))
        } else if pkce_challenge(form["code_verifier"@]) != g.code_challenge {
            (m1, Err(TokenError::PkceFailed))
        } else {
            issue_step(m1, g.client_id, g.scope, g.resource, now, at, rt)
        }
    }
}

/// The `refresh_token` grant. The presented refresh token is used up once it is
/// found (rotation), and a new pair is issued unless it had expired.
pub open spec fn refresh_step(
    m: AuthModel,
    form: Map<Seq<char>, Seq<char>>,
    now: u64,
    at: Seq<char>,
    rt: Seq<char>,
) -> (AuthModel, Result<TokenGrant, TokenError>) {
    if !form.contains_key("refresh_token"@) {
        (m, Err(TokenError::InvalidRequest))
    } else if !m.refresh.contains_key(form["refresh_token"@]) {
        (m, Err(TokenError::InvalidGrant))
    } else {
        let info = m.refresh[form["refresh_token"@]];
        let m1 = AuthModel { refresh: m.refresh.remove(form["refresh_token"@]), ..m };
        if now > info.expires {
            (m1, Err(TokenError::RefreshExpired))
        } else {
            issue_step(m1, info.client_id, info.scope, info.resource, now, at, rt)
        }
    }
}

/// A `/token` request, dispatched on `grant_type`.
pub open spec fn token_step(
    m: AuthModel,
    form: Map<Seq<char>, Seq<char>>,
    now: u64,
    at: Seq<char>,
    rt: Seq<char>,
) -> (AuthModel, Result<TokenGrant, TokenError>) {
    if param_is(form, "grant_type"@, "authorization_code"@) {
        code_step(m, form, now, at, rt)
    } else if param_is(form, "grant_type"@, "refresh_token"@) {
        refresh_step(m, form, now, at, rt)
    } else {
        (m, Err(TokenError::UnsupportedGrantType))
    }
}

/// A URL without its `https://` or `http://` prefix.
pub open spec fn strip_scheme(u: Seq<char>) -> Seq<char> {
    if crate::text::has_prefix(u, "https://"@) {
        u.skip(8)
    } else if crate::text::has_prefix(u, "http://"@) {
        u.skip(7)
    } else {
        u
    }
}

/// The resource-server check: the token exists, has not expired, and its audience
/// (if any) is one of the accepted resources, compared without the URL scheme.
pub open spec fn token_valid(m: AuthModel, token: Seq<char>, accepted: Seq<Seq<char>>, now: u64) -> bool {
    &&& m.access.contains_key(token)
    &&& now <= m.access[token].expires
    &&& match m.access[token].resource {
        None => true,
        Some(aud) => exists|i: int|
            0 <= i < accepted.len() && strip_scheme(#[trigger] accepted[i]) == strip_scheme(aud),
    }
}

/// Records a self-check token for client `selfcheck` with scope `mcp`.
pub open spec fn mint_step(m: AuthModel, token: Seq<char>, resource: Option<Seq<char>>, now: u64) -> AuthModel {
    AuthModel {
        access: m.access.insert(
            token,
            TokenModel {
                client_id: "selfcheck"@,
                scope: "mcp"@,
                resource,
                expires: sat_add(now, ACCESS_TTL_MS),
            },
        ),
        ..m
    }
}

} // verus!

verus! {

/// Copies a vector of strings.
pub fn clone_strings(v: &Vec<String>) -> (r: Vec<String>)
    ensures
        r@ == v@,
{
    let mut out: Vec<String> = Vec::new();
    let mut i: usize = 0;
    while i < v.len()
        invariant
            i <= v@.len(),
            out@ == v@.take(i as int),
        decreases v.len() - i,
    {
        out.push(v[i].clone());
        proof {
            assert(v@.take(i + 1) =~= v@.take(i as int).push(v@[i as int]));
        }
        i = i + 1;
    }
    proof {
        assert(v@.take(v@.len() as int) =~= v@);
    }
    out
}

fn clone_opt(o: &Option<String>) -> (r: Option<String>)
    ensures
        opt_view(r) == opt_view(*o),
{
    match o {
        Some(s) => Some(s.clone()),
        None => None,
    }
}

/// The in-memory authorization server.
pub struct OAuthServer {
    clients: Store<Vec<String>>,
    codes: Store<CodeGrant>,
    access: Store<TokenInfo>,
    refresh: Store<RefreshInfo>,
    pending: Store<PendingAuth>,
    origin: std::time::Instant,
}

impl View for OAuthServer {
    type V = AuthModel;

    closed spec fn view(&self) -> AuthModel {
        AuthModel {
            clients: self.clients.view_map(),
            codes: self.codes.view_map(),
            access: self.access.view_map(),
            refresh: self.refresh.view_map(),
            pending: self.pending.view_map(),
        }
    }
}

/// The view of an optional pending request.
pub open spec fn pending_opt_view(r: Option<PendingAuth>) -> Option<PendingModel> {
    match r {
        Some(p) => Some(p@),
        None => None,
    }
}

/// The view of a `/token` answer.
pub open spec fn token_result_view(r: Result<TokenResponse, TokenError>) -> Result<TokenGrant, TokenError> {
    match r {
        Ok(t) => Ok(t@),
        Err(e) => Err(e),
    }
}

impl OAuthServer {
    /// The state of the server, for contracts.
    pub closed spec fn model(&self) -> AuthModel {
        self@
    }

    /// A server with no clients, codes, tokens or pairing requests.
    pub fn new() -> (r: Self)
        ensures
            r@ == empty_model(),
    {
        let r = OAuthServer {
            clients: Store::new(),
            codes: Store::new(),
            access: Store::new(),
            refresh: Store::new(),
            pending: Store::new(),
            origin: instant_now(),
        };
        proof {
            assert(r@ =~= empty_model());
        }
        r
    }

    /// Milliseconds on this server's monotonic clock (saturating at `u64::MAX`).
    pub fn now_ms(&self) -> u64 {
        let ms = elapsed_millis(&self.origin);
        if ms > 0xFFFF_FFFF_FFFF_FFFFu128 {
            0xFFFF_FFFF_FFFF_FFFFu64
        } else {
            ms as u64
        }
    }

    /// Registers a pairing request under a given code at clock reading `now`.
    pub fn create_pending_with(&mut self, query: Params, code: String, now: u64) -> (r: String)
        ensures
            final(self)@ == create_step(old(self)@, query.view_map(), code@, now),
            r@ == code@,
    {
        let ghost q = query.view_map();
        let p = PendingAuth { query, code: code.clone(), expires: now.saturating_add(PAIRING_TTL_MS) };
        let mut pending = Store::new();
        std::mem::swap(&mut pending, &mut self.pending);
        pending.insert(code.clone(), p);
        self.pending = pending;
        proof {
            assert(self@ =~= create_step(old(self)@, q, code@, now));
        }
        code
    }

    /// Registers a pairing request and returns its fresh `XXXX-XXXX` code
    /// (shown to the user by the desktop app), valid for two minutes.
    pub fn create_pending(&mut self, query: Params) -> (r: String)
        ensures
            is_pairing_code(r@),
            exists|now: u64| final(self)@ == #[trigger] create_step(old(self)@, query.view_map(), r@, now),
    {
        let code = gen_pairing_code();
        let now = self.now_ms();
        let ghost q = query.view_map();
        let r = self.create_pending_with(query, code, now);
        proof {
            assert(self@ == create_step(old(self)@, q, r@, now));
        }
        r
    }

    /// Takes out the pairing request for a typed code at clock reading `now`.
    pub fn take_pending_at(&mut self, code: &str, now: u64) -> (r: Option<PendingAuth>)
        ensures
            (final(self)@, pending_opt_view(r)) == take_step(old(self)@, pairing_key(code@), now),
    {
        let norm = normalize_pairing_code(code);
        let mut pending = Store::new();
        std::mem::swap(&mut pending, &mut self.pending);
        let taken = pending.remove(norm.as_str());
        self.pending = pending;
        proof {
            assert(self@ =~= take_step(old(self)@, pairing_key(code@), now).0);
        }
        match taken {
            Some(p) => {
                if now > p.expires {
                    None
                } else {
                    Some(p)
                }
            },
            None => None,
        }
    }

    /// Takes out the pairing request for a typed code (trimmed, uppercased). The
    /// request leaves the server whether or not it had expired; it comes back only
    /// when it had not.
    pub fn take_pending(&mut self, code: &str) -> (r: Option<PendingAuth>)
        ensures
            exists|now: u64|
                (final(self)@, pending_opt_view(r)) == #[trigger] take_step(
                    old(self)@,
                    pairing_key(code@),
                    now,
                ),
    {
        let now = self.now_ms();
        let r = self.take_pending_at(code, now);
        proof {
            assert((self@, pending_opt_view(r)) == take_step(old(self)@, pairing_key(code@), now));
        }
        r
    }

    /// The query of the pending request that a typed code would take out at clock
    /// reading `now`, left in place.
    pub fn pending_query_at(&self, code: &str, now: u64) -> (r: Option<&Params>)
        ensures
            match take_step(self@, pairing_key(code@), now).1 {
                Some(p) => r matches Some(q) && q.view_map() == p.query,
                None => r is None,
            },
    {
        let norm = normalize_pairing_code(code);
        match self.pending.get(norm.as_str()) {
            Some(p) => if now > p.expires {
                None
            } else {
                Some(&p.query)
            },
            None => None,
        }
    }

    /// Drops the pairing request for a typed code (on "deny").
    pub fn drop_pending(&mut self, code: &str)
        ensures
            final(self)@ == (AuthModel { pending: old(self)@.pending.remove(pairing_key(code@)), ..old(self)@ }),
    {
        let norm = normalize_pairing_code(code);
        let mut pending = Store::new();
        std::mem::swap(&mut pending, &mut self.pending);
        let _ = pending.remove(norm.as_str());
        self.pending = pending;
        proof {
            assert(self@ =~= (AuthModel { pending: old(self)@.pending.remove(pairing_key(code@)), ..old(self)@ }));
        }
    }

    /// Records a client under a given id (RFC 7591 registration).
    pub fn register_with(&mut self, redirect_uris: Vec<String>, client_id: String, issued_at: u64) -> (r: Registration)
        ensures
            final(self)@ == register_step(old(self)@, client_id@, redirect_uris@),
            r.client_id@ == client_id@,
            r.client_id_issued_at == issued_at,
            r.redirect_uris@ == redirect_uris@,
            registration_constants(r),
    {
        let uris = clone_strings(&redirect_uris);
        let ghost u = redirect_uris@;
        let mut clients = Store::new();
        std::mem::swap(&mut clients, &mut self.clients);
        clients.insert(client_id.clone(), redirect_uris);
        self.clients = clients;
        proof {
            assert(self@ =~= register_step(old(self)@, client_id@, u));
        }
        let r = Registration {
            client_id,
            client_id_issued_at: issued_at,
            redirect_uris: uris,
            grant_types: vec![String::from_str("authorization_code"), String::from_str("refresh_token")],
            response_types: vec![String::from_str("code")],
            token_endpoint_auth_method: String::from_str("none"),
            client_secret_expires_at: 0,
        };
        proof {
            assert(string_views(r.grant_types@) =~= seq!["authorization_code"@, "refresh_token"@]);
            assert(string_views(r.response_types@) =~= seq!["code"@]);
        }
        r
    }

    /// Registers a client with a fresh `mcpb_client_...` id; `client_id_issued_at`
    /// is the current Unix time in seconds.
    pub fn register(&mut self, redirect_uris: Vec<String>) -> (r: Registration)
        ensures
            final(self)@ == register_step(old(self)@, r.client_id@, redirect_uris@),
            is_token(r.client_id@, "mcpb_client"@),
            r.redirect_uris@ == redirect_uris@,
            registration_constants(r),
    {
        let client_id = rand_token("mcpb_client");
        let issued = unix_time_secs();
        self.register_with(redirect_uris, client_id, issued)
    }

    /// Whether `redirect_uri` is registered for `client_id`.
    pub fn client_redirect_ok(&self, client_id: &str, redirect_uri: &str) -> (r: bool)
        ensures
            r == redirect_registered(self@, client_id@, redirect_uri@),
    {
        match self.clients.get(client_id) {
            Some(uris) => {
                let mut i: usize = 0;
                while i < uris.len()
                    invariant
                        i <= uris@.len(),
                        uris@ == self@.clients[client_id@],
                        self@.clients.contains_key(client_id@),
                        forall|j: int| 0 <= j < i ==> (#[trigger] uris@[j])@ != redirect_uri@,
                    decreases uris.len() - i,
                {
                    if str_eq(uris[i].as_str(), redirect_uri) {
                        proof {
                            assert(self@.clients[client_id@][i as int]@ == redirect_uri@);
                        }
                        return true;
                    }
                    i = i + 1;
                }
                false
            },
            None => false,
        }
    }

    /// Validates an `/authorize` request. An accepted request gives back its
    /// parameter set (the same names and values, in the same order); the error is
    /// the message shown to the user.
    pub fn check_authorize(&self, q: &Params) -> (r: Result<Params, String>)
        ensures
            r is Ok <==> authorize_check(self@, q.view_map()) is Ok,
            r matches Ok(p) ==> p.view_map() == q.view_map() && p.key_seq() == q.key_seq()
                && string_views(p.val_seq()) == string_views(q.val_seq()),
            r matches Err(e) ==> authorize_check(self@, q.view_map()) == Err::<(), Seq<char>>(e@),
    {
        let rt = q.get_string("response_type");
        let rt_ok = match &rt {
            Some(v) => str_eq(v.as_str(), "code"),
            None => false,
        };
        if !rt_ok {
            return Err(String::from_str("response_type 必须为 code"));
        }
        let client_id = match q.get_string("client_id") {
            Some(c) => c,
            None => {
                return Err(String::from_str("缺少 client_id"));
            },
        };
        let redirect_uri = match q.get_string("redirect_uri") {
            Some(u) => u,
            None => {
                return Err(String::from_str("缺少 redirect_uri"));
            },
        };
        if !self.client_redirect_ok(client_id.as_str(), redirect_uri.as_str()) {
            return Err(String::from_str("client_id 未注册或 redirect_uri 不匹配"));
        }
        let method_ok = match q.get_string("code_challenge_method") {
            Some(m) => str_eq(m.as_str(), "S256"),
            None => false,
        };
        let challenge_ok = match q.get_string("code_challenge") {
            Some(c) => !c.as_str().is_empty(),
            None => false,
        };
        if !method_ok || !challenge_ok {
            return Err(String::from_str("需要 PKCE(S256 code_challenge)"));
        }
        Ok(q.copy())
    }
}

} // verus!

verus! {

/// Appends `k=v` with `v` percent-encoded.
fn push_query_pair(out: &mut String, k: &str, v: &str)
    ensures
        final(out)@ == old(out)@ + query_pair(k@, v@),
{
    push_str(out, k);
    push_char(out, '=');
    let enc = urlencode(v);
    push_str(out, enc.as_str());
    proof {
        assert(old(out)@ + k@.push('=') + url_encode(v@) =~= old(out)@ + query_pair(k@, v@));
    }
}

/// Builds the redirect to the client with two extra parameters (and `state`).
fn redirect_with(q: &Params, k1: &str, v1: &str, k2: &str, v2: &str) -> (r: String)
    requires
        q.view_map().contains_key("redirect_uri"@),
    ensures
        r@ == redirect_url(q.view_map(), k1@, v1@, k2@, v2@),
{
    let mut url = q.get_string("redirect_uri").unwrap();
    let ghost base = url@;
    proof {
        reveal_strlit("?");
        assert("?"@ =~= seq!['?']);
    }
    let has_q = crate::text::contains_str(url.as_str(), "?");
    if has_q {
        push_char(&mut url, '&');
    } else {
        push_char(&mut url, '?');
    }
    let ghost sep = if has_q {
        '&'
    } else {
        '?'
    };
    push_query_pair(&mut url, k1, v1);
    push_char(&mut url, '&');
    push_query_pair(&mut url, k2, v2);
    let ghost mid = url@;
    proof {
        assert(mid =~= base.push(sep) + query_pair(k1@, v1@) + seq!['&'] + query_pair(k2@, v2@));
    }
    match q.get_string("state") {
        Some(st) => {
            push_char(&mut url, '&');
            push_query_pair(&mut url, "state", st.as_str());
            proof {
                assert(url@ =~= mid + (seq!['&'] + query_pair("state"@, st@)));
            }
        },
        None => {
            proof {
                assert(url@ =~= mid + Seq::<char>::empty());
            }
        },
    }
    url
}

/// `u` without its `https://` or `http://` prefix.
pub fn strip_scheme_exec(u: &str) -> (r: String)
    ensures
        r@ == strip_scheme(u@),
{
    proof {
        reveal_strlit("https://");
        reveal_strlit("http://");
    }
    if crate::text::starts_with(u, "https://") {
        let n = u.unicode_len();
        to_owned_string(u.substring_char(8, n))
    } else if crate::text::starts_with(u, "http://") {
        let n = u.unicode_len();
        to_owned_string(u.substring_char(7, n))
    } else {
        to_owned_string(u)
    }
}

impl OAuthServer {
    /// Records an authorization code for approved request `q` at clock reading
    /// `now`, and returns the redirect carrying `code`, `iss` and `state`.
    pub fn approve_with(&mut self, q: &Params, issuer: &str, code: String, now: u64) -> (r: String)
        requires
            grantable(q.view_map()),
        ensures
            final(self)@ == approve_step(old(self)@, q.view_map(), code@, now),
            r@ == redirect_url(q.view_map(), "code"@, code@, "iss"@, issuer@),
    {
        let grant = CodeGrant {
            client_id: q.get_string("client_id").unwrap(),
            redirect_uri: q.get_string("redirect_uri").unwrap(),
            scope: match q.get_string("scope") {
                Some(sc) => sc,
                None => String::from_str("mcp"),
            },
            code_challenge: q.get_string("code_challenge").unwrap(),
            resource: q.get_string("resource"),
            expires: now.saturating_add(CODE_TTL_MS),
        };
        proof {
            assert(grant@ == grant_of(q.view_map(), now));
        }
        let mut codes = Store::new();
        std::mem::swap(&mut codes, &mut self.codes);
        codes.insert(code.clone(), grant);
        self.codes = codes;
        proof {
            assert(self@ =~= approve_step(old(self)@, q.view_map(), code@, now));
        }
        redirect_with(q, "code", code.as_str(), "iss", issuer)
    }

    /// The user approved request `q`: issues a fresh `mcpb_code_...` authorization
    /// code (five minutes) and returns the redirect to the client.
    pub fn approve(&mut self, q: &Params, issuer: &str) -> (r: String)
        requires
            grantable(q.view_map()),
        ensures
            exists|code: Seq<char>, now: u64|
                is_token(code, "mcpb_code"@) && final(self)@ == #[trigger] approve_step(
                    old(self)@,
                    q.view_map(),
                    code,
                    now,
                ) && r@ == redirect_url(q.view_map(), "code"@, code, "iss"@, issuer@),
    {
        let code = rand_token("mcpb_code");
        let now = self.now_ms();
        let ghost c = code@;
        let r = self.approve_with(q, issuer, code, now);
        proof {
            assert(self@ == approve_step(old(self)@, q.view_map(), c, now));
        }
        r
    }

    /// The user denied request `q`: the redirect carries `error=access_denied`.
    pub fn deny(&self, q: &Params, issuer: &str) -> (r: String)
        requires
            q.view_map().contains_key("redirect_uri"@),
        ensures
            r@ == redirect_url(q.view_map(), "error"@, "access_denied"@, "iss"@, issuer@),
    {
        let r = redirect_with(q, "error", "access_denied", "iss", issuer);
        r
    }

    /// Records an access token `at` and a refresh token `rt` at clock reading `now`.
    fn issue(
        &mut self,
        client_id: String,
        scope: String,
        resource: Option<String>,
        now: u64,
        at: String,
        rt: String,
    ) -> (r: TokenResponse)
        ensures
            (final(self)@, Ok::<TokenGrant, TokenError>(r@)) == issue_step(
                old(self)@,
                client_id@,
                scope@,
                opt_view(resource),
                now,
                at@,
                rt@,
            ),
    {
        let ghost cid = client_id@;
        let ghost res = opt_view(resource);
        let info = TokenInfo {
            client_id: client_id.clone(),
            scope: scope.clone(),
            resource: clone_opt(&resource),
            expires: now.saturating_add(ACCESS_TTL_MS),
        };
        let rinfo = RefreshInfo {
            client_id,
            scope: scope.clone(),
            resource,
            expires: now.saturating_add(REFRESH_TTL_MS),
        };
        let mut access = Store::new();
        std::mem::swap(&mut access, &mut self.access);
        access.insert(at.clone(), info);
        self.access = access;
        let mut refresh = Store::new();
        std::mem::swap(&mut refresh, &mut self.refresh);
        refresh.insert(rt.clone(), rinfo);
        self.refresh = refresh;
        let r = TokenResponse {
            access_token: at,
            token_type: String::from_str("Bearer"),
            expires_in: ACCESS_TTL_SECS,
            refresh_token: rt,
            scope,
        };
        proof {
            assert(self@ =~= issue_step(old(self)@, cid, r.scope@, res, now, r.access_token@, r.refresh_token@).0);
        }
        r
    }
}

} // verus!

verus! {

impl OAuthServer {
    /// The `authorization_code` grant at clock reading `now`, issuing `at` / `rt`.
    fn grant_code(&mut self, form: &Params, now: u64, at: String, rt: String) -> (r: Result<
        TokenResponse,
        TokenError,
    >)
        ensures
            (final(self)@, token_result_view(r)) == code_step(
                old(self)@,
                form.view_map(),
                now,
                at@,
                rt@,
            ),
    {
        let ghost f = form.view_map();
        let code = match form.get_string("code") {
            Some(c) => c,
            None => {
                return Err(TokenError::InvalidRequest);
            },
        };
        let mut codes = Store::new();
        std::mem::swap(&mut codes, &mut self.codes);
        let taken = codes.remove(code.as_str());
        self.codes = codes;
        let grant = match taken {
            Some(g) => g,
            None => {
                proof {
                    assert(self@ =~= old(self)@);
                }
                return Err(TokenError::InvalidGrant);
            },
        };
        let ghost m1 = AuthModel { codes: old(self)@.codes.remove(code@), ..old(self)@ };
        proof {
            assert(self@ =~= m1);
            assert(grant@ == old(self)@.codes[f["code"@]]);
        }
        if now > grant.expires {
            return Err(TokenError::CodeExpired);
        }
        let cid_ok = match form.get_string("client_id") {
            Some(c) => c == grant.client_id,
            None => false,
        };
        let ru_ok = match form.get_string("redirect_uri") {
            Some(u) => u == grant.redirect_uri,
            None => false,
        };
        if !cid_ok || !ru_ok {
            return Err(TokenError::ClientRedirectMismatch);
        }
        let verifier = match form.get_string("code_verifier") {
            Some(v) => v,
            None => {
                return Err(TokenError::MissingCodeVerifier);
            },
        };
        let digest = sha256(verifier.as_str().as_bytes());
        let challenge = b64url_encode(digest.as_slice());
        if !(challenge == grant.code_challenge) {
            return Err(TokenError::PkceFailed);
        }
        let CodeGrant { client_id, redirect_uri: _, scope, code_challenge: _, resource, expires: _ } =
            grant;
        Ok(self.issue(client_id, scope, resource, now, at, rt))
    }

    /// The `refresh_token` grant at clock reading `now`, issuing `at` / `rt`.
    fn grant_refresh(&mut self, form: &Params, now: u64, at: String, rt: String) -> (r: Result<
        TokenResponse,
        TokenError,
    >)
        ensures
            (final(self)@, token_result_view(r)) == refresh_step(
                old(self)@,
                form.view_map(),
                now,
                at@,
                rt@,
            ),
    {
        let ghost f = form.view_map();
        let presented = match form.get_string("refresh_token") {
            Some(t) => t,
            None => {
                return Err(TokenError::InvalidRequest);
            },
        };
        let mut refresh = Store::new();
        std::mem::swap(&mut refresh, &mut self.refresh);
        let taken = refresh.remove(presented.as_str());
        self.refresh = refresh;
        let info = match taken {
            Some(i) => i,
            None => {
                proof {
                    assert(self@ =~= old(self)@);
                }
                return Err(TokenError::InvalidGrant);
            },
        };
        proof {
            assert(self@ =~= AuthModel {
                refresh: old(self)@.refresh.remove(presented@),
                ..old(self)@
            });
            assert(info@ == old(self)@.refresh[f["refresh_token"@]]);
        }
        if now > info.expires {
            return Err(TokenError::RefreshExpired);
        }
        let RefreshInfo { client_id, scope, resource, expires: _ } = info;
        Ok(self.issue(client_id, scope, resource, now, at, rt))
    }

    /// Answers a `/token` request at clock reading `now`; a successful grant issues
    /// access token `at` and refresh token `rt`.
    pub fn token_with(&mut self, form: &Params, now: u64, at: String, rt: String) -> (r: Result<
        TokenResponse,
        TokenError,
    >)
        ensures
            (final(self)@, token_result_view(r)) == token_step(
                old(self)@,
                form.view_map(),
                now,
                at@,
                rt@,
            ),
    {
        let grant_type = form.get_string("grant_type");
        let is_code = match &grant_type {
            Some(g) => str_eq(g.as_str(), "authorization_code"),
            None => false,
        };
        let is_refresh = match &grant_type {
            Some(g) => str_eq(g.as_str(), "refresh_token"),
            None => false,
        };
        if is_code {
            self.grant_code(form, now, at, rt)
        } else if is_refresh {
            self.grant_refresh(form, now, at, rt)
        } else {
            Err(TokenError::UnsupportedGrantType)
        }
    }

    /// Answers a `/token` request (`authorization_code` with PKCE S256, or
    /// `refresh_token` with rotation), issuing fresh `mcpb_at_...` / `mcpb_rt_...` tokens.
    pub fn token(&mut self, form: &Params) -> (r: Result<TokenResponse, TokenError>)
        ensures
            exists|now: u64, at: Seq<char>, rt: Seq<char>|
                is_token(at, "mcpb_at"@) && is_token(rt, "mcpb_rt"@) && (
                final(self)@,
                token_result_view(r),
            ) == #[trigger] token_step(old(self)@, form.view_map(), now, at, rt),
    {
        let at = rand_token("mcpb_at");
        let rt = rand_token("mcpb_rt");
        let now = self.now_ms();
        let ghost a = at@;
        let ghost b = rt@;
        let r = self.token_with(form, now, at, rt);
        proof {
            assert((self@, token_result_view(r)) == token_step(old(self)@, form.view_map(), now, a, b));
        }
        r
    }

    /// The resource-server check of `token` at clock reading `now`.
    pub fn verify_at(&self, token: &str, accepted_resources: &[String], now: u64) -> (r: bool)
        ensures
            r == token_valid(self@, token@, string_views(accepted_resources@), now),
    {
        let ghost acc = string_views(accepted_resources@);
        match self.access.get(token) {
            Some(info) => {
                if now > info.expires {
                    return false;
                }
                match &info.resource {
                    None => true,
                    Some(aud) => {
                        let aud_n = strip_scheme_exec(aud.as_str());
                        proof {
                            assert(info@ == self@.access[token@]);
                            assert(self@.access[token@].resource == Some(aud@));
                        }
                        let mut i: usize = 0;
                        while i < accepted_resources.len()
                            invariant
                                i <= accepted_resources@.len(),
                                acc == string_views(accepted_resources@),
                                aud_n@ == strip_scheme(aud@),
                                self@.access.contains_key(token@),
                                self@.access[token@].resource == Some(aud@),
                                now <= self@.access[token@].expires,
                                forall|j: int|
                                    0 <= j < i ==> strip_scheme(#[trigger] acc[j]) != aud_n@,
                            decreases accepted_resources.len() - i,
                        {
                            let cand = strip_scheme_exec(accepted_resources[i].as_str());
                            if cand == aud_n {
                                proof {
                                    assert(acc[i as int] == accepted_resources@[i as int]@);
                                    assert(strip_scheme(acc[i as int]) == strip_scheme(aud@));
                                }
                                return true;
                            }
                            i = i + 1;
                        }
                        false
                    },
                }
            },
            None => false,
        }
    }

    /// Whether `token` is a live access token whose audience (if any) is one of
    /// `accepted_resources`, compared without the URL scheme.
    pub fn verify(&self, token: &str, accepted_resources: &[String]) -> (r: bool)
        ensures
            exists|now: u64|
                r == #[trigger] token_valid(
                    self@,
                    token@,
                    string_views(accepted_resources@),
                    now,
                ),
    {
        let now = self.now_ms();
        self.verify_at(token, accepted_resources, now)
    }

    /// Records self-check token `token` (client `selfcheck`, scope `mcp`) at clock
    /// reading `now`.
    pub fn mint_local_with(&mut self, resource: Option<String>, token: String, now: u64) -> (r: String)
        ensures
            final(self)@ == mint_step(old(self)@, token@, opt_view(resource), now),
            r@ == token@,
    {
        let ghost res = opt_view(resource);
        let info = TokenInfo {
            client_id: String::from_str("selfcheck"),
            scope: String::from_str("mcp"),
            resource,
            expires: now.saturating_add(ACCESS_TTL_MS),
        };
        let mut access = Store::new();
        std::mem::swap(&mut access, &mut self.access);
        access.insert(token.clone(), info);
        self.access = access;
        proof {
            assert(self@ =~= mint_step(old(self)@, token@, res, now));
        }
        token
    }

    /// Mints an access token for the end-to-end self-check, without the consent page.
    pub fn mint_local(&mut self, resource: Option<String>) -> (r: String)
        ensures
            is_token(r@, "mcpb_local"@),
            exists|now: u64| final(self)@ == #[trigger] mint_step(old(self)@, r@, opt_view(resource), now),
    {
        let t = rand_token("mcpb_local");
        let now = self.now_ms();
        let ghost res = opt_view(resource);
        let r = self.mint_local_with(resource, t, now);
        proof {
            assert(self@ == mint_step(old(self)@, r@, res, now));
        }
        r
    }
}

} // verus!
