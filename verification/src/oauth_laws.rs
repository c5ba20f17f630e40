//! Properties of the authorization server that span several operations.
use vstd::prelude::*;

use crate::oauth::{
    approve_step, authorize_check, create_step, grantable, is_pairing_code, mint_step, param_is,
    pkce_challenge, redirect_registered, register_step, sat_add, strip_scheme, take_step, token_step,
    token_valid, AuthModel, PendingModel, TokenError, TokenGrant, ACCESS_TTL_MS, ACCESS_TTL_SECS, CODE_TTL_MS,
    PAIRING_ALPHABET, PAIRING_TTL_MS, REFRESH_TTL_MS,
};
use crate::primitives::{ascii_upper, ascii_upper_char};
use crate::text::{is_ws, lemma_trim_end_take, lemma_trim_start_skip, trim_end_seq, trim_seq, trim_start_seq};

verus! {

/// A pairing request can be taken at most once: taking the same key again finds nothing.
pub proof fn law_pairing_single_use(m: AuthModel, key: Seq<char>, now1: u64, now2: u64)
    ensures
        take_step(take_step(m, key, now1).0, key, now2).1 is None,
{
}

/// A pairing request registered under `code` is handed back, with its query, to a
/// taker who presents the same key before it expires (two minutes).
pub proof fn law_pairing_roundtrip(
    m: AuthModel,
    query: Map<Seq<char>, Seq<char>>,
    code: Seq<char>,
    now: u64,
    later: u64,
)
    requires
        later <= sat_add(now, PAIRING_TTL_MS),
    ensures
        take_step(create_step(m, query, code, now), code, later).1 == Some(
            PendingModel { query, code, expires: sat_add(now, PAIRING_TTL_MS) },
        ),
{
}

/// A pairing request is refused once its two minutes are over.
pub proof fn law_pairing_expires(
    m: AuthModel,
    query: Map<Seq<char>, Seq<char>>,
    code: Seq<char>,
    now: u64,
    later: u64,
)
    requires
        later > sat_add(now, PAIRING_TTL_MS),
    ensures
        take_step(create_step(m, query, code, now), code, later).1 is None,
{
}

/// A generated pairing code is its own lookup key: it has no surrounding
/// whitespace, is ASCII, and uppercasing leaves it unchanged.
pub proof fn law_pairing_code_normal_form(c: Seq<char>)
    requires
        is_pairing_code(c),
    ensures
        trim_seq(c) == c,
        crate::primitives::is_ascii_text(c),
        ascii_upper(c) == c,
{
    reveal_strlit("ABCDEFGHJKMNPQRSTUVWXYZ23456789");
    assert forall|i: int| 0 <= i < 9 implies ('A' <= #[trigger] c[i] <= 'Z' || '0' <= c[i] <= '9'
        || c[i] == '-') by {
        if i != 4 {
            assert(PAIRING_ALPHABET@.contains(c[i]));
            let j = choose|j: int| 0 <= j < PAIRING_ALPHABET@.len() && PAIRING_ALPHABET@[j] == c[i];
            assert(0 <= j < 31);
        }
    }
    assert(!is_ws(c[0]));
    assert(trim_start_seq(c) == c);
    assert(!is_ws(c.last()));
    assert(trim_end_seq(c) == c);
    assert(ascii_upper(c) =~= c);
}

/// A pairing code typed with surrounding whitespace and in either letter case
/// trims to the typed code, which is ASCII and uppercases to the code itself; so
/// `normalize_pairing_code`, and the lookup of `take_pending`, find the request
/// that the code was registered under.
pub proof fn law_pairing_code_typed_loosely(c: Seq<char>, pre: Seq<char>, typed: Seq<char>, post: Seq<char>)
    requires
        is_pairing_code(c),
        typed.len() == 9,
        forall|i: int| 0 <= i < 9 ==> ascii_upper_char(#[trigger] typed[i]) == c[i],
        forall|i: int| 0 <= i < pre.len() ==> is_ws(#[trigger] pre[i]),
        forall|i: int| 0 <= i < post.len() ==> is_ws(#[trigger] post[i]),
    ensures
        trim_seq(pre + typed + post) == typed,
        crate::primitives::is_ascii_text(typed),
        ascii_upper(typed) == c,
{
    reveal_strlit("ABCDEFGHJKMNPQRSTUVWXYZ23456789");
    assert forall|i: int| 0 <= i < 9 implies ('A' <= #[trigger] c[i] <= 'Z' || '0' <= c[i] <= '9'
        || c[i] == '-') by {
        if i != 4 {
            assert(PAIRING_ALPHABET@.contains(c[i]));
            let j = choose|j: int| 0 <= j < PAIRING_ALPHABET@.len() && PAIRING_ALPHABET@[j] == c[i];
            assert(0 <= j < 31);
        }
    }
    assert forall|i: int| 0 <= i < 9 implies !is_ws(#[trigger] typed[i]) && (typed[i] as u32) < 128 by {
        let x = typed[i];
        assert(ascii_upper_char(x) == c[i]);
        if 'a' as u32 <= x as u32 <= 'z' as u32 {
            assert(97 <= x as u32 <= 122);
            assert(!is_ws(x));
        } else {
            assert(x == c[i]);
            assert(('A' as u32 <= x as u32 <= 'Z' as u32) || ('0' as u32 <= x as u32 <= '9' as u32)
                || x as u32 == 45);
        }
    }
    let all = pre + typed + post;
    let k = pre.len() as int;
    assert forall|j: int| 0 <= j < k implies is_ws(#[trigger] all[j]) by {
        assert(all[j] == pre[j]);
    }
    assert(all[k] == typed[0]);
    lemma_trim_start_skip(all, k);
    let rest = all.skip(k);
    assert(rest =~= typed + post);
    assert forall|j: int| 9 <= j < rest.len() implies is_ws(#[trigger] rest[j]) by {
        assert(rest[j] == post[j - 9]);
    }
    assert(rest[8] == typed[8]);
    lemma_trim_end_take(rest, 9);
    assert(rest.take(9) =~= typed);
    assert(ascii_upper(typed) =~= c);
}

/// An authorization code can be exchanged at most once: a second `/token` request
/// with the same code is refused as `invalid_grant`.
pub proof fn law_code_single_use(
    m: AuthModel,
    form: Map<Seq<char>, Seq<char>>,
    now1: u64,
    at1: Seq<char>,
    rt1: Seq<char>,
    now2: u64,
    at2: Seq<char>,
    rt2: Seq<char>,
)
    requires
        param_is(form, "grant_type"@, "authorization_code"@),
        form.contains_key("code"@),
    ensures
        token_step(token_step(m, form, now1, at1, rt1).0, form, now2, at2, rt2).1 == Err::<
            TokenGrant,
            TokenError,
        >(TokenError::InvalidGrant),
{
    reveal_strlit("authorization_code");
    reveal_strlit("refresh_token");
    assert("authorization_code"@.len() != "refresh_token"@.len());
    assert("authorization_code"@ != "refresh_token"@);
}

/// Refresh tokens rotate: once a refresh token has been redeemed, presenting it
/// again is refused as `invalid_grant` (unless the new refresh token happens to be
/// the same string).
pub proof fn law_refresh_rotation(
    m: AuthModel,
    form: Map<Seq<char>, Seq<char>>,
    now1: u64,
    at1: Seq<char>,
    rt1: Seq<char>,
    now2: u64,
    at2: Seq<char>,
    rt2: Seq<char>,
)
    requires
        param_is(form, "grant_type"@, "refresh_token"@),
        form.contains_key("refresh_token"@),
        rt1 != form["refresh_token"@],
    ensures
        token_step(token_step(m, form, now1, at1, rt1).0, form, now2, at2, rt2).1 == Err::<
            TokenGrant,
            TokenError,
        >(TokenError::InvalidGrant),
{
    reveal_strlit("authorization_code");
    reveal_strlit("refresh_token");
    assert("authorization_code"@.len() != "refresh_token"@.len());
    assert("authorization_code"@ != "refresh_token"@);
}

/// An exchange of an authorization code is granted exactly when the code is
/// known and live, the client and redirect URI match it, and the verifier hashes
/// to its challenge; a known code is used up whether or not it is granted.
pub proof fn law_code_grant_checks_pkce(
    m: AuthModel,
    form: Map<Seq<char>, Seq<char>>,
    now: u64,
    at: Seq<char>,
    rt: Seq<char>,
)
    requires
        param_is(form, "grant_type"@, "authorization_code"@),
    ensures
        token_step(m, form, now, at, rt).1 is Ok <==> {
            &&& form.contains_key("code"@)
            &&& m.codes.contains_key(form["code"@])
            &&& now <= m.codes[form["code"@]].expires
            &&& param_is(form, "client_id"@, m.codes[form["code"@]].client_id)
            &&& param_is(form, "redirect_uri"@, m.codes[form["code"@]].redirect_uri)
            &&& form.contains_key("code_verifier"@)
            &&& pkce_challenge(form["code_verifier"@]) == m.codes[form["code"@]].code_challenge
        },
        form.contains_key("code"@) && m.codes.contains_key(form["code"@]) ==> !token_step(
            m,
            form,
            now,
            at,
            rt,
        ).0.codes.contains_key(form["code"@]),
{
}

/// The whole authorization-code flow: after a user approves request `q`, a token
/// request that presents the code, the same client and redirect URI, and a verifier
/// whose challenge is `q`'s, before the code expires, is granted; the access token
/// then passes the resource check for the requested resource until it expires.
pub proof fn law_authorization_code_flow(
    m: AuthModel,
    q: Map<Seq<char>, Seq<char>>,
    code: Seq<char>,
    now: u64,
    form: Map<Seq<char>, Seq<char>>,
    later: u64,
    at: Seq<char>,
    rt: Seq<char>,
    accepted: Seq<Seq<char>>,
    check_time: u64,
)
    requires
        grantable(q),
        param_is(form, "grant_type"@, "authorization_code"@),
        param_is(form, "code"@, code),
        param_is(form, "client_id"@, q["client_id"@]),
        param_is(form, "redirect_uri"@, q["redirect_uri"@]),
        form.contains_key("code_verifier"@),
        pkce_challenge(form["code_verifier"@]) == q["code_challenge"@],
        later <= sat_add(now, CODE_TTL_MS),
        check_time <= sat_add(later, ACCESS_TTL_MS),
        q.contains_key("resource"@) ==> accepted.contains(q["resource"@]),
    ensures
        ({
            let (m2, r) = token_step(approve_step(m, q, code, now), form, later, at, rt);
            &&& r is Ok
            &&& r->Ok_0.access_token == at
            &&& r->Ok_0.refresh_token == rt
            &&& token_valid(m2, at, accepted, check_time)
        }),
{
    let (m2, r) = token_step(approve_step(m, q, code, now), form, later, at, rt);
    if q.contains_key("resource"@) {
        let i = choose|i: int| 0 <= i < accepted.len() && accepted[i] == q["resource"@];
        assert(strip_scheme(accepted[i]) == strip_scheme(q["resource"@]));
    }
}

/// Every granted `/token` answer is a Bearer pair: the access token lives one
/// hour (`expires_in` 3600) and the refresh token thirty days from the request,
/// both recorded for the scope the answer names and for the same resource.
pub proof fn law_granted_pair(
    m: AuthModel,
    form: Map<Seq<char>, Seq<char>>,
    now: u64,
    at: Seq<char>,
    rt: Seq<char>,
)
    requires
        token_step(m, form, now, at, rt).1 is Ok,
    ensures
        ({
            let (m2, r) = token_step(m, form, now, at, rt);
            let g = r->Ok_0;
            &&& g.access_token == at
            &&& g.refresh_token == rt
            &&& g.token_type == "Bearer"@
            &&& g.expires_in == ACCESS_TTL_SECS
            &&& m2.access.contains_key(at)
            &&& m2.access[at].expires == sat_add(now, ACCESS_TTL_MS)
            &&& m2.access[at].scope == g.scope
            &&& m2.refresh.contains_key(rt)
            &&& m2.refresh[rt].expires == sat_add(now, REFRESH_TTL_MS)
            &&& m2.refresh[rt].scope == g.scope
            &&& m2.refresh[rt].resource == m2.access[at].resource
        }),
{
}

/// A redeemed refresh token yields a new pair whose refresh token can itself be
/// redeemed until it expires (thirty days).
pub proof fn law_refresh_chain(
    m: AuthModel,
    form: Map<Seq<char>, Seq<char>>,
    now: u64,
    at: Seq<char>,
    rt: Seq<char>,
    form2: Map<Seq<char>, Seq<char>>,
    later: u64,
    at2: Seq<char>,
    rt2: Seq<char>,
)
    requires
        token_step(m, form, now, at, rt).1 is Ok,
        param_is(form2, "grant_type"@, "refresh_token"@),
        param_is(form2, "refresh_token"@, rt),
        later <= sat_add(now, REFRESH_TTL_MS),
    ensures
        token_step(token_step(m, form, now, at, rt).0, form2, later, at2, rt2).1 is Ok,
{
    reveal_strlit("authorization_code");
    reveal_strlit("refresh_token");
    assert("authorization_code"@.len() != "refresh_token"@.len());
    assert("authorization_code"@ != "refresh_token"@);
}

/// A self-check token passes the resource check, whatever the accepted resources,
/// until it expires (one hour), and not after.
pub proof fn law_minted_token_lifetime(
    m: AuthModel,
    t: Seq<char>,
    now: u64,
    accepted: Seq<Seq<char>>,
    later: u64,
)
    ensures
        token_valid(mint_step(m, t, None, now), t, accepted, later) <==> later <= sat_add(
            now,
            ACCESS_TTL_MS,
        ),
{
}

/// An accepted `/authorize` request names a registered redirect URI and carries an
/// S256 PKCE challenge, so it can be approved.
pub proof fn law_authorize_accepts_only_pkce(m: AuthModel, q: Map<Seq<char>, Seq<char>>)
    requires
        authorize_check(m, q) is Ok,
    ensures
        grantable(q),
        param_is(q, "response_type"@, "code"@),
        redirect_registered(m, q["client_id"@], q["redirect_uri"@]),
        param_is(q, "code_challenge_method"@, "S256"@),
        q["code_challenge"@].len() > 0,
{
}

/// Registering a client makes each of its redirect URIs acceptable for it.
pub proof fn law_registered_redirects(m: AuthModel, client_id: Seq<char>, uris: Seq<String>, i: int)
    requires
        0 <= i < uris.len(),
    ensures
        redirect_registered(register_step(m, client_id, uris), client_id, uris[i]@),
{
    assert(register_step(m, client_id, uris).clients[client_id][i] == uris[i]);
}

} // verus!
