//! System proxy detection: the proxy environment variables, then the Windows
//! registry (`reg query`) or macOS `scutil --proxy`. Reading the environment and
//! running the commands stands around these functions, which decide from their text.
use vstd::prelude::*;

use crate::gateway::opt_str_view_owned;
use crate::oauth::string_views;
use crate::text::{
    chars_of, contains_seq, contains_str, has_prefix, is_ws, is_ws_exec, lemma_trim_end_take,
    lemma_trim_start_skip, push_str, split_char, split_on, starts_with, str_eq, string_from_chars,
    to_owned_string, trim, trim_end_seq, trim_seq, trim_start_seq,
};

verus! {

/* ───────────── normalization ───────────── */

/// A proxy setting as a URL: trimmed; empty means none; without a scheme
/// (`http://`, `https://`, `socks...`) it gets `http://`.
pub open spec fn normalize_spec(v: Seq<char>) -> Option<Seq<char>> {
    let t = trim_seq(v);
    if t.len() == 0 {
        None
    } else if has_prefix(t, "http://"@) || has_prefix(t, "https://"@) || has_prefix(t, "socks"@) {
        Some(t)
    } else {
        Some("http://"@ + t)
    }
}

/// Turns a proxy setting into a proxy URL (see [`normalize_spec`]).
pub fn normalize(v: &str) -> (r: Option<String>)
    ensures
        opt_str_view_owned(r) == normalize_spec(v@),
{
    let t = trim(v);
    if t.as_str().is_empty() {
        return None;
    }
    if starts_with(t.as_str(), "http://") || starts_with(t.as_str(), "https://") || starts_with(
        t.as_str(),
        "socks",
    ) {
        Some(t)
    } else {
        let mut out = to_owned_string("http://");
        push_str(&mut out, t.as_str());
        Some(out)
    }
}

proof fn lemma_trim_start_shape(s: Seq<char>)
    ensures
        trim_start_seq(s).len() == 0 || !is_ws(trim_start_seq(s)[0]),
    decreases s.len(),
{
    if s.len() > 0 && is_ws(s[0]) {
        lemma_trim_start_shape(s.drop_first());
    }
}

proof fn lemma_trim_end_prefix(s: Seq<char>)
    ensures
        trim_end_seq(s).len() <= s.len(),
        trim_end_seq(s) == s.take(trim_end_seq(s).len() as int),
        trim_end_seq(s).len() == 0 || !is_ws(trim_end_seq(s).last()),
    decreases s.len(),
{
    if s.len() > 0 && is_ws(s.last()) {
        lemma_trim_end_prefix(s.drop_last());
        let t = trim_end_seq(s.drop_last());
        assert(s.drop_last().take(t.len() as int) =~= s.take(t.len() as int));
    } else {
        assert(s.take(s.len() as int) =~= s);
    }
}

proof fn lemma_trim_shape(s: Seq<char>)
    ensures
        trim_seq(s).len() == 0 || (!is_ws(trim_seq(s)[0]) && !is_ws(trim_seq(s).last())),
{
    lemma_trim_start_shape(s);
    let t = trim_start_seq(s);
    lemma_trim_end_prefix(t);
    if trim_seq(s).len() > 0 {
        assert(trim_seq(s)[0] == t[0]);
    }
}

proof fn lemma_trim_fixed(s: Seq<char>)
    requires
        s.len() > 0,
        !is_ws(s[0]),
        !is_ws(s.last()),
    ensures
        trim_seq(s) == s,
{
    assert(trim_start_seq(s) == s);
    assert(trim_end_seq(s) == s);
}

/// Normalizing a normalized proxy URL changes nothing.
pub proof fn law_normalize_idempotent(v: Seq<char>)
    ensures
        normalize_spec(v) matches Some(p) ==> normalize_spec(p) == Some(p),
{
    reveal_strlit("http://");
    let t = trim_seq(v);
    lemma_trim_shape(v);
    if t.len() > 0 {
        lemma_trim_fixed(t);
        if has_prefix(t, "http://"@) || has_prefix(t, "https://"@) || has_prefix(t, "socks"@) {
        } else {
            let p = "http://"@ + t;
            assert(p[0] == 'h');
            assert(p.last() == t.last());
            lemma_trim_fixed(p);
            assert(p.take(7) =~= "http://"@);
        }
    }
}

/// What every detected proxy URL looks like: non-empty, without surrounding
/// whitespace, and starting with `http://`, `https://` or `socks`.
pub open spec fn proxy_url_shape(p: Seq<char>) -> bool {
    &&& p.len() > 0
    &&& trim_seq(p) == p
    &&& (has_prefix(p, "http://"@) || has_prefix(p, "https://"@) || has_prefix(p, "socks"@))
}

/// A normalized proxy setting has the shape of a proxy URL.
pub proof fn law_normalize_shape(v: Seq<char>)
    ensures
        normalize_spec(v) matches Some(p) ==> proxy_url_shape(p),
{
    reveal_strlit("http://");
    law_normalize_idempotent(v);
    let t = trim_seq(v);
    lemma_trim_shape(v);
    if t.len() > 0 {
        lemma_trim_fixed(t);
        if !(has_prefix(t, "http://"@) || has_prefix(t, "https://"@) || has_prefix(t, "socks"@)) {
            let p = "http://"@ + t;
            assert(p[0] == 'h');
            assert(p.last() == t.last());
            lemma_trim_fixed(p);
            assert(p.take(7) =~= "http://"@);
        }
    }
}

/* ───────────── environment ───────────── */

/// The environment variables consulted, in order.
pub fn proxy_env_keys() -> (r: Vec<String>)
    ensures
        string_views(r@) == seq![
            "HTTPS_PROXY"@,
            "https_proxy"@,
            "ALL_PROXY"@,
            "all_proxy"@,
            "HTTP_PROXY"@,
            "http_proxy"@,
        ],
{
    let r = vec![
        to_owned_string("HTTPS_PROXY"),
        to_owned_string("https_proxy"),
        to_owned_string("ALL_PROXY"),
        to_owned_string("all_proxy"),
        to_owned_string("HTTP_PROXY"),
        to_owned_string("http_proxy"),
    ];
    proof {
        assert(string_views(r@) =~= seq![
            "HTTPS_PROXY"@,
            "https_proxy"@,
            "ALL_PROXY"@,
            "all_proxy"@,
            "HTTP_PROXY"@,
            "http_proxy"@,
        ]);
    }
    r
}

/// The views of optional strings.
pub open spec fn opt_views(v: Seq<Option<String>>) -> Seq<Option<Seq<char>>> {
    v.map_values(|o: Option<String>| opt_str_view_owned(o))
}

/// The first value, in order, that normalizes to a proxy URL.
pub open spec fn first_proxy_spec(values: Seq<Option<Seq<char>>>) -> Option<Seq<char>>
    decreases values.len(),
{
    if values.len() == 0 {
        None
    } else {
        match values[0] {
            Some(v) => match normalize_spec(v) {
                Some(p) => Some(p),
                None => first_proxy_spec(values.drop_first()),
            },
            None => first_proxy_spec(values.drop_first()),
        }
    }
}

/// The proxy from the environment: `values` are the variables of
/// [`proxy_env_keys`], in that order (`None` where unset).
pub fn proxy_from_env(values: &Vec<Option<String>>) -> (r: Option<String>)
    ensures
        opt_str_view_owned(r) == first_proxy_spec(opt_views(values@)),
{
    let ghost all = opt_views(values@);
    proof {
        assert(all.skip(0) =~= all);
    }
    let mut i: usize = 0;
    while i < values.len()
        invariant
            i <= values@.len(),
            all == opt_views(values@),
            first_proxy_spec(all) == first_proxy_spec(all.skip(i as int)),
        decreases values.len() - i,
    {
        proof {
            assert(all.skip(i as int)[0] == opt_str_view_owned(values@[i as int]));
            assert(all.skip(i as int).drop_first() =~= all.skip(i + 1));
        }
        match &values[i] {
            Some(v) => {
                let n = normalize(v.as_str());
                if n.is_some() {
                    return n;
                }
            },
            None => {},
        }
        i = i + 1;
    }
    proof {
        assert(all.skip(i as int).len() == 0);
    }
    None
}

/* ───────────── Windows registry ───────────── */

/// The first piece (line) holding `needle`.
pub open spec fn first_containing(parts: Seq<Seq<char>>, needle: Seq<char>) -> Option<Seq<char>>
    decreases parts.len(),
{
    if parts.len() == 0 {
        None
    } else if contains_seq(parts[0], needle) {
        Some(parts[0])
    } else {
        first_containing(parts.drop_first(), needle)
    }
}

fn line_containing(out: &str, needle: &str) -> (r: Option<String>)
    ensures
        opt_str_view_owned(r) == first_containing(split_on(out@, '\n'), needle@),
{
    let lines = split_char(out, '\n');
    let ghost all = string_views(lines@);
    proof {
        assert(all.skip(0) =~= all);
    }
    let mut i: usize = 0;
    while i < lines.len()
        invariant
            i <= lines@.len(),
            all == string_views(lines@),
            all == split_on(out@, '\n'),
            first_containing(all, needle@) == first_containing(all.skip(i as int), needle@),
        decreases lines.len() - i,
    {
        proof {
            assert(all.skip(i as int)[0] == lines@[i as int]@);
            assert(all.skip(i as int).drop_first() =~= all.skip(i + 1));
        }
        if contains_str(lines[i].as_str(), needle) {
            return Some(lines[i].clone());
        }
        i = i + 1;
    }
    proof {
        assert(all.skip(i as int).len() == 0);
    }
    None
}

/// The last whitespace-separated word of `s` (what `split_whitespace().last()` gives).
pub open spec fn last_word(s: Seq<char>) -> Option<Seq<char>> {
    let t = trim_end_seq(s);
    if t.len() == 0 {
        None
    } else if exists|j: int| 0 <= j < t.len() && is_ws(t[j]) {
        let j = choose|j: int|
            0 <= j < t.len() && is_ws(t[j]) && forall|k: int| j < k < t.len() ==> !is_ws(t[k]);
        Some(t.skip(j + 1))
    } else {
        Some(t)
    }
}

fn last_word_exec(s: &str) -> (r: Option<String>)
    ensures
        opt_str_view_owned(r) == last_word(s@),
{
    let cs = chars_of(s);
    let mut hi: usize = cs.len();
    while hi > 0 && is_ws_exec(cs[hi - 1])
        invariant
            hi <= cs@.len(),
            cs@ == s@,
            forall|j: int| hi <= j < cs@.len() ==> is_ws(#[trigger] cs@[j]),
        decreases hi,
    {
        hi = hi - 1;
    }
    proof {
        lemma_trim_end_take(s@, hi as int);
    }
    let ghost t = s@.take(hi as int);
    if hi == 0 {
        return None;
    }
    let mut lo: usize = hi;
    while lo > 0 && !is_ws_exec(cs[lo - 1])
        invariant
            lo <= hi <= cs@.len(),
            cs@ == s@,
            t == s@.take(hi as int),
            forall|k: int| lo <= k < hi ==> !is_ws(#[trigger] cs@[k]),
        decreases lo,
    {
        lo = lo - 1;
    }
    proof {
        if lo > 0 {
            let j0 = lo - 1;
            assert(is_ws(t[j0]));
            let j = choose|j: int|
                0 <= j < t.len() && is_ws(t[j]) && forall|k: int| j < k < t.len() ==> !is_ws(t[k]);
            if j < j0 {
                assert(!is_ws(t[j0]));
            }
            if j > j0 {
                assert(t[j] == cs@[j]);
            }
            assert(t.skip(lo as int) =~= cs@.subrange(lo as int, hi as int));
        } else {
            assert forall|j: int| 0 <= j < t.len() implies !is_ws(t[j]) by {
                assert(t[j] == cs@[j]);
            }
            assert(t =~= cs@.subrange(0, hi as int));
        }
    }
    Some(string_from_chars(&cs, lo, hi))
}

/// The rest of the first piece that starts with `p`.
pub open spec fn first_with_prefix(parts: Seq<Seq<char>>, p: Seq<char>) -> Option<Seq<char>>
    decreases parts.len(),
{
    if parts.len() == 0 {
        None
    } else if has_prefix(parts[0], p) {
        Some(parts[0].skip(p.len() as int))
    } else {
        first_with_prefix(parts.drop_first(), p)
    }
}

fn https_part(value: &str) -> (r: Option<String>)
    ensures
        opt_str_view_owned(r) == first_with_prefix(split_on(value@, ';'), "https="@),
{
    proof {
        reveal_strlit("https=");
    }
    let parts = split_char(value, ';');
    let ghost all = string_views(parts@);
    proof {
        assert(all.skip(0) =~= all);
    }
    let mut i: usize = 0;
    while i < parts.len()
        invariant
            i <= parts@.len(),
            all == string_views(parts@),
            all == split_on(value@, ';'),
            first_with_prefix(all, "https="@) == first_with_prefix(all.skip(i as int), "https="@),
            "https="@.len() == 6,
        decreases parts.len() - i,
    {
        proof {
            assert(all.skip(i as int)[0] == parts@[i as int]@);
            assert(all.skip(i as int).drop_first() =~= all.skip(i + 1));
        }
        if starts_with(parts[i].as_str(), "https=") {
            let n = parts[i].as_str().unicode_len();
            let rest = to_owned_string(parts[i].as_str().substring_char(6, n));
            proof {
                assert(rest@ =~= parts@[i as int]@.skip(6));
            }
            return Some(rest);
        }
        i = i + 1;
    }
    proof {
        assert(all.skip(i as int).len() == 0);
    }
    None
}

/// The proxy of the Windows "Internet Settings": `enable_out` and `server_out` are
/// the outputs of `reg query ... /v ProxyEnable` and `... /v ProxyServer`. The proxy
/// must be enabled (`0x1`); the server is the last word of its line, either
/// `host:port` or `http=...;https=...`, where the `https=` entry wins.
pub open spec fn windows_proxy_spec(enable_out: Seq<char>, server_out: Seq<char>) -> Option<Seq<char>> {
    match first_containing(split_on(enable_out, '\n'), "ProxyEnable"@) {
        None => None,
        Some(enable) => if !contains_seq(enable, "0x1"@) {
            None
        } else {
            match first_containing(split_on(server_out, '\n'), "ProxyServer"@) {
                None => None,
                Some(line) => match last_word(line) {
                    None => None,
                    Some(value) => match first_with_prefix(split_on(value, ';'), "https="@) {
                        Some(rest) => normalize_spec(rest),
                        None => normalize_spec(split_on(value, '=').last()),
                    },
                },
            }
        },
    }
}

/// Reads the proxy out of the two `reg query` outputs (see [`windows_proxy_spec`]).
pub fn windows_proxy(enable_out: &str, server_out: &str) -> (r: Option<String>)
    ensures
        opt_str_view_owned(r) == windows_proxy_spec(enable_out@, server_out@),
{
    let enable = match line_containing(enable_out, "ProxyEnable") {
        Some(e) => e,
        None => {
            return None;
        },
    };
    if !contains_str(enable.as_str(), "0x1") {
        return None;
    }
    let line = match line_containing(server_out, "ProxyServer") {
        Some(l) => l,
        None => {
            return None;
        },
    };
    let value = match last_word_exec(line.as_str()) {
        Some(v) => v,
        None => {
            return None;
        },
    };
    match https_part(value.as_str()) {
        Some(rest) => normalize(rest.as_str()),
        None => {
            let pieces = split_char(value.as_str(), '=');
            let k = pieces.len() - 1;
            proof {
                assert(string_views(pieces@)[k as int] == pieces@[k as int]@);
            }
            normalize(pieces[k].as_str())
        },
    }
}

/* ───────────── macOS scutil ───────────── */

/// The second `:`-separated field of the first line whose trimmed start begins
/// with `key` (the search stops at that line).
pub open spec fn scutil_get(out: Seq<char>, key: Seq<char>) -> Option<Seq<char>> {
    match first_key_line(split_on(out, '\n'), key) {
        None => None,
        Some(l) => if split_on(l, ':').len() >= 2 {
            Some(trim_seq(split_on(l, ':')[1]))
        } else {
            None
        },
    }
}

/// The first line whose trimmed start begins with `key`.
pub open spec fn first_key_line(lines: Seq<Seq<char>>, key: Seq<char>) -> Option<Seq<char>>
    decreases lines.len(),
{
    if lines.len() == 0 {
        None
    } else if has_prefix(trim_start_seq(lines[0]), key) {
        Some(lines[0])
    } else {
        first_key_line(lines.drop_first(), key)
    }
}

fn trim_start_exec(s: &str) -> (r: String)
    ensures
        r@ == trim_start_seq(s@),
{
    let cs = chars_of(s);
    let mut lo: usize = 0;
    while lo < cs.len() && is_ws_exec(cs[lo])
        invariant
            lo <= cs@.len(),
            cs@ == s@,
            forall|j: int| 0 <= j < lo ==> is_ws(#[trigger] cs@[j]),
        decreases cs.len() - lo,
    {
        lo = lo + 1;
    }
    proof {
        lemma_trim_start_skip(s@, lo as int);
        assert(s@.skip(lo as int) =~= cs@.subrange(lo as int, cs@.len() as int));
    }
    string_from_chars(&cs, lo, cs.len())
}

fn scutil_get_exec(out: &str, key: &str) -> (r: Option<String>)
    ensures
        opt_str_view_owned(r) == scutil_get(out@, key@),
{
    let lines = split_char(out, '\n');
    let ghost all = string_views(lines@);
    proof {
        assert(all.skip(0) =~= all);
    }
    let mut i: usize = 0;
    while i < lines.len()
        invariant
            i <= lines@.len(),
            all == string_views(lines@),
            all == split_on(out@, '\n'),
            first_key_line(all, key@) == first_key_line(all.skip(i as int), key@),
        decreases lines.len() - i,
    {
        proof {
            assert(all.skip(i as int)[0] == lines@[i as int]@);
            assert(all.skip(i as int).drop_first() =~= all.skip(i + 1));
        }
        let ts = trim_start_exec(lines[i].as_str());
        if starts_with(ts.as_str(), key) {
            let fields = split_char(lines[i].as_str(), ':');
            if fields.len() >= 2 {
                proof {
                    assert(string_views(fields@)[1] == fields@[1]@);
                }
                return Some(trim(fields[1].as_str()));
            } else {
                return None;
            }
        }
        i = i + 1;
    }
    proof {
        assert(all.skip(i as int).len() == 0);
    }
    None
}

/// The HTTP proxy of `scutil --proxy` output: enabled (`HTTPEnable : 1`), host
/// from `HTTPProxy`, port from `HTTPPort` (80 when absent).
pub open spec fn macos_proxy_spec(out: Seq<char>) -> Option<Seq<char>> {
    if scutil_get(out, "HTTPEnable"@) != Some("1"@) {
        None
    } else {
        match scutil_get(out, "HTTPProxy"@) {
            None => None,
            Some(host) => {
                let port = match scutil_get(out, "HTTPPort"@) {
                    Some(p) => p,
                    None => "80"@,
                };
                normalize_spec(host + ":"@ + port)
            },
        }
    }
}

/// Reads the HTTP proxy out of `scutil --proxy` output (see [`macos_proxy_spec`]).
pub fn macos_proxy(out: &str) -> (r: Option<String>)
    ensures
        opt_str_view_owned(r) == macos_proxy_spec(out@),
{
    let enabled = match scutil_get_exec(out, "HTTPEnable") {
        Some(e) => str_eq(e.as_str(), "1"),
        None => false,
    };
    if !enabled {
        return None;
    }
    let host = match scutil_get_exec(out, "HTTPProxy") {
        Some(h) => h,
        None => {
            return None;
        },
    };
    let port = match scutil_get_exec(out, "HTTPPort") {
        Some(p) => p,
        None => to_owned_string("80"),
    };
    let mut addr = host;
    push_str(&mut addr, ":");
    push_str(&mut addr, port.as_str());
    normalize(addr.as_str())
}


/// The first usable environment setting has the shape of a proxy URL.
proof fn lemma_first_proxy_shape(values: Seq<Option<Seq<char>>>)
    ensures
        first_proxy_spec(values) matches Some(p) ==> proxy_url_shape(p),
    decreases values.len(),
{
    if values.len() > 0 {
        if let Some(v) = values[0] {
            law_normalize_shape(v);
        }
        lemma_first_proxy_shape(values.drop_first());
    }
}

/// Whichever source it comes from (the environment variables, the Windows
/// registry, macOS `scutil`), a detected proxy is non-empty, trimmed and starts
/// with `http://`, `https://` or `socks`.
pub proof fn law_system_proxy_shape(
    env_values: Seq<Option<Seq<char>>>,
    enable_out: Seq<char>,
    server_out: Seq<char>,
    scutil_out: Seq<char>,
)
    ensures
        first_proxy_spec(env_values) matches Some(p) ==> proxy_url_shape(p),
        windows_proxy_spec(enable_out, server_out) matches Some(p) ==> proxy_url_shape(p),
        macos_proxy_spec(scutil_out) matches Some(p) ==> proxy_url_shape(p),
{
    lemma_first_proxy_shape(env_values);
    match first_containing(split_on(server_out, '\n'), "ProxyServer"@) {
        Some(line) => match last_word(line) {
            Some(value) => match first_with_prefix(split_on(value, ';'), "https="@) {
                Some(rest) => law_normalize_shape(rest),
                None => law_normalize_shape(split_on(value, '=').last()),
            },
            None => {},
        },
        None => {},
    }
    match scutil_get(scutil_out, "HTTPProxy"@) {
        Some(host) => {
            let port = match scutil_get(scutil_out, "HTTPPort"@) {
                Some(p) => p,
                None => "80"@,
            };
            law_normalize_shape(host + ":"@ + port);
        },
        None => {},
    }
}

} // verus!
