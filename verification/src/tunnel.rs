//! Tunnel components (Cloudflare quick tunnel, ngrok, OpenAI tunnel-client): their
//! names, release URLs, command lines, and the parsing of what they print. Finding,
//! downloading and running the binaries stands around these functions.
use std::io::Read;
use vstd::prelude::*;

use crate::text::{
    chars_of, contains_seq, contains_str, first_occurrence_from, find_from, has_prefix,
    has_suffix, is_ws, is_ws_exec, occurs_at, push_decimal, push_str, decimal, starts_with,
    str_eq, string_from_chars, to_owned_string, trim, trim_seq,
};

verus! {

/// A tunnel provider.
#[derive(Clone, Copy, Debug, PartialEq, Eq, Structural)]
pub enum Provider {
    Cloudflare,
    Ngrok,
    OpenAi,
}

/// The identifier of each provider.
pub open spec fn provider_id(p: Provider) -> Seq<char> {
    match p {
        Provider::Cloudflare => "cloudflare"@,
        Provider::Ngrok => "ngrok"@,
        Provider::OpenAi => "openai"@,
    }
}

impl Provider {
    /// Parses `cloudflare`, `ngrok` or `openai`; anything else is an unknown provider.
    pub fn from_id(id: &str) -> (r: Result<Provider, String>)
        ensures
            r matches Ok(p) ==> provider_id(p) == id@,
            r is Err ==> id@ != "cloudflare"@ && id@ != "ngrok"@ && id@ != "openai"@,
            r matches Err(e) ==> e@ == "未知隧道方案: "@ + id@,
    {
        if str_eq(id, "cloudflare") {
            Ok(Provider::Cloudflare)
        } else if str_eq(id, "ngrok") {
            Ok(Provider::Ngrok)
        } else if str_eq(id, "openai") {
            Ok(Provider::OpenAi)
        } else {
            let mut e = to_owned_string("未知隧道方案: ");
            push_str(&mut e, id);
            Err(e)
        }
    }

    /// The executable's file name, with `.exe` on Windows.
    pub fn binary_name(self, windows: bool) -> (r: &'static str)
        ensures
            r@ == binary_name_spec(self, windows),
    {
        match self {
            Provider::Cloudflare => if windows {
                "cloudflared.exe"
            } else {
                "cloudflared"
            },
            Provider::Ngrok => if windows {
                "ngrok.exe"
            } else {
                "ngrok"
            },
            Provider::OpenAi => if windows {
                "tunnel-client.exe"
            } else {
                "tunnel-client"
            },
        }
    }

    /// The component's display name.
    pub fn display(self) -> (r: &'static str)
        ensures
            r@ == display_spec(self),
    {
        match self {
            Provider::Cloudflare => "cloudflared",
            Provider::Ngrok => "ngrok",
            Provider::OpenAi => "tunnel-client",
        }
    }

    /// The directory (under the managed install root) that holds the component.
    pub fn dir_name(self) -> (r: &'static str)
        ensures
            r@ == provider_id(self),
    {
        match self {
            Provider::Cloudflare => "cloudflare",
            Provider::Ngrok => "ngrok",
            Provider::OpenAi => "openai",
        }
    }

    /// OpenAI's tunnel has no public entry point; the gateway then runs without
    /// authentication (the OpenAI platform authenticates).
    pub fn needs_noauth(self) -> (r: bool)
        ensures
            r == (self == Provider::OpenAi),
    {
        match self {
            Provider::OpenAi => true,
            _ => false,
        }
    }
}

/// The executable names.
pub open spec fn binary_name_spec(p: Provider, windows: bool) -> Seq<char> {
    match (p, windows) {
        (Provider::Cloudflare, true) => "cloudflared.exe"@,
        (Provider::Cloudflare, false) => "cloudflared"@,
        (Provider::Ngrok, true) => "ngrok.exe"@,
        (Provider::Ngrok, false) => "ngrok"@,
        (Provider::OpenAi, true) => "tunnel-client.exe"@,
        (Provider::OpenAi, false) => "tunnel-client"@,
    }
}

/// The display names.
pub open spec fn display_spec(p: Provider) -> Seq<char> {
    match p {
        Provider::Cloudflare => "cloudflared"@,
        Provider::Ngrok => "ngrok"@,
        Provider::OpenAi => "tunnel-client"@,
    }
}

/// Every provider's identifier parses back to it.
pub proof fn law_provider_id_roundtrip(p: Provider, q: Provider)
    ensures
        provider_id(p) == provider_id(q) ==> p == q,
{
    reveal_strlit("cloudflare");
    reveal_strlit("ngrok");
    reveal_strlit("openai");
    assert("cloudflare"@.len() != "ngrok"@.len());
    assert("cloudflare"@.len() != "openai"@.len());
    assert("ngrok"@.len() != "openai"@.len());
}

/// Credentials: Cloudflare's optional token, ngrok's authtoken, or OpenAI's
/// Platform API key together with the tunnel id.
pub struct Creds {
    pub token: Option<String>,
    pub tunnel_id: Option<String>,
}

impl Creds {
    /// No credentials.
    pub fn empty() -> (r: Creds)
        ensures
            r.token is None,
            r.tunnel_id is None,
    {
        Creds { token: None, tunnel_id: None }
    }
}

/* ───────────── downloads ───────────── */

/// Download candidates: a GitHub URL is tried directly, then through two mirrors;
/// any other URL only directly.
pub open spec fn mirror_candidates_spec(url: Seq<char>) -> Seq<Seq<char>> {
    if has_prefix(url, "https://github.com"@) {
        seq![url, "https://mirror.ghproxy.com/"@ + url, "https://gh-proxy.com/"@ + url]
    } else {
        seq![url]
    }
}

/// The URLs to try, in order, for downloading `url`.
pub fn mirror_candidates(url: &str) -> (r: Vec<String>)
    ensures
        crate::oauth::string_views(r@) == mirror_candidates_spec(url@),
{
    let r = if !starts_with(url, "https://github.com") {
        vec![to_owned_string(url)]
    } else {
        let mut a = to_owned_string("https://mirror.ghproxy.com/");
        push_str(&mut a, url);
        let mut b = to_owned_string("https://gh-proxy.com/");
        push_str(&mut b, url);
        vec![to_owned_string(url), a, b]
    };
    proof {
        assert(crate::oauth::string_views(r@) =~= mirror_candidates_spec(url@));
    }
    r
}

/// The release-asset names of each supported platform.
pub open spec fn platform_spec(os: Seq<char>, arch: Seq<char>) -> Option<(Seq<char>, Seq<char>)> {
    if os == "macos"@ && arch == "aarch64"@ {
        Some(("darwin"@, "arm64"@))
    } else if os == "macos"@ && arch == "x86_64"@ {
        Some(("darwin"@, "amd64"@))
    } else if os == "linux"@ && arch == "x86_64"@ {
        Some(("linux"@, "amd64"@))
    } else if os == "linux"@ && arch == "aarch64"@ {
        Some(("linux"@, "arm64"@))
    } else if os == "windows"@ && arch == "x86_64"@ {
        Some(("windows"@, "amd64"@))
    } else {
        None
    }
}

/// Maps Rust's `(OS, ARCH)` to the release-asset names; other platforms are refused.
pub fn platform(os: &str, arch: &str) -> (r: Result<(&'static str, &'static str), String>)
    ensures
        r matches Ok(p) ==> platform_spec(os@, arch@) == Some((p.0@, p.1@)),
        r is Err ==> platform_spec(os@, arch@) is None,
        r matches Err(e) ==> e@ == "不支持的平台: "@ + os@ + "-"@ + arch@,
{
    if str_eq(os, "macos") && str_eq(arch, "aarch64") {
        Ok(("darwin", "arm64"))
    } else if str_eq(os, "macos") && str_eq(arch, "x86_64") {
        Ok(("darwin", "amd64"))
    } else if str_eq(os, "linux") && str_eq(arch, "x86_64") {
        Ok(("linux", "amd64"))
    } else if str_eq(os, "linux") && str_eq(arch, "aarch64") {
        Ok(("linux", "arm64"))
    } else if str_eq(os, "windows") && str_eq(arch, "x86_64") {
        Ok(("windows", "amd64"))
    } else {
        let mut e = to_owned_string("不支持的平台: ");
        push_str(&mut e, os);
        push_str(&mut e, "-");
        push_str(&mut e, arch);
        Err(e)
    }
}

/// The release asset of each provider for a platform (`tag` is the latest
/// tunnel-client release, used for OpenAI only).
pub open spec fn download_url_spec(p: Provider, os: Seq<char>, arch: Seq<char>, tag: Seq<char>) -> Seq<char> {
    let cf = "https://github.com/cloudflare/cloudflared/releases/latest/download"@;
    match p {
        Provider::Cloudflare => if os == "darwin"@ {
            cf + "/cloudflared-darwin-"@ + arch + ".tgz"@
        } else if os == "linux"@ {
            cf + "/cloudflared-linux-"@ + arch
        } else {
            cf + "/cloudflared-windows-amd64.exe"@
        },
        Provider::Ngrok => "https://bin.equinox.io/c/4VmDzA7iaHb/ngrok-stable-"@ + os + "-"@ + arch
            + ".zip"@,
        Provider::OpenAi => "https://github.com/openai/tunnel-client/releases/download/"@ + tag
            + "/tunnel-client-"@ + tag + "-"@ + os + "-"@ + arch + ".zip"@,
    }
}

/// The download URL of a provider's binary for a platform given by [`platform`].
pub fn download_url(p: Provider, os: &str, arch: &str, tag: &str) -> (r: String)
    requires
        os@ == "darwin"@ || os@ == "linux"@ || os@ == "windows"@,
    ensures
        r@ == download_url_spec(p, os@, arch@, tag@),
{
    match p {
        Provider::Cloudflare => {
            let mut u = to_owned_string(
                "https://github.com/cloudflare/cloudflared/releases/latest/download",
            );
            if str_eq(os, "darwin") {
                push_str(&mut u, "/cloudflared-darwin-");
                push_str(&mut u, arch);
                push_str(&mut u, ".tgz");
            } else if str_eq(os, "linux") {
                push_str(&mut u, "/cloudflared-linux-");
                push_str(&mut u, arch);
            } else {
                push_str(&mut u, "/cloudflared-windows-amd64.exe");
            }
            u
        },
        Provider::Ngrok => {
            let mut u = to_owned_string("https://bin.equinox.io/c/4VmDzA7iaHb/ngrok-stable-");
            push_str(&mut u, os);
            push_str(&mut u, "-");
            push_str(&mut u, arch);
            push_str(&mut u, ".zip");
            u
        },
        Provider::OpenAi => {
            let mut u = to_owned_string("https://github.com/openai/tunnel-client/releases/download/");
            push_str(&mut u, tag);
            push_str(&mut u, "/tunnel-client-");
            push_str(&mut u, tag);
            push_str(&mut u, "-");
            push_str(&mut u, os);
            push_str(&mut u, "-");
            push_str(&mut u, arch);
            push_str(&mut u, ".zip");
            u
        },
    }
}

/// How a downloaded file holds the binary.
#[derive(Clone, Copy, Debug, PartialEq, Eq, Structural)]
pub enum Packaging {
    Zip,
    Tgz,
    Plain,
}

/// A `.zip` URL is a zip archive, a `.tgz` URL a gzip'd tarball, anything else the binary.
pub fn packaging_of(url: &str) -> (r: Packaging)
    ensures
        r == (if has_suffix(url@, ".zip"@) {
            Packaging::Zip
        } else if has_suffix(url@, ".tgz"@) {
            Packaging::Tgz
        } else {
            Packaging::Plain
        }),
{
    if crate::text::ends_with(url, ".zip") {
        Packaging::Zip
    } else if crate::text::ends_with(url, ".tgz") {
        Packaging::Tgz
    } else {
        Packaging::Plain
    }
}

/// The path in the system search that `which` / `where` printed first.
pub open spec fn first_line_path_spec(out: Seq<char>) -> Option<Seq<char>> {
    let first = first_line(out);
    if trim_seq(first).len() == 0 {
        None
    } else {
        Some(trim_seq(first))
    }
}

/// The characters of `s` before its first `\n` (all of `s` without one).
pub open spec fn first_line(s: Seq<char>) -> Seq<char> {
    if exists|i: int| 0 <= i < s.len() && s[i] == '\n' {
        s.take(choose|i: int| 0 <= i < s.len() && s[i] == '\n' && forall|j: int| 0 <= j < i ==> s[j] != '\n')
    } else {
        s
    }
}

/// Reads the first path out of `which` / `where` output.
pub fn first_line_path(out: &str) -> (r: Option<String>)
    ensures
        crate::gateway::opt_str_view_owned(r) == first_line_path_spec(out@),
{
    let cs = chars_of(out);
    let mut i: usize = 0;
    while i < cs.len() && cs[i] != '\n'
        invariant
            i <= cs@.len(),
            cs@ == out@,
            forall|j: int| 0 <= j < i ==> cs@[j] != '\n',
        decreases cs.len() - i,
    {
        i = i + 1;
    }
    proof {
        if i < cs.len() {
            assert(exists|k: int| 0 <= k < out@.len() && out@[k] == '\n');
            let k = choose|k: int| 0 <= k < out@.len() && out@[k] == '\n' && forall|j: int| 0 <= j < k ==> out@[j] != '\n';
            assert(out@[i as int] == '\n');
            if k < i {
                assert(cs@[k] != '\n');
            }
            if k > i {
                assert(out@[i as int] != '\n');
            }
            assert(first_line(out@) == out@.take(i as int));
        } else {
            assert(first_line(out@) == out@);
            assert(out@.take(i as int) =~= out@);
        }
    }
    let line = string_from_chars(&cs, 0, i);
    proof {
        assert(line@ =~= first_line(out@)) by {
            assert(cs@.subrange(0, i as int) =~= out@.take(i as int));
        }
    }
    let t = trim(line.as_str());
    if t.as_str().is_empty() {
        None
    } else {
        Some(t)
    }
}

/* ───────────── command lines ───────────── */

/// `http://127.0.0.1:<port>`.
pub open spec fn local_url(port: u16) -> Seq<char> {
    "http://127.0.0.1:"@ + decimal(port as nat)
}

fn local_url_exec(port: u16) -> (r: String)
    ensures
        r@ == local_url(port),
{
    let mut u = to_owned_string("http://127.0.0.1:");
    push_decimal(&mut u, port as u64);
    u
}

/// `cloudflared` arguments for a quick tunnel to the gateway: QUIC by default,
/// HTTP/2 on the fallback attempt.
pub open spec fn cloudflare_args_spec(port: u16, http2: bool) -> Seq<Seq<char>> {
    let base = seq!["tunnel"@, "--url"@, local_url(port), "--no-autoupdate"@];
    if http2 {
        base + seq!["--protocol"@, "http2"@]
    } else {
        base
    }
}

/// The arguments of one `cloudflared` attempt.
pub fn cloudflare_args(port: u16, http2: bool) -> (r: Vec<String>)
    ensures
        crate::oauth::string_views(r@) == cloudflare_args_spec(port, http2),
{
    let mut v = vec![
        to_owned_string("tunnel"),
        to_owned_string("--url"),
        local_url_exec(port),
        to_owned_string("--no-autoupdate"),
    ];
    if http2 {
        v.push(to_owned_string("--protocol"));
        v.push(to_owned_string("http2"));
    }
    proof {
        assert(crate::oauth::string_views(v@) =~= cloudflare_args_spec(port, http2));
    }
    v
}

/// Seconds to wait for the public URL: 25 for QUIC, 40 for the HTTP/2 fallback.
pub fn cloudflare_wait_secs(http2: bool) -> (r: u64)
    ensures
        r == (if http2 {
            40u64
        } else {
            25u64
        }),
{
    if http2 {
        40
    } else {
        25
    }
}

/// `ngrok` arguments: HTTP tunnel to the gateway, JSON logs on stdout.
pub open spec fn ngrok_args_spec(port: u16, token: Seq<char>) -> Seq<Seq<char>> {
    seq![
        "http"@,
        "127.0.0.1:"@ + decimal(port as nat),
        "--authtoken"@,
        token,
        "--log"@,
        "stdout"@,
        "--log-format"@,
        "json"@,
    ]
}

/// The arguments of `ngrok`.
pub fn ngrok_args(port: u16, token: &str) -> (r: Vec<String>)
    ensures
        crate::oauth::string_views(r@) == ngrok_args_spec(port, token@),
{
    let mut addr = to_owned_string("127.0.0.1:");
    push_decimal(&mut addr, port as u64);
    let v = vec![
        to_owned_string("http"),
        addr,
        to_owned_string("--authtoken"),
        to_owned_string(token),
        to_owned_string("--log"),
        to_owned_string("stdout"),
        to_owned_string("--log-format"),
        to_owned_string("json"),
    ];
    proof {
        assert(crate::oauth::string_views(v@) =~= ngrok_args_spec(port, token@));
    }
    v
}

/// `tunnel-client init` arguments: a `mcp-bridge` profile pointing at the gateway's `/mcp`.
pub open spec fn openai_init_args_spec(port: u16, tunnel_id: Seq<char>) -> Seq<Seq<char>> {
    seq![
        "init"@,
        "--profile"@,
        "mcp-bridge"@,
        "--tunnel-id"@,
        tunnel_id,
        "--mcp-server-url"@,
        local_url(port) + "/mcp"@,
    ]
}

/// The arguments of `tunnel-client init`.
pub fn openai_init_args(port: u16, tunnel_id: &str) -> (r: Vec<String>)
    ensures
        crate::oauth::string_views(r@) == openai_init_args_spec(port, tunnel_id@),
{
    let mut url = local_url_exec(port);
    push_str(&mut url, "/mcp");
    let v = vec![
        to_owned_string("init"),
        to_owned_string("--profile"),
        to_owned_string("mcp-bridge"),
        to_owned_string("--tunnel-id"),
        to_owned_string(tunnel_id),
        to_owned_string("--mcp-server-url"),
        url,
    ];
    proof {
        assert(crate::oauth::string_views(v@) =~= openai_init_args_spec(port, tunnel_id@));
    }
    v
}

/// The arguments of `tunnel-client run`.
pub fn openai_run_args() -> (r: Vec<String>)
    ensures
        crate::oauth::string_views(r@) == seq!["run"@, "--profile"@, "mcp-bridge"@],
{
    let v = vec![to_owned_string("run"), to_owned_string("--profile"), to_owned_string("mcp-bridge")];
    proof {
        assert(crate::oauth::string_views(v@) =~= seq!["run"@, "--profile"@, "mcp-bridge"@]);
    }
    v
}

/// The message naming the first missing credential: ngrok's authtoken; for
/// OpenAI the API key, then the tunnel id.
pub open spec fn missing_credential_spec(p: Provider, has_token: bool, has_tunnel_id: bool) -> Seq<char> {
    match p {
        Provider::Ngrok => "ngrok 需要 authtoken"@,
        Provider::OpenAi => if !has_token {
            "OpenAI Tunnel 需要 Platform API Key"@
        } else {
            "OpenAI Tunnel 需要 tunnel_id"@
        },
        Provider::Cloudflare => Seq::empty(),
    }
}

/// The credentials each provider needs before it starts: ngrok an authtoken,
/// OpenAI an API key and a tunnel id; the message names what is missing.
pub fn missing_credential(p: Provider, creds: &Creds) -> (r: Option<&'static str>)
    ensures
        r is None <==> match p {
            Provider::Cloudflare => true,
            Provider::Ngrok => creds.token is Some,
            Provider::OpenAi => creds.token is Some && creds.tunnel_id is Some,
        },
        r matches Some(m) ==> m@ == missing_credential_spec(p, creds.token is Some, creds.tunnel_id is Some),
{
    match p {
        Provider::Cloudflare => None,
        Provider::Ngrok => if creds.token.is_none() {
            Some("ngrok 需要 authtoken")
        } else {
            None
        },
        Provider::OpenAi => if creds.token.is_none() {
            Some("OpenAI Tunnel 需要 Platform API Key")
        } else if creds.tunnel_id.is_none() {
            Some("OpenAI Tunnel 需要 tunnel_id")
        } else {
            None
        },
    }
}

/* ───────────── reading what the tunnels print ───────────── */

/// A character that ends the URL in a `cloudflared` log line.
pub open spec fn url_end_char(c: char) -> bool {
    is_ws(c) || c == '|'
}

/// The quick-tunnel URL in a `cloudflared` log line: the line must mention
/// `trycloudflare.com`; the URL starts at the first `https://` and runs up to the
/// next whitespace or `|`.
pub open spec fn trycloudflare_url_spec(line: Seq<char>) -> Option<Seq<char>> {
    if !contains_seq(line, "https://"@) || !contains_seq(line, "trycloudflare.com"@) {
        None
    } else {
        let pos = choose|i: int| first_occurrence_from(line, "https://"@, 0, i);
        let rest = line.skip(pos);
        let end = if exists|j: int| 0 <= j < rest.len() && url_end_char(rest[j]) {
            choose|j: int|
                0 <= j < rest.len() && url_end_char(rest[j]) && forall|k: int|
                    0 <= k < j ==> !url_end_char(rest[k])
        } else {
            rest.len() as int
        };
        Some(rest.take(end))
    }
}

proof fn lemma_first_occurrence_unique(s: Seq<char>, n: Seq<char>, i: int, j: int)
    requires
        first_occurrence_from(s, n, 0, i),
        first_occurrence_from(s, n, 0, j),
    ensures
        i == j,
{
    if i < j {
        assert(!occurs_at(s, n, i));
    }
    if j < i {
        assert(!occurs_at(s, n, j));
    }
}

/// Extracts the `https://....trycloudflare.com` URL from a `cloudflared` log line.
pub fn trycloudflare_url(line: &str) -> (r: Option<String>)
    ensures
        crate::gateway::opt_str_view_owned(r) == trycloudflare_url_spec(line@),
{
    let cs = chars_of(line);
    let https = chars_of("https://");
    let pos = match find_from(&cs, &https, 0) {
        Some(p) => p,
        None => {
            proof {
                if contains_seq(line@, "https://"@) {
                    let k = choose|k: int| occurs_at(line@, "https://"@, k);
                    assert(!occurs_at(line@, "https://"@, k));
                }
            }
            return None;
        },
    };
    if !contains_str(line, "trycloudflare.com") {
        return None;
    }
    proof {
        let p2 = choose|i: int| first_occurrence_from(line@, "https://"@, 0, i);
        lemma_first_occurrence_unique(line@, "https://"@, pos as int, p2);
    }
    let mut end: usize = pos;
    while end < cs.len() && !(is_ws_exec(cs[end]) || cs[end] == '|')
        invariant
            pos <= end <= cs@.len(),
            cs@ == line@,
            forall|k: int| pos <= k < end ==> !url_end_char(#[trigger] cs@[k]),
        decreases cs.len() - end,
    {
        end = end + 1;
    }
    let ghost rest = line@.skip(pos as int);
    proof {
        let e = end - pos;
        if end < cs.len() {
            assert(url_end_char(rest[e]));
            let j = choose|j: int|
                0 <= j < rest.len() && url_end_char(rest[j]) && forall|k: int|
                    0 <= k < j ==> !url_end_char(rest[k]);
            if j < e {
                assert(rest[j] == cs@[pos + j]);
            }
            if j > e {
                assert(!url_end_char(rest[e]));
            }
        } else {
            assert forall|j: int| 0 <= j < rest.len() implies !url_end_char(rest[j]) by {
                assert(rest[j] == cs@[pos + j]);
            }
        }
        assert(cs@.subrange(pos as int, end as int) =~= rest.take(e));
    }
    Some(string_from_chars(&cs, pos, end))
}

/// The public address among ngrok's tunnels: the first `public_url` on `https://`.
pub open spec fn first_https_spec(urls: Seq<Seq<char>>) -> Option<Seq<char>>
    decreases urls.len(),
{
    if urls.len() == 0 {
        None
    } else if has_prefix(urls[0], "https://"@) {
        Some(urls[0])
    } else {
        first_https_spec(urls.drop_first())
    }
}

/// Picks ngrok's HTTPS public URL.
pub fn first_https(urls: &Vec<String>) -> (r: Option<String>)
    ensures
        crate::gateway::opt_str_view_owned(r) == first_https_spec(crate::oauth::string_views(urls@)),
{
    let ghost all = crate::oauth::string_views(urls@);
    proof {
        assert(all.skip(0) =~= all);
    }
    let mut i: usize = 0;
    while i < urls.len()
        invariant
            i <= urls@.len(),
            all == crate::oauth::string_views(urls@),
            first_https_spec(all) == first_https_spec(all.skip(i as int)),
        decreases urls.len() - i,
    {
        proof {
            assert(all.skip(i as int)[0] == urls@[i as int]@);
            assert(all.skip(i as int).drop_first() =~= all.skip(i + 1));
        }
        if starts_with(urls[i].as_str(), "https://") {
            return Some(urls[i].clone());
        }
        i = i + 1;
    }
    proof {
        assert(all.skip(i as int).len() == 0);
    }
    None
}

/// The public MCP address of a tunnel URL.
pub fn public_mcp_url(tunnel_url: &str) -> (r: String)
    ensures
        r@ == tunnel_url@ + "/mcp"@,
{
    let mut u = to_owned_string(tunnel_url);
    push_str(&mut u, "/mcp");
    u
}


/* ───────────── decisions of the tunnel loops ───────────── */

/// One download attempt: the URL and whether it goes through the system proxy.
pub open spec fn attempt_views(v: Seq<(String, bool)>) -> Seq<(Seq<char>, bool)> {
    v.map_values(|a: (String, bool)| (a.0@, a.1))
}

/// The download attempts for a list of candidates: each candidate first
/// directly, then through the system proxy when there is one.
pub open spec fn download_plan(cands: Seq<Seq<char>>, has_proxy: bool) -> Seq<(Seq<char>, bool)>
    decreases cands.len(),
{
    if cands.len() == 0 {
        Seq::empty()
    } else {
        let c = cands.last();
        let tail = if has_proxy {
            seq![(c, false), (c, true)]
        } else {
            seq![(c, false)]
        };
        download_plan(cands.drop_last(), has_proxy) + tail
    }
}

/// The attempts, in order, for downloading `url`: the mirror candidates of
/// [`mirror_candidates`], each direct and then through the proxy when one exists.
pub fn download_attempts(url: &str, has_proxy: bool) -> (r: Vec<(String, bool)>)
    ensures
        attempt_views(r@) == download_plan(mirror_candidates_spec(url@), has_proxy),
{
    let cands = mirror_candidates(url);
    let ghost cs = crate::oauth::string_views(cands@);
    let mut out: Vec<(String, bool)> = Vec::new();
    let mut i: usize = 0;
    proof {
        assert(cs.take(0) =~= Seq::<Seq<char>>::empty());
        assert(attempt_views(out@) =~= Seq::<(Seq<char>, bool)>::empty());
    }
    while i < cands.len()
        invariant
            i <= cands@.len(),
            cs == crate::oauth::string_views(cands@),
            attempt_views(out@) == download_plan(cs.take(i as int), has_proxy),
        decreases cands.len() - i,
    {
        let ghost before = out@;
        out.push((cands[i].clone(), false));
        if has_proxy {
            out.push((cands[i].clone(), true));
        }
        proof {
            let t = cs.take(i + 1);
            assert(t.drop_last() =~= cs.take(i as int));
            assert(t.last() == cands@[i as int]@);
            if has_proxy {
                assert(attempt_views(out@) =~= attempt_views(before) + seq![
                    (cands@[i as int]@, false),
                    (cands@[i as int]@, true),
                ]);
            } else {
                assert(attempt_views(out@) =~= attempt_views(before) + seq![(cands@[i as int]@, false)]);
            }
        }
        i = i + 1;
    }
    proof {
        assert(cs.take(i as int) =~= cs);
    }
    out
}

/// What the cloudflared start-up does next.
#[derive(PartialEq, Eq, Debug)]
pub enum CfStep {
    /// The quick-tunnel URL was found.
    Found(String),
    /// The QUIC attempt gave no URL: retry over HTTP/2.
    RetryHttp2,
    /// The HTTP/2 attempt gave no URL either.
    Fail,
}

/// After an attempt (`http2` tells which) that found `url` or not: keep the URL,
/// fall back from QUIC to HTTP/2, or give up after HTTP/2.
pub fn cloudflare_next(http2: bool, url: Option<String>) -> (r: CfStep)
    ensures
        url matches Some(u) ==> r == CfStep::Found(u),
        url is None && !http2 ==> r == CfStep::RetryHttp2,
        url is None && http2 ==> r == CfStep::Fail,
{
    match url {
        Some(u) => CfStep::Found(u),
        None => if http2 {
            CfStep::Fail
        } else {
            CfStep::RetryHttp2
        },
    }
}

/// How long the ngrok start-up waits for its local API to report a URL.
pub const NGROK_TIMEOUT_MS: u64 = 25_000;

/// The pause between two queries of ngrok's local API.
pub const NGROK_POLL_MS: u64 = 500;

/// What the ngrok start-up does next.
#[derive(PartialEq, Eq, Debug)]
pub enum PollStep {
    /// ngrok reported its HTTPS public URL.
    Found(String),
    /// No URL within 25 seconds.
    TimedOut,
    /// Ask again after this many milliseconds.
    Wait(u64),
}

/// After a query of ngrok's local API that listed `urls`, `elapsed_ms` after the
/// start: the first HTTPS URL is taken; else the start-up gives up at 25 s, and
/// otherwise asks again in 500 ms.
pub fn ngrok_poll_next(elapsed_ms: u64, urls: &Vec<String>) -> (r: PollStep)
    ensures
        ({
            match first_https_spec(crate::oauth::string_views(urls@)) {
                Some(u) => r matches PollStep::Found(f) && f@ == u,
                None => if elapsed_ms >= NGROK_TIMEOUT_MS {
                    r == PollStep::TimedOut
                } else {
                    r == PollStep::Wait(NGROK_POLL_MS)
                },
            }
        }),
{
    match first_https(urls) {
        Some(u) => PollStep::Found(u),
        None => if elapsed_ms >= NGROK_TIMEOUT_MS {
            PollStep::TimedOut
        } else {
            PollStep::Wait(NGROK_POLL_MS)
        },
    }
}

/// What `ensure_tunnel` does once the tunnel component is there.
#[derive(PartialEq, Eq, Debug)]
pub enum TunnelStep {
    /// The gateway has not been started (step 1 is not done).
    NoGateway,
    /// Go on: restart the gateway when its authentication mode changes, run it
    /// with `allow_noauth`, and start a tunnel when none is running.
    Ready { restart_gateway: bool, allow_noauth: bool, start_tunnel: bool },
}

/// The decision of `ensure_tunnel`: OpenAI's tunnel has no public entry and is
/// authenticated on OpenAI's side, so the gateway runs without its own
/// authentication for it; the gateway is restarted only when that mode changes;
/// a tunnel is started only when none is running.
pub fn tunnel_step(p: Provider, gateway_port: Option<u16>, allow_noauth: bool, tunnel_running: bool) -> (r: TunnelStep)
    ensures
        gateway_port is None ==> r == TunnelStep::NoGateway,
        gateway_port is Some ==> r == (TunnelStep::Ready {
            restart_gateway: (p == Provider::OpenAi) != allow_noauth,
            allow_noauth: p == Provider::OpenAi,
            start_tunnel: !tunnel_running,
        }),
{
    match gateway_port {
        None => TunnelStep::NoGateway,
        Some(_) => {
            let need = p.needs_noauth();
            TunnelStep::Ready { restart_gateway: need != allow_noauth, allow_noauth: need, start_tunnel: !tunnel_running }
        },
    }
}

/// How many rounds the end-to-end self-check makes.
pub const SELF_CHECK_ROUNDS: u8 = 10;

/// The pause after each round of the self-check.
pub const SELF_CHECK_PAUSE_MS: u64 = 4_000;

/// What the end-to-end self-check does next.
#[derive(PartialEq, Eq, Debug)]
pub enum CheckAction {
    /// Call `initialize` through the public URL, directly or through the proxy.
    Probe { via_proxy: bool },
    /// Sleep, then start the next round.
    Wait(u64),
    /// A call succeeded.
    Done,
    /// Every round failed.
    GiveUp,
}

/// The number of probes in one round: direct, and through the proxy when there is one.
pub open spec fn probes_per_round(has_proxy: bool) -> nat {
    if has_proxy {
        2
    } else {
        1
    }
}

/// The next step of the self-check in round `attempt` (1 to 10; 11 once all ten
/// have ended) after `probes_done` probes of this round, the last of which
/// succeeded or not: a success ends the check; a round tries the direct call and
/// then, when there is a system proxy, the proxied one; each round is followed
/// by a 4-second pause; after the tenth the check gives up.
pub fn self_check_next(attempt: u8, probes_done: usize, has_proxy: bool, last_ok: bool) -> (r: CheckAction)
    requires
        1 <= attempt <= SELF_CHECK_ROUNDS + 1,
        probes_done <= probes_per_round(has_proxy),
    ensures
        r == (if last_ok {
            CheckAction::Done
        } else if attempt > SELF_CHECK_ROUNDS {
            CheckAction::GiveUp
        } else if probes_done < probes_per_round(has_proxy) {
            CheckAction::Probe { via_proxy: probes_done >= 1 }
        } else {
            CheckAction::Wait(SELF_CHECK_PAUSE_MS)
        }),
{
    let per_round: usize = if has_proxy {
        2
    } else {
        1
    };
    if last_ok {
        CheckAction::Done
    } else if attempt > SELF_CHECK_ROUNDS {
        CheckAction::GiveUp
    } else if probes_done < per_round {
        CheckAction::Probe { via_proxy: probes_done >= 1 }
    } else {
        CheckAction::Wait(SELF_CHECK_PAUSE_MS)
    }
}


/* ───────────── archives ───────────── */

/// Archive entries as plain values: each entry's path (absent when it is not
/// UTF-8) and its contents.
pub open spec fn entries_view(v: Seq<(Option<String>, Vec<u8>)>) -> Seq<(Option<Seq<char>>, Seq<u8>)> {
    v.map_values(|e: (Option<String>, Vec<u8>)| (crate::gateway::opt_str_view_owned(e.0), e.1@))
}

/// The entries read from an archive, in order, up to the first failure, and that
/// failure's message (absent when the whole archive was read).
pub open spec fn listing_view(l: (Vec<(Option<String>, Vec<u8>)>, Option<String>)) -> (Seq<(Option<Seq<char>>, Seq<u8>)>, Option<Seq<char>>) {
    (entries_view(l.0@), crate::gateway::opt_str_view_owned(l.1))
}

/// What the `zip` crate reads from a zip archive (see [`zip_entries`]).
pub uninterp spec fn zip_entries_of(archive: Seq<u8>) -> (Seq<(Option<Seq<char>>, Seq<u8>)>, Option<Seq<char>>);

/// What `flate2` and `tar` read from a gzip'd tarball (see [`tgz_entries`]).
pub uninterp spec fn tgz_entries_of(archive: Seq<u8>) -> (Seq<(Option<Seq<char>>, Seq<u8>)>, Option<Seq<char>>);

/// Opens `archive` with `zip::ZipArchive::new` and reads each entry
/// (`ZipArchive::by_index`, `ZipFile::name`, `Read::read_to_end`), in order; the
/// first error stops the reading and is returned as text. Claims only that the
/// result is a function of the bytes, named [`zip_entries_of`].
#[verifier::external_body]
fn zip_entries(archive: &[u8]) -> (r: (Vec<(Option<String>, Vec<u8>)>, Option<String>))
    ensures
        listing_view(r) == zip_entries_of(archive@),
{
    let mut out = Vec::new();
    let mut zip = match zip::ZipArchive::new(std::io::Cursor::new(archive)) { Ok(z) => z, Err(e) => return (out, Some(e.to_string())) };
    for i in 0..zip.len() {
        let mut f = match zip.by_index(i) { Ok(f) => f, Err(e) => return (out, Some(e.to_string())) };
        let mut data = Vec::new();
        if let Err(e) = f.read_to_end(&mut data) { return (out, Some(e.to_string())); }
        out.push((Some(f.name().to_owned()), data));
    }
    (out, None)
}

/// Opens `archive` with `tar::Archive::new(flate2::read::GzDecoder::new(..))` and
/// reads each entry (`Archive::entries`, `Entry::path`, `Read::read_to_end`), in
/// order; the first error stops the reading and is returned as text. Claims only
/// that the result is a function of the bytes, named [`tgz_entries_of`].
#[verifier::external_body]
fn tgz_entries(archive: &[u8]) -> (r: (Vec<(Option<String>, Vec<u8>)>, Option<String>))
    ensures
        listing_view(r) == tgz_entries_of(archive@),
{
    let mut out = Vec::new();
    let mut ar = tar::Archive::new(flate2::read::GzDecoder::new(archive));
    let entries = match ar.entries() { Ok(x) => x, Err(e) => return (out, Some(e.to_string())) };
    for entry in entries {
        let mut e = match entry { Ok(e) => e, Err(err) => return (out, Some(err.to_string())) };
        let mut data = Vec::new();
        if let Err(err) = e.read_to_end(&mut data) { return (out, Some(err.to_string())); }
        out.push((e.path().ok().and_then(|p| p.to_str().map(str::to_owned)), data));
    }
    (out, None)
}

/// The contents of the first entry whose path ends with `want`.
pub open spec fn first_with_suffix(entries: Seq<(Option<Seq<char>>, Seq<u8>)>, want: Seq<char>) -> Option<Seq<u8>>
    decreases entries.len(),
{
    if entries.len() == 0 {
        None
    } else if entries[0].0 matches Some(n) && has_suffix(n, want) {
        Some(entries[0].1)
    } else {
        first_with_suffix(entries.drop_first(), want)
    }
}

/// The contents of the first entry whose path ends with `want`.
pub fn binary_in_entries(entries: &Vec<(Option<String>, Vec<u8>)>, want: &str) -> (r: Option<Vec<u8>>)
    ensures
        (match r {
            Some(b) => Some(b@),
            None => None::<Seq<u8>>,
        }) == first_with_suffix(entries_view(entries@), want@),
{
    let ghost all = entries_view(entries@);
    proof {
        assert(all.skip(0) =~= all);
    }
    let mut i: usize = 0;
    while i < entries.len()
        invariant
            i <= entries@.len(),
            all == entries_view(entries@),
            first_with_suffix(all, want@) == first_with_suffix(all.skip(i as int), want@),
        decreases entries.len() - i,
    {
        proof {
            assert(all.skip(i as int)[0] == all[i as int]);
            assert(all.skip(i as int).drop_first() =~= all.skip(i + 1));
        }
        let hit = match &entries[i].0 {
            Some(n) => crate::text::ends_with(n.as_str(), want),
            None => false,
        };
        if hit {
            let b = entries[i].1.clone();
            proof {
                assert(b@ =~= entries@[i as int].1@);
            }
            return Some(b);
        }
        i = i + 1;
    }
    proof {
        assert(all.skip(i as int).len() == 0);
    }
    None
}

/// The binary `want` out of an archive listing: the first entry whose path ends
/// with it; else the reading error, if reading stopped early; else a message
/// that `kind` (`zip` or `tgz`) holds no such entry.
pub open spec fn extracted(
    listing: (Seq<(Option<Seq<char>>, Seq<u8>)>, Option<Seq<char>>),
    want: Seq<char>,
    kind: Seq<char>,
) -> Result<Seq<u8>, Seq<char>> {
    match first_with_suffix(listing.0, want) {
        Some(b) => Ok(b),
        None => match listing.1 {
            Some(e) => Err(e),
            None => Err(kind + " 中未找到 "@ + want),
        },
    }
}

fn extract(listing: (Vec<(Option<String>, Vec<u8>)>, Option<String>), want: &str, kind: &str) -> (r: Result<Vec<u8>, String>)
    ensures
        (match r {
            Ok(b) => Ok(b@),
            Err(e) => Err(e@),
        }) == extracted(listing_view(listing), want@, kind@),
{
    match binary_in_entries(&listing.0, want) {
        Some(b) => Ok(b),
        None => match listing.1 {
            Some(e) => Err(e),
            None => {
                let mut m = to_owned_string(kind);
                push_str(&mut m, " 中未找到 ");
                push_str(&mut m, want);
                Err(m)
            },
        },
    }
}

/// The binary `want` out of a zip archive (see [`extracted`]).
pub fn binary_from_zip(archive: &[u8], want: &str) -> (r: Result<Vec<u8>, String>)
    ensures
        (match r {
            Ok(b) => Ok(b@),
            Err(e) => Err(e@),
        }) == extracted(zip_entries_of(archive@), want@, "zip"@),
{
    extract(zip_entries(archive), want, "zip")
}

/// The binary `want` out of a gzip'd tarball (see [`extracted`]).
pub fn binary_from_tgz(archive: &[u8], want: &str) -> (r: Result<Vec<u8>, String>)
    ensures
        (match r {
            Ok(b) => Ok(b@),
            Err(e) => Err(e@),
        }) == extracted(tgz_entries_of(archive@), want@, "tgz"@),
{
    extract(tgz_entries(archive), want, "tgz")
}

/* ───────────── JSON answers ───────────── */

/// The `tag_name` that `serde_json` reads from a GitHub release answer.
pub uninterp spec fn release_tag_of(body: Seq<char>) -> Option<Seq<char>>;

/// Parses `body` with `serde_json::from_str::<serde_json::Value>` and reads
/// `tag_name` with `Value::as_str`; `None` when the body is not JSON or has no
/// string `tag_name`. Claims only that the result is a function of the body,
/// named [`release_tag_of`].
#[verifier::external_body]
pub fn release_tag(body: &str) -> (r: Option<String>)
    ensures
        crate::gateway::opt_str_view_owned(r) == release_tag_of(body@),
{
    serde_json::from_str::<serde_json::Value>(body).ok()?.get("tag_name")?.as_str().map(str::to_owned)
}

/// The `public_url` of each entry of `tunnels` that `serde_json` reads from
/// ngrok's local API answer (each absent when it is not a string).
pub uninterp spec fn tunnel_urls_of(body: Seq<char>) -> Option<Seq<Option<Seq<char>>>>;

/// The view of a list of optional strings.
pub open spec fn opt_strings_view(v: Seq<Option<String>>) -> Seq<Option<Seq<char>>> {
    v.map_values(|o: Option<String>| crate::gateway::opt_str_view_owned(o))
}

/// Parses `body` with `serde_json::from_str::<serde_json::Value>`, takes the
/// array `tunnels` (`Value::as_array`) and reads each entry's `public_url` with
/// `Value::as_str`; `None` when the body is not JSON or `tunnels` is not an
/// array. Claims only that the result is a function of the body, named
/// [`tunnel_urls_of`].
#[verifier::external_body]
fn tunnel_urls(body: &str) -> (r: Option<Vec<Option<String>>>)
    ensures
        (match r {
            Some(v) => Some(opt_strings_view(v@)),
            None => None::<Seq<Option<Seq<char>>>>,
        }) == tunnel_urls_of(body@),
{
    let v: serde_json::Value = serde_json::from_str(body).ok()?;
    let arr = v.get("tunnels")?.as_array()?;
    Some(arr.iter().map(|t| t.get("public_url").and_then(serde_json::Value::as_str).map(str::to_owned)).collect())
}

/// The public URLs listed in ngrok's answer, a missing one as the empty string;
/// none when the answer lists no tunnels.
pub open spec fn public_urls_spec(listed: Option<Seq<Option<Seq<char>>>>) -> Seq<Seq<char>> {
    match listed {
        Some(l) => l.map_values(|o: Option<Seq<char>>| match o {
            Some(u) => u,
            None => Seq::<char>::empty(),
        }),
        None => Seq::empty(),
    }
}

/// The public URLs in an answer of ngrok's local API (`/api/tunnels`), in order.
pub fn ngrok_public_urls(body: &str) -> (r: Vec<String>)
    ensures
        crate::oauth::string_views(r@) == public_urls_spec(tunnel_urls_of(body@)),
{
    let mut out: Vec<String> = Vec::new();
    match tunnel_urls(body) {
        None => {
            proof {
                assert(crate::oauth::string_views(out@) =~= public_urls_spec(tunnel_urls_of(body@)));
            }
            out
        },
        Some(listed) => {
            let ghost lv = opt_strings_view(listed@);
            let mut i: usize = 0;
            while i < listed.len()
                invariant
                    i <= listed@.len(),
                    lv == opt_strings_view(listed@),
                    Some(lv) == tunnel_urls_of(body@),
                    crate::oauth::string_views(out@) == public_urls_spec(Some(lv.take(i as int))),
                decreases listed.len() - i,
            {
                let u = match &listed[i] {
                    Some(u) => u.clone(),
                    None => String::new(),
                };
                let ghost prev = out@;
                proof {
                    assert(lv[i as int] == crate::gateway::opt_str_view_owned(listed@[i as int]));
                    assert(u@ == (match lv[i as int] {
                        Some(x) => x,
                        None => Seq::<char>::empty(),
                    }));
                }
                out.push(u);
                proof {
                    assert(crate::oauth::string_views(out@) =~= crate::oauth::string_views(prev).push(u@));
                    assert(lv.take(i + 1) =~= lv.take(i as int).push(lv[i as int]));
                    assert(crate::oauth::string_views(out@) =~= public_urls_spec(Some(lv.take(i + 1))));
                }
                i = i + 1;
            }
            proof {
                assert(lv.take(i as int) =~= lv);
            }
            out
        },
    }
}

/// Each supported platform gets the release asset of its own CPU and OS:
/// `x86_64` is `amd64`, `aarch64` is `arm64`; `macos` is `darwin`, `linux` and
/// `windows` keep their names.
pub proof fn law_platform_assets(os: Seq<char>, arch: Seq<char>)
    ensures
        platform_spec(os, arch) matches Some(p) ==> {
            &&& (arch == "x86_64"@ ==> p.1 == "amd64"@)
            &&& (arch == "aarch64"@ ==> p.1 == "arm64"@)
            &&& (os == "macos"@ ==> p.0 == "darwin"@)
            &&& (os == "linux"@ ==> p.0 == "linux"@)
            &&& (os == "windows"@ ==> p.0 == "windows"@)
        },
        platform_spec("macos"@, "x86_64"@) == Some(("darwin"@, "amd64"@)),
        platform_spec("macos"@, "aarch64"@) == Some(("darwin"@, "arm64"@)),
        platform_spec("linux"@, "x86_64"@) == Some(("linux"@, "amd64"@)),
        platform_spec("linux"@, "aarch64"@) == Some(("linux"@, "arm64"@)),
        platform_spec("windows"@, "x86_64"@) == Some(("windows"@, "amd64"@)),
{
    reveal_strlit("x86_64");
    reveal_strlit("aarch64");
    reveal_strlit("macos");
    reveal_strlit("linux");
    reveal_strlit("windows");
    assert("x86_64"@.len() != "aarch64"@.len());
    assert("macos"@[0] != "linux"@[0]);
    assert("macos"@.len() != "windows"@.len());
    assert("linux"@.len() != "windows"@.len());
}

} // verus!
