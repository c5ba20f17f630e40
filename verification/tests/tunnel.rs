use bridge_core::tunnel::{
    cloudflare_args, cloudflare_wait_secs, download_url, first_https, first_line_path,
    mirror_candidates, missing_credential, ngrok_args, openai_init_args, openai_run_args,
    packaging_of, platform, public_mcp_url, trycloudflare_url, Creds, Packaging, Provider,
};
use bridge_core::tunnel::{
    binary_from_tgz, binary_from_zip, ngrok_public_urls, release_tag, cloudflare_next, download_attempts, ngrok_poll_next, self_check_next, tunnel_step, CfStep,
    CheckAction, PollStep, TunnelStep,
};

#[test]
fn provider_ids() {
    assert_eq!(Provider::from_id("cloudflare"), Ok(Provider::Cloudflare));
    assert_eq!(Provider::from_id("ngrok"), Ok(Provider::Ngrok));
    assert_eq!(Provider::from_id("openai"), Ok(Provider::OpenAi));
    assert_eq!(Provider::from_id("frp"), Err("未知隧道方案: frp".to_string()));
    assert_eq!(Provider::Cloudflare.binary_name(false), "cloudflared");
    assert_eq!(Provider::Cloudflare.binary_name(true), "cloudflared.exe");
    assert_eq!(Provider::Ngrok.binary_name(true), "ngrok.exe");
    assert_eq!(Provider::OpenAi.binary_name(false), "tunnel-client");
    assert_eq!(Provider::OpenAi.display(), "tunnel-client");
    assert_eq!(Provider::Cloudflare.display(), "cloudflared");
    assert_eq!(Provider::OpenAi.dir_name(), "openai");
    assert!(Provider::OpenAi.needs_noauth());
    assert!(!Provider::Ngrok.needs_noauth());
}

#[test]
fn mirrors_only_for_github() {
    let u = "https://github.com/cloudflare/cloudflared/releases/latest/download/cloudflared-linux-amd64";
    assert_eq!(
        mirror_candidates(u),
        vec![
            u.to_string(),
            format!("https://mirror.ghproxy.com/{}", u),
            format!("https://gh-proxy.com/{}", u)
        ]
    );
    let n = "https://bin.equinox.io/c/x.zip";
    assert_eq!(mirror_candidates(n), vec![n.to_string()]);
}

#[test]
fn platforms_and_downloads() {
    assert_eq!(platform("macos", "aarch64"), Ok(("darwin", "arm64")));
    assert_eq!(platform("linux", "x86_64"), Ok(("linux", "amd64")));
    assert_eq!(platform("windows", "x86_64"), Ok(("windows", "amd64")));
    assert_eq!(platform("freebsd", "x86_64"), Err("不支持的平台: freebsd-x86_64".to_string()));
    assert_eq!(
        download_url(Provider::Cloudflare, "darwin", "arm64", ""),
        "https://github.com/cloudflare/cloudflared/releases/latest/download/cloudflared-darwin-arm64.tgz"
    );
    assert_eq!(
        download_url(Provider::Cloudflare, "linux", "amd64", ""),
        "https://github.com/cloudflare/cloudflared/releases/latest/download/cloudflared-linux-amd64"
    );
    assert_eq!(
        download_url(Provider::Cloudflare, "windows", "amd64", ""),
        "https://github.com/cloudflare/cloudflared/releases/latest/download/cloudflared-windows-amd64.exe"
    );
    assert_eq!(
        download_url(Provider::Ngrok, "linux", "arm64", ""),
        "https://bin.equinox.io/c/4VmDzA7iaHb/ngrok-stable-linux-arm64.zip"
    );
    assert_eq!(
        download_url(Provider::OpenAi, "darwin", "amd64", "v1.2.3"),
        "https://github.com/openai/tunnel-client/releases/download/v1.2.3/tunnel-client-v1.2.3-darwin-amd64.zip"
    );
    assert_eq!(packaging_of("a/b.zip"), Packaging::Zip);
    assert_eq!(packaging_of("a/b.tgz"), Packaging::Tgz);
    assert_eq!(packaging_of("a/b"), Packaging::Plain);
}

#[test]
fn command_lines() {
    assert_eq!(
        cloudflare_args(8080, false),
        vec!["tunnel", "--url", "http://127.0.0.1:8080", "--no-autoupdate"]
    );
    assert_eq!(
        cloudflare_args(8080, true),
        vec!["tunnel", "--url", "http://127.0.0.1:8080", "--no-autoupdate", "--protocol", "http2"]
    );
    assert_eq!(cloudflare_wait_secs(false), 25);
    assert_eq!(cloudflare_wait_secs(true), 40);
    assert_eq!(
        ngrok_args(9, "tok"),
        vec!["http", "127.0.0.1:9", "--authtoken", "tok", "--log", "stdout", "--log-format", "json"]
    );
    assert_eq!(
        openai_init_args(1234, "tid"),
        vec![
            "init",
            "--profile",
            "mcp-bridge",
            "--tunnel-id",
            "tid",
            "--mcp-server-url",
            "http://127.0.0.1:1234/mcp"
        ]
    );
    assert_eq!(openai_run_args(), vec!["run", "--profile", "mcp-bridge"]);
    assert_eq!(public_mcp_url("https://a.trycloudflare.com"), "https://a.trycloudflare.com/mcp");
}

#[test]
fn credentials() {
    let none = Creds::empty();
    assert_eq!(missing_credential(Provider::Cloudflare, &none), None);
    assert_eq!(missing_credential(Provider::Ngrok, &none), Some("ngrok 需要 authtoken"));
    assert_eq!(
        missing_credential(Provider::OpenAi, &none),
        Some("OpenAI Tunnel 需要 Platform API Key")
    );
    let key_only = Creds { token: Some("k".to_string()), tunnel_id: None };
    assert_eq!(missing_credential(Provider::OpenAi, &key_only), Some("OpenAI Tunnel 需要 tunnel_id"));
    assert_eq!(missing_credential(Provider::Ngrok, &key_only), None);
}

#[test]
fn cloudflared_log_lines() {
    let line = "2024-01-01T00:00:00Z INF |  https://quiet-frog-12.trycloudflare.com                                  |";
    assert_eq!(
        trycloudflare_url(line),
        Some("https://quiet-frog-12.trycloudflare.com".to_string())
    );
    assert_eq!(
        trycloudflare_url("see https://x.trycloudflare.com|tail"),
        Some("https://x.trycloudflare.com".to_string())
    );
    assert_eq!(
        trycloudflare_url("at end https://y.trycloudflare.com"),
        Some("https://y.trycloudflare.com".to_string())
    );
    assert_eq!(trycloudflare_url("https://example.com only"), None);
    assert_eq!(trycloudflare_url("trycloudflare.com without a url"), None);
}

#[test]
fn ngrok_public_url() {
    let urls = vec!["".to_string(), "http://a.ngrok.io".to_string(), "https://b.ngrok.io".to_string()];
    assert_eq!(first_https(&urls), Some("https://b.ngrok.io".to_string()));
    assert_eq!(first_https(&vec!["tcp://x".to_string()]), None);
}

#[test]
fn which_output() {
    assert_eq!(first_line_path("/usr/bin/cloudflared\n/opt/x\n"), Some("/usr/bin/cloudflared".to_string()));
    assert_eq!(first_line_path("  C:\\bin\\ngrok.exe\r\nD:\\x\r\n"), Some("C:\\bin\\ngrok.exe".to_string()));
    assert_eq!(first_line_path(""), None);
    assert_eq!(first_line_path("   \nsecond"), None);
}

#[test]
fn download_attempt_order() {
    let gh = "https://github.com/x/y";
    let plain = download_attempts(gh, false);
    assert_eq!(
        plain,
        vec![
            (gh.to_string(), false),
            (format!("https://mirror.ghproxy.com/{}", gh), false),
            (format!("https://gh-proxy.com/{}", gh), false),
        ]
    );
    let proxied = download_attempts(gh, true);
    assert_eq!(proxied.len(), 6);
    assert_eq!(proxied[0], (gh.to_string(), false));
    assert_eq!(proxied[1], (gh.to_string(), true));
    assert_eq!(proxied[5], (format!("https://gh-proxy.com/{}", gh), true));
    let other = download_attempts("https://bin.equinox.io/a.zip", true);
    assert_eq!(
        other,
        vec![("https://bin.equinox.io/a.zip".to_string(), false), ("https://bin.equinox.io/a.zip".to_string(), true)]
    );
}

#[test]
fn cloudflare_fallback() {
    assert_eq!(cloudflare_next(false, Some("https://a.trycloudflare.com".to_string())), CfStep::Found("https://a.trycloudflare.com".to_string()));
    assert_eq!(cloudflare_next(false, None), CfStep::RetryHttp2);
    assert_eq!(cloudflare_next(true, None), CfStep::Fail);
}

#[test]
fn ngrok_polling() {
    let urls = vec!["tcp://0.tcp.ngrok.io:1".to_string(), "https://x.ngrok.app".to_string()];
    assert_eq!(ngrok_poll_next(30_000, &urls), PollStep::Found("https://x.ngrok.app".to_string()));
    assert_eq!(ngrok_poll_next(1_000, &vec![]), PollStep::Wait(500));
    assert_eq!(ngrok_poll_next(24_999, &vec!["http://x".to_string()]), PollStep::Wait(500));
    assert_eq!(ngrok_poll_next(25_000, &vec![]), PollStep::TimedOut);
}

#[test]
fn tunnel_decisions() {
    assert_eq!(tunnel_step(Provider::Cloudflare, None, false, false), TunnelStep::NoGateway);
    assert_eq!(
        tunnel_step(Provider::OpenAi, Some(8080), false, false),
        TunnelStep::Ready { restart_gateway: true, allow_noauth: true, start_tunnel: true }
    );
    assert_eq!(
        tunnel_step(Provider::OpenAi, Some(8080), true, true),
        TunnelStep::Ready { restart_gateway: false, allow_noauth: true, start_tunnel: false }
    );
    assert_eq!(
        tunnel_step(Provider::Ngrok, Some(8080), true, false),
        TunnelStep::Ready { restart_gateway: true, allow_noauth: false, start_tunnel: true }
    );
    assert_eq!(
        tunnel_step(Provider::Cloudflare, Some(8080), false, false),
        TunnelStep::Ready { restart_gateway: false, allow_noauth: false, start_tunnel: true }
    );
}

#[test]
fn self_check_schedule() {
    // without a proxy: one direct probe per round, then a 4 s pause
    assert_eq!(self_check_next(1, 0, false, false), CheckAction::Probe { via_proxy: false });
    assert_eq!(self_check_next(1, 1, false, false), CheckAction::Wait(4000));
    // with a proxy: direct, then proxied
    assert_eq!(self_check_next(3, 0, true, false), CheckAction::Probe { via_proxy: false });
    assert_eq!(self_check_next(3, 1, true, false), CheckAction::Probe { via_proxy: true });
    assert_eq!(self_check_next(3, 2, true, false), CheckAction::Wait(4000));
    // a success ends it; after the tenth round it gives up
    assert_eq!(self_check_next(2, 1, true, true), CheckAction::Done);
    assert_eq!(self_check_next(10, 1, false, false), CheckAction::Wait(4000));
    assert_eq!(self_check_next(11, 0, false, false), CheckAction::GiveUp);
    // the whole schedule without a proxy: ten probes, ten pauses
    let (mut attempt, mut done, mut probes, mut waits) = (1u8, 0usize, 0, 0);
    loop {
        match self_check_next(attempt, done, false, false) {
            CheckAction::Probe { .. } => {
                probes += 1;
                done += 1;
            }
            CheckAction::Wait(_) => {
                waits += 1;
                attempt += 1;
                done = 0;
            }
            CheckAction::GiveUp => break,
            CheckAction::Done => unreachable!(),
        }
    }
    assert_eq!((probes, waits), (10, 10));
}

fn zip_of(files: &[(&str, &[u8])]) -> Vec<u8> {
    let mut w = zip::ZipWriter::new(std::io::Cursor::new(Vec::new()));
    let opts = zip::write::SimpleFileOptions::default().compression_method(zip::CompressionMethod::Stored);
    for (name, data) in files {
        w.start_file(*name, opts).unwrap();
        std::io::Write::write_all(&mut w, data).unwrap();
    }
    w.finish().unwrap().into_inner()
}

fn tgz_of(files: &[(&str, &[u8])]) -> Vec<u8> {
    let enc = flate2::write::GzEncoder::new(Vec::new(), flate2::Compression::default());
    let mut b = tar::Builder::new(enc);
    for (name, data) in files {
        let mut h = tar::Header::new_gnu();
        h.set_size(data.len() as u64);
        h.set_mode(0o755);
        h.set_cksum();
        b.append_data(&mut h, name, *data).unwrap();
    }
    b.into_inner().unwrap().finish().unwrap()
}

#[test]
fn binaries_out_of_archives() {
    let z = zip_of(&[("README.md", b"read me"), ("ngrok", b"\x7fELF-ngrok")]);
    assert_eq!(binary_from_zip(&z, "ngrok"), Ok(b"\x7fELF-ngrok".to_vec()));
    assert_eq!(binary_from_zip(&z, "tunnel-client"), Err("zip 中未找到 tunnel-client".to_string()));
    assert!(binary_from_zip(b"not a zip", "ngrok").is_err());
    let t = tgz_of(&[("docs/LICENSE", b"license"), ("bin/cloudflared", b"cf-binary"), ("x/cloudflared", b"second")]);
    assert_eq!(binary_from_tgz(&t, "cloudflared"), Ok(b"cf-binary".to_vec()));
    assert_eq!(binary_from_tgz(&t, "ngrok"), Err("tgz 中未找到 ngrok".to_string()));
    assert!(binary_from_tgz(b"garbage", "cloudflared").is_err());
}

#[test]
fn json_answers() {
    assert_eq!(release_tag(r#"{"tag_name":"v1.2.3","name":"x"}"#), Some("v1.2.3".to_string()));
    assert_eq!(release_tag(r#"{"tag_name":3}"#), None);
    assert_eq!(release_tag("<html>"), None);
    let body = r#"{"tunnels":[{"public_url":"tcp://0.tcp.ngrok.io:1"},{"name":"x"},{"public_url":"https://a.ngrok.app"}]}"#;
    assert_eq!(
        ngrok_public_urls(body),
        vec!["tcp://0.tcp.ngrok.io:1".to_string(), String::new(), "https://a.ngrok.app".to_string()]
    );
    assert!(ngrok_public_urls(r#"{"tunnels":{}}"#).is_empty());
    assert!(ngrok_public_urls("oops").is_empty());
    assert_eq!(ngrok_poll_next(0, &ngrok_public_urls(body)), PollStep::Found("https://a.ngrok.app".to_string()));
}
