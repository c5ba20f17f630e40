# bridge_core

A desktop bridge that exposes a local JetBrains MCP server to Web ChatGPT: it
detects the IDE's MCP endpoint, runs an OAuth 2.1 gateway in front of it, and
opens a public tunnel (Cloudflare quick tunnel, ngrok or OpenAI's tunnel client).

- `src/` is the library, verified with Verus: the OAuth server (dynamic client
  registration, pairing codes, PKCE, refresh-token rotation), the gateway's
  admission rules, pages and replies, the tunnel decisions (download order,
  archive extraction, fallbacks, polling, self-check schedule), proxy detection,
  the MCP reply parsing and the resident upstream session with its tool cache. `src/oauth_laws.rs` states the properties that span several
  operations.
- `tests/` runs the library on concrete values.
- `app/` is the unverified shell around it: the HTTP server and client, the
  tunnel child processes, file downloads and the commands behind the screens.
