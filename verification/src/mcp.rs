//! The upstream JetBrains MCP connection: where to probe, how a pasted SSE
//! configuration maps to the Streamable HTTP endpoint, how `data:` payloads are
//! read out of an event stream, which reply answers a request, when a call gets a
//! default `projectPath`, and the decisions of the resident upstream connection
//! (session reuse, tool-list cache, one retry on an expired session). The HTTP
//! requests stand around these functions.
use vstd::prelude::*;

use crate::gateway::opt_str_view_owned;
use crate::oauth::string_views;
use crate::text::{
    ends_with, has_prefix, has_suffix, push_str, split_char, split_on, starts_with, str_eq,
    to_owned_string, trim, trim_seq,
};

verus! {

/// The endpoints probed on this machine, in order: ports 64342 and 63342, each
/// with `/stream` and `/sse`.
pub fn local_probe_urls() -> (r: Vec<String>)
    ensures
        string_views(r@) == seq![
            "http://127.0.0.1:64342/stream"@,
            "http://127.0.0.1:64342/sse"@,
            "http://127.0.0.1:63342/stream"@,
            "http://127.0.0.1:63342/sse"@,
        ],
{
    let r = vec![
        to_owned_string("http://127.0.0.1:64342/stream"),
        to_owned_string("http://127.0.0.1:64342/sse"),
        to_owned_string("http://127.0.0.1:63342/stream"),
        to_owned_string("http://127.0.0.1:63342/sse"),
    ];
    proof {
        assert(string_views(r@) =~= seq![
            "http://127.0.0.1:64342/stream"@,
            "http://127.0.0.1:64342/sse"@,
            "http://127.0.0.1:63342/stream"@,
            "http://127.0.0.1:63342/sse"@,
        ]);
    }
    r
}

/// `s` without trailing `/` characters.
pub open spec fn trim_trailing_slashes(s: Seq<char>) -> Seq<char>
    decreases s.len(),
{
    if s.len() > 0 && s.last() == '/' {
        trim_trailing_slashes(s.drop_last())
    } else {
        s
    }
}

/// The Streamable HTTP endpoint for a pasted SSE URL: JetBrains serves `/stream` on
/// the same port, so `.../sse` becomes `.../stream`, and any other URL gets
/// `/stream` after its trailing slashes are removed.
pub open spec fn sse_to_stream_spec(url: Seq<char>) -> Seq<char> {
    if has_suffix(url, "/sse"@) {
        url.take(url.len() - 4) + "/stream"@
    } else {
        trim_trailing_slashes(url) + "/stream"@
    }
}

/// Where a pasted configuration is probed: an `sse` configuration goes to the
/// mapped `/stream` endpoint (the flag says it was mapped); any other as given.
pub fn manual_probe_target(url: &str, kind: &str) -> (r: (String, bool))
    ensures
        r.1 == (kind@ == "sse"@),
        r.1 ==> r.0@ == sse_to_stream_spec(url@),
        !r.1 ==> r.0@ == url@,
{
    proof {
        reveal_strlit("/sse");
    }
    if !str_eq(kind, "sse") {
        return (to_owned_string(url), false);
    }
    let cs = crate::text::chars_of(url);
    if ends_with(url, "/sse") {
        let mut out = crate::text::string_from_chars(&cs, 0, cs.len() - 4);
        push_str(&mut out, "/stream");
        proof {
            assert(cs@.subrange(0, cs@.len() - 4) =~= url@.take(url@.len() - 4));
        }
        (out, true)
    } else {
        let mut end = cs.len();
        proof {
            assert(cs@.take(cs@.len() as int) =~= cs@);
        }
        while end > 0 && cs[end - 1] == '/'
            invariant
                end <= cs@.len(),
                cs@ == url@,
                trim_trailing_slashes(url@) == trim_trailing_slashes(cs@.take(end as int)),
            decreases end,
        {
            proof {
                assert(cs@.take(end as int).drop_last() =~= cs@.take(end - 1));
            }
            end = end - 1;
        }
        proof {
            assert(cs@.take(cs@.len() as int) =~= cs@);
            assert(trim_trailing_slashes(cs@.take(end as int)) == cs@.take(end as int));
        }
        let mut out = crate::text::string_from_chars(&cs, 0, end);
        push_str(&mut out, "/stream");
        proof {
            assert(cs@.subrange(0, end as int) =~= cs@.take(end as int));
        }
        (out, true)
    }
}

/// The payloads of `data:` lines, in order, each trimmed.
pub open spec fn data_payloads(lines: Seq<Seq<char>>) -> Seq<Seq<char>>
    decreases lines.len(),
{
    if lines.len() == 0 {
        Seq::empty()
    } else {
        let rest = data_payloads(lines.drop_last());
        let l = lines.last();
        if has_prefix(l, "data:"@) {
            rest.push(trim_seq(l.skip(5)))
        } else {
            rest
        }
    }
}

/// The `data:` payloads of a Server-Sent Events body, in order (lines are split at
/// `\n`; the trim removes a `\r` before it).
pub fn sse_data_payloads(body: &str) -> (r: Vec<String>)
    ensures
        string_views(r@) == data_payloads(split_on(body@, '\n')),
{
    proof {
        reveal_strlit("data:");
    }
    let lines = split_char(body, '\n');
    let ghost all = string_views(lines@);
    let mut out: Vec<String> = Vec::new();
    let mut i: usize = 0;
    proof {
        assert(all.take(0) =~= Seq::<Seq<char>>::empty());
    }
    while i < lines.len()
        invariant
            i <= lines@.len(),
            all == string_views(lines@),
            all == split_on(body@, '\n'),
            "data:"@.len() == 5,
            string_views(out@) == data_payloads(all.take(i as int)),
        decreases lines.len() - i,
    {
        let ghost before = string_views(out@);
        proof {
            let t = all.take(i + 1);
            assert(t.drop_last() =~= all.take(i as int));
            assert(t.last() == lines@[i as int]@);
        }
        if starts_with(lines[i].as_str(), "data:") {
            let n = lines[i].as_str().unicode_len();
            let payload = trim(lines[i].as_str().substring_char(5, n));
            out.push(payload);
            proof {
                assert(lines@[i as int]@.subrange(5, n as int) =~= lines@[i as int]@.skip(5));
                assert(string_views(out@) =~= before.push(trim_seq(lines@[i as int]@.skip(5))));
            }
        }
        i = i + 1;
    }
    proof {
        assert(all.take(lines@.len() as int) =~= all);
    }
    out
}

/// An event stream read beyond this many bytes without the awaited response is abandoned.
pub const MAX_SSE_BYTES: usize = 4194304;

/// Whether the buffered event stream has grown beyond [`MAX_SSE_BYTES`].
pub fn sse_over_limit(buf: &str) -> (r: bool)
    requires
        vstd::utf8::encode_utf8(buf@).len() <= usize::MAX,
    ensures
        r == (vstd::utf8::encode_utf8(buf@).len() > MAX_SSE_BYTES),
{
    buf.len() > MAX_SSE_BYTES
}

/// The `projectPath` to add to a tool call: the configured default, when the
/// arguments are an object without `projectPath`.
pub fn project_path_to_inject(
    args_is_object: bool,
    has_project_path: bool,
    default_project: &Option<String>,
) -> (r: Option<String>)
    ensures
        opt_str_view_owned(r) == (if args_is_object && !has_project_path {
            opt_str_view_owned(*default_project)
        } else {
            None
        }),
{
    if args_is_object && !has_project_path {
        match default_project {
            Some(p) => Some(p.clone()),
            None => None,
        }
    } else {
        None
    }
}

/// An upstream session has expired when a call is answered 404; the call is then
/// retried once on a new session.
pub fn session_expired(status: u16) -> (r: bool)
    ensures
        r == (status == 404),
{
    status == 404
}


/* ───────────── JSON-RPC replies ───────────── */

/// What the library reads of a JSON-RPC reply: its integer `id`, whether it
/// carries a `result` or an `error`, and the server's name and version from
/// `result.serverInfo` (each present only when it is a string).
pub struct RpcReplyFields {
    pub id: Option<i64>,
    pub has_result: bool,
    pub has_error: bool,
    pub server_name: Option<String>,
    pub server_version: Option<String>,
}

/// The plain values of [`RpcReplyFields`].
pub type ReplyModel = (Option<int>, bool, bool, Option<Seq<char>>, Option<Seq<char>>);

/// The model of the fields of one reply.
pub open spec fn fields_view(f: RpcReplyFields) -> ReplyModel {
    (
        match f.id {
            Some(i) => Some(i as int),
            None => None,
        },
        f.has_result,
        f.has_error,
        opt_str_view_owned(f.server_name),
        opt_str_view_owned(f.server_version),
    )
}

/// The model of a parse: `None` when the text is not JSON.
pub open spec fn reply_view(r: Option<RpcReplyFields>) -> Option<ReplyModel> {
    match r {
        Some(f) => Some(fields_view(f)),
        None => None,
    }
}

/// The fields that `serde_json` reads from a reply text (`None` when the text
/// does not parse as JSON).
pub uninterp spec fn rpc_reply_fields_of(text: Seq<char>) -> Option<ReplyModel>;

/// Parses `text` with `serde_json::from_str::<serde_json::Value>` and reads `id`
/// (`Value::as_i64`), whether the keys `result` and `error` are present, and
/// `result.serverInfo.name` / `.version` (`Value::as_str`). Claims only that the
/// result is a function of the text, named [`rpc_reply_fields_of`].
#[verifier::external_body]
pub fn parse_rpc_reply(text: &str) -> (r: Option<RpcReplyFields>)
    ensures
        reply_view(r) == rpc_reply_fields_of(text@),
{
    let v: serde_json::Value = serde_json::from_str(text).ok()?;
    Some(RpcReplyFields {
        id: v.get("id").and_then(serde_json::Value::as_i64),
        has_result: v.get("result").is_some(),
        has_error: v.get("error").is_some(),
        server_name: v.pointer("/result/serverInfo/name").and_then(serde_json::Value::as_str).map(str::to_owned),
        server_version: v.pointer("/result/serverInfo/version").and_then(serde_json::Value::as_str).map(str::to_owned),
    })
}

/// A reply answers request `id`: it parsed, its `id` is `id`, and it carries a
/// result or an error.
pub open spec fn answers(f: Option<ReplyModel>, id: int) -> bool {
    match f {
        Some(m) => m.0 == Some(id) && (m.1 || m.2),
        None => false,
    }
}

/// Whether parsed reply fields answer request `id`.
pub fn answers_id(f: &Option<RpcReplyFields>, id: i64) -> (r: bool)
    ensures
        r == answers(reply_view(*f), id as int),
{
    match f {
        Some(x) => match x.id {
            Some(i) => i == id && (x.has_result || x.has_error),
            None => false,
        },
        None => false,
    }
}

/// The first payload that answers request `id`.
pub open spec fn first_answer(payloads: Seq<Seq<char>>, id: int) -> Option<Seq<char>>
    decreases payloads.len(),
{
    if payloads.len() == 0 {
        None
    } else if answers(rpc_reply_fields_of(payloads[0]), id) {
        Some(payloads[0])
    } else {
        first_answer(payloads.drop_first(), id)
    }
}

/// The `data:` payload of an event stream that answers request `id` with a
/// result or an error: the first such one, or `None`.
pub fn sse_reply_payload(body: &str, id: i64) -> (r: Option<String>)
    ensures
        opt_str_view_owned(r) == first_answer(data_payloads(split_on(body@, '\n')), id as int),
{
    let payloads = sse_data_payloads(body);
    let ghost all = string_views(payloads@);
    proof {
        assert(all.skip(0) =~= all);
    }
    let mut i: usize = 0;
    while i < payloads.len()
        invariant
            i <= payloads@.len(),
            all == string_views(payloads@),
            all == data_payloads(split_on(body@, '\n')),
            first_answer(all, id as int) == first_answer(all.skip(i as int), id as int),
        decreases payloads.len() - i,
    {
        proof {
            assert(all.skip(i as int)[0] == payloads@[i as int]@);
            assert(all.skip(i as int).drop_first() =~= all.skip(i + 1));
        }
        let f = parse_rpc_reply(payloads[i].as_str());
        if answers_id(&f, id) {
            let found = payloads[i].clone();
            proof {
                assert(answers(rpc_reply_fields_of(all.skip(i as int)[0]), id as int));
                assert(first_answer(all.skip(i as int), id as int) == Some(found@));
            }
            return Some(found);
        }
        i = i + 1;
    }
    proof {
        assert(all.skip(i as int).len() == 0);
    }
    None
}

/// The server's name, or `unknown`.
pub open spec fn server_name_or_default(f: ReplyModel) -> Seq<char> {
    match f.3 {
        Some(n) => n,
        None => "unknown"@,
    }
}

/// The server's version, or `?`.
pub open spec fn server_version_or_default(f: ReplyModel) -> Seq<char> {
    match f.4 {
        Some(v) => v,
        None => "?"@,
    }
}

/// The server's name and version from an `initialize` reply, with `unknown` and
/// `?` where the reply names none.
pub fn server_info(f: &RpcReplyFields) -> (r: (String, String))
    ensures
        r.0@ == server_name_or_default(fields_view(*f)),
        r.1@ == server_version_or_default(fields_view(*f)),
{
    let name = match &f.server_name {
        Some(n) => n.clone(),
        None => to_owned_string("unknown"),
    };
    let version = match &f.server_version {
        Some(v) => v.clone(),
        None => to_owned_string("?"),
    };
    (name, version)
}

/* ───────────── the resident upstream ───────────── */

/// An operation on the upstream.
#[derive(Clone, Copy, PartialEq, Eq, Debug, Structural)]
pub enum UpstreamOp {
    /// `tools/list`, from the cache unless a refresh is asked.
    Tools { force_refresh: bool },
    /// `tools/call`.
    Call,
}

/// What the upstream connection remembers, and where the current operation is.
pub struct UpstreamState {
    /// The session id of the resident session, once the upstream gave one.
    pub session: Option<String>,
    /// Whether the tool list is cached.
    pub tools_cached: bool,
    /// The operation under way.
    pub op: Option<UpstreamOp>,
    /// Whether the operation was already retried on a new session.
    pub retried: bool,
}

/// The model of an [`UpstreamState`].
pub struct UpstreamModel {
    pub session: Option<Seq<char>>,
    pub tools_cached: bool,
    pub op: Option<UpstreamOp>,
    pub retried: bool,
}

impl View for UpstreamState {
    type V = UpstreamModel;

    open spec fn view(&self) -> UpstreamModel {
        UpstreamModel {
            session: opt_str_view_owned(self.session),
            tools_cached: self.tools_cached,
            op: self.op,
            retried: self.retried,
        }
    }
}

/// What happened.
pub enum UpstreamEvent {
    /// An operation starts.
    Begin(UpstreamOp),
    /// A session was opened (`initialize`); the upstream may give no session id.
    Initialized(Option<String>),
    /// The operation's request was answered with this HTTP status.
    Answered(u16),
    /// The tool list that was read has been cached.
    ToolsStored,
}

/// The model of an [`UpstreamEvent`].
pub enum EventModel {
    Begin(UpstreamOp),
    Initialized(Option<Seq<char>>),
    Answered(u16),
    ToolsStored,
}

impl View for UpstreamEvent {
    type V = EventModel;

    open spec fn view(&self) -> EventModel {
        match self {
            UpstreamEvent::Begin(op) => EventModel::Begin(*op),
            UpstreamEvent::Initialized(s) => EventModel::Initialized(opt_str_view_owned(*s)),
            UpstreamEvent::Answered(c) => EventModel::Answered(*c),
            UpstreamEvent::ToolsStored => EventModel::ToolsStored,
        }
    }
}

/// What to do next.
#[derive(Clone, Copy, PartialEq, Eq, Debug, Structural)]
pub enum UpstreamAction {
    /// Answer from the cached tool list, with no request.
    ServeCachedTools,
    /// Open a new session (`initialize`, then `notifications/initialized`).
    Initialize,
    /// Send the operation's request on the state's session.
    Send,
    /// Read the answer; it is the operation's result.
    Read,
    /// Nothing more: the operation is over.
    Idle,
}

/// The upstream's decisions: the cached tool list is served unless a refresh is
/// asked; an operation uses the resident session, opening one only when there
/// is none; a tool call answered 404 (session expired) is retried once on a new
/// session; a tool list that was read is cached.
pub open spec fn upstream_step(s: UpstreamModel, ev: EventModel) -> (UpstreamModel, UpstreamAction) {
    match ev {
        EventModel::Begin(op) => if op == (UpstreamOp::Tools { force_refresh: false }) && s.tools_cached {
            (UpstreamModel { op: None, ..s }, UpstreamAction::ServeCachedTools)
        } else {
            let s1 = UpstreamModel { op: Some(op), retried: false, ..s };
            if s.session is Some {
                (s1, UpstreamAction::Send)
            } else {
                (s1, UpstreamAction::Initialize)
            }
        },
        EventModel::Initialized(session) => (UpstreamModel { session, ..s }, UpstreamAction::Send),
        EventModel::Answered(status) => if s.op == Some(UpstreamOp::Call) && status == 404 && !s.retried {
            (UpstreamModel { retried: true, ..s }, UpstreamAction::Initialize)
        } else {
            (s, UpstreamAction::Read)
        },
        EventModel::ToolsStored => (
            UpstreamModel { tools_cached: true, op: None, ..s },
            UpstreamAction::Idle,
        ),
    }
}

fn copy_session(s: &Option<String>) -> (r: Option<String>)
    ensures
        opt_str_view_owned(r) == opt_str_view_owned(*s),
{
    match s {
        Some(x) => Some(x.clone()),
        None => None,
    }
}

/// One step of the upstream connection (see [`upstream_step`]).
pub fn upstream_next(s: &UpstreamState, ev: UpstreamEvent) -> (r: (UpstreamState, UpstreamAction))
    ensures
        (r.0@, r.1) == upstream_step(s@, ev@),
{
    match ev {
        UpstreamEvent::Begin(op) => {
            let cached_list = match op {
                UpstreamOp::Tools { force_refresh } => !force_refresh,
                UpstreamOp::Call => false,
            };
            if cached_list && s.tools_cached {
                (
                    UpstreamState { session: copy_session(&s.session), tools_cached: s.tools_cached, op: None, retried: s.retried },
                    UpstreamAction::ServeCachedTools,
                )
            } else {
                let next = UpstreamState { session: copy_session(&s.session), tools_cached: s.tools_cached, op: Some(op), retried: false };
                if s.session.is_some() {
                    (next, UpstreamAction::Send)
                } else {
                    (next, UpstreamAction::Initialize)
                }
            }
        },
        UpstreamEvent::Initialized(session) => (
            UpstreamState { session, tools_cached: s.tools_cached, op: s.op, retried: s.retried },
            UpstreamAction::Send,
        ),
        UpstreamEvent::Answered(status) => {
            let is_call = match s.op {
                Some(UpstreamOp::Call) => true,
                _ => false,
            };
            let copy = UpstreamState { session: copy_session(&s.session), tools_cached: s.tools_cached, op: s.op, retried: s.retried };
            if is_call && session_expired(status) && !s.retried {
                (UpstreamState { retried: true, ..copy }, UpstreamAction::Initialize)
            } else {
                (copy, UpstreamAction::Read)
            }
        },
        UpstreamEvent::ToolsStored => (
            UpstreamState { session: copy_session(&s.session), tools_cached: true, op: None, retried: s.retried },
            UpstreamAction::Idle,
        ),
    }
}

/// A cached tool list is served with no request unless a refresh is asked.
pub proof fn law_cached_tools_served(s: UpstreamModel)
    requires
        s.tools_cached,
    ensures
        upstream_step(s, EventModel::Begin(UpstreamOp::Tools { force_refresh: false })).1
            == UpstreamAction::ServeCachedTools,
        upstream_step(s, EventModel::Begin(UpstreamOp::Tools { force_refresh: true })).1
            != UpstreamAction::ServeCachedTools,
{
}

/// An existing session is reused: an operation that is not served from the
/// cache is sent on it, without a new `initialize`.
pub proof fn law_session_reused(s: UpstreamModel, op: UpstreamOp)
    requires
        s.session is Some,
        !(op == (UpstreamOp::Tools { force_refresh: false }) && s.tools_cached),
    ensures
        upstream_step(s, EventModel::Begin(op)).1 == UpstreamAction::Send,
        upstream_step(s, EventModel::Begin(op)).0.session == s.session,
{
}

/// A tool call answered 404 gets exactly one new session and one retry: the
/// retry's answer, whatever its status, is read.
pub proof fn law_single_retry(s: UpstreamModel, session: Option<Seq<char>>, status: u16)
    requires
        s.op == Some(UpstreamOp::Call),
        !s.retried,
    ensures
        ({
            let (s1, a1) = upstream_step(s, EventModel::Answered(404));
            let (s2, a2) = upstream_step(s1, EventModel::Initialized(session));
            let (s3, a3) = upstream_step(s2, EventModel::Answered(status));
            &&& a1 == UpstreamAction::Initialize
            &&& a2 == UpstreamAction::Send
            &&& s2.session == session
            &&& a3 == UpstreamAction::Read
        }),
        upstream_step(s, EventModel::Answered(200)).1 == UpstreamAction::Read,
{
}

/// A reply answers a request exactly when it parsed, carries that request's id,
/// and holds a result or an error: an error reply is an answer too, and is
/// handed back to the caller like a result.
pub proof fn law_error_reply_answers(f: ReplyModel, id: int)
    ensures
        f.0 == Some(id) && f.2 ==> answers(Some(f), id),
        f.0 == Some(id) && f.1 ==> answers(Some(f), id),
        f.0 != Some(id) ==> !answers(Some(f), id),
        !f.1 && !f.2 ==> !answers(Some(f), id),
        !answers(None, id),
{
}

/// In an event stream, the first payload that parses as a reply to `id` with a
/// result or an error is the one handed back, whichever of the two it carries.
pub proof fn law_first_reply_taken(payloads: Seq<Seq<char>>, id: int, i: int)
    requires
        0 <= i < payloads.len(),
        rpc_reply_fields_of(payloads[i]) matches Some(f) && f.0 == Some(id) && (f.1 || f.2),
        forall|j: int| 0 <= j < i ==> !answers(rpc_reply_fields_of(#[trigger] payloads[j]), id),
    ensures
        first_answer(payloads, id) == Some(payloads[i]),
    decreases i,
{
    if i > 0 {
        let rest = payloads.drop_first();
        assert(!answers(rpc_reply_fields_of(payloads[0]), id));
        assert forall|j: int| 0 <= j < i - 1 implies !answers(rpc_reply_fields_of(#[trigger] rest[j]), id) by {
            assert(rest[j] == payloads[j + 1]);
        }
        assert(rest[i - 1] == payloads[i]);
        law_first_reply_taken(rest, id, i - 1);
    }
}

} // verus!
