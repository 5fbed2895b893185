//! The per-helper client: the protocol state machine around one language
//! server or debug adapter.
//!
//! The state tracks the configured and the running command, the detected
//! framing, the captured capability record and the request correlation.  The
//! unverified shell owns the child process and its pipes; everything it
//! decides — when to restart, what to reply to a server-initiated request,
//! how to read a reply — it asks this module.

use vstd::prelude::*;

use crate::correlation::CorrelationTable;
use crate::errors::BridgeError;
use crate::framing::{spec_initial_read_mode, Framing, FramingPreference};
use crate::json::{
    jv_get, jv_get_int, jv_get_str, lemma_pairs_jv_props, pairs_jv, Json, Jv,
};
use crate::render::{json_to_text, spec_json_text};
use crate::text::{
    i64_render, spec_int_chars, spec_is_ws_char, str_eq, string_from_chars, string_to_chars,
};

verus! {

// ---------------------------------------------------------------------------
// Shell-style command splitting
// ---------------------------------------------------------------------------

/// One step of the splitter, written over the remaining characters: `q` is
/// the active quote, `cur` the token being built, `acc` the finished tokens.
/// `None` means an unbalanced quote.
pub open spec fn spec_split(
    s: Seq<char>,
    q: Option<char>,
    cur: Seq<char>,
    acc: Seq<Seq<char>>,
) -> Option<Seq<Seq<char>>>
    decreases s.len(),
{
    if s.len() == 0 {
        if q is Some {
            None
        } else if cur.len() > 0 {
            Some(acc.push(cur))
        } else {
            Some(acc)
        }
    } else {
        let c = s[0];
        if c == '\'' || c == '"' {
            match q {
                Some(active) => if active == c {
                    spec_split(s.skip(1), None, cur, acc)
                } else {
                    spec_split(s.skip(1), q, cur.push(c), acc)
                },
                None => spec_split(s.skip(1), Some(c), cur, acc),
            }
        } else if c == '\\' {
            if s.len() >= 2 {
                spec_split(s.skip(2), q, cur.push(s[1]), acc)
            } else {
                spec_split(s.skip(1), q, cur, acc)
            }
        } else if spec_is_ws_char(c) && q is None {
            if cur.len() > 0 {
                spec_split(s.skip(1), q, Seq::empty(), acc.push(cur))
            } else {
                spec_split(s.skip(1), q, cur, acc)
            }
        } else {
            spec_split(s.skip(1), q, cur.push(c), acc)
        }
    }
}

/// The tokens of a helper command line: single and double quotes group,
/// backslash escapes the next character, unquoted ASCII whitespace separates.
pub open spec fn spec_command_parts(s: Seq<char>) -> Option<Seq<Seq<char>>> {
    spec_split(s, None, Seq::empty(), Seq::empty())
}

/// The view of a token list.
pub open spec fn parts_view(v: Seq<String>) -> Seq<Seq<char>> {
    Seq::new(v.len(), |i: int| v[i]@)
}

/// Split a helper command line into its tokens.  An unbalanced quote and an
/// empty command are both rejected.
pub fn command_parts(cmd: &str) -> (r: Result<Vec<String>, BridgeError>)
    ensures
        match r {
            Ok(parts) => spec_command_parts(cmd@) == Some(parts_view(parts@)) && parts@.len() > 0,
            Err(e) => e is InvalidParams && (spec_command_parts(cmd@) is None
                || spec_command_parts(cmd@) == Some(Seq::<Seq<char>>::empty())),
        },
{
    let sc = string_to_chars(cmd);
    let n = sc.len();
    let mut i: usize = 0;
    let mut quote: Option<char> = None;
    let mut cur: Vec<char> = Vec::new();
    let mut acc: Vec<String> = Vec::new();
    proof {
        assert(cmd@.skip(0) =~= cmd@);
        assert(parts_view(Seq::<String>::empty()) =~= Seq::<Seq<char>>::empty());
    }
    while i < n
        invariant
            i <= n == sc@.len(),
            sc@ == cmd@,
            spec_command_parts(cmd@) == spec_split(
                cmd@.skip(i as int),
                quote,
                cur@,
                parts_view(acc@),
            ),
        decreases n - i,
    {
        let c = sc[i];
        proof {
            assert(cmd@.skip(i as int)[0] == cmd@[i as int]);
            assert(cmd@.skip(i as int).skip(1) =~= cmd@.skip(i as int + 1));
        }
        if c == '\'' || c == '"' {
            match quote {
                Some(active) => {
                    if active == c {
                        quote = None;
                    } else {
                        cur.push(c);
                    }
                },
                None => {
                    quote = Some(c);
                },
            }
            i = i + 1;
        } else if c == '\\' {
            if i + 1 < n {
                proof {
                    assert(cmd@.skip(i as int)[1] == cmd@[i as int + 1]);
                    assert(cmd@.skip(i as int).skip(2) =~= cmd@.skip(i as int + 2));
                }
                cur.push(sc[i + 1]);
                i = i + 2;
            } else {
                i = i + 1;
            }
        } else if (c == ' ' || c == '\t' || c == '\r' || c == '\n') && quote.is_none() {
            if cur.len() > 0 {
                let ghost before = parts_view(acc@);
                let token = string_from_chars(&cur);
                let ghost tv = cur@;
                acc.push(token);
                cur = Vec::new();
                proof {
                    assert(parts_view(acc@) =~= before.push(tv));
                }
            }
            i = i + 1;
        } else {
            cur.push(c);
            i = i + 1;
        }
    }
    proof {
        assert(cmd@.skip(n as int) =~= Seq::<char>::empty());
    }
    if quote.is_some() {
        return Err(
            BridgeError::InvalidParams("unclosed quote in helper command".to_owned()),
        );
    }
    if cur.len() > 0 {
        let ghost before = parts_view(acc@);
        let token = string_from_chars(&cur);
        let ghost tv = cur@;
        acc.push(token);
        proof {
            assert(parts_view(acc@) =~= before.push(tv));
        }
    }
    if acc.len() == 0 {
        return Err(BridgeError::InvalidParams("empty helper command".to_owned()));
    }
    Ok(acc)
}

// ---------------------------------------------------------------------------
// Default replies to server-initiated requests
// ---------------------------------------------------------------------------

/// What the bridge answers a server-initiated request with: a fixed result,
/// or a method-not-found error for anything it does not know.
pub enum ServerReply {
    Result(Json),
    Error(i64, String),
}

/// The ghost mirror of a default reply.
pub enum ServerReplyV {
    Result(Jv),
    Error(int, Seq<char>),
}

pub open spec fn server_reply_v(r: ServerReply) -> ServerReplyV {
    match r {
        ServerReply::Result(j) => ServerReplyV::Result(j.jv()),
        ServerReply::Error(c, m) => ServerReplyV::Error(c as int, m@),
    }
}

/// An array of as many nulls as the request listed configuration items.
pub open spec fn spec_nulls(n: nat) -> Seq<Jv>
    decreases n,
{
    if n == 0 {
        Seq::empty()
    } else {
        spec_nulls((n - 1) as nat).push(Jv::Null)
    }
}

/// The number of configuration items a `workspace/configuration` request
/// carries.
pub open spec fn spec_config_items_len(params: Option<Jv>) -> nat {
    match params {
        Some(p) => match jv_get(p, "items"@) {
            Some(Jv::Arr(items)) => items.len(),
            _ => 0,
        },
        None => 0,
    }
}

/// The fixed reply for each server-initiated request the bridge recognizes:
/// a null array for configuration, null acknowledgements for registrations,
/// progress, workspace folders, message requests and the refresh family, a
/// refusal for `workspace/applyEdit`, and method-not-found otherwise.
pub open spec fn spec_server_reply(method: Seq<char>, params: Option<Jv>) -> ServerReplyV {
    if method == "workspace/configuration"@ {
        ServerReplyV::Result(Jv::Arr(spec_nulls(spec_config_items_len(params))))
    } else if method == "client/registerCapability"@ || method == "client/unregisterCapability"@
        || method == "window/workDoneProgress/create"@
        || method == "workspace/workDoneProgress/create"@ || method == "workspace/workspaceFolders"@
        || method == "window/showMessageRequest"@ || method == "workspace/codeLens/refresh"@
        || method == "workspace/semanticTokens/refresh"@
        || method == "workspace/inlineValue/refresh"@ || method == "workspace/inlayHint/refresh"@
        || method == "workspace/diagnostic/refresh"@ {
        ServerReplyV::Result(Jv::Null)
    } else if method == "workspace/applyEdit"@ {
        ServerReplyV::Result(
            Jv::Obj(
                seq![
                    ("applied"@, Jv::Bool(false)),
                    (
                        "failureReason"@,
                        Jv::Str("bridge cannot apply workspace edits"@),
                    ),
                ],
            ),
        )
    } else {
        ServerReplyV::Error(
            -32601,
            "the bridge does not implement client request '"@ + method + "'"@,
        )
    }
}

/// The fixed default reply for one server-initiated request.
pub fn server_request_reply(method: &str, params: Option<&Json>) -> (r: ServerReply)
    ensures
        server_reply_v(r) == spec_server_reply(
            method@,
            match params {
                Some(p) => Some(p.jv()),
                None => None,
            },
        ),
{
    let ghost pv = match params {
        Some(p) => Some(p.jv()),
        None => None::<Jv>,
    };
    if str_eq(method, "workspace/configuration") {
        let count: usize = match params {
            Some(p) => match p.get("items") {
                Some(items) => match items.as_arr() {
                    Some(v) => {
                        proof {
                            crate::json::lemma_seq_jv_props(v@);
                        }
                        v.len()
                    },
                    None => 0,
                },
                None => 0,
            },
            None => 0,
        };
        let mut nulls: Vec<Json> = Vec::new();
        let mut i: usize = 0;
        proof {
            assert(crate::json::seq_jv(nulls@) =~= spec_nulls(0));
        }
        while i < count
            invariant
                i <= count,
                crate::json::seq_jv(nulls@) == spec_nulls(i as nat),
            decreases count - i,
        {
            proof {
                crate::json::lemma_seq_jv_push(nulls@, Json::Null);
            }
            nulls.push(Json::Null);
            i = i + 1;
        }
        proof {
            assert(count as nat == spec_config_items_len(pv));
        }
        ServerReply::Result(Json::Arr(nulls))
    } else if str_eq(method, "client/registerCapability") || str_eq(
        method,
        "client/unregisterCapability",
    ) || str_eq(method, "window/workDoneProgress/create") || str_eq(
        method,
        "workspace/workDoneProgress/create",
    ) || str_eq(method, "workspace/workspaceFolders") || str_eq(
        method,
        "window/showMessageRequest",
    ) || str_eq(method, "workspace/codeLens/refresh") || str_eq(
        method,
        "workspace/semanticTokens/refresh",
    ) || str_eq(method, "workspace/inlineValue/refresh") || str_eq(
        method,
        "workspace/inlayHint/refresh",
    ) || str_eq(method, "workspace/diagnostic/refresh") {
        ServerReply::Result(Json::Null)
    } else if str_eq(method, "workspace/applyEdit") {
        let mut pairs: Vec<(String, Json)> = Vec::new();
        pairs.push(("applied".to_owned(), Json::Bool(false)));
        pairs.push(
            (
                "failureReason".to_owned(),
                Json::str_of("bridge cannot apply workspace edits"),
            ),
        );
        let r = Json::Obj(pairs);
        proof {
            lemma_pairs_jv_props(r->Obj_0@);
            assert(pairs_jv(r->Obj_0@) =~= seq![
                ("applied"@, Jv::Bool(false)),
                (
                    "failureReason"@,
                    Jv::Str("bridge cannot apply workspace edits"@),
                ),
            ]);
        }
        ServerReply::Result(r)
    } else {
        let mut m: String = "the bridge does not implement client request '".to_owned();
        m.append(method);
        m.append("'");
        proof {
            reveal_strlit("'");
        }
        ServerReply::Error(-32601, m)
    }
}

// ---------------------------------------------------------------------------
// Reading replies while one request is outstanding
// ---------------------------------------------------------------------------

/// What one inbound message means to a caller waiting on `awaited`.
pub enum LspInbound {
    /// The awaited reply, successful: its `result` value.
    ReplyResult(Json),
    /// The awaited reply, failed: its `error` value.
    ReplyError(Json),
    /// The awaited reply with neither field.
    ReplyEmpty,
    /// A server-initiated request to answer with a default.
    ServerRequest { id: Json, method: String, params: Option<Json> },
    /// A notification or a stray reply, dropped.
    Dropped,
}

pub open spec fn lsp_inbound_v(r: LspInbound) -> LspInboundV {
    match r {
        LspInbound::ReplyResult(j) => LspInboundV::ReplyResult(j.jv()),
        LspInbound::ReplyError(j) => LspInboundV::ReplyError(j.jv()),
        LspInbound::ReplyEmpty => LspInboundV::ReplyEmpty,
        LspInbound::ServerRequest { id, method, params } => LspInboundV::ServerRequest(
            id.jv(),
            method@,
            match params {
                Some(p) => Some(p.jv()),
                None => None,
            },
        ),
        LspInbound::Dropped => LspInboundV::Dropped,
    }
}

pub enum LspInboundV {
    ReplyResult(Jv),
    ReplyError(Jv),
    ReplyEmpty,
    ServerRequest(Jv, Seq<char>, Option<Jv>),
    Dropped,
}

/// How the waiting loop reads one message: the awaited identifier's reply is
/// delivered (error preferred, then result); a message with a string method
/// and an identifier is a server-initiated request; everything else is
/// dropped.
pub open spec fn spec_classify_reply(m: Jv, awaited: int) -> LspInboundV {
    if jv_get_int(m, "id"@) == Some(awaited) && !(jv_get_str(m, "method"@) is Some) {
        match jv_get(m, "error"@) {
            Some(e) => LspInboundV::ReplyError(e),
            None => match jv_get(m, "result"@) {
                Some(res) => LspInboundV::ReplyResult(res),
                None => LspInboundV::ReplyEmpty,
            },
        }
    } else {
        match jv_get_str(m, "method"@) {
            Some(method) => match jv_get(m, "id"@) {
                Some(id) => LspInboundV::ServerRequest(id, method, jv_get(m, "params"@)),
                None => LspInboundV::Dropped,
            },
            None => LspInboundV::Dropped,
        }
    }
}

/// Classify one message read while awaiting the reply to `awaited`.
pub fn classify_reply(msg: &Json, awaited: i64) -> (r: LspInbound)
    ensures
        lsp_inbound_v(r) == spec_classify_reply(msg.jv(), awaited as int),
{
    let has_method: Option<String> = match msg.get("method") {
        Some(j) => match j.as_str() {
            Some(s) => Some(s.clone()),
            None => None,
        },
        None => None,
    };
    let id_matches: bool = match msg.get("id") {
        Some(j) => match j.as_i64() {
            Some(n) => n == awaited,
            None => false,
        },
        None => false,
    };
    if id_matches && has_method.is_none() {
        match msg.get("error") {
            Some(e) => LspInbound::ReplyError(e.duplicate()),
            None => match msg.get("result") {
                Some(res) => LspInbound::ReplyResult(res.duplicate()),
                None => LspInbound::ReplyEmpty,
            },
        }
    } else {
        match has_method {
            Some(method) => match msg.get("id") {
                Some(id) => LspInbound::ServerRequest {
                    id: id.duplicate(),
                    method,
                    params: match msg.get("params") {
                        Some(p) => Some(p.duplicate()),
                        None => None,
                    },
                },
                None => LspInbound::Dropped,
            },
            None => LspInbound::Dropped,
        }
    }
}

// ---------------------------------------------------------------------------
// Error rendering
// ---------------------------------------------------------------------------

/// The rendered message of a downstream error reply: the method, the server
/// label when one is known, the numeric code, the message text, then the
/// `data` payload — or, short of one, the whole error value.
pub open spec fn spec_lsp_error_msg(
    method: Seq<char>,
    server: Option<Seq<char>>,
    err: Jv,
) -> Seq<char> {
    let head = "LSP request "@ + method + (match server {
        Some(s) => " via '"@ + s + "'"@,
        None => Seq::empty(),
    }) + " failed"@;
    let with_code = match jv_get_int(err, "code"@) {
        Some(code) => head + " (code "@ + spec_int_chars(code) + ")"@,
        None => head,
    };
    let with_msg = match jv_get_str(err, "message"@) {
        Some(m) => if m.len() > 0 {
            with_code + ": "@ + m
        } else {
            with_code
        },
        None => match err {
            Jv::Str(m) => if m.len() > 0 {
                with_code + ": "@ + m
            } else {
                with_code
            },
            _ => with_code,
        },
    };
    match jv_get(err, "data"@) {
        Some(d) => if d is Null {
            with_msg + "; payload: "@ + spec_json_text(err)
        } else {
            with_msg + "; details: "@ + spec_json_text(d)
        },
        None => if err is Obj {
            with_msg + "; payload: "@ + spec_json_text(err)
        } else {
            with_msg + "; details: "@ + spec_json_text(err)
        },
    }
}

/// Render a downstream error reply into one message.
pub fn format_lsp_error(method: &str, err: &Json, server: Option<&str>) -> (r: String)
    ensures
        r@ == spec_lsp_error_msg(
            method@,
            match server {
                Some(s) => Some(s@),
                None => None,
            },
            err.jv(),
        ),
{
    let mut m: String = "LSP request ".to_owned();
    m.append(method);
    if let Some(s) = server {
        m.append(" via '");
        m.append(s);
        m.append("'");
    }
    m.append(" failed");
    proof {
        reveal_strlit("'");
    }
    match err.get("code") {
        Some(c) => match c.as_i64() {
            Some(code) => {
                m.append(" (code ");
                let cs = i64_render(code);
                m.append(cs.as_str());
                m.append(")");
            },
            None => {},
        },
        None => {},
    }
    let text: Option<String> = match err.get("message") {
        Some(j) => match j.as_str() {
            Some(s) => Some(s.clone()),
            None => None,
        },
        None => match err.as_str() {
            Some(s) => Some(s.clone()),
            None => None,
        },
    };
    if let Some(t) = text {
        if !t.as_str().is_empty() {
            m.append(": ");
            m.append(t.as_str());
        }
    }
    match err.get("data") {
        Some(d) => {
            if d.is_null() {
                m.append("; payload: ");
                let rendered = json_to_text(err);
                m.append(rendered.as_str());
            } else {
                m.append("; details: ");
                let rendered = json_to_text(d);
                m.append(rendered.as_str());
            }
        },
        None => {
            if err.is_obj() {
                m.append("; payload: ");
                let rendered = json_to_text(err);
                m.append(rendered.as_str());
            } else {
                m.append("; details: ");
                let rendered = json_to_text(err);
                m.append(rendered.as_str());
            }
        },
    }
    m
}

/// The rendered message of a failed tool call.
pub open spec fn spec_tool_error_msg(
    tool: Seq<char>,
    method: Option<Seq<char>>,
    details: Seq<char>,
) -> Seq<char> {
    match method {
        Some(m) => "LSP tool '"@ + tool + "' invoking '"@ + m + "' failed: "@ + details,
        None => "Tool '"@ + tool + "' failed: "@ + details,
    }
}

/// Render the message of a failed tool call.
pub fn format_tool_error_message(tool: &str, method: Option<&str>, details: &str) -> (r: String)
    ensures
        r@ == spec_tool_error_msg(
            tool@,
            match method {
                Some(m) => Some(m@),
                None => None,
            },
            details@,
        ),
{
    match method {
        Some(me) => {
            let mut m: String = "LSP tool '".to_owned();
            m.append(tool);
            m.append("' invoking '");
            m.append(me);
            m.append("' failed: ");
            m.append(details);
            m
        },
        None => {
            let mut m: String = "Tool '".to_owned();
            m.append(tool);
            m.append("' failed: ");
            m.append(details);
            m
        },
    }
}

// ---------------------------------------------------------------------------
// The manager state
// ---------------------------------------------------------------------------

/// The protocol state of one language-server client.
pub struct LanguageServerManager {
    /// The command configured as the fallback.
    pub default_cmd: Option<String>,
    /// The command the running child was started with.
    pub current_cmd: Option<String>,
    /// Whether a child is considered running.
    pub running: bool,
    /// The request identifier allocator and outstanding set.
    pub correlation: CorrelationTable,
    /// The capability record captured at the handshake.
    pub server_capabilities: Option<Json>,
    /// The configured write framing preference.
    pub write_pref: FramingPreference,
    /// The detected (or preset) read framing.
    pub read_mode: Option<Framing>,
}

/// What a call must do before a request can be written.
pub enum StartAction {
    /// The child is running and fits: go ahead.
    AlreadyRunning,
    /// Stop the child, then start this command.
    RestartWith(String),
    /// Start this command.
    StartWith(String),
    /// No command is configured.
    NoCommand,
}

impl LanguageServerManager {
    pub open spec fn wf(self) -> bool {
        self.correlation.wf()
    }

    /// A fresh manager around a configured command.
    pub fn with_command(cmd: String) -> (r: LanguageServerManager)
        ensures
            r.wf(),
            r.default_cmd == Some(cmd),
            r.current_cmd is None,
            !r.running,
            r.correlation.next_id == 1,
            r.server_capabilities is None,
            r.write_pref is Auto,
            r.read_mode is None,
    {
        LanguageServerManager {
            default_cmd: Some(cmd),
            current_cmd: None,
            running: false,
            correlation: CorrelationTable::new(),
            server_capabilities: None,
            write_pref: FramingPreference::Auto,
            read_mode: None,
        }
    }

    /// A fresh manager with no configured command.
    pub fn new(default_cmd: Option<String>) -> (r: LanguageServerManager)
        ensures
            r.wf(),
            r.default_cmd == default_cmd,
            r.current_cmd is None,
            !r.running,
            r.correlation.next_id == 1,
            r.server_capabilities is None,
            r.write_pref is Auto,
            r.read_mode is None,
    {
        LanguageServerManager {
            default_cmd,
            current_cmd: None,
            running: false,
            correlation: CorrelationTable::new(),
            server_capabilities: None,
            write_pref: FramingPreference::Auto,
            read_mode: None,
        }
    }

    /// Decide what starting the helper requires: a running, fitting child is
    /// kept; an exited child or a differing override forces a restart; with
    /// no child the resolved command is started; with no command at all the
    /// caller gets nothing to start.  The command resolves as the override,
    /// else the running command, else the default.
    pub fn plan_start(&self, child_alive: bool, override_cmd: Option<&str>) -> (r: StartAction)
        ensures
            ({
                let ov = match override_cmd {
                    Some(s) => Some(s@),
                    None => None,
                };
                let resolved = if ov is Some {
                    ov
                } else if self.current_cmd is Some {
                    Some(self.current_cmd->0@)
                } else if self.default_cmd is Some {
                    Some(self.default_cmd->0@)
                } else {
                    None
                };
                if self.running {
                    if !child_alive {
                        match resolved {
                            Some(c) => r matches StartAction::RestartWith(x) && x@ == c,
                            None => r is NoCommand,
                        }
                    } else if ov is Some && !(self.current_cmd is Some && self.current_cmd->0@
                        == ov->0) {
                        match resolved {
                            Some(c) => r matches StartAction::RestartWith(x) && x@ == c,
                            None => r is NoCommand,
                        }
                    } else {
                        r is AlreadyRunning
                    }
                } else {
                    match resolved {
                        Some(c) => r matches StartAction::StartWith(x) && x@ == c,
                        None => r is NoCommand,
                    }
                }
            }),
    {
        let resolved: Option<String> = match override_cmd {
            Some(s) => Some(s.to_owned()),
            None => match &self.current_cmd {
                Some(c) => Some(c.clone()),
                None => match &self.default_cmd {
                    Some(c) => Some(c.clone()),
                    None => None,
                },
            },
        };
        if self.running {
            if !child_alive {
                match resolved {
                    Some(c) => StartAction::RestartWith(c),
                    None => StartAction::NoCommand,
                }
            } else {
                let differs: bool = match override_cmd {
                    Some(o) => match &self.current_cmd {
                        Some(c) => !str_eq(c.as_str(), o),
                        None => true,
                    },
                    None => false,
                };
                if differs {
                    match resolved {
                        Some(c) => StartAction::RestartWith(c),
                        None => StartAction::NoCommand,
                    }
                } else {
                    StartAction::AlreadyRunning
                }
            }
        } else {
            match resolved {
                Some(c) => StartAction::StartWith(c),
                None => StartAction::NoCommand,
            }
        }
    }

    /// Record a successful start and handshake: the helper runs under `cmd`
    /// with the captured capabilities, identifier 1 and 2 were consumed by
    /// the handshake exchange on a fresh counter, and the read framing was
    /// reset per the preference before detection.
    pub fn on_started(
        &mut self,
        cmd: String,
        capabilities: Option<Json>,
        pref: FramingPreference,
        detected: Option<Framing>,
    )
        ensures
            final(self).wf(),
            final(self).running,
            final(self).current_cmd == Some(cmd),
            final(self).server_capabilities == capabilities,
            final(self).write_pref == pref,
            final(self).read_mode == detected,
            final(self).default_cmd == old(self).default_cmd,
            final(self).correlation.next_id == 2,
            final(self).correlation.pending@ == Seq::<i64>::empty(),
    {
        self.running = true;
        self.current_cmd = Some(cmd);
        self.server_capabilities = capabilities;
        self.write_pref = pref;
        self.read_mode = detected;
        self.correlation.reset();
        let id = self.correlation.allocate();
        let _ = self.correlation.settle(id);
        proof {
            let p = Seq::<i64>::empty().push(id);
            assert(p[0] == id);
            assert(p.skip(1) =~= Seq::<i64>::empty());
            assert(crate::correlation::spec_remove_id(p, id)
                == crate::correlation::spec_remove_id(p.skip(1), id));
            assert(self.correlation.pending@ =~= Seq::<i64>::empty());
        }
    }

    /// Record a shutdown: the child is gone, the capabilities cleared, the
    /// identifier counter restarted at 1 with nothing outstanding, and the
    /// read framing reset per the write preference.
    pub fn on_shutdown(&mut self)
        ensures
            final(self).wf(),
            !final(self).running,
            final(self).server_capabilities is None,
            final(self).correlation.next_id == 1,
            final(self).correlation.pending@ == Seq::<i64>::empty(),
            final(self).read_mode == spec_initial_read_mode(old(self).write_pref),
            final(self).write_pref == old(self).write_pref,
            final(self).default_cmd == old(self).default_cmd,
            final(self).current_cmd == old(self).current_cmd,
    {
        self.running = false;
        self.server_capabilities = None;
        self.correlation.reset();
        self.read_mode = self.write_pref.initial_read_mode();
    }
}

} // verus!
