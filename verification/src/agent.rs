//! The nested-agent supervisor's logic.
//!
//! A supervisor owns a set of agents by identifier and a table of pending
//! approvals keyed `<agentId>:<requestId>`.  Parameters handed to the
//! conversation methods are normalized: a string is parsed as JSON when it
//! can be, loose text is folded into a single text item, a remembered
//! conversation identifier is injected when missing, and a user turn is
//! filled out with safe defaults.  Inbound traffic from an agent is
//! classified into replies, notifications and server-initiated requests.

use vstd::prelude::*;

use crate::alist::{spec_assoc_get, spec_assoc_has};
use crate::errors::BridgeError;
use crate::alist::{spec_assoc_remove, spec_assoc_set};
use crate::json::{
    json_of_text, jv_get, jv_get_int, jv_get_str, lemma_pairs_jv_props, pairs_get, pairs_has,
    pairs_jv, pairs_remove, pairs_set, seq_jv, Json, Jv,
};
use crate::render::{json_to_text, spec_json_text};
use crate::text::{
    i64_render, spec_int_chars, spec_trim_chars, str_eq, trim_chars, u64_to_dec_string,
};

verus! {

// ---------------------------------------------------------------------------
// Parameter normalization
// ---------------------------------------------------------------------------

/// A single text item, as the agent protocol expects loose text.
pub open spec fn spec_text_items(t: Seq<char>) -> Jv {
    Jv::Arr(
        seq![
            Jv::Obj(
                seq![
                    ("type"@, Jv::Str("text"@)),
                    ("data"@, Jv::Obj(seq![("text"@, Jv::Str(t))])),
                ],
            ),
        ],
    )
}

fn text_items(t: &str) -> (r: Json)
    ensures
        r.jv() == spec_text_items(t@),
{
    let mut data: Vec<(String, Json)> = Vec::new();
    data.push(("text".to_owned(), Json::str_of(t)));
    proof {
        lemma_pairs_jv_props(data@);
        assert(pairs_jv(data@) =~= seq![("text"@, Jv::Str(t@))]);
    }
    let ghost dv = pairs_jv(data@);
    let mut item: Vec<(String, Json)> = Vec::new();
    item.push(("type".to_owned(), Json::str_of("text")));
    item.push(("data".to_owned(), Json::Obj(data)));
    proof {
        lemma_pairs_jv_props(item@);
        assert(pairs_jv(item@) =~= seq![("type"@, Jv::Str("text"@)), ("data"@, Jv::Obj(dv))]);
    }
    let ghost iv = pairs_jv(item@);
    let mut arr: Vec<Json> = Vec::new();
    arr.push(Json::Obj(item));
    let r = Json::Arr(arr);
    proof {
        crate::json::lemma_seq_jv_props(r->Arr_0@);
        assert(seq_jv(r->Arr_0@) =~= seq![Jv::Obj(iv)]);
        assert(r.jv() =~= spec_text_items(t@));
    }
    r
}

/// Normalize the raw `params` of a tool call: a string is parsed as JSON when
/// it parses, an empty string becomes the empty object, other text is kept
/// under a `text` key; anything else passes through.
pub open spec fn spec_normalize_params(p: Jv) -> Jv {
    match p {
        Jv::Str(s) => {
            let t = spec_trim_chars(s);
            if t.len() == 0 {
                Jv::Obj(Seq::empty())
            } else {
                match json_of_text(t) {
                    Some(v) => v,
                    None => Jv::Obj(seq![("text"@, Jv::Str(s))]),
                }
            }
        },
        _ => p,
    }
}

pub fn normalize_params(params: Json) -> (r: Json)
    ensures
        r.jv() == spec_normalize_params(params.jv()),
{
    match params {
        Json::Str(s) => {
            let trimmed = trim_chars(s.as_str());
            if trimmed.as_str().is_empty() {
                Json::obj_empty()
            } else {
                match crate::json::decode_json_text(trimmed.as_str()) {
                    Some(v) => v,
                    None => {
                        let ghost sv = s@;
                        let mut pairs: Vec<(String, Json)> = Vec::new();
                        pairs.push(("text".to_owned(), Json::Str(s)));
                        let r = Json::Obj(pairs);
                        proof {
                            lemma_pairs_jv_props(r->Obj_0@);
                            assert(pairs_jv(r->Obj_0@) =~= seq![("text"@, Jv::Str(sv))]);
                        }
                        r
                    },
                }
            }
        },
        other => other,
    }
}

/// The object a message-bearing call works on, before the items fix-up.
pub open spec fn spec_params_object(p: Jv) -> Seq<(Seq<char>, Jv)> {
    match p {
        Jv::Str(s) => seq![("items"@, spec_text_items(s))],
        Jv::Obj(o) => o,
        Jv::Null => Seq::empty(),
        other => seq![("items"@, spec_text_items(spec_json_text(other)))],
    }
}

/// Whether the object already carries an `items` array.
pub open spec fn spec_has_items(o: Seq<(Seq<char>, Jv)>) -> bool {
    match spec_assoc_get(o, "items"@) {
        Some(v) => v is Arr,
        None => false,
    }
}

/// The first loose text among `text`, `message` and `prompt`.
pub open spec fn spec_loose_text(o: Seq<(Seq<char>, Jv)>) -> Option<Seq<char>> {
    match spec_assoc_get(o, "text"@) {
        Some(Jv::Str(t)) => Some(t),
        _ => match spec_assoc_get(o, "message"@) {
            Some(Jv::Str(t)) => Some(t),
            _ => match spec_assoc_get(o, "prompt"@) {
                Some(Jv::Str(t)) => Some(t),
                _ => None,
            },
        },
    }
}

/// Fold loose text into a single text item when no items array is present.
pub open spec fn spec_fix_items(o: Seq<(Seq<char>, Jv)>) -> Seq<(Seq<char>, Jv)> {
    if spec_has_items(o) {
        o
    } else {
        match spec_loose_text(o) {
            Some(t) => spec_assoc_set(
                spec_assoc_remove(
                    spec_assoc_remove(spec_assoc_remove(o, "text"@), "message"@),
                    "prompt"@,
                ),
                "items"@,
                spec_text_items(t),
            ),
            None => o,
        }
    }
}

/// Inject the remembered conversation identifier when the object names none.
pub open spec fn spec_fix_cid(o: Seq<(Seq<char>, Jv)>, last: Option<Seq<char>>) -> Seq<
    (Seq<char>, Jv),
> {
    if spec_assoc_has(o, "conversationId"@) || spec_assoc_has(o, "conversation_id"@) {
        o
    } else {
        match last {
            Some(c) => spec_assoc_set(o, "conversationId"@, Jv::Str(c)),
            None => o,
        }
    }
}

/// The whole message-parameter preparation.
pub open spec fn spec_prepare_message_params(last: Option<Seq<char>>, p: Jv) -> Jv {
    Jv::Obj(spec_fix_cid(spec_fix_items(spec_params_object(p)), last))
}

/// Prepare the parameters of a message or turn call: wrap loose shapes into
/// an object, fold text into items, and inject the remembered conversation
/// identifier if none is named.
pub fn prepare_message_params(last_cid: Option<&str>, params: Json) -> (r: Json)
    ensures
        r.jv() == spec_prepare_message_params(
            match last_cid {
                Some(c) => Some(c@),
                None => None,
            },
            params.jv(),
        ),
{
    let ghost pv = params.jv();
    let mut pairs: Vec<(String, Json)> = match params {
        Json::Str(s) => {
            let mut v: Vec<(String, Json)> = Vec::new();
            v.push(("items".to_owned(), text_items(s.as_str())));
            proof {
                lemma_pairs_jv_props(v@);
                assert(pairs_jv(v@) =~= spec_params_object(pv));
            }
            v
        },
        Json::Obj(o) => o,
        Json::Null => {
            let v: Vec<(String, Json)> = Vec::new();
            proof {
                assert(pairs_jv(v@) =~= spec_params_object(pv));
            }
            v
        },
        other => {
            let rendered = json_to_text(&other);
            let mut v: Vec<(String, Json)> = Vec::new();
            v.push(("items".to_owned(), text_items(rendered.as_str())));
            proof {
                lemma_pairs_jv_props(v@);
                assert(pairs_jv(v@) =~= spec_params_object(pv));
            }
            v
        },
    };
    let has_items: bool = match pairs_get(&pairs, "items") {
        Some(j) => j.as_arr().is_some(),
        None => false,
    };
    if !has_items {
        let loose: Option<String> = match pairs_get(&pairs, "text") {
            Some(j) => match j.as_str() {
                Some(t) => Some(t.clone()),
                None => lookup_message_or_prompt(&pairs),
            },
            None => lookup_message_or_prompt(&pairs),
        };
        if let Some(t) = loose {
            pairs_remove(&mut pairs, "text");
            pairs_remove(&mut pairs, "message");
            pairs_remove(&mut pairs, "prompt");
            let items = text_items(t.as_str());
            pairs_set(&mut pairs, "items".to_owned(), items);
        }
    }
    let has_cid = pairs_has(&pairs, "conversationId") || pairs_has(&pairs, "conversation_id");
    if !has_cid {
        if let Some(c) = last_cid {
            pairs_set(&mut pairs, "conversationId".to_owned(), Json::str_of(c));
        }
    }
    Json::Obj(pairs)
}

/// The loose text under `message`, else under `prompt`.
fn lookup_message_or_prompt(pairs: &Vec<(String, Json)>) -> (r: Option<String>)
    ensures
        ({
            let o = pairs_jv(pairs@);
            match r {
                Some(t) => (match spec_assoc_get(o, "message"@) {
                    Some(Jv::Str(m)) => t@ == m,
                    _ => match spec_assoc_get(o, "prompt"@) {
                        Some(Jv::Str(m)) => t@ == m,
                        _ => false,
                    },
                }),
                None => !(spec_assoc_get(o, "message"@) matches Some(Jv::Str(_)))
                    && !(spec_assoc_get(o, "prompt"@) matches Some(Jv::Str(_))),
            }
        }),
{
    match pairs_get(pairs, "message") {
        Some(j) => match j.as_str() {
            Some(t) => Some(t.clone()),
            None => match pairs_get(pairs, "prompt") {
                Some(k) => match k.as_str() {
                    Some(t) => Some(t.clone()),
                    None => None,
                },
                None => None,
            },
        },
        None => match pairs_get(pairs, "prompt") {
            Some(k) => match k.as_str() {
                Some(t) => Some(t.clone()),
                None => None,
            },
            None => None,
        },
    }
}

/// One defaulted field: bind it only when absent.
pub open spec fn spec_set_default(o: Seq<(Seq<char>, Jv)>, k: Seq<char>, v: Jv) -> Seq<
    (Seq<char>, Jv),
> {
    if spec_assoc_has(o, k) {
        o
    } else {
        spec_assoc_set(o, k, v)
    }
}

/// The defaults a user turn is filled out with when fields are missing:
/// working directory, approval policy `never`, read-only sandbox, a model
/// name and automatic summaries.
pub open spec fn spec_turn_defaults(p: Jv, cwd: Seq<char>) -> Jv {
    match p {
        Jv::Obj(o) => Jv::Obj(
            spec_set_default(
                spec_set_default(
                    spec_set_default(
                        spec_set_default(
                            spec_set_default(o, "cwd"@, Jv::Str(cwd)),
                            "approvalPolicy"@,
                            Jv::Str("never"@),
                        ),
                        "sandboxPolicy"@,
                        Jv::Obj(seq![("mode"@, Jv::Str("read-only"@))]),
                    ),
                    "model"@,
                    Jv::Str("gpt-4"@),
                ),
                "summary"@,
                Jv::Str("auto"@),
            ),
        ),
        _ => p,
    }
}

fn set_default(pairs: &mut Vec<(String, Json)>, key: &str, val: Json)
    ensures
        pairs_jv(final(pairs)@) == spec_set_default(pairs_jv(old(pairs)@), key@, val.jv()),
{
    if !pairs_has(pairs, key) {
        pairs_set(pairs, key.to_owned(), val);
    }
}

/// Fill a user turn's missing fields with the safe defaults.
pub fn apply_turn_defaults(params: Json, cwd: &str) -> (r: Json)
    ensures
        r.jv() == spec_turn_defaults(params.jv(), cwd@),
{
    match params {
        Json::Obj(mut pairs) => {
            set_default(&mut pairs, "cwd", Json::str_of(cwd));
            set_default(&mut pairs, "approvalPolicy", Json::str_of("never"));
            let mut sandbox: Vec<(String, Json)> = Vec::new();
            sandbox.push(("mode".to_owned(), Json::str_of("read-only")));
            proof {
                lemma_pairs_jv_props(sandbox@);
                assert(pairs_jv(sandbox@) =~= seq![("mode"@, Jv::Str("read-only"@))]);
            }
            set_default(&mut pairs, "sandboxPolicy", Json::Obj(sandbox));
            set_default(&mut pairs, "model", Json::str_of("gpt-4"));
            set_default(&mut pairs, "summary", Json::str_of("auto"));
            Json::Obj(pairs)
        },
        other => other,
    }
}

/// Inject the remembered conversation identifier into interrupt parameters
/// that name none; parameters that are not an object are replaced whole.
pub open spec fn spec_inject_cid(p: Jv, last: Option<Seq<char>>) -> Jv {
    if jv_get(p, "conversationId"@) is Some || jv_get(p, "conversation_id"@) is Some {
        p
    } else {
        match last {
            None => p,
            Some(c) => match p {
                Jv::Obj(o) => Jv::Obj(spec_assoc_set(o, "conversationId"@, Jv::Str(c))),
                _ => Jv::Obj(seq![("conversationId"@, Jv::Str(c))]),
            },
        }
    }
}

pub fn inject_conversation_id(params: Json, last_cid: Option<&str>) -> (r: Json)
    ensures
        r.jv() == spec_inject_cid(
            params.jv(),
            match last_cid {
                Some(c) => Some(c@),
                None => None,
            },
        ),
{
    let has_camel = params.get("conversationId").is_some();
    let has_snake = params.get("conversation_id").is_some();
    if has_camel || has_snake {
        return params;
    }
    match last_cid {
        None => params,
        Some(c) => match params {
            Json::Obj(mut pairs) => {
                pairs_set(&mut pairs, "conversationId".to_owned(), Json::str_of(c));
                Json::Obj(pairs)
            },
            _ => {
                let mut pairs: Vec<(String, Json)> = Vec::new();
                pairs.push(("conversationId".to_owned(), Json::str_of(c)));
                let r = Json::Obj(pairs);
                proof {
                    lemma_pairs_jv_props(r->Obj_0@);
                    assert(pairs_jv(r->Obj_0@) =~= seq![("conversationId"@, Jv::Str(c@))]);
                }
                r
            },
        },
    }
}

/// The shape every forwarded call's parameters take on the wire: an object
/// passes, null becomes empty, any other value is wrapped under `value`.
pub open spec fn spec_ensure_object(p: Jv) -> Jv {
    match p {
        Jv::Obj(_) => p,
        Jv::Null => Jv::Obj(Seq::empty()),
        other => Jv::Obj(seq![("value"@, other)]),
    }
}

pub fn ensure_object_params(params: Json) -> (r: Json)
    ensures
        r.jv() == spec_ensure_object(params.jv()),
{
    let ghost pv = params.jv();
    match params {
        Json::Obj(o) => Json::Obj(o),
        Json::Null => Json::obj_empty(),
        other => {
            let mut pairs: Vec<(String, Json)> = Vec::new();
            pairs.push(("value".to_owned(), other));
            let r = Json::Obj(pairs);
            proof {
                lemma_pairs_jv_props(r->Obj_0@);
                assert(pairs_jv(r->Obj_0@) =~= seq![("value"@, pv)]);
            }
            r
        },
    }
}

/// The conversation identifier in a reply, camel case preferred.
pub fn extract_conversation_id(value: &Json) -> (r: Option<String>)
    ensures
        match r {
            Some(c) => (match jv_get_str(value.jv(), "conversationId"@) {
                Some(s) => c@ == s,
                None => jv_get_str(value.jv(), "conversation_id"@) == Some(c@),
            }),
            None => jv_get_str(value.jv(), "conversationId"@) is None && jv_get_str(
                value.jv(),
                "conversation_id"@,
            ) is None,
        },
{
    match value.get("conversationId") {
        Some(j) => match j.as_str() {
            Some(s) => Some(s.clone()),
            None => extract_snake_cid(value),
        },
        None => extract_snake_cid(value),
    }
}

fn extract_snake_cid(value: &Json) -> (r: Option<String>)
    ensures
        match r {
            Some(c) => jv_get_str(value.jv(), "conversation_id"@) == Some(c@),
            None => jv_get_str(value.jv(), "conversation_id"@) is None,
        },
{
    match value.get("conversation_id") {
        Some(j) => match j.as_str() {
            Some(s) => Some(s.clone()),
            None => None,
        },
        None => None,
    }
}

// ---------------------------------------------------------------------------
// Identifiers
// ---------------------------------------------------------------------------

/// The identifier a spawned agent gets: the caller's non-empty choice, else
/// `agent-` followed by the wall clock in microseconds.
pub open spec fn spec_agent_id(id: Option<Seq<char>>, micros: nat) -> Seq<char> {
    match id {
        Some(s) if s.len() > 0 => s,
        _ => "agent-"@ + crate::text::spec_dec_chars(micros),
    }
}

pub fn choose_agent_id(id: Option<String>, micros: u64) -> (r: String)
    ensures
        r@ == spec_agent_id(
            match id {
                Some(s) => Some(s@),
                None => None,
            },
            micros as nat,
        ),
{
    match id {
        Some(s) => {
            if s.as_str().is_empty() {
                default_agent_id(micros)
            } else {
                s
            }
        },
        None => default_agent_id(micros),
    }
}

fn default_agent_id(micros: u64) -> (r: String)
    ensures
        r@ == "agent-"@ + crate::text::spec_dec_chars(micros as nat),
{
    let mut out: String = "agent-".to_owned();
    let digits = u64_to_dec_string(micros);
    out.append(digits.as_str());
    out
}

/// Where the agent binary comes from: a non-empty environment override wins,
/// else a path search result; with neither the spawn fails.
pub fn resolve_agent_binary(env_override: Option<&str>, path_found: Option<&str>) -> (r: Result<
    String,
    BridgeError,
>)
    ensures
        match env_override {
            Some(e) if e@.len() > 0 => r matches Ok(c) && c@ == e@,
            _ => match path_found {
                Some(p) => r matches Ok(c) && c@ == p@,
                None => r matches Err(err) && err is Spawn,
            },
        },
{
    if let Some(e) = env_override {
        if !e.is_empty() {
            return Ok(e.to_owned());
        }
    }
    match path_found {
        Some(p) => Ok(p.to_owned()),
        None => Err(
            BridgeError::Spawn(
                "Unable to locate the agent binary. Set the override variable or add it to PATH.".to_owned(),
            ),
        ),
    }
}

/// The key a pending approval is filed under.
pub open spec fn spec_approval_key(agent: Seq<char>, rid: Seq<char>) -> Seq<char> {
    agent + ":"@ + rid
}

fn approval_key(agent_id: &str, rid: &str) -> (r: String)
    ensures
        r@ == spec_approval_key(agent_id@, rid@),
{
    let mut out: String = agent_id.to_owned();
    out.append(":");
    out.append(rid);
    proof {
        reveal_strlit(":");
    }
    out
}

// ---------------------------------------------------------------------------
// Demultiplexing
// ---------------------------------------------------------------------------

/// The text of a request identifier: digits for a number, the string itself
/// for a string.
pub open spec fn spec_request_id_text(id: Jv) -> Option<Seq<char>> {
    match id {
        Jv::Int(n) => Some(spec_int_chars(n)),
        Jv::Str(s) => Some(s),
        _ => None,
    }
}

/// What the demultiplexer does with one inbound frame.
#[derive(Debug)]
pub enum DemuxAction {
    /// A reply correlated to one of our requests: hand the result to the
    /// waiter.
    DeliverResult { id: i64, result: Json },
    /// An error reply correlated to one of our requests.
    DeliverError { id: i64, error: Json },
    /// A notification: forward the wrapped payload upstream.
    ForwardNotification { payload: Json },
    /// A server-initiated approval request: file it under `key`, forward the
    /// payload upstream, and reply on `reply_id` once decided.
    ApprovalRequest { key: String, reply_id: Json, payload: Json },
    /// Any other server-initiated request: forward the payload for
    /// observability and reply with an empty object.
    OtherRequest { reply_id: Json, payload: Json },
    /// Traffic the demultiplexer ignores.
    Ignore,
}

/// The payload wrapped around a notification.
pub open spec fn spec_event_payload(method: Seq<char>, params: Option<Jv>) -> Jv {
    Jv::Obj(
        seq![
            ("method"@, Jv::Str(method)),
            (
                "params"@,
                match params {
                    Some(p) => p,
                    None => Jv::Null,
                },
            ),
        ],
    )
}

/// The payload forwarded for an approval request.
pub open spec fn spec_approval_payload(
    agent: Seq<char>,
    rid: Seq<char>,
    method: Seq<char>,
    params: Option<Jv>,
) -> Jv {
    Jv::Obj(
        seq![
            ("kind"@, Jv::Str("approval_request"@)),
            ("agentId"@, Jv::Str(agent)),
            ("requestId"@, Jv::Str(rid)),
            ("method"@, Jv::Str(method)),
            (
                "params"@,
                match params {
                    Some(p) => p,
                    None => Jv::Null,
                },
            ),
        ],
    )
}

/// The payload forwarded for any other server-initiated request.
pub open spec fn spec_other_request_payload(
    agent: Seq<char>,
    method: Seq<char>,
    params: Option<Jv>,
) -> Jv {
    Jv::Obj(
        seq![
            ("kind"@, Jv::Str("codex_request"@)),
            ("agentId"@, Jv::Str(agent)),
            ("method"@, Jv::Str(method)),
            (
                "params"@,
                match params {
                    Some(p) => p,
                    None => Jv::Null,
                },
            ),
        ],
    )
}

/// The ghost mirror of the classification.
pub enum DemuxCase {
    Response(int, Jv),
    ErrorResponse(int, Jv),
    Notification(Jv),
    Approval(Seq<char>, Jv, Jv),
    Other(Jv, Jv),
    Ignore,
}

/// Classify one frame read from an agent: a message with a string `method`
/// is a request when it carries an `id` (an approval when the method is one
/// of the two approval kinds) and a notification otherwise; a message
/// without a method but with a numeric `id` delivers an error or a result;
/// everything else is ignored.
pub open spec fn spec_classify(agent: Seq<char>, m: Jv) -> DemuxCase {
    match jv_get_str(m, "method"@) {
        Some(method) => {
            match jv_get(m, "id"@) {
                Some(id) => match spec_request_id_text(id) {
                    Some(rid) => if method == "applyPatchApproval"@ || method
                        == "execCommandApproval"@ {
                        DemuxCase::Approval(
                            spec_approval_key(agent, rid),
                            id,
                            spec_approval_payload(agent, rid, method, jv_get(m, "params"@)),
                        )
                    } else {
                        DemuxCase::Other(
                            id,
                            spec_other_request_payload(agent, method, jv_get(m, "params"@)),
                        )
                    },
                    None => DemuxCase::Other(
                        id,
                        spec_other_request_payload(agent, method, jv_get(m, "params"@)),
                    ),
                },
                None => DemuxCase::Notification(
                    spec_event_payload(method, jv_get(m, "params"@)),
                ),
            }
        },
        None => match jv_get_int(m, "id"@) {
            Some(id) => match jv_get(m, "error"@) {
                Some(e) => DemuxCase::ErrorResponse(id, e),
                None => match jv_get(m, "result"@) {
                    Some(res) => DemuxCase::Response(id, res),
                    None => DemuxCase::Ignore,
                },
            },
            None => DemuxCase::Ignore,
        },
    }
}

/// The mathematical reading of an action.
pub open spec fn demux_case_of(a: DemuxAction) -> DemuxCase {
    match a {
        DemuxAction::DeliverResult { id, result } => DemuxCase::Response(id as int, result.jv()),
        DemuxAction::DeliverError { id, error } => DemuxCase::ErrorResponse(id as int, error.jv()),
        DemuxAction::ForwardNotification { payload } => DemuxCase::Notification(payload.jv()),
        DemuxAction::ApprovalRequest { key, reply_id, payload } => DemuxCase::Approval(
            key@,
            reply_id.jv(),
            payload.jv(),
        ),
        DemuxAction::OtherRequest { reply_id, payload } => DemuxCase::Other(
            reply_id.jv(),
            payload.jv(),
        ),
        DemuxAction::Ignore => DemuxCase::Ignore,
    }
}

/// Build the `{method, params}` wrapper around a notification or request.
fn event_payload(method: &str, params: Option<&Json>) -> (r: Json)
    ensures
        r.jv() == spec_event_payload(
            method@,
            match params {
                Some(p) => Some(p.jv()),
                None => None,
            },
        ),
{
    let ghost pv = match params {
        Some(p) => Some(p.jv()),
        None => None::<Jv>,
    };
    let p = match params {
        Some(p) => p.duplicate(),
        None => Json::Null,
    };
    let mut pairs: Vec<(String, Json)> = Vec::new();
    pairs.push(("method".to_owned(), Json::str_of(method)));
    pairs.push(("params".to_owned(), p));
    let r = Json::Obj(pairs);
    proof {
        lemma_pairs_jv_props(r->Obj_0@);
        assert(pairs_jv(r->Obj_0@) =~= seq![
            ("method"@, Jv::Str(method@)),
            (
                "params"@,
                match pv {
                    Some(q) => q,
                    None => Jv::Null,
                },
            ),
        ]);
    }
    r
}

fn approval_payload(agent_id: &str, rid: &str, method: &str, params: Option<&Json>) -> (r: Json)
    ensures
        r.jv() == spec_approval_payload(
            agent_id@,
            rid@,
            method@,
            match params {
                Some(p) => Some(p.jv()),
                None => None,
            },
        ),
{
    let ghost pv = match params {
        Some(p) => Some(p.jv()),
        None => None::<Jv>,
    };
    let p = match params {
        Some(p) => p.duplicate(),
        None => Json::Null,
    };
    let mut pairs: Vec<(String, Json)> = Vec::new();
    pairs.push(("kind".to_owned(), Json::str_of("approval_request")));
    pairs.push(("agentId".to_owned(), Json::str_of(agent_id)));
    pairs.push(("requestId".to_owned(), Json::str_of(rid)));
    pairs.push(("method".to_owned(), Json::str_of(method)));
    pairs.push(("params".to_owned(), p));
    let r = Json::Obj(pairs);
    proof {
        lemma_pairs_jv_props(r->Obj_0@);
        assert(pairs_jv(r->Obj_0@) =~= seq![
            ("kind"@, Jv::Str("approval_request"@)),
            ("agentId"@, Jv::Str(agent_id@)),
            ("requestId"@, Jv::Str(rid@)),
            ("method"@, Jv::Str(method@)),
            (
                "params"@,
                match pv {
                    Some(q) => q,
                    None => Jv::Null,
                },
            ),
        ]);
    }
    r
}

fn other_request_payload(agent_id: &str, method: &str, params: Option<&Json>) -> (r: Json)
    ensures
        r.jv() == spec_other_request_payload(
            agent_id@,
            method@,
            match params {
                Some(p) => Some(p.jv()),
                None => None,
            },
        ),
{
    let ghost pv = match params {
        Some(p) => Some(p.jv()),
        None => None::<Jv>,
    };
    let p = match params {
        Some(p) => p.duplicate(),
        None => Json::Null,
    };
    let mut pairs: Vec<(String, Json)> = Vec::new();
    pairs.push(("kind".to_owned(), Json::str_of("codex_request")));
    pairs.push(("agentId".to_owned(), Json::str_of(agent_id)));
    pairs.push(("method".to_owned(), Json::str_of(method)));
    pairs.push(("params".to_owned(), p));
    let r = Json::Obj(pairs);
    proof {
        lemma_pairs_jv_props(r->Obj_0@);
        assert(pairs_jv(r->Obj_0@) =~= seq![
            ("kind"@, Jv::Str("codex_request"@)),
            ("agentId"@, Jv::Str(agent_id@)),
            ("method"@, Jv::Str(method@)),
            (
                "params"@,
                match pv {
                    Some(q) => q,
                    None => Jv::Null,
                },
            ),
        ]);
    }
    r
}

/// Classify one frame read from an agent.
pub fn classify_agent_message(agent_id: &str, msg: &Json) -> (r: DemuxAction)
    ensures
        demux_case_of(r) == spec_classify(agent_id@, msg.jv()),
{
    let method_opt: Option<String> = match msg.get("method") {
        Some(j) => match j.as_str() {
            Some(s) => Some(s.clone()),
            None => None,
        },
        None => None,
    };
    match method_opt {
        Some(method) => {
            let params = msg.get("params");
            match msg.get("id") {
                Some(id) => {
                    let rid_opt: Option<String> = match id.as_i64() {
                        Some(n) => Some(i64_render(n)),
                        None => match id.as_str() {
                            Some(s) => Some(s.clone()),
                            None => None,
                        },
                    };
                    match rid_opt {
                        Some(rid) => {
                            if str_eq(method.as_str(), "applyPatchApproval") || str_eq(
                                method.as_str(),
                                "execCommandApproval",
                            ) {
                                let key = approval_key(agent_id, rid.as_str());
                                let payload = approval_payload(
                                    agent_id,
                                    rid.as_str(),
                                    method.as_str(),
                                    params,
                                );
                                DemuxAction::ApprovalRequest {
                                    key,
                                    reply_id: id.duplicate(),
                                    payload,
                                }
                            } else {
                                let payload = other_request_payload(
                                    agent_id,
                                    method.as_str(),
                                    params,
                                );
                                DemuxAction::OtherRequest { reply_id: id.duplicate(), payload }
                            }
                        },
                        None => {
                            let payload = other_request_payload(agent_id, method.as_str(), params);
                            DemuxAction::OtherRequest { reply_id: id.duplicate(), payload }
                        },
                    }
                },
                None => {
                    let payload = event_payload(method.as_str(), params);
                    DemuxAction::ForwardNotification { payload }
                },
            }
        },
        None => {
            match msg.get("id") {
                Some(idj) => match idj.as_i64() {
                    Some(id) => match msg.get("error") {
                        Some(e) => DemuxAction::DeliverError { id, error: e.duplicate() },
                        None => match msg.get("result") {
                            Some(res) => DemuxAction::DeliverResult {
                                id,
                                result: res.duplicate(),
                            },
                            None => DemuxAction::Ignore,
                        },
                    },
                    None => DemuxAction::Ignore,
                },
                None => DemuxAction::Ignore,
            }
        },
    }
}

// ---------------------------------------------------------------------------
// Approvals
// ---------------------------------------------------------------------------

#[verifier::external_type_specification]
#[verifier::external_body]
#[verifier::reject_recursive_types(T)]
pub struct ExOneshotSender<T>(tokio::sync::oneshot::Sender<T>);

/// Relies on tokio's `oneshot::Sender::send`: the value is delivered if the
/// receiver still listens; nothing more can be promised of the outcome.
#[verifier::external_body]
fn send_decision(tx: tokio::sync::oneshot::Sender<String>, decision: String) -> (r: bool) {
    tx.send(decision).is_ok()
}

/// The pending approvals: one single-shot reply channel per key.
pub struct Approvals {
    pub pending: Vec<(String, tokio::sync::oneshot::Sender<String>)>,
}

impl Approvals {
    /// The keys with a pending decision, in registration order.
    pub open spec fn keys(self) -> Seq<Seq<char>> {
        Seq::new(self.pending@.len(), |i: int| self.pending@[i].0@)
    }

    pub open spec fn wf(self) -> bool {
        forall|i: int, j: int|
            #![trigger self.keys()[i], self.keys()[j]]
            0 <= i < j < self.keys().len() ==> self.keys()[i] != self.keys()[j]
    }

    pub fn new() -> (r: Approvals)
        ensures
            r.wf(),
            r.keys() == Seq::<Seq<char>>::empty(),
    {
        let r = Approvals { pending: Vec::new() };
        proof {
            assert(r.keys() =~= Seq::<Seq<char>>::empty());
        }
        r
    }

    /// File a pending approval under `key`; a channel already filed under the
    /// same key is replaced.
    pub fn register(&mut self, key: String, tx: tokio::sync::oneshot::Sender<String>)
        requires
            old(self).wf(),
        ensures
            final(self).wf(),
            final(self).keys().contains(key@),
            forall|k: Seq<char>|
                k != key@ ==> (#[trigger] final(self).keys().contains(k) == old(
                    self,
                ).keys().contains(k)),
    {
        let n = self.pending.len();
        let mut i: usize = 0;
        while i < n
            invariant
                i <= n == self.pending@.len(),
                old(self) == self,
                old(self).wf(),
                forall|j: int| 0 <= j < i ==> self.keys()[j] != key@,
            decreases n - i,
        {
            if str_eq(self.pending[i].0.as_str(), key.as_str()) {
                proof {
                    assert(self.keys()[i as int] == key@);
                }
                let ghost oldkeys = self.keys();
                self.pending.set(i, (key, tx));
                proof {
                    assert(self.keys() =~= oldkeys);
                    assert(self.keys().contains(oldkeys[i as int]));
                    assert forall|a: int, b: int|
                        #![trigger self.keys()[a], self.keys()[b]]
                        0 <= a < b < self.keys().len() implies self.keys()[a]
                        != self.keys()[b] by {
                        assert(old(self).keys()[a] == oldkeys[a]);
                        assert(old(self).keys()[b] == oldkeys[b]);
                        assert(self.keys()[a] == oldkeys[a]);
                        assert(self.keys()[b] == oldkeys[b]);
                    }
                }
                return;
            }
            i = i + 1;
        }
        let ghost oldkeys = self.keys();
        self.pending.push((key, tx));
        proof {
            assert(self.keys() =~= oldkeys.push(self.pending@[n as int].0@));
            assert(self.keys()[n as int] == self.pending@[n as int].0@);
            assert forall|k: Seq<char>|
                k != self.pending@[n as int].0@ implies #[trigger] self.keys().contains(k)
                == oldkeys.contains(k) by {
                if self.keys().contains(k) {
                    let w = choose|w: int| 0 <= w < self.keys().len() && self.keys()[w] == k;
                    assert(oldkeys[w] == k);
                }
                if oldkeys.contains(k) {
                    let w = choose|w: int| 0 <= w < oldkeys.len() && oldkeys[w] == k;
                    assert(self.keys()[w] == k);
                }
            }
        }
    }

    /// The keys of every pending approval.
    pub fn list_keys(&self) -> (r: Vec<String>)
        ensures
            r@.len() == self.keys().len(),
            forall|i: int| 0 <= i < r@.len() ==> #[trigger] r@[i]@ == self.keys()[i],
    {
        let mut out: Vec<String> = Vec::new();
        let n = self.pending.len();
        let mut i: usize = 0;
        while i < n
            invariant
                i <= n == self.pending@.len(),
                out@.len() == i,
                forall|j: int| 0 <= j < i ==> #[trigger] out@[j]@ == self.keys()[j],
            decreases n - i,
        {
            out.push(self.pending[i].0.clone());
            i = i + 1;
        }
        out
    }

    /// Whether `key` has a pending decision.
    pub fn has_key(&self, key: &str) -> (r: bool)
        ensures
            r == self.keys().contains(key@),
    {
        let n = self.pending.len();
        let mut i: usize = 0;
        while i < n
            invariant
                i <= n == self.pending@.len(),
                forall|j: int| 0 <= j < i ==> self.keys()[j] != key@,
            decreases n - i,
        {
            if str_eq(self.pending[i].0.as_str(), key) {
                proof {
                    assert(self.keys()[i as int] == key@);
                }
                return true;
            }
            i = i + 1;
        }
        false
    }

    /// Deliver a decision: the waiting channel is taken out and fired, so the
    /// key is decidable exactly once; an unknown key is an error.
    pub fn decide(&mut self, key: &str, decision: String) -> (r: Result<bool, BridgeError>)
        requires
            old(self).wf(),
        ensures
            final(self).wf(),
            r is Ok <==> old(self).keys().contains(key@),
            r is Err ==> r->Err_0 is NotFound && *final(self) == *old(self),
            !final(self).keys().contains(key@),
            forall|k: Seq<char>|
                k != key@ ==> (#[trigger] final(self).keys().contains(k) == old(
                    self,
                ).keys().contains(k)),
    {
        let n = self.pending.len();
        let mut i: usize = 0;
        while i < n
            invariant
                i <= n == self.pending@.len(),
                old(self) == self,
                old(self).wf(),
                forall|j: int| 0 <= j < i ==> self.keys()[j] != key@,
            decreases n - i,
        {
            if str_eq(self.pending[i].0.as_str(), key) {
                proof {
                    assert(self.keys()[i as int] == key@);
                }
                let ghost oldkeys = self.keys();
                let entry = self.pending.remove(i);
                let _ = send_decision(entry.1, decision);
                proof {
                    assert(self.keys() =~= oldkeys.remove(i as int));
                    lemma_keys_remove(oldkeys, i as int, key@);
                }
                return Ok(true);
            }
            i = i + 1;
        }
        let mut m: String = "approval key not found: ".to_owned();
        m.append(key);
        Err(BridgeError::NotFound(m))
    }

    /// Drop a pending approval whose wait timed out: a synthetic deny was
    /// already written back, and the key is not decidable afterwards.
    pub fn expire(&mut self, key: &str)
        requires
            old(self).wf(),
        ensures
            final(self).wf(),
            !final(self).keys().contains(key@),
            forall|k: Seq<char>|
                k != key@ ==> (#[trigger] final(self).keys().contains(k) == old(
                    self,
                ).keys().contains(k)),
    {
        let n = self.pending.len();
        let mut i: usize = 0;
        while i < n
            invariant
                i <= n == self.pending@.len(),
                old(self) == self,
                old(self).wf(),
                forall|j: int| 0 <= j < i ==> self.keys()[j] != key@,
            decreases n - i,
        {
            if str_eq(self.pending[i].0.as_str(), key) {
                proof {
                    assert(self.keys()[i as int] == key@);
                }
                let ghost oldkeys = self.keys();
                let _ = self.pending.remove(i);
                proof {
                    assert(self.keys() =~= oldkeys.remove(i as int));
                    lemma_keys_remove(oldkeys, i as int, key@);
                }
                return;
            }
            i = i + 1;
        }
        proof {
            assert forall|j: int|
                0 <= j < self.keys().len() implies self.keys()[j] != key@ by {}
        }
    }
}

/// Removing the one entry with a key leaves the other keys as they were, and
/// the removed key unbound.
proof fn lemma_keys_remove(keys: Seq<Seq<char>>, i: int, key: Seq<char>)
    requires
        0 <= i < keys.len(),
        keys[i] == key,
        forall|a: int, b: int|
            #![trigger keys[a], keys[b]]
            0 <= a < b < keys.len() ==> keys[a] != keys[b],
    ensures
        !keys.remove(i).contains(key),
        forall|k: Seq<char>|
            k != key ==> (#[trigger] keys.remove(i).contains(k) == keys.contains(k)),
        forall|a: int, b: int|
            #![trigger keys.remove(i)[a], keys.remove(i)[b]]
            0 <= a < b < keys.remove(i).len() ==> keys.remove(i)[a] != keys.remove(i)[b],
{
    let t = keys.remove(i);
    assert forall|w: int| 0 <= w < t.len() implies t[w] != key by {
        if w < i {
            assert(t[w] == keys[w]);
        } else {
            assert(t[w] == keys[w + 1]);
        }
    }
    assert forall|k: Seq<char>| k != key implies #[trigger] t.contains(k) == keys.contains(k) by {
        if t.contains(k) {
            let w = choose|w: int| 0 <= w < t.len() && t[w] == k;
            if w < i {
                assert(keys[w] == k);
            } else {
                assert(keys[w + 1] == k);
            }
        }
        if keys.contains(k) {
            let w = choose|w: int| 0 <= w < keys.len() && keys[w] == k;
            if w < i {
                assert(t[w] == k);
            } else if w > i {
                assert(t[w - 1] == k);
            }
        }
    }
    assert forall|a: int, b: int|
        #![trigger t[a], t[b]]
        0 <= a < b < t.len() implies t[a] != t[b] by {
        let ka = if a < i {
            a
        } else {
            a + 1
        };
        let kb = if b < i {
            b
        } else {
            b + 1
        };
        assert(t[a] == keys[ka]);
        assert(t[b] == keys[kb]);
    }
}

/// A registered key is decidable exactly once, and a timed-out key is not
/// decidable afterwards: once the entry for a key is removed, whether by a
/// decision or by the timeout, the key is gone and only it.
pub proof fn lemma_approval_decided_once(keys: Seq<Seq<char>>, i: int, key: Seq<char>)
    requires
        0 <= i < keys.len(),
        keys[i] == key,
        forall|a: int, b: int|
            #![trigger keys[a], keys[b]]
            0 <= a < b < keys.len() ==> keys[a] != keys[b],
    ensures
        !keys.remove(i).contains(key),
        forall|k: Seq<char>|
            k != key ==> (#[trigger] keys.remove(i).contains(k) == keys.contains(k)),
{
    lemma_keys_remove(keys, i, key);
}

/// The result written back for a decided (or timed-out) approval:
/// `{decision: <decision>}`.
pub fn decision_result(decision: &str) -> (r: Json)
    ensures
        r.jv() == Jv::Obj(seq![("decision"@, Jv::Str(decision@))]),
{
    let mut pairs: Vec<(String, Json)> = Vec::new();
    pairs.push(("decision".to_owned(), Json::str_of(decision)));
    let r = Json::Obj(pairs);
    proof {
        lemma_pairs_jv_props(r->Obj_0@);
        assert(pairs_jv(r->Obj_0@) =~= seq![("decision"@, Jv::Str(decision@))]);
    }
    r
}

/// The in-flight requests of one agent: the identifier allocator and the
/// single-shot reply channel each call parks on.  Identifiers start at 1 and
/// are never reused within the agent's lifetime; every entry is consumed
/// exactly once — by the matching reply, or by the teardown drain when the
/// agent's stream ends.
pub struct ReplyWaiters {
    /// The identifier the next request will carry.
    pub next_id: i64,
    /// The channel each outstanding request's caller waits on.
    pub pending: Vec<(i64, tokio::sync::oneshot::Sender<Result<Json, Json>>)>,
    /// Every identifier handed out in this lifetime.
    pub allocated: Ghost<Set<i64>>,
}

impl ReplyWaiters {
    /// The outstanding identifiers, in registration order.
    pub open spec fn ids(self) -> Seq<i64> {
        Seq::new(self.pending@.len(), |i: int| self.pending@[i].0)
    }

    pub open spec fn wf(self) -> bool {
        &&& 1 <= self.next_id
        &&& forall|i: int| 0 <= i < self.ids().len() ==> 1 <= #[trigger] self.ids()[i] < self.next_id
        &&& forall|i: int, j: int|
            #![trigger self.ids()[i], self.ids()[j]]
            0 <= i < j < self.ids().len() ==> self.ids()[i] != self.ids()[j]
        &&& forall|i: int|
            0 <= i < self.ids().len() ==> self.allocated@.contains(#[trigger] self.ids()[i])
        &&& forall|id: i64| #[trigger] self.allocated@.contains(id) ==> 1 <= id < self.next_id
    }

    /// A fresh table: nothing outstanding, the counter at 1.
    pub fn new() -> (r: ReplyWaiters)
        ensures
            r.wf(),
            r.next_id == 1,
            r.ids() == Seq::<i64>::empty(),
            r.allocated@ == Set::<i64>::empty(),
    {
        let r = ReplyWaiters { next_id: 1, pending: Vec::new(), allocated: Ghost(Set::empty()) };
        proof {
            assert(r.ids() =~= Seq::<i64>::empty());
        }
        r
    }

    /// Park one caller: exactly one new entry is created, under an
    /// identifier never handed out before.
    pub fn register(
        &mut self,
        tx: tokio::sync::oneshot::Sender<Result<Json, Json>>,
    ) -> (id: i64)
        requires
            old(self).wf(),
            old(self).next_id < i64::MAX,
        ensures
            final(self).wf(),
            id == old(self).next_id,
            !old(self).allocated@.contains(id),
            final(self).allocated@ == old(self).allocated@.insert(id),
            final(self).ids() == old(self).ids().push(id),
            final(self).next_id == old(self).next_id + 1,
    {
        let ghost oldids = self.ids();
        proof {
            assert(oldids == old(self).ids());
        }
        let id = self.next_id;
        self.next_id = self.next_id + 1;
        self.pending.push((id, tx));
        proof {
            self.allocated@ = self.allocated@.insert(id);
            assert(self.ids() =~= oldids.push(id));
            assert forall|i: int|
                0 <= i < self.ids().len() implies 1 <= #[trigger] self.ids()[i]
                < self.next_id by {
                assert(self.ids()[i] == oldids.push(id)[i]);
                if i < oldids.len() {
                    assert(self.ids()[i] == oldids[i]);
                } else {
                    assert(self.ids()[i] == id);
                }
            }
            assert forall|a: int, b: int|
                #![trigger self.ids()[a], self.ids()[b]]
                0 <= a < b < self.ids().len() implies self.ids()[a] != self.ids()[b] by {
                assert(self.ids()[a] == oldids.push(id)[a]);
                assert(self.ids()[b] == oldids.push(id)[b]);
                if b < oldids.len() {
                    assert(self.ids()[a] == oldids[a]);
                    assert(self.ids()[b] == oldids[b]);
                } else {
                    assert(self.ids()[a] == oldids[a]);
                    assert(self.ids()[b] == id);
                }
            }
            assert forall|i: int|
                0 <= i < self.ids().len() implies self.allocated@.contains(
                #[trigger] self.ids()[i],
            ) by {
                assert(self.ids()[i] == oldids.push(id)[i]);
                if i < oldids.len() {
                    assert(self.ids()[i] == oldids[i]);
                } else {
                    assert(self.ids()[i] == id);
                }
            }
        }
        id
    }

    /// Consume the entry for `id`, handing its channel back exactly when one
    /// was outstanding; the other entries are untouched.
    pub fn take(&mut self, id: i64) -> (r: Option<
        tokio::sync::oneshot::Sender<Result<Json, Json>>,
    >)
        requires
            old(self).wf(),
        ensures
            final(self).wf(),
            r is Some <==> old(self).ids().contains(id),
            !final(self).ids().contains(id),
            forall|k: i64|
                k != id ==> (#[trigger] final(self).ids().contains(k) == old(self).ids().contains(
                    k,
                )),
            final(self).next_id == old(self).next_id,
            final(self).allocated@ == old(self).allocated@,
    {
        let n = self.pending.len();
        let mut i: usize = 0;
        while i < n
            invariant
                i <= n == self.pending@.len(),
                old(self) == self,
                old(self).wf(),
                forall|j: int| 0 <= j < i ==> self.ids()[j] != id,
            decreases n - i,
        {
            if self.pending[i].0 == id {
                proof {
                    assert(self.ids()[i as int] == id);
                }
                let ghost oldids = self.ids();
                let entry = self.pending.remove(i);
                proof {
                    assert(self.ids() =~= oldids.remove(i as int));
                    lemma_ids_remove(oldids, i as int, id);
                }
                return Some(entry.1);
            }
            i = i + 1;
        }
        proof {
            assert forall|j: int| 0 <= j < self.ids().len() implies self.ids()[j] != id by {}
        }
        None
    }

    /// Tear down: every outstanding channel is handed back, to be failed
    /// with a synthetic error, and nothing stays outstanding.
    pub fn drain(&mut self) -> (txs: Vec<tokio::sync::oneshot::Sender<Result<Json, Json>>>)
        requires
            old(self).wf(),
        ensures
            final(self).wf(),
            txs@.len() == old(self).ids().len(),
            final(self).ids() == Seq::<i64>::empty(),
            final(self).next_id == old(self).next_id,
            final(self).allocated@ == old(self).allocated@,
    {
        let mut txs: Vec<tokio::sync::oneshot::Sender<Result<Json, Json>>> = Vec::new();
        loop
            invariant
                self.next_id == old(self).next_id,
                self.allocated@ == old(self).allocated@,
                old(self).wf(),
                self.wf(),
                txs@.len() + self.pending@.len() == old(self).ids().len(),
                forall|j: int| 0 <= j < self.ids().len() ==> #[trigger] self.ids()[j] == old(
                    self,
                ).ids()[j],
            decreases self.pending@.len(),
        {
            let ghost oldids = self.ids();
            match self.pending.pop() {
                Some(entry) => {
                    txs.push(entry.1);
                    proof {
                        assert(self.ids() =~= oldids.drop_last());
                    }
                },
                None => {
                    proof {
                        assert(self.ids() =~= Seq::<i64>::empty());
                    }
                    return txs;
                },
            }
        }
    }
}

/// Removing one entry leaves the other identifiers as they were, and the
/// removed one gone.
proof fn lemma_ids_remove(ids: Seq<i64>, i: int, id: i64)
    requires
        0 <= i < ids.len(),
        ids[i] == id,
        forall|a: int, b: int|
            #![trigger ids[a], ids[b]]
            0 <= a < b < ids.len() ==> ids[a] != ids[b],
    ensures
        !ids.remove(i).contains(id),
        forall|k: i64| k != id ==> (#[trigger] ids.remove(i).contains(k) == ids.contains(k)),
        forall|a: int, b: int|
            #![trigger ids.remove(i)[a], ids.remove(i)[b]]
            0 <= a < b < ids.remove(i).len() ==> ids.remove(i)[a] != ids.remove(i)[b],
{
    let t = ids.remove(i);
    assert forall|w: int| 0 <= w < t.len() implies t[w] != id by {
        if w < i {
            assert(t[w] == ids[w]);
        } else {
            assert(t[w] == ids[w + 1]);
        }
    }
    assert forall|k: i64| k != id implies #[trigger] t.contains(k) == ids.contains(k) by {
        if t.contains(k) {
            let w = choose|w: int| 0 <= w < t.len() && t[w] == k;
            if w < i {
                assert(ids[w] == k);
            } else {
                assert(ids[w + 1] == k);
            }
        }
        if ids.contains(k) {
            let w = choose|w: int| 0 <= w < ids.len() && ids[w] == k;
            if w < i {
                assert(t[w] == k);
            } else if w > i {
                assert(t[w - 1] == k);
            }
        }
    }
    assert forall|a: int, b: int|
        #![trigger t[a], t[b]]
        0 <= a < b < t.len() implies t[a] != t[b] by {
        let ka = if a < i {
            a
        } else {
            a + 1
        };
        let kb = if b < i {
            b
        } else {
            b + 1
        };
        assert(t[a] == ids[ka]);
        assert(t[b] == ids[kb]);
    }
}

// ---------------------------------------------------------------------------
// The agent registry
// ---------------------------------------------------------------------------

/// The supervisor's registry: which agent identifiers are live, plus the
/// pending approvals.
pub struct Manager {
    pub agents: Vec<String>,
    pub approvals: Approvals,
}

impl Manager {
    pub open spec fn ids(self) -> Seq<Seq<char>> {
        Seq::new(self.agents@.len(), |i: int| self.agents@[i]@)
    }

    pub fn new() -> (r: Manager)
        ensures
            r.ids() == Seq::<Seq<char>>::empty(),
            r.approvals.wf(),
            r.approvals.keys() == Seq::<Seq<char>>::empty(),
    {
        let r = Manager { agents: Vec::new(), approvals: Approvals::new() };
        proof {
            assert(r.ids() =~= Seq::<Seq<char>>::empty());
        }
        r
    }

    /// Whether an agent with this identifier is registered.
    pub fn has_agent(&self, id: &str) -> (r: bool)
        ensures
            r == self.ids().contains(id@),
    {
        let n = self.agents.len();
        let mut i: usize = 0;
        while i < n
            invariant
                i <= n == self.agents@.len(),
                forall|j: int| 0 <= j < i ==> self.ids()[j] != id@,
            decreases n - i,
        {
            if str_eq(self.agents[i].as_str(), id) {
                proof {
                    assert(self.ids()[i as int] == id@);
                }
                return true;
            }
            i = i + 1;
        }
        false
    }

    /// Register a spawned agent.
    pub fn register_agent(&mut self, id: String)
        ensures
            final(self).ids().contains(id@),
            forall|k: Seq<char>|
                k != id@ ==> (#[trigger] final(self).ids().contains(k) == old(self).ids().contains(
                    k,
                )),
            final(self).approvals == old(self).approvals,
    {
        if !self.has_agent(id.as_str()) {
            let ghost oldids = self.ids();
            let n = self.agents.len();
            self.agents.push(id);
            proof {
                assert(self.ids() =~= oldids.push(self.agents@[n as int]@));
                assert(self.ids()[n as int] == self.agents@[n as int]@);
                assert forall|k: Seq<char>|
                    k != self.agents@[n as int]@ implies #[trigger] self.ids().contains(k)
                    == oldids.contains(k) by {
                    if self.ids().contains(k) {
                        let w = choose|w: int| 0 <= w < self.ids().len() && self.ids()[w] == k;
                        assert(oldids[w] == k);
                    }
                    if oldids.contains(k) {
                        let w = choose|w: int| 0 <= w < oldids.len() && oldids[w] == k;
                        assert(self.ids()[w] == k);
                    }
                }
            }
        }
    }

    /// The registered identifiers.
    pub fn list_agents(&self) -> (r: Vec<String>)
        ensures
            r@.len() == self.ids().len(),
            forall|i: int| 0 <= i < r@.len() ==> #[trigger] r@[i]@ == self.ids()[i],
    {
        let mut out: Vec<String> = Vec::new();
        let n = self.agents.len();
        let mut i: usize = 0;
        while i < n
            invariant
                i <= n == self.agents@.len(),
                out@.len() == i,
                forall|j: int| 0 <= j < i ==> #[trigger] out@[j]@ == self.ids()[j],
            decreases n - i,
        {
            out.push(self.agents[i].clone());
            i = i + 1;
        }
        out
    }

    /// Remove a registered agent; an unknown identifier is an error.
    pub fn kill_agent(&mut self, id: &str) -> (r: Result<(), BridgeError>)
        ensures
            r is Ok <==> old(self).ids().contains(id@),
            !final(self).ids().contains(id@),
            forall|k: Seq<char>|
                k != id@ ==> (#[trigger] final(self).ids().contains(k) == old(self).ids().contains(
                    k,
                )),
            final(self).approvals == old(self).approvals,
            r is Err ==> r->Err_0 is NotFound,
    {
        let n = self.agents.len();
        let mut i: usize = 0;
        let mut at: Option<usize> = None;
        while i < n
            invariant
                i <= n == self.agents@.len(),
                old(self) == self,
                match at {
                    Some(w) => w < i && self.ids()[w as int] == id@,
                    None => forall|j: int| 0 <= j < i ==> self.ids()[j] != id@,
                },
            decreases n - i,
        {
            if at.is_none() && str_eq(self.agents[i].as_str(), id) {
                proof {
                    assert(self.ids()[i as int] == id@);
                }
                at = Some(i);
            }
            i = i + 1;
        }
        match at {
            Some(w) => {
                let ghost oldids = self.ids();
                let mut out: Vec<String> = Vec::new();
                let mut j: usize = 0;
                while j < n
                    invariant
                        j <= n == self.agents@.len(),
                        old(self) == self,
                        w < n,
                        forall|q: int|
                            0 <= q < out@.len() ==> #[trigger] out@[q]@ != id@ && self.ids().contains(
                                out@[q]@,
                            ),
                        forall|q: int|
                            0 <= q < j ==> (self.ids()[q] == id@ || exists|z: int|
                                0 <= z < out@.len() && #[trigger] out@[z]@ == self.ids()[q]),
                    decreases n - j,
                {
                    if !str_eq(self.agents[j].as_str(), id) {
                        let ghost before = out@;
                        out.push(self.agents[j].clone());
                        proof {
                            assert(out@[before.len() as int]@ == self.ids()[j as int]);
                            assert forall|q: int|
                                0 <= q < j + 1 implies (self.ids()[q] == id@ || exists|z: int|
                                0 <= z < out@.len() && #[trigger] out@[z]@ == self.ids()[q]) by {
                                if q < j {
                                    if self.ids()[q] != id@ {
                                        let z = choose|z: int|
                                            0 <= z < before.len() && before[z]@ == self.ids()[q];
                                        assert(out@[z]@ == self.ids()[q]);
                                    }
                                } else {
                                    assert(out@[before.len() as int]@ == self.ids()[q]);
                                }
                            }
                        }
                    } else {
                        proof {
                            assert(self.ids()[j as int] == id@);
                        }
                    }
                    j = j + 1;
                }
                self.agents = out;
                proof {
                    assert forall|k: Seq<char>|
                        k != id@ implies #[trigger] self.ids().contains(k) == oldids.contains(
                        k,
                    ) by {
                        if self.ids().contains(k) {
                            let z = choose|z: int|
                                0 <= z < self.ids().len() && self.ids()[z] == k;
                            assert(oldids.contains(self.agents@[z]@));
                        }
                        if oldids.contains(k) {
                            let q = choose|q: int| 0 <= q < oldids.len() && oldids[q] == k;
                            let z = choose|z: int|
                                0 <= z < self.agents@.len() && self.agents@[z]@ == oldids[q];
                            assert(self.ids()[z] == k);
                        }
                    }
                    assert forall|z: int|
                        0 <= z < self.ids().len() implies self.ids()[z] != id@ by {}
                }
                Ok(())
            },
            None => {
                let mut m: String = "agent not found: ".to_owned();
                m.append(id);
                Err(BridgeError::NotFound(m))
            },
        }
    }
}

/// The last `limit` recorded events of a rollout, oldest first.
pub fn last_events(events: &Vec<Json>, limit: usize) -> (r: Vec<Json>)
    ensures
        seq_jv(r@) == seq_jv(events@).skip(
            if events@.len() <= limit {
                0
            } else {
                events@.len() - limit
            },
        ),
{
    let n = events.len();
    let start: usize = if n <= limit {
        0
    } else {
        n - limit
    };
    let mut out: Vec<Json> = Vec::new();
    let mut i: usize = start;
    proof {
        crate::json::lemma_seq_jv_props(events@);
    }
    while i < n
        invariant
            start <= i <= n == events@.len(),
            seq_jv(out@) == seq_jv(events@).subrange(start as int, i as int),
        decreases n - i,
    {
        let x = events[i].duplicate();
        proof {
            crate::json::lemma_seq_jv_push(out@, x);
            crate::json::lemma_seq_jv_props(events@);
        }
        out.push(x);
        i = i + 1;
        proof {
            assert(seq_jv(out@) =~= seq_jv(events@).subrange(start as int, i as int));
        }
    }
    proof {
        assert(seq_jv(out@) =~= seq_jv(events@).skip(start as int));
    }
    out
}

} // verus!
