use mcp_bridge::agent::{
    apply_turn_defaults, choose_agent_id, classify_agent_message, ensure_object_params,
    extract_conversation_id, inject_conversation_id, last_events, normalize_params,
    prepare_message_params, resolve_agent_binary, Approvals, DemuxAction, Manager, ReplyWaiters,
};
use mcp_bridge::errors::BridgeError;
use mcp_bridge::json::Json;

fn obj(pairs: Vec<(&str, Json)>) -> Json {
    Json::Obj(pairs.into_iter().map(|(k, v)| (k.to_string(), v)).collect())
}

fn s(v: &str) -> Json {
    Json::Str(v.to_string())
}

#[test]
fn string_params_parse_as_json_when_they_can() {
    let raw = s("{\"conversationId\":\"c1\",\"text\":\"hello\"}");
    let out = normalize_params(raw);
    assert_eq!(out.get("conversationId").unwrap(), &s("c1"));
    assert_eq!(out.get("text").unwrap(), &s("hello"));
}

#[test]
fn plain_text_params_become_a_text_field() {
    let out = normalize_params(s("just words"));
    assert_eq!(out.get("text").unwrap(), &s("just words"));
}

#[test]
fn empty_string_params_become_an_empty_object() {
    let out = normalize_params(s("   "));
    assert_eq!(out, Json::Obj(vec![]));
}

#[test]
fn loose_text_is_folded_into_items() {
    let params = obj(vec![("conversationId", s("c1")), ("text", s("Continue"))]);
    let out = prepare_message_params(None, params);
    assert!(out.get("text").is_none());
    let items = out.get("items").unwrap();
    match items {
        Json::Arr(v) => {
            assert_eq!(v.len(), 1);
            let data = v[0].get("data").unwrap();
            assert_eq!(data.get("text").unwrap(), &s("Continue"));
            assert_eq!(v[0].get("type").unwrap(), &s("text"));
        },
        other => panic!("expected an items array, got {:?}", other),
    }
}

#[test]
fn remembered_conversation_id_is_injected() {
    let params = obj(vec![("text", s("hi"))]);
    let out = prepare_message_params(Some("c9"), params);
    assert_eq!(out.get("conversationId").unwrap(), &s("c9"));
}

#[test]
fn named_conversation_id_is_kept() {
    let params = obj(vec![("conversation_id", s("mine")), ("text", s("hi"))]);
    let out = prepare_message_params(Some("c9"), params);
    assert!(out.get("conversationId").is_none());
    assert_eq!(out.get("conversation_id").unwrap(), &s("mine"));
}

#[test]
fn turn_defaults_fill_missing_fields() {
    let params = obj(vec![("conversationId", s("c1"))]);
    let out = apply_turn_defaults(params, "/work");
    assert_eq!(out.get("cwd").unwrap(), &s("/work"));
    assert_eq!(out.get("approvalPolicy").unwrap(), &s("never"));
    assert_eq!(out.get("model").unwrap(), &s("gpt-4"));
    assert_eq!(out.get("summary").unwrap(), &s("auto"));
    let sandbox = out.get("sandboxPolicy").unwrap();
    assert_eq!(sandbox.get("mode").unwrap(), &s("read-only"));
}

#[test]
fn turn_defaults_keep_overrides() {
    let params = obj(vec![
        ("conversationId", s("c1")),
        ("model", s("gpt-5")),
        ("approvalPolicy", s("on-request")),
    ]);
    let out = apply_turn_defaults(params, "/work");
    assert_eq!(out.get("model").unwrap(), &s("gpt-5"));
    assert_eq!(out.get("approvalPolicy").unwrap(), &s("on-request"));
    assert_eq!(out.get("summary").unwrap(), &s("auto"));
}

#[test]
fn interrupt_without_id_gets_the_remembered_one() {
    let out = inject_conversation_id(obj(vec![]), Some("c3"));
    assert_eq!(out.get("conversationId").unwrap(), &s("c3"));
    let kept = inject_conversation_id(obj(vec![("conversationId", s("mine"))]), Some("c3"));
    assert_eq!(kept.get("conversationId").unwrap(), &s("mine"));
}

#[test]
fn wire_params_are_always_objects() {
    assert_eq!(ensure_object_params(Json::Null), Json::Obj(vec![]));
    let wrapped = ensure_object_params(Json::Int(7));
    assert_eq!(wrapped.get("value").unwrap(), &Json::Int(7));
}

#[test]
fn conversation_id_prefers_camel_case() {
    let v = obj(vec![("conversationId", s("a")), ("conversation_id", s("b"))]);
    assert_eq!(extract_conversation_id(&v), Some("a".to_string()));
    let snake = obj(vec![("conversation_id", s("b"))]);
    assert_eq!(extract_conversation_id(&snake), Some("b".to_string()));
    assert_eq!(extract_conversation_id(&obj(vec![])), None);
}

#[test]
fn agent_ids_default_to_the_clock() {
    assert_eq!(choose_agent_id(Some("mine".to_string()), 7), "mine");
    assert_eq!(choose_agent_id(Some(String::new()), 7), "agent-7");
    assert_eq!(choose_agent_id(None, 123456), "agent-123456");
}

#[test]
fn binary_resolution_prefers_the_override() {
    assert_eq!(resolve_agent_binary(Some("/bin/agent"), Some("/usr/bin/agent")).unwrap(), "/bin/agent");
    assert_eq!(resolve_agent_binary(Some(""), Some("/usr/bin/agent")).unwrap(), "/usr/bin/agent");
    match resolve_agent_binary(None, None) {
        Err(BridgeError::Spawn(msg)) => assert!(msg.contains("Unable to locate")),
        other => panic!("expected a spawn error, got {:?}", other),
    }
}

#[test]
fn approval_requests_are_filed_under_composite_keys() {
    let msg = obj(vec![
        ("method", s("applyPatchApproval")),
        ("id", Json::Int(17)),
        ("params", obj(vec![("call", s("patch"))])),
    ]);
    match classify_agent_message("agent-1", &msg) {
        DemuxAction::ApprovalRequest { key, reply_id, payload } => {
            assert_eq!(key, "agent-1:17");
            assert_eq!(reply_id, Json::Int(17));
            assert_eq!(payload.get("kind").unwrap(), &s("approval_request"));
            assert_eq!(payload.get("agentId").unwrap(), &s("agent-1"));
            assert_eq!(payload.get("requestId").unwrap(), &s("17"));
            assert_eq!(payload.get("method").unwrap(), &s("applyPatchApproval"));
        },
        other => panic!("expected an approval request, got {:?}", other),
    }
}

#[test]
fn unknown_server_requests_get_an_empty_reply() {
    let msg = obj(vec![("method", s("surprise")), ("id", Json::Int(4))]);
    match classify_agent_message("a", &msg) {
        DemuxAction::OtherRequest { reply_id, payload } => {
            assert_eq!(reply_id, Json::Int(4));
            assert_eq!(payload.get("kind").unwrap(), &s("codex_request"));
        },
        other => panic!("expected a generic request, got {:?}", other),
    }
}

#[test]
fn notifications_are_wrapped_and_forwarded() {
    let msg = obj(vec![("method", s("sessionUpdate")), ("params", obj(vec![("n", Json::Int(1))]))]);
    match classify_agent_message("a", &msg) {
        DemuxAction::ForwardNotification { payload } => {
            assert_eq!(payload.get("method").unwrap(), &s("sessionUpdate"));
            assert_eq!(payload.get("params").unwrap().get("n").unwrap(), &Json::Int(1));
        },
        other => panic!("expected a forwarded notification, got {:?}", other),
    }
}

#[test]
fn responses_are_delivered_by_identifier() {
    let msg = obj(vec![("id", Json::Int(5)), ("result", obj(vec![("ok", Json::Bool(true))]))]);
    match classify_agent_message("a", &msg) {
        DemuxAction::DeliverResult { id, result } => {
            assert_eq!(id, 5);
            assert_eq!(result.get("ok").unwrap(), &Json::Bool(true));
        },
        other => panic!("expected a delivered result, got {:?}", other),
    }
    let err = obj(vec![("id", Json::Int(6)), ("error", obj(vec![("code", Json::Int(-1))]))]);
    match classify_agent_message("a", &err) {
        DemuxAction::DeliverError { id, error } => {
            assert_eq!(id, 6);
            assert_eq!(error.get("code").unwrap(), &Json::Int(-1));
        },
        other => panic!("expected a delivered error, got {:?}", other),
    }
}

#[test]
fn an_approval_is_decidable_exactly_once() {
    let mut approvals = Approvals::new();
    let (tx, mut rx) = tokio::sync::oneshot::channel::<String>();
    approvals.register("agent-1:17".to_string(), tx);
    assert!(approvals.has_key("agent-1:17"));
    assert_eq!(approvals.list_keys(), vec!["agent-1:17".to_string()]);
    assert!(approvals.decide("agent-1:17", "allow".to_string()).unwrap());
    assert_eq!(rx.try_recv().unwrap(), "allow");
    assert!(!approvals.has_key("agent-1:17"));
    match approvals.decide("agent-1:17", "allow".to_string()) {
        Err(BridgeError::NotFound(msg)) => assert!(msg.contains("agent-1:17")),
        other => panic!("expected a not-found error, got {:?}", other),
    }
}

#[test]
fn a_timed_out_approval_is_not_decidable() {
    let mut approvals = Approvals::new();
    let (tx, _rx) = tokio::sync::oneshot::channel::<String>();
    approvals.register("agent-1:9".to_string(), tx);
    approvals.expire("agent-1:9");
    assert!(!approvals.has_key("agent-1:9"));
    assert!(approvals.decide("agent-1:9", "allow".to_string()).is_err());
}

#[test]
fn agents_register_list_and_die() {
    let mut m = Manager::new();
    m.register_agent("one".to_string());
    m.register_agent("two".to_string());
    assert!(m.has_agent("one"));
    assert_eq!(m.list_agents(), vec!["one".to_string(), "two".to_string()]);
    m.kill_agent("one").unwrap();
    assert!(!m.has_agent("one"));
    assert!(m.has_agent("two"));
    match m.kill_agent("one") {
        Err(BridgeError::NotFound(msg)) => assert!(msg.contains("agent not found: one")),
        other => panic!("expected a not-found error, got {:?}", other),
    }
}

#[test]
fn rollout_reads_return_the_last_events() {
    let events = vec![Json::Int(1), Json::Int(2), Json::Int(3), Json::Int(4)];
    assert_eq!(last_events(&events, 2), vec![Json::Int(3), Json::Int(4)]);
    assert_eq!(last_events(&events, 10), events);
    assert_eq!(last_events(&events, 0), Vec::<Json>::new());
}

#[test]
fn reply_waiters_allocate_fresh_identifiers() {
    let mut w = ReplyWaiters::new();
    let (t1, _r1) = tokio::sync::oneshot::channel();
    let (t2, _r2) = tokio::sync::oneshot::channel();
    assert_eq!(w.register(t1), 1);
    assert_eq!(w.register(t2), 2);
    assert_eq!(w.next_id, 3);
}

#[test]
fn a_reply_channel_is_taken_exactly_once() {
    let mut w = ReplyWaiters::new();
    let (tx, mut rx) = tokio::sync::oneshot::channel();
    let id = w.register(tx);
    let taken = w.take(id).unwrap();
    let _ = taken.send(Ok(mcp_bridge::json::Json::Null));
    assert_eq!(rx.try_recv().unwrap(), Ok(mcp_bridge::json::Json::Null));
    assert!(w.take(id).is_none());
}

#[test]
fn teardown_hands_every_channel_back() {
    let mut w = ReplyWaiters::new();
    let (t1, _r1) = tokio::sync::oneshot::channel();
    let (t2, _r2) = tokio::sync::oneshot::channel();
    w.register(t1);
    w.register(t2);
    let drained = w.drain();
    assert_eq!(drained.len(), 2);
    assert!(w.take(1).is_none() && w.take(2).is_none());
}
