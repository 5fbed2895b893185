use mcp_bridge::client::{
    command_parts, format_lsp_error, format_tool_error_message, server_request_reply,
    LanguageServerManager, ServerReply, StartAction,
};
use mcp_bridge::dap::{
    dap_tools, filter_dap_tools, handle_structured_call, match_dap_response, DapInbound,
};
use mcp_bridge::dispatch::{
    build_lsp_invocation, filter_tools_by_capabilities, ok_envelope, plan_tools_call, tools,
    ToolCallPlan,
};
use mcp_bridge::json::Json;
use mcp_bridge::lsif::{lsif_tools, plan_lsif_call, require_position, LSIFIndex, LsifPlan};
use mcp_bridge::render::json_to_text;
use mcp_bridge::rpc::build_request;

fn obj(pairs: Vec<(&str, Json)>) -> Json {
    Json::Obj(pairs.into_iter().map(|(k, v)| (k.to_string(), v)).collect())
}

fn s(v: &str) -> Json {
    Json::Str(v.to_string())
}

fn position(line: i64, character: i64) -> Json {
    obj(vec![("line", Json::Int(line)), ("character", Json::Int(character))])
}

#[test]
fn hover_builds_the_downstream_request() {
    let args = obj(vec![("uri", s("file:///tmp/a.rs")), ("position", position(3, 5))]);
    let inv = build_lsp_invocation("lsp_hover", &args, "/work").unwrap();
    assert_eq!(inv.method, "textDocument/hover");
    assert_eq!(inv.uri_hint, Some("file:///tmp/a.rs".to_string()));
    let td = inv.params.get("textDocument").unwrap();
    assert_eq!(td.get("uri").unwrap(), &s("file:///tmp/a.rs"));
    assert_eq!(inv.params.get("position").unwrap(), &position(3, 5));
    let envelope = build_request(2, inv.method.as_str(), inv.params);
    assert_eq!(
        json_to_text(&envelope),
        "{\"jsonrpc\":\"2.0\",\"id\":2,\"method\":\"textDocument/hover\",\"params\":{\"textDocument\":{\"uri\":\"file:///tmp/a.rs\"},\"position\":{\"line\":3,\"character\":5}}}"
    );
}

#[test]
fn missing_fields_are_invalid_parameters() {
    let args = obj(vec![("position", position(0, 0))]);
    let err = build_lsp_invocation("lsp_hover", &args, "/work").unwrap_err();
    assert_eq!(err.code, -32602);
    assert_eq!(err.message, "Missing required field: uri");
}

#[test]
fn unknown_tools_are_refused_by_name() {
    let args = obj(vec![]);
    let err = build_lsp_invocation("lsp_no_such_tool", &args, "/work").unwrap_err();
    assert_eq!(err.code, -32602);
    assert_eq!(err.data.unwrap().get("tool").unwrap(), &s("lsp_no_such_tool"));
}

#[test]
fn short_aliases_reach_the_catalog() {
    let args = obj(vec![("uri", s("/a.rs")), ("position", position(1, 2))]);
    match plan_tools_call("hover", &args, "/work") {
        ToolCallPlan::Invoke(inv) => {
            assert_eq!(inv.method, "textDocument/hover");
            assert_eq!(inv.uri_hint, Some("file:///a.rs".to_string()));
        },
        other => panic!("expected an invocation, got {:?}", std::mem::discriminant(&other)),
    }
}

#[test]
fn passthrough_call_decodes_string_params() {
    let args = obj(vec![
        ("method", s("textDocument/didOpen")),
        (
            "params",
            s("{\"textDocument\":{\"uri\":\"file:///b.py\",\"languageId\":\"Python\"}}"),
        ),
    ]);
    match plan_tools_call("lsp_call", &args, "/work") {
        ToolCallPlan::Call { method, params, uri_hint, language_hint, is_open, is_close } => {
            assert_eq!(method, "textDocument/didOpen");
            assert!(is_open && !is_close);
            assert_eq!(uri_hint, Some("file:///b.py".to_string()));
            assert_eq!(language_hint, Some("python".to_string()));
            let td = params.get("textDocument").unwrap();
            assert_eq!(td.get("uri").unwrap(), &s("file:///b.py"));
        },
        other => panic!("expected a call plan, got {:?}", std::mem::discriminant(&other)),
    }
}

#[test]
fn the_catalog_is_filtered_by_capabilities() {
    let caps = obj(vec![
        ("hoverProvider", Json::Bool(true)),
        ("completionProvider", obj(vec![("resolveProvider", Json::Bool(true))])),
    ]);
    let kept = filter_tools_by_capabilities(tools(), Some(&caps));
    let names: Vec<String> = kept.into_iter().map(|t| t.name).collect();
    assert!(names.contains(&"lsp_hover".to_string()));
    assert!(names.contains(&"lsp_completion".to_string()));
    assert!(names.contains(&"lsp_completion_item_resolve".to_string()));
    assert!(names.contains(&"lsp_call".to_string()));
    assert!(!names.contains(&"lsp_definition".to_string()));
    assert!(!names.contains(&"lsp_rename".to_string()));
}

#[test]
fn a_missing_capability_record_advertises_everything() {
    let kept = filter_tools_by_capabilities(tools(), None);
    assert_eq!(kept.len(), tools().len());
}

#[test]
fn set_breakpoints_expands_the_lines_array() {
    let args = obj(vec![
        ("source", obj(vec![("path", s("/x"))])),
        (
            "lines",
            Json::Arr(vec![Json::Int(1), Json::Int(5), Json::Int(9)]),
        ),
    ]);
    let (cmd, payload) = handle_structured_call("dap_set_breakpoints", &args).unwrap();
    assert_eq!(cmd, "setBreakpoints");
    assert_eq!(payload.get("source").unwrap().get("path").unwrap(), &s("/x"));
    let bps = payload.get("breakpoints").unwrap();
    let expected = Json::Arr(vec![
        obj(vec![("line", Json::Int(1))]),
        obj(vec![("line", Json::Int(5))]),
        obj(vec![("line", Json::Int(9))]),
    ]);
    assert_eq!(bps, &expected);
}

#[test]
fn configuration_done_follows_the_capability() {
    let without = obj(vec![]);
    let kept = filter_dap_tools(dap_tools(), Some(&without));
    let names: Vec<String> = kept.into_iter().map(|t| t.name).collect();
    assert!(!names.contains(&"dap_configuration_done".to_string()));
    assert!(names.contains(&"dap_set_breakpoints".to_string()));

    let with = obj(vec![("supportsConfigurationDoneRequest", Json::Bool(true))]);
    let kept = filter_dap_tools(dap_tools(), Some(&with));
    let names: Vec<String> = kept.into_iter().map(|t| t.name).collect();
    assert!(names.contains(&"dap_configuration_done".to_string()));
}

#[test]
fn dap_responses_match_by_sequence_number() {
    let ok = obj(vec![
        ("type", s("response")),
        ("request_seq", Json::Int(2)),
        ("success", Json::Bool(true)),
        ("body", obj(vec![("threads", Json::Arr(vec![]))])),
    ]);
    match match_dap_response(&ok, 2) {
        DapInbound::Success(body) => {
            assert!(body.get("threads").is_some());
        },
        other => panic!("expected a success, got {:?}", std::mem::discriminant(&other)),
    }
    let fail = obj(vec![
        ("type", s("response")),
        ("request_seq", Json::Int(2)),
        ("success", Json::Bool(false)),
        ("message", s("boom")),
    ]);
    match match_dap_response(&fail, 2) {
        DapInbound::Failure(msg) => assert_eq!(msg, "boom"),
        other => panic!("expected a failure, got {:?}", std::mem::discriminant(&other)),
    }
    let event = obj(vec![("type", s("event"))]);
    assert!(matches!(match_dap_response(&event, 2), DapInbound::NotForUs));
}

#[test]
fn command_lines_split_shell_style() {
    assert_eq!(
        command_parts("typescript-language-server --stdio").unwrap(),
        vec!["typescript-language-server".to_string(), "--stdio".to_string()]
    );
    assert_eq!(
        command_parts("server 'one two' \"three four\"").unwrap(),
        vec!["server".to_string(), "one two".to_string(), "three four".to_string()]
    );
    assert_eq!(
        command_parts("a\\ b c").unwrap(),
        vec!["a b".to_string(), "c".to_string()]
    );
    assert!(command_parts("server 'unclosed").is_err());
    assert!(command_parts("   ").is_err());
}

#[test]
fn server_requests_get_their_fixed_defaults() {
    let params = obj(vec![("items", Json::Arr(vec![Json::Null, Json::Null]))]);
    match server_request_reply("workspace/configuration", Some(&params)) {
        ServerReply::Result(r) => assert_eq!(r, Json::Arr(vec![Json::Null, Json::Null])),
        other => panic!("expected a result, got {:?}", std::mem::discriminant(&other)),
    }
    match server_request_reply("workspace/applyEdit", None) {
        ServerReply::Result(r) => {
            assert_eq!(r.get("applied").unwrap(), &Json::Bool(false));
            assert!(r.get("failureReason").is_some());
        },
        other => panic!("expected a result, got {:?}", std::mem::discriminant(&other)),
    }
    match server_request_reply("window/unexpected", None) {
        ServerReply::Error(code, msg) => {
            assert_eq!(code, -32601);
            assert!(msg.contains("window/unexpected"));
        },
        other => panic!("expected an error, got {:?}", std::mem::discriminant(&other)),
    }
}

#[test]
fn downstream_errors_render_with_code_and_details() {
    let err = obj(vec![
        ("code", Json::Int(-32601)),
        ("message", s("no such method")),
        ("data", obj(vec![("hint", s("try another"))])),
    ]);
    let msg = format_lsp_error("textDocument/hover", &err, Some("rust-analyzer"));
    assert_eq!(
        msg,
        "LSP request textDocument/hover via 'rust-analyzer' failed (code -32601): no such method; details: {\"hint\":\"try another\"}"
    );
}

#[test]
fn tool_errors_name_the_tool_and_method() {
    assert_eq!(
        format_tool_error_message("lsp_hover", Some("textDocument/hover"), "boom"),
        "LSP tool 'lsp_hover' invoking 'textDocument/hover' failed: boom"
    );
    assert_eq!(
        format_tool_error_message("lsif_load", None, "boom"),
        "Tool 'lsif_load' failed: boom"
    );
}

#[test]
fn restart_planning_follows_the_override() {
    let m = LanguageServerManager::with_command("rust-analyzer".to_string());
    assert!(matches!(
        m.plan_start(false, None),
        StartAction::StartWith(c) if c == "rust-analyzer"
    ));
    let mut running = LanguageServerManager::with_command("rust-analyzer".to_string());
    running.on_started("rust-analyzer".to_string(), None,
        mcp_bridge::framing::FramingPreference::Auto, None);
    assert!(matches!(running.plan_start(true, None), StartAction::AlreadyRunning));
    assert!(matches!(
        running.plan_start(true, Some("other-server")),
        StartAction::RestartWith(c) if c == "other-server"
    ));
    assert!(matches!(
        running.plan_start(false, None),
        StartAction::RestartWith(c) if c == "rust-analyzer"
    ));
}

#[test]
fn the_ok_envelope_wraps_the_result() {
    let envelope = ok_envelope("lsp_hover", s("fine"));
    assert_eq!(envelope.get("tool").unwrap(), &s("lsp_hover"));
    assert_eq!(envelope.get("status").unwrap(), &s("ok"));
    assert_eq!(envelope.get("result").unwrap(), &s("fine"));
}

#[test]
fn tools_list_has_schemas() {
    let items = lsif_tools();
    assert!(!items.is_empty());
    assert!(items.iter().all(|tool| match &tool.input_schema {
        Json::Obj(pairs) => !pairs.is_empty(),
        _ => false,
    }));
}

#[test]
fn lsif_load_requires_path() {
    match plan_lsif_call("lsif_load", &obj(vec![])) {
        LsifPlan::Fail(err) => assert_eq!(err.code, -32602),
        other => panic!("expected invalid params, got {:?}", std::mem::discriminant(&other)),
    }
}

fn lsif_graph() -> LSIFIndex {
    let mut idx = LSIFIndex::new();
    let records = vec![
        obj(vec![
            ("type", s("vertex")),
            ("label", s("document")),
            ("id", Json::Int(1)),
            ("uri", s("file:///f")),
        ]),
        obj(vec![
            ("type", s("vertex")),
            ("label", s("range")),
            ("id", Json::Int(2)),
            ("start", position(0, 0)),
            ("end", position(0, 10)),
        ]),
        obj(vec![
            ("type", s("vertex")),
            ("label", s("range")),
            ("id", Json::Int(3)),
            ("start", position(0, 2)),
            ("end", position(0, 6)),
        ]),
        obj(vec![
            ("type", s("vertex")),
            ("label", s("range")),
            ("id", Json::Int(9)),
            ("start", position(5, 0)),
            ("end", position(5, 4)),
        ]),
        obj(vec![("type", s("vertex")), ("label", s("resultSet")), ("id", Json::Int(4))]),
        obj(vec![("type", s("vertex")), ("label", s("resultSet")), ("id", Json::Int(5))]),
        obj(vec![
            ("type", s("edge")),
            ("label", s("contains")),
            ("outV", Json::Int(1)),
            ("inVs", Json::Arr(vec![Json::Int(2), Json::Int(3), Json::Int(9)])),
        ]),
        obj(vec![
            ("type", s("edge")),
            ("label", s("next")),
            ("outV", Json::Int(2)),
            ("inV", Json::Int(4)),
        ]),
        obj(vec![
            ("type", s("edge")),
            ("label", s("next")),
            ("outV", Json::Int(3)),
            ("inV", Json::Int(5)),
        ]),
        obj(vec![
            ("type", s("edge")),
            ("label", s("textDocument/definition")),
            ("outV", Json::Int(4)),
            ("inV", Json::Int(6)),
        ]),
        obj(vec![
            ("type", s("edge")),
            ("label", s("textDocument/definition")),
            ("outV", Json::Int(5)),
            ("inV", Json::Int(7)),
        ]),
        obj(vec![
            ("type", s("edge")),
            ("label", s("item")),
            ("outV", Json::Int(6)),
            ("inVs", Json::Arr(vec![Json::Int(2)])),
        ]),
        obj(vec![
            ("type", s("edge")),
            ("label", s("item")),
            ("outV", Json::Int(7)),
            ("inVs", Json::Arr(vec![Json::Int(9)])),
        ]),
    ];
    idx.load_records(&records);
    idx
}

#[test]
fn the_shortest_containing_range_wins() {
    let idx = lsif_graph();
    let reply = idx.query_definition("file:///f", 0, 4).unwrap();
    let locations = reply.get("locations").unwrap();
    match locations {
        Json::Arr(locs) => {
            assert_eq!(locs.len(), 1);
            let range = locs[0].get("range").unwrap();
            let start = range.get("start").unwrap();
            assert_eq!(start.get("line").unwrap(), &Json::Int(5));
            assert_eq!(start.get("character").unwrap(), &Json::Int(0));
        },
        other => panic!("expected locations, got {:?}", other),
    }
}

#[test]
fn a_position_outside_every_range_errors() {
    let idx = lsif_graph();
    match idx.query_definition("file:///f", 9, 9) {
        Err(e) => assert_eq!(e.message().as_str(), "no LSIF range at position"),
        Ok(v) => panic!("expected an error, got {:?}", v),
    }
}

#[test]
fn hover_is_not_wired() {
    let idx = lsif_graph();
    assert!(idx.query_hover("file:///f", 0, 0).is_err());
}

#[test]
fn positions_must_be_non_negative_integers() {
    let good = obj(vec![("position", position(3, 5))]);
    assert_eq!(require_position(&good).unwrap(), (3, 5));

    let negative = obj(vec![("position", position(-1, 5))]);
    let err = require_position(&negative).unwrap_err();
    assert_eq!(err.code, -32602);
    assert_eq!(err.message, "Field 'line' must be an integer");

    let not_int = obj(vec![(
        "position",
        obj(vec![("line", Json::Int(1)), ("character", s("x"))]),
    )]);
    let err = require_position(&not_int).unwrap_err();
    assert_eq!(err.message, "Field 'character' must be an integer");

    let missing = obj(vec![]);
    let err = require_position(&missing).unwrap_err();
    assert_eq!(err.message, "Missing required field: position");
}

#[test]
fn graph_queries_plan_their_exact_arguments() {
    let args = obj(vec![
        ("uri", s("file:///f")),
        ("position", position(0, 4)),
        ("includeDeclarations", Json::Bool(true)),
    ]);
    match plan_lsif_call("lsif_references", &args) {
        LsifPlan::References(u, l, c, with_decls) => {
            assert_eq!(u, "file:///f");
            assert_eq!((l, c), (0, 4));
            assert!(with_decls);
        },
        other => panic!("expected a references plan, got {:?}", std::mem::discriminant(&other)),
    }
    match plan_lsif_call("lsif_definition", &obj(vec![("position", position(0, 0))])) {
        LsifPlan::Fail(e) => assert_eq!(e.message, "Missing required field: uri"),
        other => panic!("expected a refusal, got {:?}", std::mem::discriminant(&other)),
    }
    match plan_lsif_call("lsif_resolve", &obj(vec![])) {
        LsifPlan::Fail(e) => {
            assert_eq!(e.code, -32602);
            assert_eq!(e.message, "Unsupported lsif tool: lsif_resolve");
        },
        other => panic!("expected a refusal, got {:?}", std::mem::discriminant(&other)),
    }
}

#[test]
fn loading_twice_keeps_the_last_binding() {
    let mut idx = LSIFIndex::new();
    let records = vec![
        obj(vec![
            ("type", s("vertex")),
            ("label", s("document")),
            ("id", Json::Int(1)),
            ("uri", s("file:///f")),
        ]),
        obj(vec![
            ("type", s("vertex")),
            ("label", s("range")),
            ("id", Json::Int(2)),
            ("start", position(0, 0)),
            ("end", position(0, 3)),
        ]),
        obj(vec![("ignored", Json::Bool(true))]),
        obj(vec![
            ("type", s("vertex")),
            ("label", s("range")),
            ("id", Json::Int(2)),
            ("start", position(1, 0)),
            ("end", position(1, 3)),
        ]),
    ];
    idx.load_records(&records);
    assert_eq!(idx.documents.len(), 1);
    assert_eq!(idx.ranges.len(), 1);
    assert_eq!(idx.ranges[0].1.start.line, 1);
}

#[test]
fn references_query_errors_are_told_apart() {
    let idx = lsif_graph();
    match idx.query_references("file:///f", 9, 9, false) {
        Err(e) => assert_eq!(e.message().as_str(), "no LSIF range at position"),
        Ok(v) => panic!("expected an error, got {:?}", v),
    }
    match idx.query_references("file:///f", 5, 1, false) {
        Err(e) => assert_eq!(e.message().as_str(), "no references for symbol"),
        Ok(v) => panic!("expected an error, got {:?}", v),
    }
}
