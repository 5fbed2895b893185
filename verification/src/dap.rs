//! Debug-adapter tool dispatch and protocol state.
//!
//! The debug adapter speaks length-prefixed JSON whose envelopes carry
//! `type`, `seq` and `command`; responses echo the request's sequence number
//! in `request_seq` and flag `success`.  The tool palette is fixed; the
//! configuration-done tool is advertised only when the adapter's capability
//! record says it is supported.

use vstd::prelude::*;

use crate::dispatch::{
    invalid_params_error, spec_missing_msg, tools_view, ErrorObject, Tool,
};
use crate::json::{
    jv_get, jv_get_int, jv_get_str, lemma_pairs_jv_props, pairs_jv, seq_jv, Json, Jv,
};
use crate::text::str_eq;

verus! {

/// The fixed palette, in order.
pub open spec fn spec_dap_tool_names() -> Seq<Seq<char>> {
    seq![
        "dap_initialize"@,
        "dap_call"@,
        "dap_launch"@,
        "dap_attach"@,
        "dap_set_breakpoints"@,
        "dap_configuration_done"@,
        "dap_continue"@,
        "dap_next"@,
        "dap_step_in"@,
        "dap_step_out"@,
        "dap_threads"@,
        "dap_stack_trace"@,
        "dap_scopes"@,
        "dap_variables"@,
        "dap_evaluate"@,
        "dap_disconnect"@,
    ]
}

fn dap_prop(t: &str) -> (r: Json)
    ensures
        r.jv() is Obj,
{
    let mut pairs: Vec<(String, Json)> = Vec::new();
    pairs.push(("type".to_owned(), Json::str_of(t)));
    Json::Obj(pairs)
}

fn dap_schema(props: Vec<(String, Json)>, required: Vec<String>) -> (r: Json)
    ensures
        r.jv() is Obj,
{
    let mut req: Vec<Json> = Vec::new();
    let mut i: usize = 0;
    let n = required.len();
    while i < n
        invariant
            i <= n == required@.len(),
        decreases n - i,
    {
        req.push(Json::Str(required[i].clone()));
        i = i + 1;
    }
    let mut pairs: Vec<(String, Json)> = Vec::new();
    pairs.push(("type".to_owned(), Json::str_of("object")));
    pairs.push(("properties".to_owned(), Json::Obj(props)));
    pairs.push(("required".to_owned(), Json::Arr(req)));
    Json::Obj(pairs)
}

fn adapter_only_schema() -> (r: Json)
    ensures
        r.jv() is Obj,
{
    let mut props: Vec<(String, Json)> = Vec::new();
    props.push(("adapterCommand".to_owned(), dap_prop("string")));
    dap_schema(props, Vec::new())
}

fn thread_id_schema() -> (r: Json)
    ensures
        r.jv() is Obj,
{
    let mut props: Vec<(String, Json)> = Vec::new();
    props.push(("threadId".to_owned(), dap_prop("integer")));
    props.push(("adapterCommand".to_owned(), dap_prop("string")));
    let mut req: Vec<String> = Vec::new();
    req.push("threadId".to_owned());
    dap_schema(props, req)
}

fn dap_push(v: &mut Vec<Tool>, name: &str, description: &str, input_schema: Json)
    requires
        input_schema.jv() is Obj,
    ensures
        tools_view(final(v)@) == tools_view(old(v)@).push(name@),
        final(v)@.len() == old(v)@.len() + 1,
        (forall|i: int| 0 <= i < old(v)@.len() ==> (#[trigger] old(v)@[i].input_schema.jv()) is Obj)
            ==> (forall|i: int|
            0 <= i < final(v)@.len() ==> (#[trigger] final(v)@[i].input_schema.jv()) is Obj),
    {
    v.push(Tool { name: name.to_owned(), description: description.to_owned(), input_schema });
    proof {
        assert(tools_view(v@) =~= tools_view(old(v)@).push(name@));
    }
}

/// The whole debug-adapter palette, in order.
#[verifier::rlimit(30)]
pub fn dap_tools() -> (r: Vec<Tool>)
    ensures
        tools_view(r@) == spec_dap_tool_names(),
        forall|i: int| 0 <= i < r@.len() ==> (#[trigger] r@[i].input_schema.jv()) is Obj,
{
    let mut v: Vec<Tool> = Vec::new();
    proof {
        assert(tools_view(v@) =~= Seq::<Seq<char>>::empty());
    }
    dap_push(&mut v, "dap_initialize", "Start the adapter and report its capabilities", adapter_only_schema());
    {
        let mut props: Vec<(String, Json)> = Vec::new();
        props.push(("command".to_owned(), dap_prop("string")));
        props.push(("arguments".to_owned(), dap_prop("object")));
        props.push(("adapterCommand".to_owned(), dap_prop("string")));
        let mut req: Vec<String> = Vec::new();
        req.push("command".to_owned());
        dap_push(&mut v, "dap_call", "Send a custom adapter request", dap_schema(props, req));
    }
    {
        let mut props: Vec<(String, Json)> = Vec::new();
        props.push(("arguments".to_owned(), dap_prop("object")));
        props.push(("adapterCommand".to_owned(), dap_prop("string")));
        let mut req: Vec<String> = Vec::new();
        req.push("arguments".to_owned());
        dap_push(&mut v, "dap_launch", "Launch the debuggee", dap_schema(props, req));
    }
    {
        let mut props: Vec<(String, Json)> = Vec::new();
        props.push(("arguments".to_owned(), dap_prop("object")));
        props.push(("adapterCommand".to_owned(), dap_prop("string")));
        let mut req: Vec<String> = Vec::new();
        req.push("arguments".to_owned());
        dap_push(&mut v, "dap_attach", "Attach to the debuggee", dap_schema(props, req));
    }
    {
        let mut props: Vec<(String, Json)> = Vec::new();
        props.push(("source".to_owned(), dap_prop("object")));
        props.push(("breakpoints".to_owned(), dap_prop("array")));
        props.push(("lines".to_owned(), dap_prop("array")));
        props.push(("sourceModified".to_owned(), dap_prop("boolean")));
        props.push(("adapterCommand".to_owned(), dap_prop("string")));
        let mut req: Vec<String> = Vec::new();
        req.push("source".to_owned());
        dap_push(&mut v, "dap_set_breakpoints", "Set breakpoints for a source", dap_schema(props, req));
    }
    dap_push(&mut v, "dap_configuration_done", "Finish the configuration sequence", adapter_only_schema());
    dap_push(&mut v, "dap_continue", "Continue execution", thread_id_schema());
    dap_push(&mut v, "dap_next", "Step over", thread_id_schema());
    dap_push(&mut v, "dap_step_in", "Step in", thread_id_schema());
    dap_push(&mut v, "dap_step_out", "Step out", thread_id_schema());
    dap_push(&mut v, "dap_threads", "List threads", adapter_only_schema());
    {
        let mut props: Vec<(String, Json)> = Vec::new();
        props.push(("threadId".to_owned(), dap_prop("integer")));
        props.push(("startFrame".to_owned(), dap_prop("integer")));
        props.push(("levels".to_owned(), dap_prop("integer")));
        props.push(("adapterCommand".to_owned(), dap_prop("string")));
        let mut req: Vec<String> = Vec::new();
        req.push("threadId".to_owned());
        dap_push(&mut v, "dap_stack_trace", "Fetch a stack trace", dap_schema(props, req));
    }
    {
        let mut props: Vec<(String, Json)> = Vec::new();
        props.push(("frameId".to_owned(), dap_prop("integer")));
        props.push(("adapterCommand".to_owned(), dap_prop("string")));
        let mut req: Vec<String> = Vec::new();
        req.push("frameId".to_owned());
        dap_push(&mut v, "dap_scopes", "Fetch the scopes of a frame", dap_schema(props, req));
    }
    {
        let mut props: Vec<(String, Json)> = Vec::new();
        props.push(("variablesReference".to_owned(), dap_prop("integer")));
        props.push(("adapterCommand".to_owned(), dap_prop("string")));
        let mut req: Vec<String> = Vec::new();
        req.push("variablesReference".to_owned());
        dap_push(&mut v, "dap_variables", "Fetch variables for a reference", dap_schema(props, req));
    }
    {
        let mut props: Vec<(String, Json)> = Vec::new();
        props.push(("expression".to_owned(), dap_prop("string")));
        props.push(("frameId".to_owned(), dap_prop("integer")));
        props.push(("context".to_owned(), dap_prop("string")));
        props.push(("adapterCommand".to_owned(), dap_prop("string")));
        let mut req: Vec<String> = Vec::new();
        req.push("expression".to_owned());
        dap_push(&mut v, "dap_evaluate", "Evaluate an expression", dap_schema(props, req));
    }
    {
        let mut props: Vec<(String, Json)> = Vec::new();
        props.push(("terminateDebuggee".to_owned(), dap_prop("boolean")));
        props.push(("restart".to_owned(), dap_prop("boolean")));
        props.push(("adapterCommand".to_owned(), dap_prop("string")));
        dap_push(&mut v, "dap_disconnect", "Disconnect the debugger", dap_schema(props, Vec::new()));
    }
    proof {
        assert(tools_view(v@) =~= spec_dap_tool_names());
    }
    v
}

/// Whether a palette tool is advertised under the capability record: all
/// are, except the configuration-done tool, which needs
/// `supportsConfigurationDoneRequest`.
pub open spec fn spec_dap_tool_allowed(name: Seq<char>, caps: Option<Jv>) -> bool {
    match caps {
        None => true,
        Some(c) => {
            if name == "dap_configuration_done"@ {
                match jv_get(c, "supportsConfigurationDoneRequest"@) {
                    Some(Jv::Bool(b)) => b,
                    _ => false,
                }
            } else {
                true
            }
        },
    }
}

pub fn dap_tool_allowed(name: &str, caps: Option<&Json>) -> (r: bool)
    ensures
        r == spec_dap_tool_allowed(
            name@,
            match caps {
                Some(c) => Some(c.jv()),
                None => None,
            },
        ),
{
    match caps {
        None => true,
        Some(c) => {
            if str_eq(name, "dap_configuration_done") {
                match c.get("supportsConfigurationDoneRequest") {
                    Some(b) => match b.as_bool() {
                        Some(x) => x,
                        None => false,
                    },
                    None => false,
                }
            } else {
                true
            }
        },
    }
}

/// The palette names that survive filtering, in order.
pub open spec fn spec_dap_filter_names(names: Seq<Seq<char>>, caps: Option<Jv>) -> Seq<Seq<char>>
    decreases names.len(),
{
    if names.len() == 0 {
        Seq::empty()
    } else {
        (if spec_dap_tool_allowed(names[0], caps) {
            seq![names[0]]
        } else {
            Seq::empty()
        }) + spec_dap_filter_names(names.skip(1), caps)
    }
}

/// Keep the palette tools the adapter supports.
pub fn filter_dap_tools(all: Vec<Tool>, caps: Option<&Json>) -> (r: Vec<Tool>)
    ensures
        tools_view(r@) == spec_dap_filter_names(
            tools_view(all@),
            match caps {
                Some(c) => Some(c.jv()),
                None => None,
            },
        ),
{
    let ghost capsv = match caps {
        Some(c) => Some(c.jv()),
        None => None::<Jv>,
    };
    let ghost allv = tools_view(all@);
    let mut rest = all;
    let mut out: Vec<Tool> = Vec::new();
    proof {
        assert(tools_view(out@) =~= Seq::<Seq<char>>::empty());
        assert(tools_view(out@) + spec_dap_filter_names(allv, capsv) =~= spec_dap_filter_names(
            allv,
            capsv,
        ));
    }
    loop
        invariant
            allv == tools_view(all@),
            capsv == (match caps {
                Some(c) => Some(c.jv()),
                None => None::<Jv>,
            }),
            tools_view(out@) + spec_dap_filter_names(tools_view(rest@), capsv)
                == spec_dap_filter_names(allv, capsv),
        decreases rest@.len(),
    {
        if rest.len() == 0 {
            proof {
                assert(tools_view(rest@) =~= Seq::<Seq<char>>::empty());
                assert(tools_view(out@) + Seq::<Seq<char>>::empty() =~= tools_view(out@));
            }
            return out;
        }
        let ghost restv = tools_view(rest@);
        let t = rest.remove(0);
        proof {
            assert(tools_view(rest@) =~= restv.skip(1));
            assert(restv[0] == t.name@);
        }
        if dap_tool_allowed(t.name.as_str(), caps) {
            let ghost outv = tools_view(out@);
            out.push(t);
            proof {
                assert(tools_view(out@) =~= outv.push(restv[0]));
                assert(outv.push(restv[0]) + spec_dap_filter_names(restv.skip(1), capsv)
                    =~= outv + (seq![restv[0]] + spec_dap_filter_names(restv.skip(1), capsv)));
            }
        } else {
            proof {
                assert(Seq::<Seq<char>>::empty() + spec_dap_filter_names(restv.skip(1), capsv)
                    =~= spec_dap_filter_names(restv.skip(1), capsv));
            }
        }
    }
}

// ---------------------------------------------------------------------------
// Structured calls
// ---------------------------------------------------------------------------

/// A required integer argument.
pub fn require_i64(args: &Json, key: &str) -> (r: Result<i64, ErrorObject>)
    ensures
        match r {
            Ok(n) => jv_get_int(args.jv(), key@) == Some(n as int),
            Err(e) => jv_get_int(args.jv(), key@) is None && e.code == -32602 && e.message@
                == spec_missing_msg(key@) && e.data is None,
        },
{
    match args.get(key) {
        Some(j) => match j.as_i64() {
            Some(n) => Ok(n),
            None => Err(invalid_params_error(crate::dap::dap_missing_msg(key))),
        },
        None => Err(invalid_params_error(crate::dap::dap_missing_msg(key))),
    }
}

fn dap_missing_msg(k: &str) -> (r: String)
    ensures
        r@ == spec_missing_msg(k@),
{
    let mut m: String = "Missing required field: ".to_owned();
    m.append(k);
    m
}

/// The breakpoint list of a set-breakpoints call: an explicit `breakpoints`
/// argument passes through; short of one, each entry of `lines` that is an
/// integer becomes `{line: n}`; with neither the list is empty.
pub open spec fn spec_breakpoints_of(args: Jv) -> Jv {
    match jv_get(args, "breakpoints"@) {
        Some(b) => b,
        None => match jv_get(args, "lines"@) {
            Some(Jv::Arr(items)) => Jv::Arr(spec_lines_to_bps(items)),
            _ => Jv::Arr(Seq::empty()),
        },
    }
}

/// `{line: n}` objects for the integer entries of a lines array.
pub open spec fn spec_lines_to_bps(items: Seq<Jv>) -> Seq<Jv>
    decreases items.len(),
{
    if items.len() == 0 {
        Seq::empty()
    } else {
        (match items[0] {
            Jv::Int(n) => seq![Jv::Obj(seq![("line"@, Jv::Int(n))])],
            _ => Seq::empty(),
        }) + spec_lines_to_bps(items.skip(1))
    }
}

fn breakpoints_of(args: &Json) -> (r: Json)
    ensures
        r.jv() == spec_breakpoints_of(args.jv()),
{
    match args.get("breakpoints") {
        Some(b) => b.duplicate(),
        None => {
            match args.get("lines") {
                Some(linesj) => {
                    match linesj.as_arr() {
                        Some(items) => {
                            let ghost iv = seq_jv(items@);
                            let mut out: Vec<Json> = Vec::new();
                            let n = items.len();
                            let mut i: usize = 0;
                            proof {
                                crate::json::lemma_seq_jv_props(items@);
                                assert(iv.skip(0) =~= iv);
                                assert(seq_jv(out@) =~= Seq::<Jv>::empty());
                            }
                            while i < n
                                invariant
                                    i <= n == items@.len(),
                                    iv == seq_jv(items@),
                                    iv.len() == n,
                                    seq_jv(out@) + spec_lines_to_bps(iv.skip(i as int))
                                        == spec_lines_to_bps(iv),
                                decreases n - i,
                            {
                                proof {
                                    crate::json::lemma_seq_jv_props(items@);
                                    assert(iv.skip(i as int)[0] == iv[i as int]);
                                    assert(iv.skip(i as int).skip(1) =~= iv.skip(i as int + 1));
                                }
                                match items[i].as_i64() {
                                    Some(line) => {
                                        let mut bp: Vec<(String, Json)> = Vec::new();
                                        bp.push(("line".to_owned(), Json::Int(line)));
                                        let b = Json::Obj(bp);
                                        proof {
                                            lemma_pairs_jv_props(b->Obj_0@);
                                            assert(pairs_jv(b->Obj_0@) =~= seq![
                                                ("line"@, Jv::Int(line as int)),
                                            ]);
                                            crate::json::lemma_seq_jv_push(out@, b);
                                        }
                                        out.push(b);
                                        proof {
                                            assert(seq_jv(out@) + spec_lines_to_bps(
                                                iv.skip(i as int + 1),
                                            ) =~= spec_lines_to_bps(iv));
                                        }
                                    },
                                    None => {
                                        proof {
                                            assert(spec_lines_to_bps(iv.skip(i as int))
                                                =~= spec_lines_to_bps(iv.skip(i as int + 1)));
                                        }
                                    },
                                }
                                i = i + 1;
                            }
                            proof {
                                assert(iv.skip(n as int) =~= Seq::<Jv>::empty());
                                assert(seq_jv(out@) + Seq::<Jv>::empty() =~= seq_jv(out@));
                            }
                            Json::Arr(out)
                        },
                        None => {
                            let out: Vec<Json> = Vec::new();
                            let r = Json::Arr(out);
                            proof {
                                assert(seq_jv(r->Arr_0@) =~= Seq::<Jv>::empty());
                            }
                            r
                        },
                    }
                },
                None => {
                    let out: Vec<Json> = Vec::new();
                    let r = Json::Arr(out);
                    proof {
                        assert(seq_jv(r->Arr_0@) =~= Seq::<Jv>::empty());
                    }
                    r
                },
            }
        },
    }
}

/// An object member present in the arguments carried over to the payload.
pub open spec fn spec_dap_opt(args: Jv, k: Seq<char>) -> Seq<(Seq<char>, Jv)> {
    match jv_get(args, k) {
        Some(v) => seq![(k, v)],
        None => Seq::empty(),
    }
}

fn dap_opt(args: &Json, k: &str) -> (r: Vec<(String, Json)>)
    ensures
        pairs_jv(r@) == spec_dap_opt(args.jv(), k@),
{
    let mut out: Vec<(String, Json)> = Vec::new();
    match args.get(k) {
        Some(v) => {
            out.push((k.to_owned(), v.duplicate()));
            proof {
                lemma_pairs_jv_props(out@);
                assert(pairs_jv(out@) =~= spec_dap_opt(args.jv(), k@));
            }
        },
        None => {
            proof {
                assert(pairs_jv(out@) =~= spec_dap_opt(args.jv(), k@));
            }
        },
    }
    out
}

/// The downstream command and arguments of one palette tool, mirroring the
/// executable dispatch branch for branch.
pub open spec fn spec_dap_call(tool: Seq<char>, args: Jv) -> crate::dispatch::BuildV {
    if tool == "dap_launch"@ || tool == "dap_attach"@ {
        let cmd = if tool == "dap_launch"@ {
            "launch"@
        } else {
            "attach"@
        };
        match jv_get(args, "arguments"@) {
            Some(a) => crate::dispatch::BuildV::Done(cmd, a, None),
            None => crate::dispatch::BuildV::Fail(-32602, spec_missing_msg("arguments"@), None),
        }
    } else if tool == "dap_set_breakpoints"@ {
        match jv_get(args, "source"@) {
            Some(src) => crate::dispatch::BuildV::Done(
                "setBreakpoints"@,
                Jv::Obj(
                    seq![
                        ("source"@, src),
                        ("breakpoints"@, spec_breakpoints_of(args)),
                    ] + spec_dap_opt(args, "sourceModified"@),
                ),
                None,
            ),
            None => crate::dispatch::BuildV::Fail(-32602, spec_missing_msg("source"@), None),
        }
    } else if tool == "dap_configuration_done"@ {
        crate::dispatch::BuildV::Done("configurationDone"@, Jv::Obj(Seq::empty()), None)
    } else if tool == "dap_continue"@ || tool == "dap_next"@ || tool == "dap_step_in"@ || tool
        == "dap_step_out"@ {
        let cmd = if tool == "dap_continue"@ {
            "continue"@
        } else if tool == "dap_next"@ {
            "next"@
        } else if tool == "dap_step_in"@ {
            "stepIn"@
        } else {
            "stepOut"@
        };
        match jv_get_int(args, "threadId"@) {
            Some(tid) => crate::dispatch::BuildV::Done(
                cmd,
                Jv::Obj(seq![("threadId"@, Jv::Int(tid))]),
                None,
            ),
            None => crate::dispatch::BuildV::Fail(-32602, spec_missing_msg("threadId"@), None),
        }
    } else if tool == "dap_threads"@ {
        crate::dispatch::BuildV::Done("threads"@, Jv::Obj(Seq::empty()), None)
    } else if tool == "dap_stack_trace"@ {
        match jv_get_int(args, "threadId"@) {
            Some(tid) => crate::dispatch::BuildV::Done(
                "stackTrace"@,
                Jv::Obj(
                    seq![("threadId"@, Jv::Int(tid))] + spec_dap_opt(args, "startFrame"@)
                        + spec_dap_opt(args, "levels"@),
                ),
                None,
            ),
            None => crate::dispatch::BuildV::Fail(-32602, spec_missing_msg("threadId"@), None),
        }
    } else if tool == "dap_scopes"@ {
        match jv_get_int(args, "frameId"@) {
            Some(fid) => crate::dispatch::BuildV::Done(
                "scopes"@,
                Jv::Obj(seq![("frameId"@, Jv::Int(fid))]),
                None,
            ),
            None => crate::dispatch::BuildV::Fail(-32602, spec_missing_msg("frameId"@), None),
        }
    } else if tool == "dap_variables"@ {
        match jv_get_int(args, "variablesReference"@) {
            Some(vr) => crate::dispatch::BuildV::Done(
                "variables"@,
                Jv::Obj(seq![("variablesReference"@, Jv::Int(vr))]),
                None,
            ),
            None => crate::dispatch::BuildV::Fail(
                -32602,
                spec_missing_msg("variablesReference"@),
                None,
            ),
        }
    } else if tool == "dap_evaluate"@ {
        match jv_get_str(args, "expression"@) {
            Some(expr) => crate::dispatch::BuildV::Done(
                "evaluate"@,
                Jv::Obj(
                    seq![("expression"@, Jv::Str(expr))] + spec_dap_opt(args, "frameId"@)
                        + spec_dap_opt(args, "context"@),
                ),
                None,
            ),
            None => crate::dispatch::BuildV::Fail(-32602, spec_missing_msg("expression"@), None),
        }
    } else if tool == "dap_disconnect"@ {
        crate::dispatch::BuildV::Done(
            "disconnect"@,
            Jv::Obj(
                spec_dap_opt(args, "terminateDebuggee"@) + spec_dap_opt(args, "restart"@),
            ),
            None,
        )
    } else {
        crate::dispatch::BuildV::Fail(
            -32602,
            "Unsupported dap tool: "@ + tool,
            Some(Jv::Obj(seq![("tool"@, Jv::Str(tool))])),
        )
    }
}

/// Map one palette tool to its downstream command and arguments.
#[verifier::rlimit(60)]
pub fn handle_structured_call(tool: &str, args: &Json) -> (r: Result<(String, Json), ErrorObject>)
    ensures
        (match r {
            Ok((cmd, payload)) => crate::dispatch::BuildV::Done(cmd@, payload.jv(), None),
            Err(e) => crate::dispatch::BuildV::Fail(e.code as int, e.message@, match e.data {
                Some(d) => Some(d.jv()),
                None => None,
            }),
        }) == spec_dap_call(tool@, args.jv()),
{
    if str_eq(tool, "dap_launch") || str_eq(tool, "dap_attach") {
        let cmd: &str = if str_eq(tool, "dap_launch") {
            "launch"
        } else {
            "attach"
        };
        match args.get("arguments") {
            Some(a) => {
                return Ok((cmd.to_owned(), a.duplicate()));
            },
            None => {
                return Err(invalid_params_error(dap_missing_msg("arguments")));
            },
        }
    }
    if str_eq(tool, "dap_set_breakpoints") {
        let src = match args.get("source") {
            Some(s) => s.duplicate(),
            None => {
                return Err(invalid_params_error(dap_missing_msg("source")));
            },
        };
        let ghost srcv = src.jv();
        let bps = breakpoints_of(args);
        let ghost bpsv = bps.jv();
        let mut pairs: Vec<(String, Json)> = Vec::new();
        pairs.push(("source".to_owned(), src));
        pairs.push(("breakpoints".to_owned(), bps));
        proof {
            lemma_pairs_jv_props(pairs@);
            assert(pairs_jv(pairs@) =~= seq![("source"@, srcv), ("breakpoints"@, bpsv)]);
        }
        let ghost headv = pairs_jv(pairs@);
        let mut sm = dap_opt(args, "sourceModified");
        let ghost smv = pairs_jv(sm@);
        proof {
            lemma_pairs_jv_props(pairs@);
            lemma_pairs_jv_props(sm@);
        }
        pairs.append(&mut sm);
        let payload = Json::Obj(pairs);
        proof {
            lemma_pairs_jv_props(payload->Obj_0@);
            assert(pairs_jv(payload->Obj_0@) =~= headv + smv);
        }
        return Ok(("setBreakpoints".to_owned(), payload));
    }
    if str_eq(tool, "dap_configuration_done") {
        return Ok(("configurationDone".to_owned(), Json::obj_empty()));
    }
    if str_eq(tool, "dap_continue") || str_eq(tool, "dap_next") || str_eq(tool, "dap_step_in")
        || str_eq(tool, "dap_step_out") {
        let cmd: &str = if str_eq(tool, "dap_continue") {
            "continue"
        } else if str_eq(tool, "dap_next") {
            "next"
        } else if str_eq(tool, "dap_step_in") {
            "stepIn"
        } else {
            "stepOut"
        };
        let tid = match require_i64(args, "threadId") {
            Ok(v) => v,
            Err(e) => {
                return Err(e);
            },
        };
        let mut pairs: Vec<(String, Json)> = Vec::new();
        pairs.push(("threadId".to_owned(), Json::Int(tid)));
        let payload = Json::Obj(pairs);
        proof {
            lemma_pairs_jv_props(payload->Obj_0@);
            assert(pairs_jv(payload->Obj_0@) =~= seq![("threadId"@, Jv::Int(tid as int))]);
        }
        return Ok((cmd.to_owned(), payload));
    }
    if str_eq(tool, "dap_threads") {
        return Ok(("threads".to_owned(), Json::obj_empty()));
    }
    if str_eq(tool, "dap_stack_trace") {
        let tid = match require_i64(args, "threadId") {
            Ok(v) => v,
            Err(e) => {
                return Err(e);
            },
        };
        let mut pairs: Vec<(String, Json)> = Vec::new();
        pairs.push(("threadId".to_owned(), Json::Int(tid)));
        proof {
            lemma_pairs_jv_props(pairs@);
            assert(pairs_jv(pairs@) =~= seq![("threadId"@, Jv::Int(tid as int))]);
        }
        let ghost headv = pairs_jv(pairs@);
        let mut sf = dap_opt(args, "startFrame");
        let ghost sfv = pairs_jv(sf@);
        proof {
            lemma_pairs_jv_props(pairs@);
            lemma_pairs_jv_props(sf@);
        }
        pairs.append(&mut sf);
        proof {
            lemma_pairs_jv_props(pairs@);
            assert(pairs_jv(pairs@) =~= headv + sfv);
        }
        let ghost midv = pairs_jv(pairs@);
        let mut lv = dap_opt(args, "levels");
        let ghost lvv = pairs_jv(lv@);
        proof {
            lemma_pairs_jv_props(pairs@);
            lemma_pairs_jv_props(lv@);
        }
        pairs.append(&mut lv);
        let payload = Json::Obj(pairs);
        proof {
            lemma_pairs_jv_props(payload->Obj_0@);
            assert(pairs_jv(payload->Obj_0@) =~= midv + lvv);
            assert(midv + lvv =~= (headv + sfv) + lvv);
        }
        return Ok(("stackTrace".to_owned(), payload));
    }
    if str_eq(tool, "dap_scopes") {
        let fid = match require_i64(args, "frameId") {
            Ok(v) => v,
            Err(e) => {
                return Err(e);
            },
        };
        let mut pairs: Vec<(String, Json)> = Vec::new();
        pairs.push(("frameId".to_owned(), Json::Int(fid)));
        let payload = Json::Obj(pairs);
        proof {
            lemma_pairs_jv_props(payload->Obj_0@);
            assert(pairs_jv(payload->Obj_0@) =~= seq![("frameId"@, Jv::Int(fid as int))]);
        }
        return Ok(("scopes".to_owned(), payload));
    }
    if str_eq(tool, "dap_variables") {
        let vr = match require_i64(args, "variablesReference") {
            Ok(v) => v,
            Err(e) => {
                return Err(e);
            },
        };
        let mut pairs: Vec<(String, Json)> = Vec::new();
        pairs.push(("variablesReference".to_owned(), Json::Int(vr)));
        let payload = Json::Obj(pairs);
        proof {
            lemma_pairs_jv_props(payload->Obj_0@);
            assert(pairs_jv(payload->Obj_0@) =~= seq![
                ("variablesReference"@, Jv::Int(vr as int)),
            ]);
        }
        return Ok(("variables".to_owned(), payload));
    }
    if str_eq(tool, "dap_evaluate") {
        let expr: String = match args.get("expression") {
            Some(j) => match j.as_str() {
                Some(s) => s.clone(),
                None => {
                    return Err(invalid_params_error(dap_missing_msg("expression")));
                },
            },
            None => {
                return Err(invalid_params_error(dap_missing_msg("expression")));
            },
        };
        let ghost exprv = expr@;
        let mut pairs: Vec<(String, Json)> = Vec::new();
        pairs.push(("expression".to_owned(), Json::Str(expr)));
        proof {
            lemma_pairs_jv_props(pairs@);
            assert(pairs_jv(pairs@) =~= seq![("expression"@, Jv::Str(exprv))]);
        }
        let ghost headv = pairs_jv(pairs@);
        let mut fid = dap_opt(args, "frameId");
        let ghost fidv = pairs_jv(fid@);
        proof {
            lemma_pairs_jv_props(pairs@);
            lemma_pairs_jv_props(fid@);
        }
        pairs.append(&mut fid);
        proof {
            lemma_pairs_jv_props(pairs@);
            assert(pairs_jv(pairs@) =~= headv + fidv);
        }
        let ghost midv = pairs_jv(pairs@);
        let mut ctx = dap_opt(args, "context");
        let ghost ctxv = pairs_jv(ctx@);
        proof {
            lemma_pairs_jv_props(pairs@);
            lemma_pairs_jv_props(ctx@);
        }
        pairs.append(&mut ctx);
        let payload = Json::Obj(pairs);
        proof {
            lemma_pairs_jv_props(payload->Obj_0@);
            assert(pairs_jv(payload->Obj_0@) =~= midv + ctxv);
            assert(midv + ctxv =~= (headv + fidv) + ctxv);
        }
        return Ok(("evaluate".to_owned(), payload));
    }
    if str_eq(tool, "dap_disconnect") {
        let mut pairs = dap_opt(args, "terminateDebuggee");
        let ghost tdv = pairs_jv(pairs@);
        let mut rs = dap_opt(args, "restart");
        let ghost rsv = pairs_jv(rs@);
        proof {
            lemma_pairs_jv_props(pairs@);
            lemma_pairs_jv_props(rs@);
        }
        pairs.append(&mut rs);
        let payload = Json::Obj(pairs);
        proof {
            lemma_pairs_jv_props(payload->Obj_0@);
            assert(pairs_jv(payload->Obj_0@) =~= tdv + rsv);
        }
        return Ok(("disconnect".to_owned(), payload));
    }
    let mut m: String = "Unsupported dap tool: ".to_owned();
    m.append(tool);
    let mut dp: Vec<(String, Json)> = Vec::new();
    dp.push(("tool".to_owned(), Json::str_of(tool)));
    let d = Json::Obj(dp);
    proof {
        lemma_pairs_jv_props(d->Obj_0@);
        assert(pairs_jv(d->Obj_0@) =~= seq![("tool"@, Jv::Str(tool@))]);
    }
    Err(ErrorObject { code: -32602, message: m, data: Some(d) })
}

// ---------------------------------------------------------------------------
// The adapter protocol state
// ---------------------------------------------------------------------------

/// The protocol state of one debug-adapter client.
pub struct DapAdapterManager {
    /// The configured fallback command.
    pub cmd: Option<String>,
    /// Whether a child is considered running.
    pub running: bool,
    /// The sequence number the next request will carry.
    pub next_seq: i64,
    /// The capability record captured at the handshake.
    pub capabilities: Option<Json>,
}

impl DapAdapterManager {
    /// A fresh manager around the configured command.
    pub fn new(cmd: Option<String>) -> (r: DapAdapterManager)
        ensures
            r.cmd == cmd,
            !r.running,
            r.next_seq == 1,
            r.capabilities is None,
    {
        DapAdapterManager { cmd, running: false, next_seq: 1, capabilities: None }
    }

    /// Allocate the sequence number for one request.
    pub fn alloc_seq(&mut self) -> (s: i64)
        requires
            old(self).next_seq < i64::MAX,
        ensures
            s == old(self).next_seq,
            final(self).next_seq == old(self).next_seq + 1,
            final(self).cmd == old(self).cmd,
            final(self).running == old(self).running,
            final(self).capabilities == old(self).capabilities,
    {
        let s = self.next_seq;
        self.next_seq = self.next_seq + 1;
        s
    }

    /// Record a successful start and handshake.
    pub fn on_started(&mut self, capabilities: Option<Json>)
        ensures
            final(self).running,
            final(self).capabilities == capabilities,
            final(self).cmd == old(self).cmd,
            final(self).next_seq == old(self).next_seq,
    {
        self.running = true;
        self.capabilities = capabilities;
    }
}

/// The envelope of one adapter request.
pub open spec fn spec_dap_request_jv(seq_no: int, command: Seq<char>, arguments: Jv) -> Jv {
    Jv::Obj(
        seq![
            ("seq"@, Jv::Int(seq_no)),
            ("type"@, Jv::Str("request"@)),
            ("command"@, Jv::Str(command)),
            ("arguments"@, arguments),
        ],
    )
}

/// Build one adapter request envelope.
pub fn build_dap_request(seq_no: i64, command: &str, arguments: Json) -> (r: Json)
    ensures
        r.jv() == spec_dap_request_jv(seq_no as int, command@, arguments.jv()),
{
    let ghost av = arguments.jv();
    let mut pairs: Vec<(String, Json)> = Vec::new();
    pairs.push(("seq".to_owned(), Json::Int(seq_no)));
    pairs.push(("type".to_owned(), Json::str_of("request")));
    pairs.push(("command".to_owned(), Json::str_of(command)));
    pairs.push(("arguments".to_owned(), arguments));
    let r = Json::Obj(pairs);
    proof {
        lemma_pairs_jv_props(r->Obj_0@);
        assert(pairs_jv(r->Obj_0@) =~= seq![
            ("seq"@, Jv::Int(seq_no as int)),
            ("type"@, Jv::Str("request"@)),
            ("command"@, Jv::Str(command@)),
            ("arguments"@, av),
        ]);
    }
    r
}

/// What one inbound adapter message means to a caller waiting on `seq_no`.
pub enum DapInbound {
    /// The matching response, successful: its `body`, or an empty object.
    Success(Json),
    /// The matching response, failed: its `message`, or a generic one.
    Failure(String),
    /// An event or an unrelated response, ignored.
    NotForUs,
}

pub open spec fn dap_inbound_v(r: DapInbound) -> DapInboundV {
    match r {
        DapInbound::Success(j) => DapInboundV::Success(j.jv()),
        DapInbound::Failure(m) => DapInboundV::Failure(m@),
        DapInbound::NotForUs => DapInboundV::NotForUs,
    }
}

pub enum DapInboundV {
    Success(Jv),
    Failure(Seq<char>),
    NotForUs,
}

/// A message is the awaited reply when its `type` is `response` and its
/// `request_seq` echoes the awaited sequence number; `success` defaults to
/// true, a failure reads `message` with a fixed fallback.
pub open spec fn spec_match_dap_response(m: Jv, seq_no: int) -> DapInboundV {
    if jv_get_str(m, "type"@) == Some("response"@) && jv_get_int(m, "request_seq"@) == Some(
        seq_no,
    ) {
        let ok = match jv_get(m, "success"@) {
            Some(Jv::Bool(b)) => b,
            _ => true,
        };
        if ok {
            DapInboundV::Success(
                match jv_get(m, "body"@) {
                    Some(b) => b,
                    None => Jv::Obj(Seq::empty()),
                },
            )
        } else {
            DapInboundV::Failure(
                match jv_get_str(m, "message"@) {
                    Some(t) => t,
                    None => "dap error"@,
                },
            )
        }
    } else {
        DapInboundV::NotForUs
    }
}

/// Classify one message read while awaiting the reply to `seq_no`.
pub fn match_dap_response(msg: &Json, seq_no: i64) -> (r: DapInbound)
    ensures
        dap_inbound_v(r) == spec_match_dap_response(msg.jv(), seq_no as int),
{
    let is_response: bool = match msg.get("type") {
        Some(t) => match t.as_str() {
            Some(s) => str_eq(s.as_str(), "response"),
            None => false,
        },
        None => false,
    };
    let seq_matches: bool = match msg.get("request_seq") {
        Some(j) => match j.as_i64() {
            Some(n) => n == seq_no,
            None => false,
        },
        None => false,
    };
    if is_response && seq_matches {
        let ok: bool = match msg.get("success") {
            Some(j) => match j.as_bool() {
                Some(b) => b,
                None => true,
            },
            None => true,
        };
        if ok {
            match msg.get("body") {
                Some(b) => DapInbound::Success(b.duplicate()),
                None => DapInbound::Success(Json::obj_empty()),
            }
        } else {
            match msg.get("message") {
                Some(j) => match j.as_str() {
                    Some(s) => DapInbound::Failure(s.clone()),
                    None => DapInbound::Failure("dap error".to_owned()),
                },
                None => DapInbound::Failure("dap error".to_owned()),
            }
        }
    } else {
        DapInbound::NotForUs
    }
}

} // verus!
