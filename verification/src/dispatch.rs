//! LSP tool dispatch: the pure mapping from an upstream tool invocation to
//! the downstream request.
//!
//! Each tool extracts its required fields from the arguments object,
//! normalizes the document URI, and assembles the downstream method name and
//! parameter object.  A missing or ill-shaped field is an invalid-parameters
//! error before any downstream work; an unknown tool is refused by name.

use vstd::prelude::*;

use crate::json::{
    jv_get, jv_get_str, lemma_pairs_jv_props, pairs_jv, seq_jv, Json, Jv,
};
use crate::pool::spec_normalize_uri;
use crate::text::str_eq;

verus! {

/// A structured error, as the upstream protocol carries it.
#[derive(Debug, PartialEq, Eq)]
pub struct ErrorObject {
    pub code: i64,
    pub message: String,
    pub data: Option<Json>,
}

/// The ghost image of an error object.
pub struct ErrorObjectV {
    pub code: int,
    pub message: Seq<char>,
    pub data: Option<Jv>,
}

impl ErrorObject {
    pub open spec fn v(self) -> ErrorObjectV {
        ErrorObjectV {
            code: self.code as int,
            message: self.message@,
            data: match self.data {
                Some(d) => Some(d.jv()),
                None => None,
            },
        }
    }
}

/// One upstream reply: a result or an error.
#[derive(Debug, PartialEq, Eq)]
pub struct JsonRpcResponse {
    pub result: Option<Json>,
    pub error: Option<ErrorObject>,
}

impl JsonRpcResponse {
    /// A successful reply.
    pub fn result(result: Json) -> (r: JsonRpcResponse)
        ensures
            r.result == Some(result),
            r.error is None,
    {
        JsonRpcResponse { result: Some(result), error: None }
    }

    /// A failed reply.
    pub fn error(error: ErrorObject) -> (r: JsonRpcResponse)
        ensures
            r.result is None,
            r.error == Some(error),
    {
        JsonRpcResponse { result: None, error: Some(error) }
    }
}

/// An invalid-parameters error.
pub fn invalid_params_error(message: String) -> (r: ErrorObject)
    ensures
        r.code == -32602,
        r.message == message,
        r.data is None,
{
    ErrorObject { code: -32602, message, data: None }
}

/// The refusal of a tool that is not in the catalog: an invalid-parameters
/// error naming the tool in its data.
pub fn unsupported_tool_error(tool: &str) -> (r: ErrorObject)
    ensures
        r.code == -32602,
        r.message@ == "Unsupported lsp tool"@,
        match r.data {
            Some(d) => d.jv() == Jv::Obj(seq![("tool"@, Jv::Str(tool@))]),
            None => false,
        },
{
    let mut pairs: Vec<(String, Json)> = Vec::new();
    pairs.push(("tool".to_owned(), Json::str_of(tool)));
    let d = Json::Obj(pairs);
    proof {
        lemma_pairs_jv_props(d->Obj_0@);
        assert(pairs_jv(d->Obj_0@) =~= seq![("tool"@, Jv::Str(tool@))]);
    }
    ErrorObject { code: -32602, message: "Unsupported lsp tool".to_owned(), data: Some(d) }
}

/// The message for a field that must be present.
pub open spec fn spec_missing_msg(k: Seq<char>) -> Seq<char> {
    "Missing required field: "@ + k
}

/// The message for a field that must be an object.
pub open spec fn spec_not_object_msg(k: Seq<char>) -> Seq<char> {
    "Field '"@ + k + "' must be an object"@
}

/// The message for a field that must be an array.
pub open spec fn spec_not_array_msg(k: Seq<char>) -> Seq<char> {
    "Field '"@ + k + "' must be an array"@
}

fn missing_msg(k: &str) -> (r: String)
    ensures
        r@ == spec_missing_msg(k@),
{
    let mut m: String = "Missing required field: ".to_owned();
    m.append(k);
    m
}

fn not_object_msg(k: &str) -> (r: String)
    ensures
        r@ == spec_not_object_msg(k@),
{
    let mut m: String = "Field '".to_owned();
    m.append(k);
    m.append("' must be an object");
    m
}

fn not_array_msg(k: &str) -> (r: String)
    ensures
        r@ == spec_not_array_msg(k@),
{
    let mut m: String = "Field '".to_owned();
    m.append(k);
    m.append("' must be an array");
    m
}

/// A required string field: present and a string, or invalid parameters.
pub fn require_string_field(args: &Json, key: &str) -> (r: Result<String, ErrorObject>)
    ensures
        match r {
            Ok(s) => jv_get_str(args.jv(), key@) == Some(s@),
            Err(e) => jv_get_str(args.jv(), key@) is None && e.code == -32602 && e.message@
                == spec_missing_msg(key@) && e.data is None,
        },
{
    match args.get(key) {
        Some(j) => match j.as_str() {
            Some(s) => Ok(s.clone()),
            None => Err(invalid_params_error(missing_msg(key))),
        },
        None => Err(invalid_params_error(missing_msg(key))),
    }
}

/// A required object field: present and an object, a shape error when it is
/// something else, invalid parameters when absent.
pub fn require_object_field(args: &Json, key: &str) -> (r: Result<Json, ErrorObject>)
    ensures
        match r {
            Ok(j) => jv_get(args.jv(), key@) == Some(j.jv()) && j.jv() is Obj,
            Err(e) => e.code == -32602 && e.data is None && (match jv_get(args.jv(), key@) {
                Some(v) => !(v is Obj) && e.message@ == spec_not_object_msg(key@),
                None => e.message@ == spec_missing_msg(key@),
            }),
        },
{
    match args.get(key) {
        Some(j) => {
            if j.is_obj() {
                Ok(j.duplicate())
            } else {
                Err(invalid_params_error(not_object_msg(key)))
            }
        },
        None => Err(invalid_params_error(missing_msg(key))),
    }
}

/// A required array field, likewise.
pub fn require_array_field(args: &Json, key: &str) -> (r: Result<Json, ErrorObject>)
    ensures
        match r {
            Ok(j) => jv_get(args.jv(), key@) == Some(j.jv()) && j.jv() is Arr,
            Err(e) => e.code == -32602 && e.data is None && (match jv_get(args.jv(), key@) {
                Some(v) => !(v is Arr) && e.message@ == spec_not_array_msg(key@),
                None => e.message@ == spec_missing_msg(key@),
            }),
        },
{
    match args.get(key) {
        Some(j) => {
            let is_arr = match j.as_arr() {
                Some(_) => true,
                None => false,
            };
            if is_arr {
                Ok(j.duplicate())
            } else {
                Err(invalid_params_error(not_array_msg(key)))
            }
        },
        None => Err(invalid_params_error(missing_msg(key))),
    }
}

/// A required field of any shape.
pub fn require_value_field(args: &Json, key: &str) -> (r: Result<Json, ErrorObject>)
    ensures
        match r {
            Ok(j) => jv_get(args.jv(), key@) == Some(j.jv()),
            Err(e) => jv_get(args.jv(), key@) is None && e.code == -32602 && e.message@
                == spec_missing_msg(key@) && e.data is None,
        },
{
    match args.get(key) {
        Some(j) => Ok(j.duplicate()),
        None => Err(invalid_params_error(missing_msg(key))),
    }
}

/// The normalized `uri` argument.
pub fn canonical_uri(args: &Json, cwd: &str) -> (r: Result<String, ErrorObject>)
    ensures
        match r {
            Ok(u) => (match jv_get_str(args.jv(), "uri"@) {
                Some(raw) => u@ == spec_normalize_uri(raw, cwd@),
                None => false,
            }),
            Err(e) => jv_get_str(args.jv(), "uri"@) is None && e.code == -32602 && e.message@
                == spec_missing_msg("uri"@) && e.data is None,
        },
{
    let raw = match require_string_field(args, "uri") {
            Ok(v) => v,
            Err(e) => {
                return Err(e);
            },
        };
    Ok(crate::pool::normalize_uri(raw.as_str(), cwd))
}

// ---------------------------------------------------------------------------
// Downstream parameter shapes
// ---------------------------------------------------------------------------

/// `{textDocument: {uri}}`.
pub open spec fn spec_td_params(uri: Seq<char>) -> Jv {
    Jv::Obj(seq![("textDocument"@, Jv::Obj(seq![("uri"@, Jv::Str(uri))]))])
}

/// The textDocument pair alone, for building larger shapes.
pub open spec fn spec_td_pair(uri: Seq<char>) -> (Seq<char>, Jv) {
    ("textDocument"@, Jv::Obj(seq![("uri"@, Jv::Str(uri))]))
}

/// Build the textDocument member.
fn td_member(uri: &str) -> (r: (String, Json))
    ensures
        (r.0@, r.1.jv()) == spec_td_pair(uri@),
{
    let mut inner: Vec<(String, Json)> = Vec::new();
    inner.push(("uri".to_owned(), Json::str_of(uri)));
    let j = Json::Obj(inner);
    proof {
        lemma_pairs_jv_props(j->Obj_0@);
        assert(pairs_jv(j->Obj_0@) =~= seq![("uri"@, Jv::Str(uri@))]);
    }
    ("textDocument".to_owned(), j)
}

/// `{textDocument: {uri}}` as a value.
pub fn td_params(uri: &str) -> (r: Json)
    ensures
        r.jv() == spec_td_params(uri@),
{
    let m = td_member(uri);
    let mut pairs: Vec<(String, Json)> = Vec::new();
    pairs.push(m);
    let r = Json::Obj(pairs);
    proof {
        lemma_pairs_jv_props(r->Obj_0@);
        assert(pairs_jv(r->Obj_0@) =~= seq![spec_td_pair(uri@)]);
    }
    r
}

/// `{textDocument: {uri}}` extended with more members, in order.
pub open spec fn spec_td_with(uri: Seq<char>, rest: Seq<(Seq<char>, Jv)>) -> Jv {
    Jv::Obj(seq![spec_td_pair(uri)] + rest)
}

/// Build `{textDocument: {uri}, ...rest}`.
pub fn td_with(uri: &str, rest: Vec<(String, Json)>) -> (r: Json)
    ensures
        r.jv() == spec_td_with(uri@, pairs_jv(rest@)),
{
    let ghost restv = pairs_jv(rest@);
    let m = td_member(uri);
    let mut pairs: Vec<(String, Json)> = Vec::new();
    pairs.push(m);
    let mut rest_mut = rest;
    let n = rest_mut.len();
    let mut i: usize = 0;
    proof {
        lemma_pairs_jv_props(rest_mut@);
        lemma_pairs_jv_props(pairs@);
        assert(pairs_jv(pairs@) =~= seq![spec_td_pair(uri@)] + restv.take(0));
    }
    while i < n
        invariant
            i <= n == rest_mut@.len(),
            restv == pairs_jv(rest_mut@),
            pairs_jv(pairs@) == seq![spec_td_pair(uri@)] + restv.take(i as int),
        decreases n - i,
    {
        let k = rest_mut[i].0.clone();
        let v = rest_mut[i].1.duplicate();
        proof {
            crate::json::lemma_pairs_jv_push(pairs@, (k, v));
            lemma_pairs_jv_props(rest_mut@);
        }
        pairs.push((k, v));
        i = i + 1;
        proof {
            assert(pairs_jv(pairs@) =~= seq![spec_td_pair(uri@)] + restv.take(i as int));
        }
    }
    proof {
        assert(restv.take(n as int) =~= restv);
    }
    Json::Obj(pairs)
}

// ---------------------------------------------------------------------------
// The tool-to-method tables
// ---------------------------------------------------------------------------

/// Tools that take a document URI and a position.
pub open spec fn spec_positional_method(t: Seq<char>) -> Option<Seq<char>> {
    if t == "lsp_hover"@ {
        Some("textDocument/hover"@)
    } else if t == "lsp_definition"@ {
        Some("textDocument/definition"@)
    } else if t == "lsp_type_definition"@ {
        Some("textDocument/typeDefinition"@)
    } else if t == "lsp_implementation"@ {
        Some("textDocument/implementation"@)
    } else if t == "lsp_document_highlight"@ {
        Some("textDocument/documentHighlight"@)
    } else if t == "lsp_linked_editing_range"@ {
        Some("textDocument/linkedEditingRange"@)
    } else if t == "lsp_moniker"@ {
        Some("textDocument/moniker"@)
    } else if t == "lsp_prepare_rename"@ {
        Some("textDocument/prepareRename"@)
    } else if t == "lsp_declaration"@ {
        Some("textDocument/declaration"@)
    } else if t == "lsp_call_hierarchy_prepare"@ {
        Some("textDocument/prepareCallHierarchy"@)
    } else if t == "lsp_type_hierarchy_prepare"@ {
        Some("textDocument/prepareTypeHierarchy"@)
    } else {
        None
    }
}

/// Tools that resolve an item returned by an earlier call.
pub open spec fn spec_item_method(t: Seq<char>) -> Option<Seq<char>> {
    if t == "lsp_workspace_symbol_resolve"@ {
        Some("workspaceSymbol/resolve"@)
    } else if t == "lsp_code_action_resolve"@ {
        Some("codeAction/resolve"@)
    } else if t == "lsp_completion_item_resolve"@ {
        Some("completionItem/resolve"@)
    } else if t == "lsp_code_lens_resolve"@ {
        Some("codeLens/resolve"@)
    } else if t == "lsp_document_link_resolve"@ {
        Some("documentLink/resolve"@)
    } else if t == "lsp_inlay_hint_resolve"@ {
        Some("inlayHint/resolve"@)
    } else if t == "lsp_call_hierarchy_incoming_calls"@ {
        Some("callHierarchy/incomingCalls"@)
    } else if t == "lsp_call_hierarchy_outgoing_calls"@ {
        Some("callHierarchy/outgoingCalls"@)
    } else if t == "lsp_type_hierarchy_supertypes"@ {
        Some("typeHierarchy/supertypes"@)
    } else if t == "lsp_type_hierarchy_subtypes"@ {
        Some("typeHierarchy/subtypes"@)
    } else {
        None
    }
}

/// Tools that take only a document URI.
pub open spec fn spec_doc_only_method(t: Seq<char>) -> Option<Seq<char>> {
    if t == "lsp_folding_range"@ {
        Some("textDocument/foldingRange"@)
    } else if t == "lsp_document_symbol"@ {
        Some("textDocument/documentSymbol"@)
    } else if t == "lsp_code_lens"@ {
        Some("textDocument/codeLens"@)
    } else if t == "lsp_document_link"@ {
        Some("textDocument/documentLink"@)
    } else if t == "lsp_document_color"@ {
        Some("textDocument/documentColor"@)
    } else if t == "lsp_semantic_tokens_full"@ {
        Some("textDocument/semanticTokens/full"@)
    } else if t == "lsp_text_document_content"@ {
        Some("workspace/textDocumentContent"@)
    } else {
        None
    }
}

/// Tools that take a `files` array.
pub open spec fn spec_files_method(t: Seq<char>) -> Option<Seq<char>> {
    if t == "lsp_will_create_files"@ {
        Some("workspace/willCreateFiles"@)
    } else if t == "lsp_will_rename_files"@ {
        Some("workspace/willRenameFiles"@)
    } else if t == "lsp_will_delete_files"@ {
        Some("workspace/willDeleteFiles"@)
    } else {
        None
    }
}

fn positional_method(t: &str) -> (r: Option<&'static str>)
    ensures
        match r {
            Some(m) => spec_positional_method(t@) == Some(m@),
            None => spec_positional_method(t@) is None,
        },
{
    if str_eq(t, "lsp_hover") {
        Some("textDocument/hover")
    } else if str_eq(t, "lsp_definition") {
        Some("textDocument/definition")
    } else if str_eq(t, "lsp_type_definition") {
        Some("textDocument/typeDefinition")
    } else if str_eq(t, "lsp_implementation") {
        Some("textDocument/implementation")
    } else if str_eq(t, "lsp_document_highlight") {
        Some("textDocument/documentHighlight")
    } else if str_eq(t, "lsp_linked_editing_range") {
        Some("textDocument/linkedEditingRange")
    } else if str_eq(t, "lsp_moniker") {
        Some("textDocument/moniker")
    } else if str_eq(t, "lsp_prepare_rename") {
        Some("textDocument/prepareRename")
    } else if str_eq(t, "lsp_declaration") {
        Some("textDocument/declaration")
    } else if str_eq(t, "lsp_call_hierarchy_prepare") {
        Some("textDocument/prepareCallHierarchy")
    } else if str_eq(t, "lsp_type_hierarchy_prepare") {
        Some("textDocument/prepareTypeHierarchy")
    } else {
        None
    }
}

fn item_method(t: &str) -> (r: Option<&'static str>)
    ensures
        match r {
            Some(m) => spec_item_method(t@) == Some(m@),
            None => spec_item_method(t@) is None,
        },
{
    if str_eq(t, "lsp_workspace_symbol_resolve") {
        Some("workspaceSymbol/resolve")
    } else if str_eq(t, "lsp_code_action_resolve") {
        Some("codeAction/resolve")
    } else if str_eq(t, "lsp_completion_item_resolve") {
        Some("completionItem/resolve")
    } else if str_eq(t, "lsp_code_lens_resolve") {
        Some("codeLens/resolve")
    } else if str_eq(t, "lsp_document_link_resolve") {
        Some("documentLink/resolve")
    } else if str_eq(t, "lsp_inlay_hint_resolve") {
        Some("inlayHint/resolve")
    } else if str_eq(t, "lsp_call_hierarchy_incoming_calls") {
        Some("callHierarchy/incomingCalls")
    } else if str_eq(t, "lsp_call_hierarchy_outgoing_calls") {
        Some("callHierarchy/outgoingCalls")
    } else if str_eq(t, "lsp_type_hierarchy_supertypes") {
        Some("typeHierarchy/supertypes")
    } else if str_eq(t, "lsp_type_hierarchy_subtypes") {
        Some("typeHierarchy/subtypes")
    } else {
        None
    }
}

fn doc_only_method(t: &str) -> (r: Option<&'static str>)
    ensures
        match r {
            Some(m) => spec_doc_only_method(t@) == Some(m@),
            None => spec_doc_only_method(t@) is None,
        },
{
    if str_eq(t, "lsp_folding_range") {
        Some("textDocument/foldingRange")
    } else if str_eq(t, "lsp_document_symbol") {
        Some("textDocument/documentSymbol")
    } else if str_eq(t, "lsp_code_lens") {
        Some("textDocument/codeLens")
    } else if str_eq(t, "lsp_document_link") {
        Some("textDocument/documentLink")
    } else if str_eq(t, "lsp_document_color") {
        Some("textDocument/documentColor")
    } else if str_eq(t, "lsp_semantic_tokens_full") {
        Some("textDocument/semanticTokens/full")
    } else if str_eq(t, "lsp_text_document_content") {
        Some("workspace/textDocumentContent")
    } else {
        None
    }
}

fn files_method(t: &str) -> (r: Option<&'static str>)
    ensures
        match r {
            Some(m) => spec_files_method(t@) == Some(m@),
            None => spec_files_method(t@) is None,
        },
{
    if str_eq(t, "lsp_will_create_files") {
        Some("workspace/willCreateFiles")
    } else if str_eq(t, "lsp_will_rename_files") {
        Some("workspace/willRenameFiles")
    } else if str_eq(t, "lsp_will_delete_files") {
        Some("workspace/willDeleteFiles")
    } else {
        None
    }
}

// ---------------------------------------------------------------------------
// Building the invocation
// ---------------------------------------------------------------------------

/// A resolved invocation: the downstream method, its parameters, and the
/// document the auto-open logic should look at.
#[derive(Debug)]
pub struct LspInvocation {
    pub method: String,
    pub params: Json,
    pub uri_hint: Option<String>,
}

/// The ghost image of a build outcome.
pub enum BuildV {
    Done(Seq<char>, Jv, Option<Seq<char>>),
    Fail(int, Seq<char>, Option<Jv>),
}

/// A required string field, at the spec level.
pub open spec fn spec_str_field(args: Jv, k: Seq<char>) -> Result<Seq<char>, Seq<char>> {
    match jv_get_str(args, k) {
        Some(s) => Ok(s),
        None => Err(spec_missing_msg(k)),
    }
}

/// A required object field, at the spec level.
pub open spec fn spec_obj_field(args: Jv, k: Seq<char>) -> Result<Jv, Seq<char>> {
    match jv_get(args, k) {
        Some(v) => if v is Obj {
            Ok(v)
        } else {
            Err(spec_not_object_msg(k))
        },
        None => Err(spec_missing_msg(k)),
    }
}

/// A required array field, at the spec level.
pub open spec fn spec_arr_field(args: Jv, k: Seq<char>) -> Result<Jv, Seq<char>> {
    match jv_get(args, k) {
        Some(v) => if v is Arr {
            Ok(v)
        } else {
            Err(spec_not_array_msg(k))
        },
        None => Err(spec_missing_msg(k)),
    }
}

/// A required field of any shape, at the spec level.
pub open spec fn spec_any_field(args: Jv, k: Seq<char>) -> Result<Jv, Seq<char>> {
    match jv_get(args, k) {
        Some(v) => Ok(v),
        None => Err(spec_missing_msg(k)),
    }
}

/// The normalized `uri` argument, at the spec level.
pub open spec fn spec_uri_field(args: Jv, cwd: Seq<char>) -> Result<Seq<char>, Seq<char>> {
    match jv_get_str(args, "uri"@) {
        Some(raw) => Ok(spec_normalize_uri(raw, cwd)),
        None => Err(spec_missing_msg("uri"@)),
    }
}

/// An optional member appended when the argument carries the field.
pub open spec fn spec_opt_member(args: Jv, k: Seq<char>) -> Seq<(Seq<char>, Jv)> {
    match jv_get(args, k) {
        Some(v) => seq![(k, v)],
        None => Seq::empty(),
    }
}

/// The whole pure mapping from a tool name and arguments to the downstream
/// invocation, mirroring the executable dispatch branch for branch.
pub open spec fn spec_build_invocation(tool: Seq<char>, args: Jv, cwd: Seq<char>) -> BuildV {
    if spec_positional_method(tool) is Some {
        let method = spec_positional_method(tool)->0;
        match spec_uri_field(args, cwd) {
            Err(m) => BuildV::Fail(-32602, m, None),
            Ok(uri) => match spec_obj_field(args, "position"@) {
                Err(m) => BuildV::Fail(-32602, m, None),
                Ok(pos) => BuildV::Done(
                    method,
                    spec_td_with(uri, seq![("position"@, pos)]),
                    Some(uri),
                ),
            },
        }
    } else if spec_item_method(tool) is Some {
        let method = spec_item_method(tool)->0;
        match spec_obj_field(args, "item"@) {
            Err(m) => BuildV::Fail(-32602, m, None),
            Ok(item) => BuildV::Done(method, item, None),
        }
    } else if spec_doc_only_method(tool) is Some {
        let method = spec_doc_only_method(tool)->0;
        match spec_uri_field(args, cwd) {
            Err(m) => BuildV::Fail(-32602, m, None),
            Ok(uri) => BuildV::Done(method, spec_td_params(uri), Some(uri)),
        }
    } else if spec_files_method(tool) is Some {
        let method = spec_files_method(tool)->0;
        match spec_arr_field(args, "files"@) {
            Err(m) => BuildV::Fail(-32602, m, None),
            Ok(files) => BuildV::Done(method, Jv::Obj(seq![("files"@, files)]), None),
        }
    } else if tool == "lsp_completion"@ || tool == "lsp_signature_help"@ {
        let method = if tool == "lsp_completion"@ {
            "textDocument/completion"@
        } else {
            "textDocument/signatureHelp"@
        };
        match spec_uri_field(args, cwd) {
            Err(m) => BuildV::Fail(-32602, m, None),
            Ok(uri) => match spec_obj_field(args, "position"@) {
                Err(m) => BuildV::Fail(-32602, m, None),
                Ok(pos) => BuildV::Done(
                    method,
                    spec_td_with(
                        uri,
                        seq![("position"@, pos)] + spec_opt_member(args, "context"@),
                    ),
                    Some(uri),
                ),
            },
        }
    } else if tool == "lsp_references"@ {
        match spec_uri_field(args, cwd) {
            Err(m) => BuildV::Fail(-32602, m, None),
            Ok(uri) => match spec_obj_field(args, "position"@) {
                Err(m) => BuildV::Fail(-32602, m, None),
                Ok(pos) => {
                    let with_decl = match jv_get(args, "includeDeclaration"@) {
                        Some(Jv::Bool(b)) => b,
                        _ => false,
                    };
                    BuildV::Done(
                        "textDocument/references"@,
                        spec_td_with(
                            uri,
                            seq![
                                ("position"@, pos),
                                (
                                    "context"@,
                                    Jv::Obj(
                                        seq![("includeDeclaration"@, Jv::Bool(with_decl))],
                                    ),
                                ),
                            ],
                        ),
                        Some(uri),
                    )
                },
            },
        }
    } else if tool == "lsp_selection_range"@ {
        match spec_uri_field(args, cwd) {
            Err(m) => BuildV::Fail(-32602, m, None),
            Ok(uri) => match spec_arr_field(args, "positions"@) {
                Err(m) => BuildV::Fail(-32602, m, None),
                Ok(ps) => BuildV::Done(
                    "textDocument/selectionRange"@,
                    spec_td_with(uri, seq![("positions"@, ps)]),
                    Some(uri),
                ),
            },
        }
    } else if tool == "lsp_workspace_symbol"@ {
        match spec_str_field(args, "query"@) {
            Err(m) => BuildV::Fail(-32602, m, None),
            Ok(q) => BuildV::Done(
                "workspace/symbol"@,
                Jv::Obj(seq![("query"@, Jv::Str(q))]),
                None,
            ),
        }
    } else if tool == "lsp_rename"@ {
        match spec_uri_field(args, cwd) {
            Err(m) => BuildV::Fail(-32602, m, None),
            Ok(uri) => match spec_obj_field(args, "position"@) {
                Err(m) => BuildV::Fail(-32602, m, None),
                Ok(pos) => match spec_str_field(args, "newName"@) {
                    Err(m) => BuildV::Fail(-32602, m, None),
                    Ok(name) => BuildV::Done(
                        "textDocument/rename"@,
                        spec_td_with(
                            uri,
                            seq![("position"@, pos), ("newName"@, Jv::Str(name))],
                        ),
                        Some(uri),
                    ),
                },
            },
        }
    } else if tool == "lsp_code_action"@ {
        match spec_uri_field(args, cwd) {
            Err(m) => BuildV::Fail(-32602, m, None),
            Ok(uri) => match spec_obj_field(args, "range"@) {
                Err(m) => BuildV::Fail(-32602, m, None),
                Ok(range) => match spec_any_field(args, "context"@) {
                    Err(m) => BuildV::Fail(-32602, m, None),
                    Ok(ctx) => BuildV::Done(
                        "textDocument/codeAction"@,
                        spec_td_with(uri, seq![("range"@, range), ("context"@, ctx)]),
                        Some(uri),
                    ),
                },
            },
        }
    } else if tool == "lsp_color_presentation"@ {
        match spec_uri_field(args, cwd) {
            Err(m) => BuildV::Fail(-32602, m, None),
            Ok(uri) => match spec_any_field(args, "color"@) {
                Err(m) => BuildV::Fail(-32602, m, None),
                Ok(color) => match spec_obj_field(args, "range"@) {
                    Err(m) => BuildV::Fail(-32602, m, None),
                    Ok(range) => BuildV::Done(
                        "textDocument/colorPresentation"@,
                        spec_td_with(uri, seq![("color"@, color), ("range"@, range)]),
                        Some(uri),
                    ),
                },
            },
        }
    } else if tool == "lsp_formatting"@ {
        match spec_uri_field(args, cwd) {
            Err(m) => BuildV::Fail(-32602, m, None),
            Ok(uri) => match spec_obj_field(args, "options"@) {
                Err(m) => BuildV::Fail(-32602, m, None),
                Ok(opts) => BuildV::Done(
                    "textDocument/formatting"@,
                    spec_td_with(uri, seq![("options"@, opts)]),
                    Some(uri),
                ),
            },
        }
    } else if tool == "lsp_range_formatting"@ {
        match spec_uri_field(args, cwd) {
            Err(m) => BuildV::Fail(-32602, m, None),
            Ok(uri) => match spec_obj_field(args, "range"@) {
                Err(m) => BuildV::Fail(-32602, m, None),
                Ok(range) => match spec_obj_field(args, "options"@) {
                    Err(m) => BuildV::Fail(-32602, m, None),
                    Ok(opts) => BuildV::Done(
                        "textDocument/rangeFormatting"@,
                        spec_td_with(uri, seq![("range"@, range), ("options"@, opts)]),
                        Some(uri),
                    ),
                },
            },
        }
    } else if tool == "lsp_on_type_formatting"@ {
        match spec_uri_field(args, cwd) {
            Err(m) => BuildV::Fail(-32602, m, None),
            Ok(uri) => match spec_obj_field(args, "position"@) {
                Err(m) => BuildV::Fail(-32602, m, None),
                Ok(pos) => match spec_str_field(args, "ch"@) {
                    Err(m) => BuildV::Fail(-32602, m, None),
                    Ok(ch) => match spec_obj_field(args, "options"@) {
                        Err(m) => BuildV::Fail(-32602, m, None),
                        Ok(opts) => BuildV::Done(
                            "textDocument/onTypeFormatting"@,
                            spec_td_with(
                                uri,
                                seq![
                                    ("position"@, pos),
                                    ("ch"@, Jv::Str(ch)),
                                    ("options"@, opts),
                                ],
                            ),
                            Some(uri),
                        ),
                    },
                },
            },
        }
    } else if tool == "lsp_inline_value"@ {
        match spec_uri_field(args, cwd) {
            Err(m) => BuildV::Fail(-32602, m, None),
            Ok(uri) => match spec_obj_field(args, "range"@) {
                Err(m) => BuildV::Fail(-32602, m, None),
                Ok(range) => match spec_any_field(args, "context"@) {
                    Err(m) => BuildV::Fail(-32602, m, None),
                    Ok(ctx) => BuildV::Done(
                        "textDocument/inlineValue"@,
                        spec_td_with(uri, seq![("range"@, range), ("context"@, ctx)]),
                        Some(uri),
                    ),
                },
            },
        }
    } else if tool == "lsp_inlay_hint"@ {
        match spec_uri_field(args, cwd) {
            Err(m) => BuildV::Fail(-32602, m, None),
            Ok(uri) => match spec_obj_field(args, "range"@) {
                Err(m) => BuildV::Fail(-32602, m, None),
                Ok(range) => BuildV::Done(
                    "textDocument/inlayHint"@,
                    spec_td_with(uri, seq![("range"@, range)]),
                    Some(uri),
                ),
            },
        }
    } else if tool == "lsp_semantic_tokens_full_delta"@ {
        match spec_uri_field(args, cwd) {
            Err(m) => BuildV::Fail(-32602, m, None),
            Ok(uri) => match spec_str_field(args, "previousResultId"@) {
                Err(m) => BuildV::Fail(-32602, m, None),
                Ok(prev) => BuildV::Done(
                    "textDocument/semanticTokens/full/delta"@,
                    spec_td_with(uri, seq![("previousResultId"@, Jv::Str(prev))]),
                    Some(uri),
                ),
            },
        }
    } else if tool == "lsp_semantic_tokens_range"@ {
        match spec_uri_field(args, cwd) {
            Err(m) => BuildV::Fail(-32602, m, None),
            Ok(uri) => match spec_obj_field(args, "range"@) {
                Err(m) => BuildV::Fail(-32602, m, None),
                Ok(range) => BuildV::Done(
                    "textDocument/semanticTokens/range"@,
                    spec_td_with(uri, seq![("range"@, range)]),
                    Some(uri),
                ),
            },
        }
    } else if tool == "lsp_execute_command"@ {
        match spec_str_field(args, "command"@) {
            Err(m) => BuildV::Fail(-32602, m, None),
            Ok(cmd) => BuildV::Done(
                "workspace/executeCommand"@,
                Jv::Obj(
                    seq![("command"@, Jv::Str(cmd))] + spec_opt_member(args, "arguments"@),
                ),
                None,
            ),
        }
    } else if tool == "lsp_text_document_diagnostic"@ {
        match spec_uri_field(args, cwd) {
            Err(m) => BuildV::Fail(-32602, m, None),
            Ok(uri) => BuildV::Done(
                "textDocument/diagnostic"@,
                spec_td_with(
                    uri,
                    spec_opt_member(args, "identifier"@) + spec_opt_member(
                        args,
                        "previousResultId"@,
                    ),
                ),
                Some(uri),
            ),
        }
    } else if tool == "lsp_workspace_diagnostic"@ {
        BuildV::Done(
            "workspace/diagnostic"@,
            Jv::Obj(
                spec_opt_member(args, "previousResultIds"@) + spec_opt_member(
                    args,
                    "identifier"@,
                ),
            ),
            None,
        )
    } else {
        BuildV::Fail(-32602, "Unsupported lsp tool"@, Some(Jv::Obj(seq![("tool"@, Jv::Str(tool))])))
    }
}

/// The ghost image of a build result.
pub open spec fn build_result_v(r: Result<LspInvocation, ErrorObject>) -> BuildV {
    match r {
        Ok(inv) => BuildV::Done(
            inv.method@,
            inv.params.jv(),
            match inv.uri_hint {
                Some(u) => Some(u@),
                None => None,
            },
        ),
        Err(e) => BuildV::Fail(e.code as int, e.message@, match e.data {
            Some(d) => Some(d.jv()),
            None => None,
        }),
    }
}

/// The optional member of `args` under `k`, executably.
fn opt_member(args: &Json, k: &str) -> (r: Vec<(String, Json)>)
    ensures
        pairs_jv(r@) == spec_opt_member(args.jv(), k@),
{
    let mut out: Vec<(String, Json)> = Vec::new();
    match args.get(k) {
        Some(v) => {
            out.push((k.to_owned(), v.duplicate()));
            proof {
                lemma_pairs_jv_props(out@);
                assert(pairs_jv(out@) =~= spec_opt_member(args.jv(), k@));
            }
        },
        None => {
            proof {
                assert(pairs_jv(out@) =~= spec_opt_member(args.jv(), k@));
            }
        },
    }
    out
}

/// Build the downstream invocation for one catalog tool.
pub fn build_lsp_invocation(tool: &str, args: &Json, cwd: &str) -> (r: Result<
    LspInvocation,
    ErrorObject,
>)
    ensures
        build_result_v(r) == spec_build_invocation(tool@, args.jv(), cwd@),
{
    if let Some(method) = positional_method(tool) {
        let uri = match canonical_uri(args, cwd) {
            Ok(v) => v,
            Err(e) => {
                return Err(e);
            },
        };
        let pos = match require_object_field(args, "position") {
            Ok(v) => v,
            Err(e) => {
                return Err(e);
            },
        };
        let mut rest: Vec<(String, Json)> = Vec::new();
        let ghost posv = pos.jv();
        rest.push(("position".to_owned(), pos));
        proof {
            lemma_pairs_jv_props(rest@);
            assert(pairs_jv(rest@) =~= seq![("position"@, posv)]);
        }
        let params = td_with(uri.as_str(), rest);
        return Ok(
            LspInvocation { method: method.to_owned(), params, uri_hint: Some(uri) },
        );
    }
    if let Some(method) = item_method(tool) {
        let item = match require_object_field(args, "item") {
            Ok(v) => v,
            Err(e) => {
                return Err(e);
            },
        };
        return Ok(LspInvocation { method: method.to_owned(), params: item, uri_hint: None });
    }
    if let Some(method) = doc_only_method(tool) {
        let uri = match canonical_uri(args, cwd) {
            Ok(v) => v,
            Err(e) => {
                return Err(e);
            },
        };
        let params = td_params(uri.as_str());
        return Ok(
            LspInvocation { method: method.to_owned(), params, uri_hint: Some(uri) },
        );
    }
    if let Some(method) = files_method(tool) {
        let files = match require_array_field(args, "files") {
            Ok(v) => v,
            Err(e) => {
                return Err(e);
            },
        };
        let ghost fv = files.jv();
        let mut pairs: Vec<(String, Json)> = Vec::new();
        pairs.push(("files".to_owned(), files));
        let params = Json::Obj(pairs);
        proof {
            lemma_pairs_jv_props(params->Obj_0@);
            assert(pairs_jv(params->Obj_0@) =~= seq![("files"@, fv)]);
        }
        return Ok(LspInvocation { method: method.to_owned(), params, uri_hint: None });
    }
    if str_eq(tool, "lsp_completion") || str_eq(tool, "lsp_signature_help") {
        let method: &str = if str_eq(tool, "lsp_completion") {
            "textDocument/completion"
        } else {
            "textDocument/signatureHelp"
        };
        let uri = match canonical_uri(args, cwd) {
            Ok(v) => v,
            Err(e) => {
                return Err(e);
            },
        };
        let pos = match require_object_field(args, "position") {
            Ok(v) => v,
            Err(e) => {
                return Err(e);
            },
        };
        let ghost posv = pos.jv();
        let mut rest: Vec<(String, Json)> = Vec::new();
        rest.push(("position".to_owned(), pos));
        proof {
            lemma_pairs_jv_props(rest@);
            assert(pairs_jv(rest@) =~= seq![("position"@, posv)]);
        }
        let mut ctx = opt_member(args, "context");
        let ghost restv = pairs_jv(rest@);
        let ghost ctxv = pairs_jv(ctx@);
        proof {
            lemma_pairs_jv_props(rest@);
            lemma_pairs_jv_props(ctx@);
        }
        rest.append(&mut ctx);
        proof {
            lemma_pairs_jv_props(rest@);
            assert(pairs_jv(rest@) =~= restv + ctxv);
        }
        let params = td_with(uri.as_str(), rest);
        return Ok(
            LspInvocation { method: method.to_owned(), params, uri_hint: Some(uri) },
        );
    }
    if str_eq(tool, "lsp_references") {
        let uri = match canonical_uri(args, cwd) {
            Ok(v) => v,
            Err(e) => {
                return Err(e);
            },
        };
        let pos = match require_object_field(args, "position") {
            Ok(v) => v,
            Err(e) => {
                return Err(e);
            },
        };
        let with_decl: bool = match args.get("includeDeclaration") {
            Some(v) => match v.as_bool() {
                Some(b) => b,
                None => false,
            },
            None => false,
        };
        let mut ctx_pairs: Vec<(String, Json)> = Vec::new();
        ctx_pairs.push(("includeDeclaration".to_owned(), Json::Bool(with_decl)));
        let ctx = Json::Obj(ctx_pairs);
        proof {
            lemma_pairs_jv_props(ctx->Obj_0@);
            assert(pairs_jv(ctx->Obj_0@) =~= seq![("includeDeclaration"@, Jv::Bool(with_decl))]);
        }
        let ghost posv = pos.jv();
        let ghost ctxv = ctx.jv();
        let mut rest: Vec<(String, Json)> = Vec::new();
        rest.push(("position".to_owned(), pos));
        rest.push(("context".to_owned(), ctx));
        proof {
            lemma_pairs_jv_props(rest@);
            assert(pairs_jv(rest@) =~= seq![("position"@, posv), ("context"@, ctxv)]);
        }
        let params = td_with(uri.as_str(), rest);
        return Ok(
            LspInvocation {
                method: "textDocument/references".to_owned(),
                params,
                uri_hint: Some(uri),
            },
        );
    }
    if str_eq(tool, "lsp_selection_range") {
        let uri = match canonical_uri(args, cwd) {
            Ok(v) => v,
            Err(e) => {
                return Err(e);
            },
        };
        let ps = match require_array_field(args, "positions") {
            Ok(v) => v,
            Err(e) => {
                return Err(e);
            },
        };
        let ghost psv = ps.jv();
        let mut rest: Vec<(String, Json)> = Vec::new();
        rest.push(("positions".to_owned(), ps));
        proof {
            lemma_pairs_jv_props(rest@);
            assert(pairs_jv(rest@) =~= seq![("positions"@, psv)]);
        }
        let params = td_with(uri.as_str(), rest);
        return Ok(
            LspInvocation {
                method: "textDocument/selectionRange".to_owned(),
                params,
                uri_hint: Some(uri),
            },
        );
    }
    if str_eq(tool, "lsp_workspace_symbol") {
        let q = match require_string_field(args, "query") {
            Ok(v) => v,
            Err(e) => {
                return Err(e);
            },
        };
        let mut pairs: Vec<(String, Json)> = Vec::new();
        let ghost qv = q@;
        pairs.push(("query".to_owned(), Json::Str(q)));
        let params = Json::Obj(pairs);
        proof {
            lemma_pairs_jv_props(params->Obj_0@);
            assert(pairs_jv(params->Obj_0@) =~= seq![("query"@, Jv::Str(qv))]);
        }
        return Ok(
            LspInvocation { method: "workspace/symbol".to_owned(), params, uri_hint: None },
        );
    }
    if str_eq(tool, "lsp_rename") {
        let uri = match canonical_uri(args, cwd) {
            Ok(v) => v,
            Err(e) => {
                return Err(e);
            },
        };
        let pos = match require_object_field(args, "position") {
            Ok(v) => v,
            Err(e) => {
                return Err(e);
            },
        };
        let name = match require_string_field(args, "newName") {
            Ok(v) => v,
            Err(e) => {
                return Err(e);
            },
        };
        let ghost posv = pos.jv();
        let ghost namev = name@;
        let mut rest: Vec<(String, Json)> = Vec::new();
        rest.push(("position".to_owned(), pos));
        rest.push(("newName".to_owned(), Json::Str(name)));
        proof {
            lemma_pairs_jv_props(rest@);
            assert(pairs_jv(rest@) =~= seq![("position"@, posv), ("newName"@, Jv::Str(namev))]);
        }
        let params = td_with(uri.as_str(), rest);
        return Ok(
            LspInvocation {
                method: "textDocument/rename".to_owned(),
                params,
                uri_hint: Some(uri),
            },
        );
    }
    if str_eq(tool, "lsp_code_action") {
        let uri = match canonical_uri(args, cwd) {
            Ok(v) => v,
            Err(e) => {
                return Err(e);
            },
        };
        let range = match require_object_field(args, "range") {
            Ok(v) => v,
            Err(e) => {
                return Err(e);
            },
        };
        let ctx = match require_value_field(args, "context") {
            Ok(v) => v,
            Err(e) => {
                return Err(e);
            },
        };
        let ghost rangev = range.jv();
        let ghost ctxv = ctx.jv();
        let mut rest: Vec<(String, Json)> = Vec::new();
        rest.push(("range".to_owned(), range));
        rest.push(("context".to_owned(), ctx));
        proof {
            lemma_pairs_jv_props(rest@);
            assert(pairs_jv(rest@) =~= seq![("range"@, rangev), ("context"@, ctxv)]);
        }
        let params = td_with(uri.as_str(), rest);
        return Ok(
            LspInvocation {
                method: "textDocument/codeAction".to_owned(),
                params,
                uri_hint: Some(uri),
            },
        );
    }
    if str_eq(tool, "lsp_color_presentation") {
        let uri = match canonical_uri(args, cwd) {
            Ok(v) => v,
            Err(e) => {
                return Err(e);
            },
        };
        let color = match require_value_field(args, "color") {
            Ok(v) => v,
            Err(e) => {
                return Err(e);
            },
        };
        let range = match require_object_field(args, "range") {
            Ok(v) => v,
            Err(e) => {
                return Err(e);
            },
        };
        let ghost colorv = color.jv();
        let ghost rangev = range.jv();
        let mut rest: Vec<(String, Json)> = Vec::new();
        rest.push(("color".to_owned(), color));
        rest.push(("range".to_owned(), range));
        proof {
            lemma_pairs_jv_props(rest@);
            assert(pairs_jv(rest@) =~= seq![("color"@, colorv), ("range"@, rangev)]);
        }
        let params = td_with(uri.as_str(), rest);
        return Ok(
            LspInvocation {
                method: "textDocument/colorPresentation".to_owned(),
                params,
                uri_hint: Some(uri),
            },
        );
    }
    if str_eq(tool, "lsp_formatting") {
        let uri = match canonical_uri(args, cwd) {
            Ok(v) => v,
            Err(e) => {
                return Err(e);
            },
        };
        let opts = match require_object_field(args, "options") {
            Ok(v) => v,
            Err(e) => {
                return Err(e);
            },
        };
        let ghost optsv = opts.jv();
        let mut rest: Vec<(String, Json)> = Vec::new();
        rest.push(("options".to_owned(), opts));
        proof {
            lemma_pairs_jv_props(rest@);
            assert(pairs_jv(rest@) =~= seq![("options"@, optsv)]);
        }
        let params = td_with(uri.as_str(), rest);
        return Ok(
            LspInvocation {
                method: "textDocument/formatting".to_owned(),
                params,
                uri_hint: Some(uri),
            },
        );
    }
    if str_eq(tool, "lsp_range_formatting") {
        let uri = match canonical_uri(args, cwd) {
            Ok(v) => v,
            Err(e) => {
                return Err(e);
            },
        };
        let range = match require_object_field(args, "range") {
            Ok(v) => v,
            Err(e) => {
                return Err(e);
            },
        };
        let opts = match require_object_field(args, "options") {
            Ok(v) => v,
            Err(e) => {
                return Err(e);
            },
        };
        let ghost rangev = range.jv();
        let ghost optsv = opts.jv();
        let mut rest: Vec<(String, Json)> = Vec::new();
        rest.push(("range".to_owned(), range));
        rest.push(("options".to_owned(), opts));
        proof {
            lemma_pairs_jv_props(rest@);
            assert(pairs_jv(rest@) =~= seq![("range"@, rangev), ("options"@, optsv)]);
        }
        let params = td_with(uri.as_str(), rest);
        return Ok(
            LspInvocation {
                method: "textDocument/rangeFormatting".to_owned(),
                params,
                uri_hint: Some(uri),
            },
        );
    }
    if str_eq(tool, "lsp_on_type_formatting") {
        let uri = match canonical_uri(args, cwd) {
            Ok(v) => v,
            Err(e) => {
                return Err(e);
            },
        };
        let pos = match require_object_field(args, "position") {
            Ok(v) => v,
            Err(e) => {
                return Err(e);
            },
        };
        let ch = match require_string_field(args, "ch") {
            Ok(v) => v,
            Err(e) => {
                return Err(e);
            },
        };
        let opts = match require_object_field(args, "options") {
            Ok(v) => v,
            Err(e) => {
                return Err(e);
            },
        };
        let ghost posv = pos.jv();
        let ghost chv = ch@;
        let ghost optsv = opts.jv();
        let mut rest: Vec<(String, Json)> = Vec::new();
        rest.push(("position".to_owned(), pos));
        rest.push(("ch".to_owned(), Json::Str(ch)));
        rest.push(("options".to_owned(), opts));
        proof {
            lemma_pairs_jv_props(rest@);
            assert(pairs_jv(rest@) =~= seq![
                ("position"@, posv),
                ("ch"@, Jv::Str(chv)),
                ("options"@, optsv),
            ]);
        }
        let params = td_with(uri.as_str(), rest);
        return Ok(
            LspInvocation {
                method: "textDocument/onTypeFormatting".to_owned(),
                params,
                uri_hint: Some(uri),
            },
        );
    }
    if str_eq(tool, "lsp_inline_value") {
        let uri = match canonical_uri(args, cwd) {
            Ok(v) => v,
            Err(e) => {
                return Err(e);
            },
        };
        let range = match require_object_field(args, "range") {
            Ok(v) => v,
            Err(e) => {
                return Err(e);
            },
        };
        let ctx = match require_value_field(args, "context") {
            Ok(v) => v,
            Err(e) => {
                return Err(e);
            },
        };
        let ghost rangev = range.jv();
        let ghost ctxv = ctx.jv();
        let mut rest: Vec<(String, Json)> = Vec::new();
        rest.push(("range".to_owned(), range));
        rest.push(("context".to_owned(), ctx));
        proof {
            lemma_pairs_jv_props(rest@);
            assert(pairs_jv(rest@) =~= seq![("range"@, rangev), ("context"@, ctxv)]);
        }
        let params = td_with(uri.as_str(), rest);
        return Ok(
            LspInvocation {
                method: "textDocument/inlineValue".to_owned(),
                params,
                uri_hint: Some(uri),
            },
        );
    }
    if str_eq(tool, "lsp_inlay_hint") {
        let uri = match canonical_uri(args, cwd) {
            Ok(v) => v,
            Err(e) => {
                return Err(e);
            },
        };
        let range = match require_object_field(args, "range") {
            Ok(v) => v,
            Err(e) => {
                return Err(e);
            },
        };
        let ghost rangev = range.jv();
        let mut rest: Vec<(String, Json)> = Vec::new();
        rest.push(("range".to_owned(), range));
        proof {
            lemma_pairs_jv_props(rest@);
            assert(pairs_jv(rest@) =~= seq![("range"@, rangev)]);
        }
        let params = td_with(uri.as_str(), rest);
        return Ok(
            LspInvocation {
                method: "textDocument/inlayHint".to_owned(),
                params,
                uri_hint: Some(uri),
            },
        );
    }
    if str_eq(tool, "lsp_semantic_tokens_full_delta") {
        let uri = match canonical_uri(args, cwd) {
            Ok(v) => v,
            Err(e) => {
                return Err(e);
            },
        };
        let prev = match require_string_field(args, "previousResultId") {
            Ok(v) => v,
            Err(e) => {
                return Err(e);
            },
        };
        let ghost prevv = prev@;
        let mut rest: Vec<(String, Json)> = Vec::new();
        rest.push(("previousResultId".to_owned(), Json::Str(prev)));
        proof {
            lemma_pairs_jv_props(rest@);
            assert(pairs_jv(rest@) =~= seq![("previousResultId"@, Jv::Str(prevv))]);
        }
        let params = td_with(uri.as_str(), rest);
        return Ok(
            LspInvocation {
                method: "textDocument/semanticTokens/full/delta".to_owned(),
                params,
                uri_hint: Some(uri),
            },
        );
    }
    if str_eq(tool, "lsp_semantic_tokens_range") {
        let uri = match canonical_uri(args, cwd) {
            Ok(v) => v,
            Err(e) => {
                return Err(e);
            },
        };
        let range = match require_object_field(args, "range") {
            Ok(v) => v,
            Err(e) => {
                return Err(e);
            },
        };
        let ghost rangev = range.jv();
        let mut rest: Vec<(String, Json)> = Vec::new();
        rest.push(("range".to_owned(), range));
        proof {
            lemma_pairs_jv_props(rest@);
            assert(pairs_jv(rest@) =~= seq![("range"@, rangev)]);
        }
        let params = td_with(uri.as_str(), rest);
        return Ok(
            LspInvocation {
                method: "textDocument/semanticTokens/range".to_owned(),
                params,
                uri_hint: Some(uri),
            },
        );
    }
    if str_eq(tool, "lsp_execute_command") {
        let cmd = match require_string_field(args, "command") {
            Ok(v) => v,
            Err(e) => {
                return Err(e);
            },
        };
        let ghost cmdv = cmd@;
        let mut pairs: Vec<(String, Json)> = Vec::new();
        pairs.push(("command".to_owned(), Json::Str(cmd)));
        proof {
            lemma_pairs_jv_props(pairs@);
            assert(pairs_jv(pairs@) =~= seq![("command"@, Jv::Str(cmdv))]);
        }
        let ghost headv = pairs_jv(pairs@);
        let mut args_m = opt_member(args, "arguments");
        let ghost argsv = pairs_jv(args_m@);
        proof {
            lemma_pairs_jv_props(pairs@);
            lemma_pairs_jv_props(args_m@);
        }
        pairs.append(&mut args_m);
        let params = Json::Obj(pairs);
        proof {
            lemma_pairs_jv_props(params->Obj_0@);
            assert(pairs_jv(params->Obj_0@) =~= headv + argsv);
        }
        return Ok(
            LspInvocation {
                method: "workspace/executeCommand".to_owned(),
                params,
                uri_hint: None,
            },
        );
    }
    if str_eq(tool, "lsp_text_document_diagnostic") {
        let uri = match canonical_uri(args, cwd) {
            Ok(v) => v,
            Err(e) => {
                return Err(e);
            },
        };
        let mut rest = opt_member(args, "identifier");
        let ghost idv = pairs_jv(rest@);
        let mut prev = opt_member(args, "previousResultId");
        let ghost prevv = pairs_jv(prev@);
        proof {
            lemma_pairs_jv_props(rest@);
            lemma_pairs_jv_props(prev@);
        }
        rest.append(&mut prev);
        proof {
            lemma_pairs_jv_props(rest@);
            assert(pairs_jv(rest@) =~= idv + prevv);
        }
        let params = td_with(uri.as_str(), rest);
        return Ok(
            LspInvocation {
                method: "textDocument/diagnostic".to_owned(),
                params,
                uri_hint: Some(uri),
            },
        );
    }
    if str_eq(tool, "lsp_workspace_diagnostic") {
        let mut pairs = opt_member(args, "previousResultIds");
        let ghost prevv = pairs_jv(pairs@);
        let mut idm = opt_member(args, "identifier");
        let ghost idv = pairs_jv(idm@);
        proof {
            lemma_pairs_jv_props(pairs@);
            lemma_pairs_jv_props(idm@);
        }
        pairs.append(&mut idm);
        let params = Json::Obj(pairs);
        proof {
            lemma_pairs_jv_props(params->Obj_0@);
            assert(pairs_jv(params->Obj_0@) =~= prevv + idv);
        }
        return Ok(
            LspInvocation {
                method: "workspace/diagnostic".to_owned(),
                params,
                uri_hint: None,
            },
        );
    }
    Err(unsupported_tool_error(tool))
}

// ---------------------------------------------------------------------------
// URI and language hints inside raw parameters
// ---------------------------------------------------------------------------

/// The URI a raw params value names: a `uri` member, a `textDocument.uri`
/// member, or the first hit inside an `items` array or a plain array.
pub open spec fn spec_uri_from_params(v: Jv) -> Option<Seq<char>>
    decreases v, 1int,
    via spec_uri_from_params_decreases
{
    match v {
        Jv::Obj(pairs) => {
            match jv_get_str(v, "uri"@) {
                Some(u) => Some(u),
                None => match jv_get(v, "textDocument"@) {
                    Some(td) => match jv_get_str(td, "uri"@) {
                        Some(u) => Some(u),
                        None => spec_uri_from_obj_items(v),
                    },
                    None => spec_uri_from_obj_items(v),
                },
            }
        },
        Jv::Arr(items) => spec_uri_from_seq(items),
        _ => None,
    }
}

/// The first URI inside an object's `items` array, if it has one.  This is
/// part of `spec_uri_from_params`, split out so each branch reads alone.
pub open spec fn spec_uri_from_obj_items(v: Jv) -> Option<Seq<char>>
    decreases v, 0int,
    via spec_uri_from_obj_items_decreases
{
    match jv_get(v, "items"@) {
        Some(Jv::Arr(items)) => spec_uri_from_seq(items),
        _ => None,
    }
}

#[via_fn]
proof fn spec_uri_from_obj_items_decreases(v: Jv) {
    lemma_jv_get_below(v, "items"@);
    match jv_get(v, "items"@) {
        Some(x) => {
            match x {
                Jv::Arr(items) => {
                    assert(decreases_to!(x => items));
                },
                _ => {},
            }
        },
        None => {},
    }
}

/// The first URI among array elements.
pub open spec fn spec_uri_from_seq(items: Seq<Jv>) -> Option<Seq<char>>
    decreases items, 2int,
    via spec_uri_from_seq_decreases
{
    if items.len() == 0 {
        None
    } else {
        match spec_uri_from_params(items[0]) {
            Some(u) => Some(u),
            None => spec_uri_from_seq(items.skip(1)),
        }
    }
}

#[via_fn]
proof fn spec_uri_from_params_decreases(v: Jv) {
    match v {
        Jv::Arr(items) => {
            assert(decreases_to!(v => items));
        },
        Jv::Obj(pairs) => {
            lemma_jv_get_below(v, "items"@);
            match jv_get(v, "items"@) {
                Some(x) => {
                    match x {
                        Jv::Arr(items) => {
                            assert(decreases_to!(x => items));
                        },
                        _ => {},
                    }
                },
                None => {},
            }
        },
        _ => {},
    }
}

#[via_fn]
proof fn spec_uri_from_seq_decreases(items: Seq<Jv>) {
    if items.len() > 0 {
        assert(decreases_to!(items => items[0]));
    }
}

/// The URI a raw params value names, executably.
pub fn uri_from_params(v: &Json) -> (r: Option<String>)
    ensures
        match r {
            Some(u) => spec_uri_from_params(v.jv()) == Some(u@),
            None => spec_uri_from_params(v.jv()) is None,
        },
    decreases v, 1int,
{
    match v {
        Json::Obj(pairs) => {
            let direct: Option<String> = match crate::json::pairs_get(pairs, "uri") {
                Some(j) => match j.as_str() {
                    Some(s) => Some(s.clone()),
                    None => None,
                },
                None => None,
            };
            if let Some(u) = direct {
                return Some(u);
            }
            let td_uri: Option<String> = match crate::json::pairs_get(pairs, "textDocument") {
                Some(td) => match td.get("uri") {
                    Some(j) => match j.as_str() {
                        Some(s) => Some(s.clone()),
                        None => None,
                    },
                    None => None,
                },
                None => None,
            };
            if let Some(u) = td_uri {
                return Some(u);
            }
            match crate::json::pairs_index_of(pairs, "items") {
                Some(w) => {
                    match &pairs[w].1 {
                        Json::Arr(items) => {
                            proof {
                                assert(decreases_to!(*v => v->Obj_0));
                                assert(decreases_to!(*pairs => pairs@));
                                assert(decreases_to!(pairs@ => pairs@[w as int]));
                                assert(decreases_to!(pairs@[w as int] => pairs@[w as int].1));
                                assert(decreases_to!(pairs@[w as int].1 => pairs@[w as int].1->Arr_0));
                                assert(decreases_to!(*items => items@));
                            }
                            uri_from_vec(items)
                        },
                        _ => None,
                    }
                },
                None => None,
            }
        },
        Json::Arr(items) => {
            proof {
                assert(decreases_to!(*v => v->Arr_0));
                assert(decreases_to!(*items => items@));
            }
            uri_from_vec(items)
        },
        _ => None,
    }
}

/// The first URI among array elements, executably.
fn uri_from_vec(items: &Vec<Json>) -> (r: Option<String>)
    ensures
        match r {
            Some(u) => spec_uri_from_seq(seq_jv(items@)) == Some(u@),
            None => spec_uri_from_seq(seq_jv(items@)) is None,
        },
    decreases items@, 2int,
{
    let ghost iv = seq_jv(items@);
    let n = items.len();
    let mut i: usize = 0;
    proof {
        crate::json::lemma_seq_jv_props(items@);
        assert(iv.skip(0) =~= iv);
    }
    while i < n
        invariant
            i <= n == items@.len(),
            iv == seq_jv(items@),
            iv.len() == n,
            spec_uri_from_seq(iv) == spec_uri_from_seq(iv.skip(i as int)),
        decreases n - i,
    {
        proof {
            crate::json::lemma_seq_jv_props(items@);
            assert(iv.skip(i as int)[0] == iv[i as int]);
            assert(iv.skip(i as int).skip(1) =~= iv.skip(i as int + 1));
            assert(decreases_to!(items@ => items@[i as int]));
        }
        match uri_from_params(&items[i]) {
            Some(u) => {
                return Some(u);
            },
            None => {},
        }
        i = i + 1;
    }
    proof {
        assert(iv.skip(n as int) =~= Seq::<Jv>::empty());
    }
    None
}

/// The language hint of an opened-document notification.
pub open spec fn spec_language_from_did_open(p: Jv) -> Option<Seq<char>> {
    match jv_get(p, "textDocument"@) {
        Some(td) => match jv_get_str(td, "languageId"@) {
            Some(l) => Some(crate::text::spec_lower_chars(l)),
            None => None,
        },
        None => None,
    }
}

/// The lower-cased language identifier an opened-document notification
/// carries.
pub fn language_from_did_open(params: &Json) -> (r: Option<String>)
    ensures
        match r {
            Some(l) => spec_language_from_did_open(params.jv()) == Some(l@),
            None => spec_language_from_did_open(params.jv()) is None,
        },
{
    match params.get("textDocument") {
        Some(td) => match td.get("languageId") {
            Some(j) => match j.as_str() {
                Some(s) => Some(crate::text::lower_chars(s.as_str())),
                None => None,
            },
            None => None,
        },
        None => None,
    }
}

/// A raw `params` argument, with string-encoded JSON decoded eagerly: a
/// string that parses as JSON is replaced by what it parses to.
pub open spec fn spec_parse_params_value(p: Jv) -> Jv {
    match p {
        Jv::Str(s) => match crate::json::json_of_text(s) {
            Some(v) => v,
            None => p,
        },
        _ => p,
    }
}

pub fn parse_params_value(raw: Json) -> (r: Json)
    ensures
        r.jv() == spec_parse_params_value(raw.jv()),
{
    match raw {
        Json::Str(s) => match crate::json::decode_json_text(s.as_str()) {
            Some(v) => v,
            None => Json::Str(s),
        },
        other => other,
    }
}

/// The upstream aliases of the catalog names.
pub open spec fn spec_alias(name: Seq<char>) -> Seq<char> {
    if name == "hover"@ {
        "lsp_hover"@
    } else if name == "definition"@ {
        "lsp_definition"@
    } else if name == "type_definition"@ {
        "lsp_type_definition"@
    } else if name == "implementation"@ {
        "lsp_implementation"@
    } else if name == "references"@ {
        "lsp_references"@
    } else if name == "completion"@ {
        "lsp_completion"@
    } else if name == "call"@ {
        "lsp_call"@
    } else {
        name
    }
}

/// Map the short tool aliases onto the catalog names.
pub fn alias_tool_name(name: &str) -> (r: String)
    ensures
        r@ == spec_alias(name@),
{
    if str_eq(name, "hover") {
        "lsp_hover".to_owned()
    } else if str_eq(name, "definition") {
        "lsp_definition".to_owned()
    } else if str_eq(name, "type_definition") {
        "lsp_type_definition".to_owned()
    } else if str_eq(name, "implementation") {
        "lsp_implementation".to_owned()
    } else if str_eq(name, "references") {
        "lsp_references".to_owned()
    } else if str_eq(name, "completion") {
        "lsp_completion".to_owned()
    } else if str_eq(name, "call") {
        "lsp_call".to_owned()
    } else {
        name.to_owned()
    }
}

/// A value an object binds sits structurally below the object.
proof fn lemma_jv_get_below(v: Jv, k: Seq<char>)
    ensures
        match jv_get(v, k) {
            Some(x) => decreases_to!(v => x),
            None => true,
        },
    decreases v,
{
    match v {
        Jv::Obj(pairs) => {
            lemma_assoc_get_below(pairs, k);
            match crate::alist::spec_assoc_get(pairs, k) {
                Some(x) => {
                    assert(decreases_to!(v => pairs));
                },
                None => {},
            }
        },
        _ => {},
    }
}

proof fn lemma_assoc_get_below(pairs: Seq<(Seq<char>, Jv)>, k: Seq<char>)
    ensures
        match crate::alist::spec_assoc_get(pairs, k) {
            Some(x) => decreases_to!(pairs => x),
            None => true,
        },
    decreases pairs.len(),
{
    if pairs.len() > 0 {
        if pairs[0].0 == k {
            assert(decreases_to!(pairs => pairs[0]));
            assert(decreases_to!(pairs[0] => pairs[0].1));
        } else {
            lemma_assoc_get_below(pairs.skip(1), k);
            match crate::alist::spec_assoc_get(pairs.skip(1), k) {
                Some(x) => {
                    assert(decreases_to!(pairs => pairs.skip(1)));
                },
                None => {},
            }
        }
    }
}

// ---------------------------------------------------------------------------
// The catalog
// ---------------------------------------------------------------------------

/// One advertised tool.
#[derive(Debug)]
pub struct Tool {
    pub name: String,
    pub description: String,
    pub input_schema: Json,
}

/// The names of a catalog, in order.
pub open spec fn tools_view(v: Seq<Tool>) -> Seq<Seq<char>> {
    Seq::new(v.len(), |i: int| v[i].name@)
}

/// The full catalog, in order.
pub open spec fn spec_lsp_tool_names() -> Seq<Seq<char>> {
    seq![
        "lsp_hover"@,
        "lsp_definition"@,
        "lsp_type_definition"@,
        "lsp_implementation"@,
        "lsp_completion"@,
        "lsp_signature_help"@,
        "lsp_document_highlight"@,
        "lsp_linked_editing_range"@,
        "lsp_moniker"@,
        "lsp_prepare_rename"@,
        "lsp_declaration"@,
        "lsp_call_hierarchy_prepare"@,
        "lsp_type_hierarchy_prepare"@,
        "lsp_references"@,
        "lsp_selection_range"@,
        "lsp_folding_range"@,
        "lsp_document_symbol"@,
        "lsp_workspace_symbol"@,
        "lsp_workspace_symbol_resolve"@,
        "lsp_rename"@,
        "lsp_code_action"@,
        "lsp_code_action_resolve"@,
        "lsp_completion_item_resolve"@,
        "lsp_code_lens"@,
        "lsp_code_lens_resolve"@,
        "lsp_document_link"@,
        "lsp_document_link_resolve"@,
        "lsp_document_color"@,
        "lsp_color_presentation"@,
        "lsp_formatting"@,
        "lsp_range_formatting"@,
        "lsp_on_type_formatting"@,
        "lsp_inline_value"@,
        "lsp_inlay_hint"@,
        "lsp_inlay_hint_resolve"@,
        "lsp_call_hierarchy_incoming_calls"@,
        "lsp_call_hierarchy_outgoing_calls"@,
        "lsp_type_hierarchy_supertypes"@,
        "lsp_type_hierarchy_subtypes"@,
        "lsp_semantic_tokens_full"@,
        "lsp_semantic_tokens_full_delta"@,
        "lsp_semantic_tokens_range"@,
        "lsp_execute_command"@,
        "lsp_will_create_files"@,
        "lsp_will_rename_files"@,
        "lsp_will_delete_files"@,
        "lsp_text_document_content"@,
        "lsp_text_document_diagnostic"@,
        "lsp_workspace_diagnostic"@,
        "lsp_call"@,
        "lsp_notify"@,
    ]
}

/// A `{"type": t}` property stub.
fn prop(t: &str) -> (r: Json)
    ensures
        r.jv() is Obj,
{
    let mut pairs: Vec<(String, Json)> = Vec::new();
    pairs.push(("type".to_owned(), Json::str_of(t)));
    Json::Obj(pairs)
}

/// A JSON-schema object with the given properties and required names.
fn schema(props: Vec<(String, Json)>, required: Vec<String>) -> (r: Json)
    ensures
        r.jv() is Obj,
{
    let mut req: Vec<Json> = Vec::new();
    let mut i: usize = 0;
    let n = required.len();
    while i < n
        invariant
            i <= n == required@.len(),
        decreases n - i,
    {
        req.push(Json::Str(required[i].clone()));
        i = i + 1;
    }
    let mut pairs: Vec<(String, Json)> = Vec::new();
    pairs.push(("type".to_owned(), Json::str_of("object")));
    pairs.push(("properties".to_owned(), Json::Obj(props)));
    pairs.push(("required".to_owned(), Json::Arr(req)));
    Json::Obj(pairs)
}

/// The position property: an object of zero-based `line` and `character`.
fn position_prop() -> (r: Json)
    ensures
        r.jv() is Obj,
{
    let mut inner: Vec<(String, Json)> = Vec::new();
    inner.push(("line".to_owned(), prop("integer")));
    inner.push(("character".to_owned(), prop("integer")));
    let mut pairs: Vec<(String, Json)> = Vec::new();
    pairs.push(("type".to_owned(), Json::str_of("object")));
    pairs.push(("properties".to_owned(), Json::Obj(inner)));
    Json::Obj(pairs)
}

/// The range property: start and end positions.
fn range_prop() -> (r: Json)
    ensures
        r.jv() is Obj,
{
    let mut inner: Vec<(String, Json)> = Vec::new();
    inner.push(("start".to_owned(), position_prop()));
    inner.push(("end".to_owned(), position_prop()));
    let mut pairs: Vec<(String, Json)> = Vec::new();
    pairs.push(("type".to_owned(), Json::str_of("object")));
    pairs.push(("properties".to_owned(), Json::Obj(inner)));
    Json::Obj(pairs)
}

fn uri_position_schema() -> (r: Json)
    ensures
        r.jv() is Obj,
{
    let mut props: Vec<(String, Json)> = Vec::new();
    props.push(("uri".to_owned(), prop("string")));
    props.push(("position".to_owned(), position_prop()));
    props.push(("serverCommand".to_owned(), prop("string")));
    let mut req: Vec<String> = Vec::new();
    req.push("uri".to_owned());
    req.push("position".to_owned());
    schema(props, req)
}

fn doc_only_schema() -> (r: Json)
    ensures
        r.jv() is Obj,
{
    let mut props: Vec<(String, Json)> = Vec::new();
    props.push(("uri".to_owned(), prop("string")));
    props.push(("serverCommand".to_owned(), prop("string")));
    let mut req: Vec<String> = Vec::new();
    req.push("uri".to_owned());
    schema(props, req)
}

fn item_schema() -> (r: Json)
    ensures
        r.jv() is Obj,
{
    let mut props: Vec<(String, Json)> = Vec::new();
    props.push(("item".to_owned(), prop("object")));
    props.push(("serverCommand".to_owned(), prop("string")));
    let mut req: Vec<String> = Vec::new();
    req.push("item".to_owned());
    schema(props, req)
}

fn files_schema() -> (r: Json)
    ensures
        r.jv() is Obj,
{
    let mut props: Vec<(String, Json)> = Vec::new();
    props.push(("files".to_owned(), prop("array")));
    props.push(("serverCommand".to_owned(), prop("string")));
    let mut req: Vec<String> = Vec::new();
    req.push("files".to_owned());
    schema(props, req)
}

fn uri_range_schema(extra: Option<(&str, Json)>, extra_req: bool) -> (r: Json)
    ensures
        r.jv() is Obj,
{
    let mut props: Vec<(String, Json)> = Vec::new();
    props.push(("uri".to_owned(), prop("string")));
    props.push(("range".to_owned(), range_prop()));
    let mut req: Vec<String> = Vec::new();
    req.push("uri".to_owned());
    req.push("range".to_owned());
    match extra {
        Some((k, v)) => {
            props.push((k.to_owned(), v));
            if extra_req {
                req.push(k.to_owned());
            }
        },
        None => {},
    }
    props.push(("serverCommand".to_owned(), prop("string")));
    schema(props, req)
}

fn push_tool(v: &mut Vec<Tool>, name: &str, description: &str, input_schema: Json)
    requires
        input_schema.jv() is Obj,
    ensures
        tools_view(final(v)@) == tools_view(old(v)@).push(name@),
        forall|i: int|
            0 <= i < old(v)@.len() ==> final(v)@[i].input_schema == old(v)@[i].input_schema,
        final(v)@[final(v)@.len() - 1].input_schema == input_schema,
        final(v)@.len() == old(v)@.len() + 1,
        (forall|i: int| 0 <= i < old(v)@.len() ==> (#[trigger] old(v)@[i].input_schema.jv()) is Obj)
            ==> (forall|i: int|
            0 <= i < final(v)@.len() ==> (#[trigger] final(v)@[i].input_schema.jv()) is Obj),
    {
    v.push(Tool { name: name.to_owned(), description: description.to_owned(), input_schema });
    proof {
        assert(tools_view(v@) =~= tools_view(old(v)@).push(name@));
    }
}

/// The full catalog of LSP tools, in order, each with an object schema.
#[verifier::rlimit(60)]
pub fn tools() -> (r: Vec<Tool>)
    ensures
        tools_view(r@) == spec_lsp_tool_names(),
        forall|i: int| 0 <= i < r@.len() ==> (#[trigger] r@[i].input_schema.jv()) is Obj,
{
    let mut v: Vec<Tool> = Vec::new();
    proof {
        assert(tools_view(v@) =~= Seq::<Seq<char>>::empty());
    }
    push_tool(&mut v, "lsp_hover", "Retrieve hover documentation at the cursor", uri_position_schema());
    push_tool(&mut v, "lsp_definition", "Navigate to the definition of the symbol at the position", uri_position_schema());
    push_tool(&mut v, "lsp_type_definition", "Locate the type definition for the symbol", uri_position_schema());
    push_tool(&mut v, "lsp_implementation", "List concrete implementations", uri_position_schema());
    push_tool(&mut v, "lsp_completion", "Request completion items at the cursor", uri_position_schema());
    push_tool(&mut v, "lsp_signature_help", "Show signature help for the call at the cursor", uri_position_schema());
    push_tool(&mut v, "lsp_document_highlight", "Highlight related occurrences of the symbol", uri_position_schema());
    push_tool(&mut v, "lsp_linked_editing_range", "Discover linked ranges that edit together", uri_position_schema());
    push_tool(&mut v, "lsp_moniker", "Fetch symbol moniker information", uri_position_schema());
    push_tool(&mut v, "lsp_prepare_rename", "Check whether the symbol can be renamed", uri_position_schema());
    push_tool(&mut v, "lsp_declaration", "Jump to the declaration of the symbol", uri_position_schema());
    push_tool(&mut v, "lsp_call_hierarchy_prepare", "Prepare call hierarchy information", uri_position_schema());
    push_tool(&mut v, "lsp_type_hierarchy_prepare", "Prepare type hierarchy information", uri_position_schema());
    {
        let mut props: Vec<(String, Json)> = Vec::new();
        props.push(("uri".to_owned(), prop("string")));
        props.push(("position".to_owned(), position_prop()));
        props.push(("includeDeclaration".to_owned(), prop("boolean")));
        props.push(("serverCommand".to_owned(), prop("string")));
        let mut req: Vec<String> = Vec::new();
        req.push("uri".to_owned());
        req.push("position".to_owned());
        push_tool(&mut v, "lsp_references", "Find references for the symbol at the cursor", schema(props, req));
    }
    {
        let mut props: Vec<(String, Json)> = Vec::new();
        props.push(("uri".to_owned(), prop("string")));
        props.push(("positions".to_owned(), prop("array")));
        props.push(("serverCommand".to_owned(), prop("string")));
        let mut req: Vec<String> = Vec::new();
        req.push("uri".to_owned());
        req.push("positions".to_owned());
        push_tool(&mut v, "lsp_selection_range", "Expand or contract selection ranges", schema(props, req));
    }
    push_tool(&mut v, "lsp_folding_range", "Request foldable regions", doc_only_schema());
    push_tool(&mut v, "lsp_document_symbol", "List symbols defined in a document", doc_only_schema());
    {
        let mut props: Vec<(String, Json)> = Vec::new();
        props.push(("query".to_owned(), prop("string")));
        props.push(("serverCommand".to_owned(), prop("string")));
        let mut req: Vec<String> = Vec::new();
        req.push("query".to_owned());
        push_tool(&mut v, "lsp_workspace_symbol", "Search the workspace for symbols", schema(props, req));
    }
    push_tool(&mut v, "lsp_workspace_symbol_resolve", "Resolve a workspace symbol item", item_schema());
    {
        let mut props: Vec<(String, Json)> = Vec::new();
        props.push(("uri".to_owned(), prop("string")));
        props.push(("position".to_owned(), position_prop()));
        props.push(("newName".to_owned(), prop("string")));
        props.push(("serverCommand".to_owned(), prop("string")));
        let mut req: Vec<String> = Vec::new();
        req.push("uri".to_owned());
        req.push("position".to_owned());
        req.push("newName".to_owned());
        push_tool(&mut v, "lsp_rename", "Rename a symbol across the workspace", schema(props, req));
    }
    push_tool(&mut v, "lsp_code_action", "Request code actions for a range", uri_range_schema(Some(("context", prop("object"))), true));
    push_tool(&mut v, "lsp_code_action_resolve", "Resolve a code action", item_schema());
    push_tool(&mut v, "lsp_completion_item_resolve", "Resolve a completion item", item_schema());
    push_tool(&mut v, "lsp_code_lens", "Request code lenses", doc_only_schema());
    push_tool(&mut v, "lsp_code_lens_resolve", "Resolve a code lens", item_schema());
    push_tool(&mut v, "lsp_document_link", "Collect document links", doc_only_schema());
    push_tool(&mut v, "lsp_document_link_resolve", "Resolve a document link", item_schema());
    push_tool(&mut v, "lsp_document_color", "List color references in a document", doc_only_schema());
    push_tool(&mut v, "lsp_color_presentation", "Request alternative color presentations", uri_range_schema(Some(("color", prop("object"))), true));
    {
        let mut props: Vec<(String, Json)> = Vec::new();
        props.push(("uri".to_owned(), prop("string")));
        props.push(("options".to_owned(), prop("object")));
        props.push(("serverCommand".to_owned(), prop("string")));
        let mut req: Vec<String> = Vec::new();
        req.push("uri".to_owned());
        req.push("options".to_owned());
        push_tool(&mut v, "lsp_formatting", "Format an entire document", schema(props, req));
    }
    push_tool(&mut v, "lsp_range_formatting", "Format a portion of a document", uri_range_schema(Some(("options", prop("object"))), true));
    {
        let mut props: Vec<(String, Json)> = Vec::new();
        props.push(("uri".to_owned(), prop("string")));
        props.push(("position".to_owned(), position_prop()));
        props.push(("ch".to_owned(), prop("string")));
        props.push(("options".to_owned(), prop("object")));
        props.push(("serverCommand".to_owned(), prop("string")));
        let mut req: Vec<String> = Vec::new();
        req.push("uri".to_owned());
        req.push("position".to_owned());
        req.push("ch".to_owned());
        req.push("options".to_owned());
        push_tool(&mut v, "lsp_on_type_formatting", "Request formatting edits after a typed character", schema(props, req));
    }
    push_tool(&mut v, "lsp_inline_value", "Compute inline values for a range", uri_range_schema(Some(("context", prop("object"))), true));
    push_tool(&mut v, "lsp_inlay_hint", "Request inlay hints for a range", uri_range_schema(None, false));
    push_tool(&mut v, "lsp_inlay_hint_resolve", "Resolve an inlay hint", item_schema());
    push_tool(&mut v, "lsp_call_hierarchy_incoming_calls", "Request incoming calls for a hierarchy item", item_schema());
    push_tool(&mut v, "lsp_call_hierarchy_outgoing_calls", "Request outgoing calls for a hierarchy item", item_schema());
    push_tool(&mut v, "lsp_type_hierarchy_supertypes", "Fetch supertypes for a hierarchy item", item_schema());
    push_tool(&mut v, "lsp_type_hierarchy_subtypes", "Fetch subtypes for a hierarchy item", item_schema());
    push_tool(&mut v, "lsp_semantic_tokens_full", "Request full-document semantic tokens", doc_only_schema());
    {
        let mut props: Vec<(String, Json)> = Vec::new();
        props.push(("uri".to_owned(), prop("string")));
        props.push(("previousResultId".to_owned(), prop("string")));
        props.push(("serverCommand".to_owned(), prop("string")));
        let mut req: Vec<String> = Vec::new();
        req.push("uri".to_owned());
        req.push("previousResultId".to_owned());
        push_tool(&mut v, "lsp_semantic_tokens_full_delta", "Request semantic token deltas", schema(props, req));
    }
    push_tool(&mut v, "lsp_semantic_tokens_range", "Request semantic tokens for a range", uri_range_schema(None, false));
    {
        let mut props: Vec<(String, Json)> = Vec::new();
        props.push(("command".to_owned(), prop("string")));
        props.push(("arguments".to_owned(), prop("array")));
        props.push(("serverCommand".to_owned(), prop("string")));
        let mut req: Vec<String> = Vec::new();
        req.push("command".to_owned());
        push_tool(&mut v, "lsp_execute_command", "Execute a workspace command", schema(props, req));
    }
    push_tool(&mut v, "lsp_will_create_files", "Announce workspace file creation", files_schema());
    push_tool(&mut v, "lsp_will_rename_files", "Announce workspace file renames", files_schema());
    push_tool(&mut v, "lsp_will_delete_files", "Announce workspace file deletions", files_schema());
    push_tool(&mut v, "lsp_text_document_content", "Resolve virtual content for a document", doc_only_schema());
    {
        let mut props: Vec<(String, Json)> = Vec::new();
        props.push(("uri".to_owned(), prop("string")));
        props.push(("identifier".to_owned(), prop("string")));
        props.push(("previousResultId".to_owned(), prop("string")));
        props.push(("serverCommand".to_owned(), prop("string")));
        let mut req: Vec<String> = Vec::new();
        req.push("uri".to_owned());
        push_tool(&mut v, "lsp_text_document_diagnostic", "Pull diagnostics for a document", schema(props, req));
    }
    {
        let mut props: Vec<(String, Json)> = Vec::new();
        props.push(("identifier".to_owned(), prop("string")));
        props.push(("previousResultIds".to_owned(), prop("array")));
        props.push(("serverCommand".to_owned(), prop("string")));
        let req: Vec<String> = Vec::new();
        push_tool(&mut v, "lsp_workspace_diagnostic", "Pull workspace diagnostics", schema(props, req));
    }
    {
        let mut props: Vec<(String, Json)> = Vec::new();
        props.push(("method".to_owned(), prop("string")));
        props.push(("params".to_owned(), prop("object")));
        props.push(("serverCommand".to_owned(), prop("string")));
        let mut req: Vec<String> = Vec::new();
        req.push("method".to_owned());
        push_tool(&mut v, "lsp_call", "Send a custom LSP request", schema(props, req));
    }
    {
        let mut props: Vec<(String, Json)> = Vec::new();
        props.push(("method".to_owned(), prop("string")));
        props.push(("params".to_owned(), prop("object")));
        props.push(("serverCommand".to_owned(), prop("string")));
        let mut req: Vec<String> = Vec::new();
        req.push("method".to_owned());
        push_tool(&mut v, "lsp_notify", "Send a custom LSP notification", schema(props, req));
    }
    proof {
        assert(tools_view(v@) =~= spec_lsp_tool_names());
    }
    v
}

// ---------------------------------------------------------------------------
// Capability filtering
// ---------------------------------------------------------------------------

/// A capability value that counts as present: `true` or any object.
pub open spec fn spec_cap_truthy(v: Jv) -> bool {
    match v {
        Jv::Bool(b) => b,
        Jv::Obj(_) => true,
        _ => false,
    }
}

/// Whether a capability key is present and truthy.
pub open spec fn spec_cap_has(caps: Jv, k: Seq<char>) -> bool {
    match jv_get(caps, k) {
        Some(v) => spec_cap_truthy(v),
        None => false,
    }
}

/// Whether a capability key is present at all.
pub open spec fn spec_cap_present(caps: Jv, k: Seq<char>) -> bool {
    jv_get(caps, k) is Some
}

/// Whether a provider capability carries `resolveProvider: true`.
pub open spec fn spec_cap_resolve(caps: Jv, k: Seq<char>) -> bool {
    match jv_get(caps, k) {
        Some(v) => match jv_get(v, "resolveProvider"@) {
            Some(Jv::Bool(b)) => b,
            _ => false,
        },
        None => false,
    }
}

/// A nested boolean under two keys.
pub open spec fn spec_cap_bool2(caps: Jv, k1: Seq<char>, k2: Seq<char>) -> bool {
    match jv_get(caps, k1) {
        Some(v) => match jv_get(v, k2) {
            Some(Jv::Bool(b)) => b,
            _ => false,
        },
        None => false,
    }
}

/// Whether the catalog advertises a tool, given the server's capability
/// record.  With no record everything is advertised; the passthrough call
/// tool always is; names outside the catalog prefix pass through untouched.
pub open spec fn spec_tool_allowed(name: Seq<char>, caps: Option<Jv>) -> bool {
    match caps {
        None => true,
        Some(c) => {
            if name == "lsp_call"@ {
                true
            } else if !crate::text::spec_str_starts_with(name, "lsp_"@) {
                true
            } else if name == "lsp_hover"@ {
                spec_cap_has(c, "hoverProvider"@)
            } else if name == "lsp_declaration"@ {
                spec_cap_has(c, "declarationProvider"@)
            } else if name == "lsp_definition"@ {
                spec_cap_has(c, "definitionProvider"@)
            } else if name == "lsp_type_definition"@ {
                spec_cap_has(c, "typeDefinitionProvider"@)
            } else if name == "lsp_implementation"@ {
                spec_cap_has(c, "implementationProvider"@)
            } else if name == "lsp_references"@ {
                spec_cap_has(c, "referencesProvider"@)
            } else if name == "lsp_completion"@ {
                spec_cap_present(c, "completionProvider"@)
            } else if name == "lsp_completion_item_resolve"@ {
                spec_cap_present(c, "completionProvider"@) && spec_cap_resolve(
                    c,
                    "completionProvider"@,
                )
            } else if name == "lsp_signature_help"@ {
                spec_cap_present(c, "signatureHelpProvider"@)
            } else if name == "lsp_document_highlight"@ {
                spec_cap_has(c, "documentHighlightProvider"@)
            } else if name == "lsp_document_symbol"@ {
                spec_cap_has(c, "documentSymbolProvider"@)
            } else if name == "lsp_code_action"@ {
                spec_cap_has(c, "codeActionProvider"@)
            } else if name == "lsp_code_action_resolve"@ {
                spec_cap_has(c, "codeActionProvider"@) && spec_cap_resolve(c, "codeActionProvider"@)
            } else if name == "lsp_code_lens"@ {
                spec_cap_present(c, "codeLensProvider"@)
            } else if name == "lsp_code_lens_resolve"@ {
                spec_cap_present(c, "codeLensProvider"@) && spec_cap_resolve(c, "codeLensProvider"@)
            } else if name == "lsp_document_link"@ {
                spec_cap_present(c, "documentLinkProvider"@)
            } else if name == "lsp_document_link_resolve"@ {
                spec_cap_present(c, "documentLinkProvider"@) && spec_cap_resolve(
                    c,
                    "documentLinkProvider"@,
                )
            } else if name == "lsp_document_color"@ || name == "lsp_color_presentation"@ {
                spec_cap_has(c, "colorProvider"@)
            } else if name == "lsp_formatting"@ {
                spec_cap_has(c, "documentFormattingProvider"@)
            } else if name == "lsp_range_formatting"@ {
                spec_cap_has(c, "documentRangeFormattingProvider"@)
            } else if name == "lsp_on_type_formatting"@ {
                spec_cap_present(c, "documentOnTypeFormattingProvider"@)
            } else if name == "lsp_rename"@ {
                spec_cap_has(c, "renameProvider"@)
            } else if name == "lsp_prepare_rename"@ {
                spec_cap_has(c, "renameProvider"@) && spec_cap_bool2(
                    c,
                    "renameProvider"@,
                    "prepareProvider"@,
                )
            } else if name == "lsp_folding_range"@ {
                spec_cap_has(c, "foldingRangeProvider"@)
            } else if name == "lsp_selection_range"@ {
                spec_cap_has(c, "selectionRangeProvider"@)
            } else if name == "lsp_linked_editing_range"@ {
                spec_cap_has(c, "linkedEditingRangeProvider"@)
            } else if name == "lsp_moniker"@ {
                spec_cap_has(c, "monikerProvider"@)
            } else if name == "lsp_inline_value"@ {
                spec_cap_has(c, "inlineValueProvider"@)
            } else if name == "lsp_inlay_hint"@ {
                spec_cap_has(c, "inlayHintProvider"@)
            } else if name == "lsp_inlay_hint_resolve"@ {
                spec_cap_has(c, "inlayHintProvider"@) && spec_cap_resolve(c, "inlayHintProvider"@)
            } else if name == "lsp_call_hierarchy_prepare"@
                || name == "lsp_call_hierarchy_incoming_calls"@
                || name == "lsp_call_hierarchy_outgoing_calls"@ {
                spec_cap_present(c, "callHierarchyProvider"@)
            } else if name == "lsp_type_hierarchy_prepare"@
                || name == "lsp_type_hierarchy_supertypes"@
                || name == "lsp_type_hierarchy_subtypes"@ {
                spec_cap_present(c, "typeHierarchyProvider"@)
            } else if name == "lsp_semantic_tokens_full"@ {
                spec_cap_present(c, "semanticTokensProvider"@) && (match jv_get(
                    c,
                    "semanticTokensProvider"@,
                ) {
                    Some(p) => match jv_get(p, "full"@) {
                        Some(Jv::Bool(b)) => b,
                        Some(Jv::Obj(_)) => true,
                        _ => false,
                    },
                    None => false,
                })
            } else if name == "lsp_semantic_tokens_full_delta"@ {
                spec_cap_present(c, "semanticTokensProvider"@) && (match jv_get(
                    c,
                    "semanticTokensProvider"@,
                ) {
                    Some(p) => match jv_get(p, "full"@) {
                        Some(f) => spec_cap_bool2(p, "full"@, "delta"@) && f is Obj,
                        None => false,
                    },
                    None => false,
                })
            } else if name == "lsp_semantic_tokens_range"@ {
                spec_cap_present(c, "semanticTokensProvider"@) && spec_cap_bool2(
                    c,
                    "semanticTokensProvider"@,
                    "range"@,
                )
            } else if name == "lsp_workspace_symbol"@ {
                spec_cap_has(c, "workspaceSymbolProvider"@)
            } else if name == "lsp_workspace_symbol_resolve"@ {
                spec_cap_has(c, "workspaceSymbolProvider"@) && spec_cap_resolve(
                    c,
                    "workspaceSymbolProvider"@,
                )
            } else if name == "lsp_execute_command"@ {
                spec_cap_present(c, "executeCommandProvider"@)
            } else if name == "lsp_will_create_files"@ {
                spec_file_op(c, "willCreate"@)
            } else if name == "lsp_will_rename_files"@ {
                spec_file_op(c, "willRename"@)
            } else if name == "lsp_will_delete_files"@ {
                spec_file_op(c, "willDelete"@)
            } else if name == "lsp_text_document_content"@ {
                match jv_get(c, "workspace"@) {
                    Some(w) => (match jv_get(w, "textDocumentContentProvider"@) {
                        Some(v) => spec_cap_truthy(v),
                        None => false,
                    }),
                    None => false,
                }
            } else if name == "lsp_text_document_diagnostic"@ {
                spec_cap_present(c, "diagnosticProvider"@)
            } else if name == "lsp_workspace_diagnostic"@ {
                spec_cap_present(c, "diagnosticProvider"@) && spec_cap_bool2(
                    c,
                    "diagnosticProvider"@,
                    "workspaceDiagnostics"@,
                )
            } else if name == "lsp_notify"@ {
                false
            } else {
                false
            }
        },
    }
}

/// Whether the workspace capabilities announce a file-operation hook.
pub open spec fn spec_file_op(caps: Jv, k: Seq<char>) -> bool {
    match jv_get(caps, "workspace"@) {
        Some(w) => match jv_get(w, "fileOperations"@) {
            Some(f) => jv_get(f, k) is Some,
            None => false,
        },
        None => false,
    }
}

fn cap_has(caps: &Json, k: &str) -> (r: bool)
    ensures
        r == spec_cap_has(caps.jv(), k@),
{
    match caps.get(k) {
        Some(v) => {
            let truthy = match v.as_bool() {
                Some(b) => b,
                None => v.is_obj(),
            };
            truthy
        },
        None => false,
    }
}

fn cap_present(caps: &Json, k: &str) -> (r: bool)
    ensures
        r == spec_cap_present(caps.jv(), k@),
{
    caps.get(k).is_some()
}

fn cap_resolve(caps: &Json, k: &str) -> (r: bool)
    ensures
        r == spec_cap_resolve(caps.jv(), k@),
{
    match caps.get(k) {
        Some(v) => match v.get("resolveProvider") {
            Some(b) => match b.as_bool() {
                Some(x) => x,
                None => false,
            },
            None => false,
        },
        None => false,
    }
}

fn cap_bool2(caps: &Json, k1: &str, k2: &str) -> (r: bool)
    ensures
        r == spec_cap_bool2(caps.jv(), k1@, k2@),
{
    match caps.get(k1) {
        Some(v) => match v.get(k2) {
            Some(b) => match b.as_bool() {
                Some(x) => x,
                None => false,
            },
            None => false,
        },
        None => false,
    }
}

fn file_op(caps: &Json, k: &str) -> (r: bool)
    ensures
        r == spec_file_op(caps.jv(), k@),
{
    match caps.get("workspace") {
        Some(w) => match w.get("fileOperations") {
            Some(f) => f.get(k).is_some(),
            None => false,
        },
        None => false,
    }
}

/// Whether one tool is advertised under the given capability record.
#[verifier::rlimit(60)]
pub fn tool_allowed(name: &str, caps: Option<&Json>) -> (r: bool)
    ensures
        r == spec_tool_allowed(
            name@,
            match caps {
                Some(c) => Some(c.jv()),
                None => None,
            },
        ),
{
    let c = match caps {
        Some(c) => c,
        None => {
            return true;
        },
    };
    if str_eq(name, "lsp_call") {
        return true;
    }
    if !crate::text::str_starts_with(name, "lsp_") {
        return true;
    }
    if str_eq(name, "lsp_hover") {
        cap_has(c, "hoverProvider")
    } else if str_eq(name, "lsp_declaration") {
        cap_has(c, "declarationProvider")
    } else if str_eq(name, "lsp_definition") {
        cap_has(c, "definitionProvider")
    } else if str_eq(name, "lsp_type_definition") {
        cap_has(c, "typeDefinitionProvider")
    } else if str_eq(name, "lsp_implementation") {
        cap_has(c, "implementationProvider")
    } else if str_eq(name, "lsp_references") {
        cap_has(c, "referencesProvider")
    } else if str_eq(name, "lsp_completion") {
        cap_present(c, "completionProvider")
    } else if str_eq(name, "lsp_completion_item_resolve") {
        cap_present(c, "completionProvider") && cap_resolve(c, "completionProvider")
    } else if str_eq(name, "lsp_signature_help") {
        cap_present(c, "signatureHelpProvider")
    } else if str_eq(name, "lsp_document_highlight") {
        cap_has(c, "documentHighlightProvider")
    } else if str_eq(name, "lsp_document_symbol") {
        cap_has(c, "documentSymbolProvider")
    } else if str_eq(name, "lsp_code_action") {
        cap_has(c, "codeActionProvider")
    } else if str_eq(name, "lsp_code_action_resolve") {
        cap_has(c, "codeActionProvider") && cap_resolve(c, "codeActionProvider")
    } else if str_eq(name, "lsp_code_lens") {
        cap_present(c, "codeLensProvider")
    } else if str_eq(name, "lsp_code_lens_resolve") {
        cap_present(c, "codeLensProvider") && cap_resolve(c, "codeLensProvider")
    } else if str_eq(name, "lsp_document_link") {
        cap_present(c, "documentLinkProvider")
    } else if str_eq(name, "lsp_document_link_resolve") {
        cap_present(c, "documentLinkProvider") && cap_resolve(c, "documentLinkProvider")
    } else if str_eq(name, "lsp_document_color") || str_eq(name, "lsp_color_presentation") {
        cap_has(c, "colorProvider")
    } else if str_eq(name, "lsp_formatting") {
        cap_has(c, "documentFormattingProvider")
    } else if str_eq(name, "lsp_range_formatting") {
        cap_has(c, "documentRangeFormattingProvider")
    } else if str_eq(name, "lsp_on_type_formatting") {
        cap_present(c, "documentOnTypeFormattingProvider")
    } else if str_eq(name, "lsp_rename") {
        cap_has(c, "renameProvider")
    } else if str_eq(name, "lsp_prepare_rename") {
        cap_has(c, "renameProvider") && cap_bool2(c, "renameProvider", "prepareProvider")
    } else if str_eq(name, "lsp_folding_range") {
        cap_has(c, "foldingRangeProvider")
    } else if str_eq(name, "lsp_selection_range") {
        cap_has(c, "selectionRangeProvider")
    } else if str_eq(name, "lsp_linked_editing_range") {
        cap_has(c, "linkedEditingRangeProvider")
    } else if str_eq(name, "lsp_moniker") {
        cap_has(c, "monikerProvider")
    } else if str_eq(name, "lsp_inline_value") {
        cap_has(c, "inlineValueProvider")
    } else if str_eq(name, "lsp_inlay_hint") {
        cap_has(c, "inlayHintProvider")
    } else if str_eq(name, "lsp_inlay_hint_resolve") {
        cap_has(c, "inlayHintProvider") && cap_resolve(c, "inlayHintProvider")
    } else if str_eq(name, "lsp_call_hierarchy_prepare") || str_eq(
        name,
        "lsp_call_hierarchy_incoming_calls",
    ) || str_eq(name, "lsp_call_hierarchy_outgoing_calls") {
        cap_present(c, "callHierarchyProvider")
    } else if str_eq(name, "lsp_type_hierarchy_prepare") || str_eq(
        name,
        "lsp_type_hierarchy_supertypes",
    ) || str_eq(name, "lsp_type_hierarchy_subtypes") {
        cap_present(c, "typeHierarchyProvider")
    } else if str_eq(name, "lsp_semantic_tokens_full") {
        cap_present(c, "semanticTokensProvider") && (match c.get("semanticTokensProvider") {
            Some(p) => match p.get("full") {
                Some(f) => match f.as_bool() {
                    Some(b) => b,
                    None => f.is_obj(),
                },
                None => false,
            },
            None => false,
        })
    } else if str_eq(name, "lsp_semantic_tokens_full_delta") {
        cap_present(c, "semanticTokensProvider") && (match c.get("semanticTokensProvider") {
            Some(p) => match p.get("full") {
                Some(f) => cap_bool2(p, "full", "delta") && f.is_obj(),
                None => false,
            },
            None => false,
        })
    } else if str_eq(name, "lsp_semantic_tokens_range") {
        cap_present(c, "semanticTokensProvider") && cap_bool2(c, "semanticTokensProvider", "range")
    } else if str_eq(name, "lsp_workspace_symbol") {
        cap_has(c, "workspaceSymbolProvider")
    } else if str_eq(name, "lsp_workspace_symbol_resolve") {
        cap_has(c, "workspaceSymbolProvider") && cap_resolve(c, "workspaceSymbolProvider")
    } else if str_eq(name, "lsp_execute_command") {
        cap_present(c, "executeCommandProvider")
    } else if str_eq(name, "lsp_will_create_files") {
        file_op(c, "willCreate")
    } else if str_eq(name, "lsp_will_rename_files") {
        file_op(c, "willRename")
    } else if str_eq(name, "lsp_will_delete_files") {
        file_op(c, "willDelete")
    } else if str_eq(name, "lsp_text_document_content") {
        match c.get("workspace") {
            Some(w) => match w.get("textDocumentContentProvider") {
                Some(v) => match v.as_bool() {
                    Some(b) => b,
                    None => v.is_obj(),
                },
                None => false,
            },
            None => false,
        }
    } else if str_eq(name, "lsp_text_document_diagnostic") {
        cap_present(c, "diagnosticProvider")
    } else if str_eq(name, "lsp_workspace_diagnostic") {
        cap_present(c, "diagnosticProvider") && cap_bool2(
            c,
            "diagnosticProvider",
            "workspaceDiagnostics",
        )
    } else {
        false
    }
}

/// The catalog names that survive filtering, in order.
pub open spec fn spec_filter_names(names: Seq<Seq<char>>, caps: Option<Jv>) -> Seq<Seq<char>>
    decreases names.len(),
{
    if names.len() == 0 {
        Seq::empty()
    } else {
        (if spec_tool_allowed(names[0], caps) {
            seq![names[0]]
        } else {
            Seq::empty()
        }) + spec_filter_names(names.skip(1), caps)
    }
}

/// Keep the tools the capability record supports.  The passthrough call tool
/// always stays; a missing record keeps everything.
pub fn filter_tools_by_capabilities(all: Vec<Tool>, caps: Option<&Json>) -> (r: Vec<Tool>)
    ensures
        tools_view(r@) == spec_filter_names(
            tools_view(all@),
            match caps {
                Some(c) => Some(c.jv()),
                None => None,
            },
        ),
{
    let ghost capsv = match caps {
        Some(c) => Some(c.jv()),
        None => None::<Jv>,
    };
    let ghost allv = tools_view(all@);
    let mut rest = all;
    let mut out: Vec<Tool> = Vec::new();
    proof {
        assert(tools_view(out@) =~= Seq::<Seq<char>>::empty());
        assert(tools_view(out@) + spec_filter_names(allv, capsv) =~= spec_filter_names(
            allv,
            capsv,
        ));
    }
    loop
        invariant
            allv == tools_view(all@),
            capsv == (match caps {
                Some(c) => Some(c.jv()),
                None => None::<Jv>,
            }),
            tools_view(out@) + spec_filter_names(tools_view(rest@), capsv) == spec_filter_names(
                allv,
                capsv,
            ),
        decreases rest@.len(),
    {
        if rest.len() == 0 {
            proof {
                assert(tools_view(rest@) =~= Seq::<Seq<char>>::empty());
                assert(tools_view(out@) + Seq::<Seq<char>>::empty() =~= tools_view(out@));
            }
            return out;
        }
        let ghost restv = tools_view(rest@);
        let t = rest.remove(0);
        proof {
            assert(tools_view(rest@) =~= restv.skip(1));
            assert(restv[0] == t.name@);
        }
        if tool_allowed(t.name.as_str(), caps) {
            let ghost outv = tools_view(out@);
            out.push(t);
            proof {
                assert(tools_view(out@) =~= outv.push(restv[0]));
                assert(outv.push(restv[0]) + spec_filter_names(restv.skip(1), capsv)
                    =~= outv + (seq![restv[0]] + spec_filter_names(restv.skip(1), capsv)));
            }
        } else {
            proof {
                assert(Seq::<Seq<char>>::empty() + spec_filter_names(restv.skip(1), capsv)
                    =~= spec_filter_names(restv.skip(1), capsv));
            }
        }
    }
}

// ---------------------------------------------------------------------------
// Planning a tools/call
// ---------------------------------------------------------------------------

/// What the pool must do for one upstream tools/call.
pub enum ToolCallPlan {
    /// A catalog tool: run the resolved invocation.
    Invoke(LspInvocation),
    /// The passthrough request tool: run this method with these params.
    Call {
        method: String,
        params: Json,
        uri_hint: Option<String>,
        language_hint: Option<String>,
        is_open: bool,
        is_close: bool,
    },
    /// The passthrough notification tool.
    Notify {
        method: String,
        params: Json,
        uri_hint: Option<String>,
        language_hint: Option<String>,
        is_open: bool,
        is_close: bool,
    },
    /// The call is refused before any downstream work.
    Fail(ErrorObject),
}

/// The URI hint of a passthrough call: the explicit `uri` argument, else the
/// first URI inside the params, normalized.
pub open spec fn spec_call_uri_hint(args: Jv, params: Jv, cwd: Seq<char>) -> Option<Seq<char>> {
    match jv_get_str(args, "uri"@) {
        Some(u) => Some(spec_normalize_uri(u, cwd)),
        None => match spec_uri_from_params(params) {
            Some(u) => Some(spec_normalize_uri(u, cwd)),
            None => None,
        },
    }
}

fn call_uri_hint(args: &Json, params: &Json, cwd: &str) -> (r: Option<String>)
    ensures
        match r {
            Some(u) => spec_call_uri_hint(args.jv(), params.jv(), cwd@) == Some(u@),
            None => spec_call_uri_hint(args.jv(), params.jv(), cwd@) is None,
        },
{
    let direct: Option<String> = match args.get("uri") {
        Some(j) => match j.as_str() {
            Some(s) => Some(s.clone()),
            None => None,
        },
        None => None,
    };
    match direct {
        Some(u) => Some(crate::pool::normalize_uri(u.as_str(), cwd)),
        None => match uri_from_params(params) {
            Some(u) => Some(crate::pool::normalize_uri(u.as_str(), cwd)),
            None => None,
        },
    }
}

/// What a well-formed plan for the passthrough request tool satisfies: a
/// `Call` carrying the required method, the eagerly decoded params, the URI
/// and language hints, and the open/close flags; or a refusal exactly when
/// the method is missing.
pub open spec fn spec_call_plan_holds(args: Jv, cwd: Seq<char>, r: ToolCallPlan) -> bool {
    match r {
        ToolCallPlan::Call { method, params, uri_hint, language_hint, is_open, is_close } => {
            &&& jv_get_str(args, "method"@) == Some(method@)
            &&& params.jv() == (match jv_get(args, "params"@) {
                Some(p) => spec_parse_params_value(p),
                None => Jv::Obj(Seq::empty()),
            })
            &&& (match uri_hint {
                Some(u) => spec_call_uri_hint(args, params.jv(), cwd) == Some(u@),
                None => spec_call_uri_hint(args, params.jv(), cwd) is None,
            })
            &&& is_open == (method@ == "textDocument/didOpen"@)
            &&& is_close == (method@ == "textDocument/didClose"@)
            &&& (match language_hint {
                Some(l) => is_open && spec_language_from_did_open(params.jv()) == Some(l@),
                None => !is_open || spec_language_from_did_open(params.jv()) is None,
            })
        },
        ToolCallPlan::Fail(e) => jv_get_str(args, "method"@) is None && e.code == -32602
            && e.message@ == spec_missing_msg("method"@) && e.data is None,
        _ => false,
    }
}

/// Plan the passthrough request tool: the method is required; a
/// string-encoded params value is decoded; the URI and language hints are
/// pulled out; opened and closed documents are flagged.
pub fn plan_lsp_call(args: &Json, cwd: &str) -> (r: ToolCallPlan)
    ensures
        spec_call_plan_holds(args.jv(), cwd@, r),
{
    let method: String = match require_string_field(args, "method") {
        Ok(m) => m,
        Err(e) => {
            return ToolCallPlan::Fail(e);
        },
    };
    let params: Json = match args.get("params") {
        Some(p) => parse_params_value(p.duplicate()),
        None => Json::obj_empty(),
    };
    let uri_hint = call_uri_hint(args, &params, cwd);
    let is_open = str_eq(method.as_str(), "textDocument/didOpen");
    let is_close = str_eq(method.as_str(), "textDocument/didClose");
    let language_hint: Option<String> = if is_open {
        language_from_did_open(&params)
    } else {
        None
    };
    ToolCallPlan::Call { method, params, uri_hint, language_hint, is_open, is_close }
}

/// What a well-formed plan for the passthrough notification tool satisfies:
/// like the request tool, but the params value is forwarded as it came.
pub open spec fn spec_notify_plan_holds(args: Jv, cwd: Seq<char>, r: ToolCallPlan) -> bool {
    match r {
        ToolCallPlan::Notify { method, params, uri_hint, language_hint, is_open, is_close } => {
            &&& jv_get_str(args, "method"@) == Some(method@)
            &&& params.jv() == (match jv_get(args, "params"@) {
                Some(p) => p,
                None => Jv::Obj(Seq::empty()),
            })
            &&& (match uri_hint {
                Some(u) => spec_call_uri_hint(args, params.jv(), cwd) == Some(u@),
                None => spec_call_uri_hint(args, params.jv(), cwd) is None,
            })
            &&& is_open == (method@ == "textDocument/didOpen"@)
            &&& is_close == (method@ == "textDocument/didClose"@)
            &&& (match language_hint {
                Some(l) => is_open && spec_language_from_did_open(params.jv()) == Some(l@),
                None => !is_open || spec_language_from_did_open(params.jv()) is None,
            })
        },
        ToolCallPlan::Fail(e) => jv_get_str(args, "method"@) is None && e.code == -32602
            && e.message@ == spec_missing_msg("method"@) && e.data is None,
        _ => false,
    }
}

/// Plan the passthrough notification tool.
pub fn plan_lsp_notify(args: &Json, cwd: &str) -> (r: ToolCallPlan)
    ensures
        spec_notify_plan_holds(args.jv(), cwd@, r),
{
    let method: String = match require_string_field(args, "method") {
        Ok(m) => m,
        Err(e) => {
            return ToolCallPlan::Fail(e);
        },
    };
    let params: Json = match args.get("params") {
        Some(p) => p.duplicate(),
        None => Json::obj_empty(),
    };
    let uri_hint = call_uri_hint(args, &params, cwd);
    let is_open = str_eq(method.as_str(), "textDocument/didOpen");
    let is_close = str_eq(method.as_str(), "textDocument/didClose");
    let language_hint: Option<String> = if is_open {
        language_from_did_open(&params)
    } else {
        None
    };
    ToolCallPlan::Notify { method, params, uri_hint, language_hint, is_open, is_close }
}

/// Plan one upstream tools/call: map the short aliases, take the passthrough
/// tools aside, refuse names outside the catalog prefix, and build the
/// invocation for everything else.
pub fn plan_tools_call(name: &str, arguments: &Json, cwd: &str) -> (r: ToolCallPlan)
    ensures
        ({
            let tool = spec_alias(name@);
            if tool == "lsp_call"@ {
                spec_call_plan_holds(arguments.jv(), cwd@, r)
            } else if tool == "lsp_notify"@ {
                spec_notify_plan_holds(arguments.jv(), cwd@, r)
            } else if !crate::text::spec_str_starts_with(tool, "lsp_"@) {
                r matches ToolCallPlan::Fail(e) && e.code == -32602 && e.message@
                    == "Unsupported lsp tool"@ && (match e.data {
                    Some(d) => d.jv() == Jv::Obj(seq![("tool"@, Jv::Str(tool))]),
                    None => false,
                })
            } else {
                match spec_build_invocation(tool, arguments.jv(), cwd@) {
                    BuildV::Done(m, p, u) => r matches ToolCallPlan::Invoke(inv) && inv.method@
                        == m && inv.params.jv() == p && (match inv.uri_hint {
                        Some(x) => u == Some(x@),
                        None => u is None,
                    }),
                    BuildV::Fail(code, msg, data) => r matches ToolCallPlan::Fail(e) && e.code
                        == code && e.message@ == msg && (match e.data {
                        Some(d) => data == Some(d.jv()),
                        None => data is None,
                    }),
                }
            }
        }),
{
    let tool = alias_tool_name(name);
    if str_eq(tool.as_str(), "lsp_call") {
        return plan_lsp_call(arguments, cwd);
    }
    if str_eq(tool.as_str(), "lsp_notify") {
        return plan_lsp_notify(arguments, cwd);
    }
    if !crate::text::str_starts_with(tool.as_str(), "lsp_") {
        return ToolCallPlan::Fail(unsupported_tool_error(tool.as_str()));
    }
    match build_lsp_invocation(tool.as_str(), arguments, cwd) {
        Ok(inv) => ToolCallPlan::Invoke(inv),
        Err(e) => ToolCallPlan::Fail(e),
    }
}

/// The success envelope of a tool call: `{tool, status: "ok", result}`.
pub open spec fn spec_ok_envelope(tool: Seq<char>, result: Jv) -> Jv {
    Jv::Obj(
        seq![
            ("tool"@, Jv::Str(tool)),
            ("status"@, Jv::Str("ok"@)),
            ("result"@, result),
        ],
    )
}

pub fn ok_envelope(tool: &str, result: Json) -> (r: Json)
    ensures
        r.jv() == spec_ok_envelope(tool@, result.jv()),
{
    let ghost resv = result.jv();
    let mut pairs: Vec<(String, Json)> = Vec::new();
    pairs.push(("tool".to_owned(), Json::str_of(tool)));
    pairs.push(("status".to_owned(), Json::str_of("ok")));
    pairs.push(("result".to_owned(), result));
    let r = Json::Obj(pairs);
    proof {
        lemma_pairs_jv_props(r->Obj_0@);
        assert(pairs_jv(r->Obj_0@) =~= seq![
            ("tool"@, Jv::Str(tool@)),
            ("status"@, Jv::Str("ok"@)),
            ("result"@, resv),
        ]);
    }
    r
}

/// The success envelope of a notification: `{tool, status: "ok"}`.
pub open spec fn spec_ok_notify_envelope(tool: Seq<char>) -> Jv {
    Jv::Obj(seq![("tool"@, Jv::Str(tool)), ("status"@, Jv::Str("ok"@))])
}

pub fn ok_notify_envelope(tool: &str) -> (r: Json)
    ensures
        r.jv() == spec_ok_notify_envelope(tool@),
{
    let mut pairs: Vec<(String, Json)> = Vec::new();
    pairs.push(("tool".to_owned(), Json::str_of(tool)));
    pairs.push(("status".to_owned(), Json::str_of("ok")));
    let r = Json::Obj(pairs);
    proof {
        lemma_pairs_jv_props(r->Obj_0@);
        assert(pairs_jv(r->Obj_0@) =~= seq![
            ("tool"@, Jv::Str(tool@)),
            ("status"@, Jv::Str("ok"@)),
        ]);
    }
    r
}

/// The machine-readable copy attached to a failed tool call: the tool, the
/// method, the document and the override when known, and the rendered
/// details.
pub open spec fn spec_error_data(
    tool: Seq<char>,
    method: Option<Seq<char>>,
    uri: Option<Seq<char>>,
    server_cmd: Option<Seq<char>>,
    details: Seq<char>,
) -> Jv {
    Jv::Obj(
        seq![("tool"@, Jv::Str(tool))] + (match method {
            Some(m) => seq![("method"@, Jv::Str(m))],
            None => Seq::empty(),
        }) + (match uri {
            Some(u) => seq![("uri"@, Jv::Str(u))],
            None => Seq::empty(),
        }) + (match server_cmd {
            Some(c) => seq![("serverCommand"@, Jv::Str(c))],
            None => Seq::empty(),
        }) + seq![("details"@, Jv::Str(details))],
    )
}

pub fn build_error_data(
    tool: &str,
    method: Option<&str>,
    uri: Option<&str>,
    server_cmd: Option<&str>,
    details: &str,
) -> (r: Json)
    ensures
        r.jv() == spec_error_data(
            tool@,
            match method {
                Some(m) => Some(m@),
                None => None,
            },
            match uri {
                Some(u) => Some(u@),
                None => None,
            },
            match server_cmd {
                Some(c) => Some(c@),
                None => None,
            },
            details@,
        ),
{
    let mut pairs: Vec<(String, Json)> = Vec::new();
    pairs.push(("tool".to_owned(), Json::str_of(tool)));
    if let Some(m) = method {
        pairs.push(("method".to_owned(), Json::str_of(m)));
    }
    if let Some(u) = uri {
        pairs.push(("uri".to_owned(), Json::str_of(u)));
    }
    if let Some(c) = server_cmd {
        pairs.push(("serverCommand".to_owned(), Json::str_of(c)));
    }
    pairs.push(("details".to_owned(), Json::str_of(details)));
    let r = Json::Obj(pairs);
    proof {
        lemma_pairs_jv_props(r->Obj_0@);
        assert(pairs_jv(r->Obj_0@) =~= spec_error_data(
            tool@,
            match method {
                Some(m) => Some(m@),
                None => None::<Seq<char>>,
            },
            match uri {
                Some(u) => Some(u@),
                None => None::<Seq<char>>,
            },
            match server_cmd {
                Some(c) => Some(c@),
                None => None::<Seq<char>>,
            },
            details@,
        )->Obj_0);
    }
    r
}

} // verus!





