//! JSON-RPC 2.0 envelopes.
//!
//! Requests carry `jsonrpc`, `id`, `method` and `params`; notifications the
//! same without `id`; responses `jsonrpc`, `id` and `result`; error replies
//! `jsonrpc`, `id` and an `error` object with `code` and `message`.

use vstd::prelude::*;

use crate::json::{lemma_pairs_jv_props, pairs_jv, Json, Jv};

verus! {

pub open spec fn spec_request_jv(id: int, method: Seq<char>, params: Jv) -> Jv {
    Jv::Obj(
        seq![
            ("jsonrpc"@, Jv::Str("2.0"@)),
            ("id"@, Jv::Int(id)),
            ("method"@, Jv::Str(method)),
            ("params"@, params),
        ],
    )
}

pub open spec fn spec_notification_jv(method: Seq<char>, params: Jv) -> Jv {
    Jv::Obj(
        seq![("jsonrpc"@, Jv::Str("2.0"@)), ("method"@, Jv::Str(method)), ("params"@, params)],
    )
}

pub open spec fn spec_response_jv(id: Jv, result: Jv) -> Jv {
    Jv::Obj(seq![("jsonrpc"@, Jv::Str("2.0"@)), ("id"@, id), ("result"@, result)])
}

pub open spec fn spec_error_response_jv(id: Jv, code: int, message: Seq<char>) -> Jv {
    Jv::Obj(
        seq![
            ("jsonrpc"@, Jv::Str("2.0"@)),
            ("id"@, id),
            (
                "error"@,
                Jv::Obj(seq![("code"@, Jv::Int(code)), ("message"@, Jv::Str(message))]),
            ),
        ],
    )
}

/// An error reply whose error object also carries a `data` member.
pub open spec fn spec_error_response_data_jv(
    id: Jv,
    code: int,
    message: Seq<char>,
    data: Option<Jv>,
) -> Jv {
    Jv::Obj(
        seq![
            ("jsonrpc"@, Jv::Str("2.0"@)),
            ("id"@, id),
            (
                "error"@,
                Jv::Obj(
                    seq![("code"@, Jv::Int(code)), ("message"@, Jv::Str(message))] + (match data {
                        Some(d) => seq![("data"@, d)],
                        None => Seq::empty(),
                    }),
                ),
            ),
        ],
    )
}

/// A request envelope.
pub fn build_request(id: i64, method: &str, params: Json) -> (r: Json)
    ensures
        r.jv() == spec_request_jv(id as int, method@, params.jv()),
{
    let ghost pv = params.jv();
    let mut pairs: Vec<(String, Json)> = Vec::new();
    pairs.push(("jsonrpc".to_owned(), Json::Str("2.0".to_owned())));
    pairs.push(("id".to_owned(), Json::Int(id)));
    pairs.push(("method".to_owned(), Json::str_of(method)));
    pairs.push(("params".to_owned(), params));
    let r = Json::Obj(pairs);
    proof {
        lemma_pairs_jv_props(r->Obj_0@);
        assert(pairs_jv(r->Obj_0@) =~= seq![
            ("jsonrpc"@, Jv::Str("2.0"@)),
            ("id"@, Jv::Int(id as int)),
            ("method"@, Jv::Str(method@)),
            ("params"@, pv),
        ]);
    }
    r
}

/// A notification envelope.
pub fn build_notification(method: &str, params: Json) -> (r: Json)
    ensures
        r.jv() == spec_notification_jv(method@, params.jv()),
{
    let ghost pv = params.jv();
    let mut pairs: Vec<(String, Json)> = Vec::new();
    pairs.push(("jsonrpc".to_owned(), Json::Str("2.0".to_owned())));
    pairs.push(("method".to_owned(), Json::str_of(method)));
    pairs.push(("params".to_owned(), params));
    let r = Json::Obj(pairs);
    proof {
        lemma_pairs_jv_props(r->Obj_0@);
        assert(pairs_jv(r->Obj_0@) =~= seq![
            ("jsonrpc"@, Jv::Str("2.0"@)),
            ("method"@, Jv::Str(method@)),
            ("params"@, pv),
        ]);
    }
    r
}

/// A successful reply to a request the helper sent us; the identifier is
/// echoed as it came.
pub fn build_response(id: Json, result: Json) -> (r: Json)
    ensures
        r.jv() == spec_response_jv(id.jv(), result.jv()),
{
    let ghost iv = id.jv();
    let ghost rv = result.jv();
    let mut pairs: Vec<(String, Json)> = Vec::new();
    pairs.push(("jsonrpc".to_owned(), Json::Str("2.0".to_owned())));
    pairs.push(("id".to_owned(), id));
    pairs.push(("result".to_owned(), result));
    let r = Json::Obj(pairs);
    proof {
        lemma_pairs_jv_props(r->Obj_0@);
        assert(pairs_jv(r->Obj_0@) =~= seq![
            ("jsonrpc"@, Jv::Str("2.0"@)),
            ("id"@, iv),
            ("result"@, rv),
        ]);
    }
    r
}

/// An error reply to a request the helper sent us.
pub fn build_error_response(id: Json, code: i64, message: String) -> (r: Json)
    ensures
        r.jv() == spec_error_response_jv(id.jv(), code as int, message@),
{
    let ghost iv = id.jv();
    let ghost mv = message@;
    let mut err: Vec<(String, Json)> = Vec::new();
    err.push(("code".to_owned(), Json::Int(code)));
    err.push(("message".to_owned(), Json::Str(message)));
    proof {
        lemma_pairs_jv_props(err@);
        assert(pairs_jv(err@) =~= seq![("code"@, Jv::Int(code as int)), ("message"@, Jv::Str(mv))]);
    }
    let ghost ev = pairs_jv(err@);
    let mut pairs: Vec<(String, Json)> = Vec::new();
    pairs.push(("jsonrpc".to_owned(), Json::Str("2.0".to_owned())));
    pairs.push(("id".to_owned(), id));
    pairs.push(("error".to_owned(), Json::Obj(err)));
    let r = Json::Obj(pairs);
    proof {
        lemma_pairs_jv_props(r->Obj_0@);
        assert(pairs_jv(r->Obj_0@) =~= seq![
            ("jsonrpc"@, Jv::Str("2.0"@)),
            ("id"@, iv),
            ("error"@, Jv::Obj(ev)),
        ]);
        assert(r.jv() =~= spec_error_response_jv(iv, code as int, mv));
    }
    r
}

/// An error reply to a request the helper sent us, carrying the
/// machine-readable `data` payload when one exists.
pub fn build_error_response_data(id: Json, code: i64, message: String, data: Option<Json>) -> (r:
    Json)
    ensures
        r.jv() == spec_error_response_data_jv(
            id.jv(),
            code as int,
            message@,
            match data {
                Some(d) => Some(d.jv()),
                None => None,
            },
        ),
{
    let ghost iv = id.jv();
    let ghost mv = message@;
    let ghost dv = match &data {
        Some(d) => Some(d.jv()),
        None => None::<Jv>,
    };
    let mut err: Vec<(String, Json)> = Vec::new();
    err.push(("code".to_owned(), Json::Int(code)));
    err.push(("message".to_owned(), Json::Str(message)));
    match data {
        Some(d) => {
            err.push(("data".to_owned(), d));
        },
        None => {},
    }
    proof {
        lemma_pairs_jv_props(err@);
        assert(pairs_jv(err@) =~= seq![("code"@, Jv::Int(code as int)), ("message"@, Jv::Str(mv))]
            + (match dv {
            Some(d) => seq![("data"@, d)],
            None => Seq::<(Seq<char>, Jv)>::empty(),
        }));
    }
    let ghost ev = pairs_jv(err@);
    let mut pairs: Vec<(String, Json)> = Vec::new();
    pairs.push(("jsonrpc".to_owned(), Json::Str("2.0".to_owned())));
    pairs.push(("id".to_owned(), id));
    pairs.push(("error".to_owned(), Json::Obj(err)));
    let r = Json::Obj(pairs);
    proof {
        lemma_pairs_jv_props(r->Obj_0@);
        assert(pairs_jv(r->Obj_0@) =~= seq![
            ("jsonrpc"@, Jv::Str("2.0"@)),
            ("id"@, iv),
            ("error"@, Jv::Obj(ev)),
        ]);
        assert(ev == seq![("code"@, Jv::Int(code as int)), ("message"@, Jv::Str(mv))] + (
        match dv {
            Some(d) => seq![("data"@, d)],
            None => Seq::<(Seq<char>, Jv)>::empty(),
        }));
        let ghost target = spec_error_response_data_jv(iv, code as int, mv, dv);
        assert(target is Obj);
        assert(target->Obj_0 =~= pairs_jv(r->Obj_0@));
        assert(r.jv() == Jv::Obj(pairs_jv(r->Obj_0@)));
        assert(r.jv() == target);
    }
    r
}

} // verus!
