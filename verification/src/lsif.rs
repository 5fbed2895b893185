//! The LSIF index: a precomputed code-intelligence graph read from a file of
//! one JSON object per line.
//!
//! Recognized vertices: `document` (with a URI), `range` (with start and end
//! positions), `resultSet`, `hoverResult`.  Recognized edges: `contains`
//! (document to ranges), `next` (range to result set),
//! `textDocument/definition`, `textDocument/references`, and `item` with an
//! optional `property`.  A definition query picks the shortest range that
//! contains the queried position.

use vstd::prelude::*;

use crate::dispatch::{invalid_params_error, spec_missing_msg, tools_view, ErrorObject, Tool};
use crate::errors::BridgeError;
use crate::json::{
    jv_get, jv_get_int, jv_get_str, lemma_pairs_jv_props, pairs_jv, seq_jv, Json, Jv,
};
use crate::{spec_contains, Pos, Span};

verus! {

/// First value bound to an integer key.
pub open spec fn spec_iget<V>(s: Seq<(i64, V)>, k: int) -> Option<V>
    decreases s.len(),
{
    if s.len() == 0 {
        None
    } else if s[0].0 == k {
        Some(s[0].1)
    } else {
        spec_iget(s.skip(1), k)
    }
}

pub open spec fn spec_ihas<V>(s: Seq<(i64, V)>, k: int) -> bool {
    spec_iget(s, k) is Some
}

/// The sequence with the first binding of `k` replaced, or `(k, v)` appended.
pub open spec fn spec_iset<V>(s: Seq<(i64, V)>, k: i64, v: V) -> Seq<(i64, V)>
    decreases s.len(),
{
    if s.len() == 0 {
        seq![(k, v)]
    } else if s[0].0 == k {
        seq![(k, v)] + s.skip(1)
    } else {
        seq![s[0]] + spec_iset(s.skip(1), k, v)
    }
}

proof fn lemma_iget_skip<V>(s: Seq<(i64, V)>, k: int, i: int)
    requires
        0 <= i <= s.len(),
        forall|j: int| 0 <= j < i ==> s[j].0 != k,
    ensures
        spec_iget(s, k) == spec_iget(s.skip(i), k),
    decreases i,
{
    if i == 0 {
        assert(s.skip(0) =~= s);
    } else {
        lemma_iget_skip(s.skip(1), k, i - 1);
        assert(s.skip(1).skip(i - 1) =~= s.skip(i));
    }
}

proof fn lemma_iset_found<V>(s: Seq<(i64, V)>, k: i64, v: V, i: int)
    requires
        0 <= i < s.len(),
        s[i].0 == k,
        forall|j: int| 0 <= j < i ==> s[j].0 != k,
    ensures
        spec_iset(s, k, v) == s.update(i, (k, v)),
    decreases i,
{
    if i == 0 {
        assert(seq![(k, v)] + s.skip(1) =~= s.update(0, (k, v)));
    } else {
        lemma_iset_found(s.skip(1), k, v, i - 1);
        assert(seq![s[0]] + s.skip(1).update(i - 1, (k, v)) =~= s.update(i, (k, v)));
    }
}

proof fn lemma_iset_missing<V>(s: Seq<(i64, V)>, k: i64, v: V)
    requires
        forall|j: int| 0 <= j < s.len() ==> s[j].0 != k,
    ensures
        spec_iset(s, k, v) == s.push((k, v)),
    decreases s.len(),
{
    if s.len() == 0 {
        assert(spec_iset(s, k, v) =~= s.push((k, v)));
    } else {
        lemma_iset_missing(s.skip(1), k, v);
        assert(seq![s[0]] + s.skip(1).push((k, v)) =~= s.push((k, v)));
    }
}

/// Replace the first binding of `key` in an integer-keyed vector of spans.
fn iset_span(v: &mut Vec<(i64, Span)>, key: i64, val: Span)
    ensures
        final(v)@ == spec_iset(old(v)@, key, val),
{
    let ghost orig = v@;
    let n = v.len();
    let mut i: usize = 0;
    while i < n
        invariant
            i <= n == v@.len(),
            orig == v@,
            orig == old(v)@,
            forall|j: int| 0 <= j < i ==> orig[j].0 != key,
        decreases n - i,
    {
        if v[i].0 == key {
            v.set(i, (key, val));
            proof {
                lemma_iset_found(orig, key, val, i as int);
            }
            return;
        }
        i = i + 1;
    }
    proof {
        lemma_iset_missing(orig, key, val);
    }
    v.push((key, val));
}

/// Replace the first binding of `key` in an integer-keyed vector of numbers.
fn iset_i64(v: &mut Vec<(i64, i64)>, key: i64, val: i64)
    ensures
        final(v)@ == spec_iset(old(v)@, key, val),
{
    let ghost orig = v@;
    let n = v.len();
    let mut i: usize = 0;
    while i < n
        invariant
            i <= n == v@.len(),
            orig == v@,
            orig == old(v)@,
            forall|j: int| 0 <= j < i ==> orig[j].0 != key,
        decreases n - i,
    {
        if v[i].0 == key {
            v.set(i, (key, val));
            proof {
                lemma_iset_found(orig, key, val, i as int);
            }
            return;
        }
        i = i + 1;
    }
    proof {
        lemma_iset_missing(orig, key, val);
    }
    v.push((key, val));
}

/// First value bound to `key` in an integer-keyed vector of numbers.
fn iget_i64(v: &Vec<(i64, i64)>, key: i64) -> (r: Option<i64>)
    ensures
        r == spec_iget(v@, key as int),
{
    let n = v.len();
    let mut i: usize = 0;
    while i < n
        invariant
            i <= n == v@.len(),
            forall|j: int| 0 <= j < i ==> v@[j].0 != key,
        decreases n - i,
    {
        if v[i].0 == key {
            proof {
                lemma_iget_skip(v@, key as int, i as int);
                assert(v@.skip(i as int)[0] == v@[i as int]);
            }
            return Some(v[i].1);
        }
        i = i + 1;
    }
    proof {
        lemma_iget_skip(v@, key as int, v@.len() as int);
        assert(v@.skip(v@.len() as int) =~= Seq::<(i64, i64)>::empty());
    }
    None
}

/// First span bound to `key`.
fn iget_span(v: &Vec<(i64, Span)>, key: i64) -> (r: Option<Span>)
    ensures
        r == spec_iget(v@, key as int),
{
    let n = v.len();
    let mut i: usize = 0;
    while i < n
        invariant
            i <= n == v@.len(),
            forall|j: int| 0 <= j < i ==> v@[j].0 != key,
        decreases n - i,
    {
        if v[i].0 == key {
            proof {
                lemma_iget_skip(v@, key as int, i as int);
                assert(v@.skip(i as int)[0] == v@[i as int]);
            }
            return Some(v[i].1);
        }
        i = i + 1;
    }
    proof {
        lemma_iget_skip(v@, key as int, v@.len() as int);
        assert(v@.skip(v@.len() as int) =~= Seq::<(i64, Span)>::empty());
    }
    None
}

/// Whether a plain id list holds `key`.
fn ids_contain(v: &Vec<i64>, key: i64) -> (r: bool)
    ensures
        r == v@.contains(key),
{
    let n = v.len();
    let mut i: usize = 0;
    while i < n
        invariant
            i <= n == v@.len(),
            forall|j: int| 0 <= j < i ==> v@[j] != key,
        decreases n - i,
    {
        if v[i] == key {
            return true;
        }
        i = i + 1;
    }
    false
}

/// A position read out of a JSON object: non-negative `line` and `character`
/// capped into 32 bits; anything else reads as zero.
pub open spec fn spec_coord_of(o: Jv, k: Seq<char>) -> u32 {
    match jv_get_int(o, k) {
        Some(n) => if 0 <= n < 4294967296 {
            n as u32
        } else {
            0
        },
        None => 0,
    }
}

fn coord_of(o: &Json, k: &str) -> (r: u32)
    ensures
        r == spec_coord_of(o.jv(), k@),
{
    match o.get(k) {
        Some(j) => match j.as_i64() {
            Some(n) => {
                if 0 <= n && n < 4294967296 {
                    n as u32
                } else {
                    0
                }
            },
            None => 0,
        },
        None => 0,
    }
}

/// The span of a `range` vertex.
pub open spec fn spec_span_of(v: Jv) -> Option<Span> {
    match (jv_get(v, "start"@), jv_get(v, "end"@)) {
        (Some(s), Some(e)) => if s is Obj && e is Obj {
            Some(
                Span {
                    start: Pos {
                        line: spec_coord_of(s, "line"@),
                        character: spec_coord_of(s, "character"@),
                    },
                    end: Pos {
                        line: spec_coord_of(e, "line"@),
                        character: spec_coord_of(e, "character"@),
                    },
                },
            )
        } else {
            None
        },
        _ => None,
    }
}

/// The `i64` ids of an `inVs` array, in order.
pub open spec fn spec_ids_of(v: Jv) -> Seq<i64>
    decreases v,
    via spec_ids_of_decreases
{
    match v {
        Jv::Arr(items) => spec_ids_of_seq(items),
        _ => Seq::empty(),
    }
}

pub open spec fn spec_ids_of_seq(items: Seq<Jv>) -> Seq<i64>
    decreases items,
{
    if items.len() == 0 {
        Seq::empty()
    } else {
        (match items[0] {
            Jv::Int(n) => if i64::MIN <= n <= i64::MAX {
                seq![n as i64]
            } else {
                Seq::empty()
            },
            _ => Seq::empty(),
        }) + spec_ids_of_seq(items.skip(1))
    }
}

#[via_fn]
proof fn spec_ids_of_decreases(v: Jv) {
    match v {
        Jv::Arr(items) => {
            assert(decreases_to!(v => items));
        },
        _ => {},
    }
}

/// Read the target ids out of an `inVs` array value.
fn ids_of(v: &Json) -> (r: Vec<i64>)
    ensures
        r@ == spec_ids_of(v.jv()),
{
    let mut out: Vec<i64> = Vec::new();
    match v.as_arr() {
        Some(items) => {
            let ghost iv = seq_jv(items@);
            let n = items.len();
            let mut i: usize = 0;
            proof {
                crate::json::lemma_seq_jv_props(items@);
                assert(iv.skip(0) =~= iv);
            }
            while i < n
                invariant
                    i <= n == items@.len(),
                    iv == seq_jv(items@),
                    iv.len() == n,
                    spec_ids_of_seq(iv) == out@ + spec_ids_of_seq(iv.skip(i as int)),
                decreases n - i,
            {
                proof {
                    crate::json::lemma_seq_jv_props(items@);
                    assert(iv.skip(i as int)[0] == iv[i as int]);
                    assert(iv.skip(i as int).skip(1) =~= iv.skip(i as int + 1));
                }
                match items[i].as_i64() {
                    Some(id) => {
                        out.push(id);
                        proof {
                            assert(spec_ids_of_seq(iv) =~= out@ + spec_ids_of_seq(
                                iv.skip(i as int + 1),
                            ));
                        }
                    },
                    None => {
                        proof {
                            assert(spec_ids_of_seq(iv.skip(i as int)) =~= spec_ids_of_seq(
                                iv.skip(i as int + 1),
                            ));
                        }
                    },
                }
                i = i + 1;
            }
            proof {
                assert(iv.skip(n as int) =~= Seq::<Jv>::empty());
                assert(out@ =~= spec_ids_of_seq(iv));
            }
        },
        None => {
            proof {
                assert(out@ =~= spec_ids_of(v.jv()));
            }
        },
    }
    out
}

/// The split targets of an `item` edge's reference result.
pub struct RefItems {
    pub definitions: Vec<i64>,
    pub references: Vec<i64>,
    pub declarations: Vec<i64>,
}

pub struct LSIFIndex {
    pub documents: Vec<(i64, String)>,
    pub doc_by_uri: Vec<(String, i64)>,
    pub ranges: Vec<(i64, Span)>,
    pub range_doc: Vec<(i64, i64)>,
    pub result_sets: Vec<i64>,
    pub range_to_resultset: Vec<(i64, i64)>,
    pub rset_to_def: Vec<(i64, i64)>,
    pub rset_to_ref: Vec<(i64, i64)>,
    pub range_to_def: Vec<(i64, i64)>,
    pub range_to_ref: Vec<(i64, i64)>,
    pub def_items: Vec<(i64, Vec<i64>)>,
    pub ref_items: Vec<(i64, RefItems)>,
    pub hover_results: Vec<(i64, Json)>,
}

impl LSIFIndex {
    /// An empty graph.
    pub fn new() -> (r: LSIFIndex)
        ensures
            r.documents@.len() == 0,
            r.doc_by_uri@.len() == 0,
            r.ranges@.len() == 0,
            r.range_doc@.len() == 0,
            r.result_sets@.len() == 0,
            r.range_to_resultset@.len() == 0,
            r.rset_to_def@.len() == 0,
            r.rset_to_ref@.len() == 0,
            r.range_to_def@.len() == 0,
            r.range_to_ref@.len() == 0,
            r.def_items@.len() == 0,
            r.ref_items@.len() == 0,
            r.hover_results@.len() == 0,
    {
        LSIFIndex {
            documents: Vec::new(),
            doc_by_uri: Vec::new(),
            ranges: Vec::new(),
            range_doc: Vec::new(),
            result_sets: Vec::new(),
            range_to_resultset: Vec::new(),
            rset_to_def: Vec::new(),
            rset_to_ref: Vec::new(),
            range_to_def: Vec::new(),
            range_to_ref: Vec::new(),
            def_items: Vec::new(),
            ref_items: Vec::new(),
            hover_results: Vec::new(),
        }
    }

    /// The document id bound to a URI.
    fn doc_id_of(&self, uri: &str) -> (r: Option<i64>)
        ensures
            r == crate::alist::spec_assoc_get(
                Seq::new(self.doc_by_uri@.len(), |i: int| (self.doc_by_uri@[i].0@, self.doc_by_uri@[i].1)),
                uri@,
            ),
    {
        let ghost av = Seq::new(
            self.doc_by_uri@.len(),
            |i: int| (self.doc_by_uri@[i].0@, self.doc_by_uri@[i].1),
        );
        let n = self.doc_by_uri.len();
        let mut i: usize = 0;
        while i < n
            invariant
                i <= n == self.doc_by_uri@.len(),
                av == Seq::new(
                    self.doc_by_uri@.len(),
                    |i: int| (self.doc_by_uri@[i].0@, self.doc_by_uri@[i].1),
                ),
                forall|j: int| 0 <= j < i ==> av[j].0 != uri@,
            decreases n - i,
        {
            if crate::text::str_eq(self.doc_by_uri[i].0.as_str(), uri) {
                proof {
                    crate::alist::lemma_assoc_get_skip(av, uri@, i as int);
                    assert(av.skip(i as int)[0] == av[i as int]);
                }
                return Some(self.doc_by_uri[i].1);
            }
            i = i + 1;
        }
        proof {
            crate::alist::lemma_assoc_get_skip(av, uri@, n as int);
            assert(av.skip(n as int) =~= Seq::<(Seq<char>, i64)>::empty());
        }
        None
    }

    /// Record one vertex line of the graph.  Unrecognized labels and shapes
    /// are ignored; a `document` binds its id and URI both ways, a `range`
    /// binds its span, a `resultSet` joins the result-set list, and a
    /// `hoverResult` keeps its payload.
    pub fn add_vertex(&mut self, v: &Json)
        ensures
            spec_vertex_step(old(self), final(self), v.jv()),
    {
        let label: Option<String> = match v.get("label") {
            Some(j) => match j.as_str() {
                Some(s) => Some(s.clone()),
                None => None,
            },
            None => None,
        };
        let label = match label {
            Some(l) => l,
            None => {
                return ;
            },
        };
        let id_opt: Option<i64> = match v.get("id") {
            Some(j) => j.as_i64(),
            None => None,
        };
        if crate::text::str_eq(label.as_str(), "document") {
            let uri_opt: Option<String> = match v.get("uri") {
                Some(j) => match j.as_str() {
                    Some(s) => Some(s.clone()),
                    None => None,
                },
                None => None,
            };
            if let (Some(id), Some(uri)) = (id_opt, uri_opt) {
                iset_document(&mut self.documents, id, uri.clone());
                set_doc_by_uri(&mut self.doc_by_uri, uri, id);
            }
        } else if crate::text::str_eq(label.as_str(), "range") {
            let span_opt: Option<Span> = span_of(v);
            if let (Some(id), Some(span)) = (id_opt, span_opt) {
                iset_span(&mut self.ranges, id, span);
            }
        } else if crate::text::str_eq(label.as_str(), "resultSet") {
            if let Some(id) = id_opt {
                if !ids_contain(&self.result_sets, id) {
                    self.result_sets.push(id);
                    proof {
                        assert(self.result_sets@[self.result_sets@.len() - 1] == id);
                    }
                }
            }
        } else if crate::text::str_eq(label.as_str(), "hoverResult") {
            let res_opt: Option<Json> = match v.get("result") {
                Some(j) => Some(j.duplicate()),
                None => None,
            };
            if let (Some(id), Some(res)) = (id_opt, res_opt) {
                set_hover(&mut self.hover_results, id, res);
            }
        }
    }
}

/// A best range at a position witnesses that some range contains it.
proof fn lemma_best_range_has_range(idx: &LSIFIndex, uri: Seq<char>, pos: Pos, rid: i64)
    requires
        idx.spec_best_range_at(uri, pos, rid),
    ensures
        idx.spec_has_range_at(uri, pos),
{
    match crate::alist::spec_assoc_get(doc_uri_view(idx.doc_by_uri@), uri) {
        Some(did) => {
            let i = choose|i: int|
                #[trigger] idx.spec_candidate(did, i, pos) && idx.ranges@[i].0 == rid && forall|
                    j: int,
                |
                    #[trigger] idx.spec_candidate(did, j, pos) ==> spec_span_len(
                        idx.ranges@[i].1,
                    ) <= spec_span_len(idx.ranges@[j].1);
            assert(idx.spec_candidate(did, i, pos));
        },
        None => {},
    }
}

/// How one file record changes the graph: a `vertex` record steps by
/// `add_vertex`, an `edge` record by `add_edge`, anything else leaves the
/// graph untouched.
pub open spec fn spec_record_step(pre: &LSIFIndex, post: &LSIFIndex, r: Jv) -> bool {
    match jv_get_str(r, "type"@) {
        Some(t) => if t == "vertex"@ {
            spec_vertex_step(pre, post, r)
        } else if t == "edge"@ {
            spec_edge_step(pre, post, r)
        } else {
            *post == *pre
        },
        None => *post == *pre,
    }
}

/// How one `edge` record changes the graph: the whole relation between the
/// state before and after `add_edge`.
pub open spec fn spec_edge_step(pre: &LSIFIndex, post: &LSIFIndex, m0: Jv) -> bool {
    ({
                let m = m0;
                match jv_get_str(m, "label"@) {
                    Some(label) => {
                        if label == "contains"@ {
                            match jv_get_int(m, "outV"@) {
                                Some(did) => if spec_ihas(
                                    docs_view(pre.documents@),
                                    did,
                                ) {
                                    post.range_doc@ == spec_set_range_docs(
                                        pre.range_doc@,
                                        spec_ids_of_opt(jv_get(m, "inVs"@)),
                                        did as i64,
                                    ) && unchanged_but_range_doc(pre, post)
                                } else {
                                    *post == *pre
                                },
                                None => *post == *pre,
                            }
                        } else if label == "next"@ {
                            match (jv_get_int(m, "outV"@), jv_get_int(m, "inV"@)) {
                                (Some(ov), Some(iv)) => post.range_to_resultset@
                                    == spec_iset(
                                    pre.range_to_resultset@,
                                    ov as i64,
                                    iv as i64,
                                ) && unchanged_but_next(pre, post),
                                _ => *post == *pre,
                            }
                        } else if label == "textDocument/definition"@ {
                            match (jv_get_int(m, "outV"@), jv_get_int(m, "inV"@)) {
                                (Some(ov), Some(iv)) => unchanged_but_def_edges(
                                    pre,
                                    post,
                                ) && (if pre.result_sets@.contains(ov as i64) {
                                    post.rset_to_def@ == spec_iset(
                                        pre.rset_to_def@,
                                        ov as i64,
                                        iv as i64,
                                    ) && post.range_to_def@ == pre.range_to_def@
                                } else {
                                    post.range_to_def@ == spec_iset(
                                        pre.range_to_def@,
                                        ov as i64,
                                        iv as i64,
                                    ) && post.rset_to_def@ == pre.rset_to_def@
                                }),
                                _ => *post == *pre,
                            }
                        } else if label == "textDocument/references"@ {
                            match (jv_get_int(m, "outV"@), jv_get_int(m, "inV"@)) {
                                (Some(ov), Some(iv)) => unchanged_but_ref_edges(
                                    pre,
                                    post,
                                ) && (if pre.result_sets@.contains(ov as i64) {
                                    post.rset_to_ref@ == spec_iset(
                                        pre.rset_to_ref@,
                                        ov as i64,
                                        iv as i64,
                                    ) && post.range_to_ref@ == pre.range_to_ref@
                                } else {
                                    post.range_to_ref@ == spec_iset(
                                        pre.range_to_ref@,
                                        ov as i64,
                                        iv as i64,
                                    ) && post.rset_to_ref@ == pre.rset_to_ref@
                                }),
                                _ => *post == *pre,
                            }
                        } else if label == "item"@ {
                            match jv_get_int(m, "outV"@) {
                                Some(ov) => {
                                    let targets = spec_ids_of_opt(jv_get(m, "inVs"@));
                                    match jv_get_str(m, "property"@) {
                                        Some(prop) => unchanged_but_ref_items(
                                            pre,
                                            post,
                                        ) && refs_view(post.ref_items@) == spec_iset(
                                            refs_view(pre.ref_items@),
                                            ov as i64,
                                            spec_extend_refs(
                                                spec_cur_refs(
                                                    refs_view(pre.ref_items@),
                                                    ov,
                                                ),
                                                prop,
                                                targets,
                                            ),
                                        ),
                                        None => unchanged_but_def_items(pre, post)
                                            && defs_view(post.def_items@) == spec_iset(
                                            defs_view(pre.def_items@),
                                            ov as i64,
                                            spec_cur_defs(defs_view(pre.def_items@), ov)
                                                + targets,
                                        ),
                                    }
                                },
                                None => *post == *pre,
                            }
                        } else {
                            *post == *pre
                        }
                    },
                    None => *post == *pre,
                }
            })
}

/// How one `vertex` record changes the graph: the whole relation between
/// the state before and after `add_vertex`.
pub open spec fn spec_vertex_step(pre: &LSIFIndex, post: &LSIFIndex, m0: Jv) -> bool {
    ({
                let m = m0;
                match jv_get_str(m, "label"@) {
                    Some(label) => {
                        if label == "document"@ {
                            match (jv_get_int(m, "id"@), jv_get_str(m, "uri"@)) {
                                (Some(id), Some(uri)) => docs_view(post.documents@)
                                    == spec_iset(
                                    docs_view(pre.documents@),
                                    id as i64,
                                    uri,
                                ) && unchanged_but_documents(pre, post) && ({
                                    crate::alist::spec_assoc_get(
                                        doc_uri_view(post.doc_by_uri@),
                                        uri,
                                    ) == Some(id as i64)
                                }),
                                _ => *post == *pre,
                            }
                        } else if label == "range"@ {
                            match (jv_get_int(m, "id"@), spec_span_of(m)) {
                                (Some(id), Some(span)) => post.ranges@ == spec_iset(
                                    pre.ranges@,
                                    id as i64,
                                    span,
                                ) && unchanged_but_ranges(pre, post),
                                _ => *post == *pre,
                            }
                        } else if label == "resultSet"@ {
                            match jv_get_int(m, "id"@) {
                                Some(id) => post.result_sets@.contains(id as i64)
                                    && unchanged_but_result_sets(pre, post),
                                None => *post == *pre,
                            }
                        } else if label == "hoverResult"@ {
                            match (jv_get_int(m, "id"@), jv_get(m, "result"@)) {
                                (Some(id), Some(res)) => unchanged_but_hover(
                                    pre,
                                    post,
                                ) && spec_ihas(
                                    Seq::new(
                                        post.hover_results@.len(),
                                        |i: int| (post.hover_results@[i].0, post.hover_results@[i].1.jv()),
                                    ),
                                    id,
                                ),
                                _ => *post == *pre,
                            }
                        } else {
                            *post == *pre
                        }
                    },
                    None => *post == *pre,
                }
            })
}

/// Everything but the document tables is untouched.
pub open spec fn unchanged_but_documents(a: &LSIFIndex, b: &LSIFIndex) -> bool {
    &&& a.ranges@ == b.ranges@
    &&& a.range_doc@ == b.range_doc@
    &&& a.result_sets@ == b.result_sets@
    &&& a.range_to_resultset@ == b.range_to_resultset@
    &&& a.rset_to_def@ == b.rset_to_def@
    &&& a.rset_to_ref@ == b.rset_to_ref@
    &&& a.range_to_def@ == b.range_to_def@
    &&& a.range_to_ref@ == b.range_to_ref@
    &&& a.def_items@ == b.def_items@
    &&& a.ref_items@ == b.ref_items@
    &&& a.hover_results@ == b.hover_results@
}

pub open spec fn unchanged_but_ranges(a: &LSIFIndex, b: &LSIFIndex) -> bool {
    &&& a.documents@ == b.documents@
    &&& a.doc_by_uri@ == b.doc_by_uri@
    &&& a.range_doc@ == b.range_doc@
    &&& a.result_sets@ == b.result_sets@
    &&& a.range_to_resultset@ == b.range_to_resultset@
    &&& a.rset_to_def@ == b.rset_to_def@
    &&& a.rset_to_ref@ == b.rset_to_ref@
    &&& a.range_to_def@ == b.range_to_def@
    &&& a.range_to_ref@ == b.range_to_ref@
    &&& a.def_items@ == b.def_items@
    &&& a.ref_items@ == b.ref_items@
    &&& a.hover_results@ == b.hover_results@
}

pub open spec fn unchanged_but_result_sets(a: &LSIFIndex, b: &LSIFIndex) -> bool {
    &&& a.documents@ == b.documents@
    &&& a.doc_by_uri@ == b.doc_by_uri@
    &&& a.ranges@ == b.ranges@
    &&& a.range_doc@ == b.range_doc@
    &&& a.range_to_resultset@ == b.range_to_resultset@
    &&& a.rset_to_def@ == b.rset_to_def@
    &&& a.rset_to_ref@ == b.rset_to_ref@
    &&& a.range_to_def@ == b.range_to_def@
    &&& a.range_to_ref@ == b.range_to_ref@
    &&& a.def_items@ == b.def_items@
    &&& a.ref_items@ == b.ref_items@
    &&& a.hover_results@ == b.hover_results@
}

pub open spec fn unchanged_but_hover(a: &LSIFIndex, b: &LSIFIndex) -> bool {
    &&& a.documents@ == b.documents@
    &&& a.doc_by_uri@ == b.doc_by_uri@
    &&& a.ranges@ == b.ranges@
    &&& a.range_doc@ == b.range_doc@
    &&& a.result_sets@ == b.result_sets@
    &&& a.range_to_resultset@ == b.range_to_resultset@
    &&& a.rset_to_def@ == b.rset_to_def@
    &&& a.rset_to_ref@ == b.rset_to_ref@
    &&& a.range_to_def@ == b.range_to_def@
    &&& a.range_to_ref@ == b.range_to_ref@
    &&& a.def_items@ == b.def_items@
    &&& a.ref_items@ == b.ref_items@
}

/// The view of the id-to-URI table.
pub open spec fn docs_view(v: Seq<(i64, String)>) -> Seq<(i64, Seq<char>)> {
    Seq::new(v.len(), |i: int| (v[i].0, v[i].1@))
}

/// The view of the URI-to-id table.
pub open spec fn doc_uri_view(v: Seq<(String, i64)>) -> Seq<(Seq<char>, i64)> {
    Seq::new(v.len(), |i: int| (v[i].0@, v[i].1))
}

fn iset_document(v: &mut Vec<(i64, String)>, key: i64, val: String)
    ensures
        docs_view(final(v)@) == spec_iset(docs_view(old(v)@), key, val@),
{
    let ghost orig = docs_view(v@);
    let n = v.len();
    let mut i: usize = 0;
    while i < n
        invariant
            i <= n == v@.len(),
            orig == docs_view(v@),
            orig == docs_view(old(v)@),
            forall|j: int| 0 <= j < i ==> orig[j].0 != key,
        decreases n - i,
    {
        if v[i].0 == key {
            v.set(i, (key, val));
            proof {
                lemma_iset_found(orig, key, val@, i as int);
                assert(docs_view(v@) =~= orig.update(i as int, (key, val@)));
            }
            return;
        }
        i = i + 1;
    }
    proof {
        lemma_iset_missing(orig, key, val@);
    }
    v.push((key, val));
    proof {
        assert(docs_view(v@) =~= orig.push((key, v@[n as int].1@)));
    }
}

fn set_doc_by_uri(v: &mut Vec<(String, i64)>, key: String, val: i64)
    ensures
        crate::alist::spec_assoc_get(doc_uri_view(final(v)@), key@) == Some(val),
        forall|k: Seq<char>|
            k != key@ ==> crate::alist::spec_assoc_get(doc_uri_view(final(v)@), k)
                == crate::alist::spec_assoc_get(doc_uri_view(old(v)@), k),
{
    let ghost orig = doc_uri_view(v@);
    let n = v.len();
    let mut i: usize = 0;
    while i < n
        invariant
            i <= n == v@.len(),
            orig == doc_uri_view(v@),
            orig == doc_uri_view(old(v)@),
            forall|j: int| 0 <= j < i ==> orig[j].0 != key@,
        decreases n - i,
    {
        if crate::text::str_eq(v[i].0.as_str(), key.as_str()) {
            v.set(i, (key, val));
            proof {
                crate::alist::lemma_assoc_set_found(orig, orig[i as int].0, val, i as int);
                assert(doc_uri_view(v@) =~= orig.update(i as int, (orig[i as int].0, val)));
                assert forall|k: Seq<char>|
                    crate::alist::spec_assoc_get(doc_uri_view(v@), k)
                        == crate::alist::spec_assoc_get(
                    crate::alist::spec_assoc_set(orig, orig[i as int].0, val),
                    k,
                ) by {}
                crate::alist::lemma_assoc_set_get(orig, orig[i as int].0, val, key@);
                assert forall|k: Seq<char>|
                    k != key@ implies crate::alist::spec_assoc_get(doc_uri_view(v@), k)
                    == crate::alist::spec_assoc_get(orig, k) by {
                    crate::alist::lemma_assoc_set_get(orig, orig[i as int].0, val, k);
                }
            }
            return;
        }
        i = i + 1;
    }
    v.push((key, val));
    proof {
        crate::alist::lemma_assoc_set_missing(orig, v@[n as int].0@, val);
        assert(doc_uri_view(v@) =~= orig.push((v@[n as int].0@, val)));
        crate::alist::lemma_assoc_set_get(orig, v@[n as int].0@, val, v@[n as int].0@);
        assert forall|k: Seq<char>|
            k != v@[n as int].0@ implies crate::alist::spec_assoc_get(doc_uri_view(v@), k)
            == crate::alist::spec_assoc_get(orig, k) by {
            crate::alist::lemma_assoc_set_get(orig, v@[n as int].0@, val, k);
        }
    }
}

fn set_hover(v: &mut Vec<(i64, Json)>, key: i64, val: Json)
    ensures
        spec_ihas(
            Seq::new(final(v)@.len(), |i: int| (final(v)@[i].0, final(v)@[i].1.jv())),
            key as int,
        ),
{
    let n = v.len();
    let mut i: usize = 0;
    while i < n
        invariant
            i <= n == v@.len(),
        decreases n - i,
    {
        if v[i].0 == key {
            v.set(i, (key, val));
            proof {
                let hv = Seq::new(v@.len(), |w: int| (v@[w].0, v@[w].1.jv()));
                assert(hv[i as int].0 == key);
                lemma_ihas_at(hv, i as int, key as int);
            }
            return;
        }
        i = i + 1;
    }
    v.push((key, val));
    proof {
        let hv = Seq::new(v@.len(), |w: int| (v@[w].0, v@[w].1.jv()));
        assert(hv[n as int].0 == key);
        lemma_ihas_at(hv, n as int, key as int);
    }
}

proof fn lemma_ihas_at<V>(s: Seq<(i64, V)>, i: int, k: int)
    requires
        0 <= i < s.len(),
        s[i].0 == k,
    ensures
        spec_ihas(s, k),
    decreases i,
{
    if s[0].0 != k {
        lemma_ihas_at(s.skip(1), i - 1, k);
    }
}

/// The span of a `range` vertex, read executably.
fn span_of(v: &Json) -> (r: Option<Span>)
    ensures
        r == spec_span_of(v.jv()),
{
    let s = v.get("start");
    let e = v.get("end");
    match (s, e) {
        (Some(sj), Some(ej)) => {
            if sj.is_obj() && ej.is_obj() {
                Some(
                    Span {
                        start: Pos {
                            line: coord_of(sj, "line"),
                            character: coord_of(sj, "character"),
                        },
                        end: Pos {
                            line: coord_of(ej, "line"),
                            character: coord_of(ej, "character"),
                        },
                    },
                )
            } else {
                None
            }
        },
        _ => None,
    }
}

// ---------------------------------------------------------------------------
// Edges
// ---------------------------------------------------------------------------

/// The view of the reference-result table.
pub open spec fn refs_view(v: Seq<(i64, RefItems)>) -> Seq<(i64, (Seq<i64>, Seq<i64>, Seq<i64>))> {
    Seq::new(v.len(), |i: int| (v[i].0, (v[i].1.definitions@, v[i].1.references@, v[i].1.declarations@)))
}

/// The view of the definition-result table.
pub open spec fn defs_view(v: Seq<(i64, Vec<i64>)>) -> Seq<(i64, Seq<i64>)> {
    Seq::new(v.len(), |i: int| (v[i].0, v[i].1@))
}

/// Bind every range of `ids` to the containing document.
pub open spec fn spec_set_range_docs(m: Seq<(i64, i64)>, ids: Seq<i64>, did: i64) -> Seq<
    (i64, i64),
>
    decreases ids.len(),
{
    if ids.len() == 0 {
        m
    } else {
        spec_set_range_docs(spec_iset(m, ids[0], did), ids.skip(1), did)
    }
}

/// A reference result extended under one property.
pub open spec fn spec_extend_refs(
    cur: (Seq<i64>, Seq<i64>, Seq<i64>),
    prop: Seq<char>,
    targets: Seq<i64>,
) -> (Seq<i64>, Seq<i64>, Seq<i64>) {
    if prop == "definitions"@ {
        (cur.0 + targets, cur.1, cur.2)
    } else if prop == "references"@ {
        (cur.0, cur.1 + targets, cur.2)
    } else if prop == "declarations"@ {
        (cur.0, cur.1, cur.2 + targets)
    } else {
        cur
    }
}

impl LSIFIndex {
    /// Record one edge line of the graph.
    pub fn add_edge(&mut self, e: &Json)
        ensures
            spec_edge_step(old(self), final(self), e.jv()),
    {
        let label: Option<String> = match e.get("label") {
            Some(j) => match j.as_str() {
                Some(s) => Some(s.clone()),
                None => None,
            },
            None => None,
        };
        let label = match label {
            Some(l) => l,
            None => {
                return ;
            },
        };
        if crate::text::str_eq(label.as_str(), "contains") {
            let did_opt: Option<i64> = match e.get("outV") {
                Some(j) => j.as_i64(),
                None => None,
            };
            if let Some(did) = did_opt {
                let known = self.doc_has_id(did);
                if known {
                    let targets: Vec<i64> = match e.get("inVs") {
                        Some(arr) => ids_of(arr),
                        None => Vec::new(),
                    };
                    proof {
                        assert(targets@ =~= spec_ids_of_opt(jv_get(e.jv(), "inVs"@)));
                    }
                    let ghost m0 = self.range_doc@;
                    let ghost tv = targets@;
                    let n = targets.len();
                    let mut i: usize = 0;
                    proof {
                        assert(tv.skip(0) =~= tv);
                    }
                    while i < n
                        invariant
                            i <= n == tv.len(),
                            tv == targets@,
                            spec_set_range_docs(m0, tv, did) == spec_set_range_docs(
                                self.range_doc@,
                                tv.skip(i as int),
                                did,
                            ),
                            unchanged_but_range_doc_state(old(self), self),
                        decreases n - i,
                    {
                        proof {
                            assert(tv.skip(i as int)[0] == tv[i as int]);
                            assert(tv.skip(i as int).skip(1) =~= tv.skip(i as int + 1));
                        }
                        iset_i64(&mut self.range_doc, targets[i], did);
                        i = i + 1;
                    }
                    proof {
                        assert(tv.skip(n as int) =~= Seq::<i64>::empty());
                    }
                }
            }
        } else if crate::text::str_eq(label.as_str(), "next") {
            let ov: Option<i64> = match e.get("outV") {
                Some(j) => j.as_i64(),
                None => None,
            };
            let iv: Option<i64> = match e.get("inV") {
                Some(j) => j.as_i64(),
                None => None,
            };
            if let (Some(o), Some(i2)) = (ov, iv) {
                iset_i64(&mut self.range_to_resultset, o, i2);
            }
        } else if crate::text::str_eq(label.as_str(), "textDocument/definition") {
            let ov: Option<i64> = match e.get("outV") {
                Some(j) => j.as_i64(),
                None => None,
            };
            let iv: Option<i64> = match e.get("inV") {
                Some(j) => j.as_i64(),
                None => None,
            };
            if let (Some(o), Some(i2)) = (ov, iv) {
                if ids_contain(&self.result_sets, o) {
                    iset_i64(&mut self.rset_to_def, o, i2);
                } else {
                    iset_i64(&mut self.range_to_def, o, i2);
                }
            }
        } else if crate::text::str_eq(label.as_str(), "textDocument/references") {
            let ov: Option<i64> = match e.get("outV") {
                Some(j) => j.as_i64(),
                None => None,
            };
            let iv: Option<i64> = match e.get("inV") {
                Some(j) => j.as_i64(),
                None => None,
            };
            if let (Some(o), Some(i2)) = (ov, iv) {
                if ids_contain(&self.result_sets, o) {
                    iset_i64(&mut self.rset_to_ref, o, i2);
                } else {
                    iset_i64(&mut self.range_to_ref, o, i2);
                }
            }
        } else if crate::text::str_eq(label.as_str(), "item") {
            let ov: Option<i64> = match e.get("outV") {
                Some(j) => j.as_i64(),
                None => None,
            };
            if let Some(o) = ov {
                let mut targets: Vec<i64> = match e.get("inVs") {
                    Some(arr) => ids_of(arr),
                    None => Vec::new(),
                };
                proof {
                    assert(targets@ =~= spec_ids_of_opt(jv_get(e.jv(), "inVs"@)));
                }
                let prop: Option<String> = match e.get("property") {
                    Some(j) => match j.as_str() {
                        Some(s) => Some(s.clone()),
                        None => None,
                    },
                    None => None,
                };
                match prop {
                    Some(p) => {
                        self.extend_ref_items(o, p.as_str(), &mut targets);
                    },
                    None => {
                        self.extend_def_items(o, &mut targets);
                    },
                }
            }
        }
    }

    /// Whether the documents table binds `id`.
    fn doc_has_id(&self, id: i64) -> (r: bool)
        ensures
            r == spec_ihas(docs_view(self.documents@), id as int),
    {
        let ghost dv = docs_view(self.documents@);
        let n = self.documents.len();
        let mut i: usize = 0;
        while i < n
            invariant
                i <= n == self.documents@.len(),
                dv == docs_view(self.documents@),
                forall|j: int| 0 <= j < i ==> dv[j].0 != id,
            decreases n - i,
        {
            if self.documents[i].0 == id {
                proof {
                    lemma_iget_skip(dv, id as int, i as int);
                    assert(dv.skip(i as int)[0] == dv[i as int]);
                }
                return true;
            }
            i = i + 1;
        }
        proof {
            lemma_iget_skip(dv, id as int, n as int);
            assert(dv.skip(n as int) =~= Seq::<(i64, Seq<char>)>::empty());
        }
        false
    }

    fn extend_ref_items(&mut self, out: i64, prop: &str, targets: &mut Vec<i64>)
        ensures
            unchanged_but_ref_items(old(self), final(self)),
            refs_view(final(self).ref_items@) == spec_iset(
                refs_view(old(self).ref_items@),
                out,
                spec_extend_refs(
                    spec_cur_refs(refs_view(old(self).ref_items@), out as int),
                    prop@,
                    old(targets)@,
                ),
            ),
    {
        let ghost orig = refs_view(self.ref_items@);
        let ghost cur0 = spec_cur_refs(orig, out as int);
        let n = self.ref_items.len();
        let mut at: Option<usize> = None;
        let mut i: usize = 0;
        while i < n
            invariant
                i <= n == self.ref_items@.len(),
                old(self) == self,
                orig == refs_view(self.ref_items@),
                match at {
                    Some(w) => w < i && orig[w as int].0 == out && (forall|j: int|
                        0 <= j < w ==> orig[j].0 != out),
                    None => forall|j: int| 0 <= j < i ==> orig[j].0 != out,
                },
            decreases n - i,
        {
            if at.is_none() && self.ref_items[i].0 == out {
                at = Some(i);
            }
            i = i + 1;
        }
        match at {
            Some(w) => {
                proof {
                    lemma_iget_skip(orig, out as int, w as int);
                    assert(orig.skip(w as int)[0] == orig[w as int]);
                    assert(cur0 == orig[w as int].1);
                }
                let mut entry = self.ref_items.remove(w);
                if crate::text::str_eq(prop, "definitions") {
                    entry.1.definitions.append(targets);
                } else if crate::text::str_eq(prop, "references") {
                    entry.1.references.append(targets);
                } else if crate::text::str_eq(prop, "declarations") {
                    entry.1.declarations.append(targets);
                }
                self.ref_items.insert(w, (out, entry.1));
                proof {
                    lemma_iset_found(orig, out, spec_extend_refs(cur0, prop@, old(targets)@), w as int);
                    assert(refs_view(self.ref_items@) =~= orig.update(
                        w as int,
                        (out, spec_extend_refs(cur0, prop@, old(targets)@)),
                    ));
                }
            },
            None => {
                proof {
                    lemma_iget_skip(orig, out as int, n as int);
                    assert(orig.skip(n as int) =~= Seq::<
                        (i64, (Seq<i64>, Seq<i64>, Seq<i64>)),
                    >::empty());
                }
                let mut entry = RefItems {
                    definitions: Vec::new(),
                    references: Vec::new(),
                    declarations: Vec::new(),
                };
                if crate::text::str_eq(prop, "definitions") {
                    entry.definitions.append(targets);
                } else if crate::text::str_eq(prop, "references") {
                    entry.references.append(targets);
                } else if crate::text::str_eq(prop, "declarations") {
                    entry.declarations.append(targets);
                }
                self.ref_items.push((out, entry));
                proof {
                    lemma_iset_missing(orig, out, spec_extend_refs(cur0, prop@, old(targets)@));
                    assert(cur0 == (Seq::<i64>::empty(), Seq::<i64>::empty(), Seq::<i64>::empty()));
                    assert(Seq::<i64>::empty() + old(targets)@ =~= old(targets)@);
                    assert(refs_view(self.ref_items@) =~= orig.push(
                        (out, spec_extend_refs(cur0, prop@, old(targets)@)),
                    ));
                }
            },
        }
    }

    fn extend_def_items(&mut self, out: i64, targets: &mut Vec<i64>)
        ensures
            unchanged_but_def_items(old(self), final(self)),
            defs_view(final(self).def_items@) == spec_iset(
                defs_view(old(self).def_items@),
                out,
                spec_cur_defs(defs_view(old(self).def_items@), out as int) + old(targets)@,
            ),
    {
        let ghost orig = defs_view(self.def_items@);
        let ghost cur0 = spec_cur_defs(orig, out as int);
        let n = self.def_items.len();
        let mut at: Option<usize> = None;
        let mut i: usize = 0;
        while i < n
            invariant
                i <= n == self.def_items@.len(),
                old(self) == self,
                orig == defs_view(self.def_items@),
                match at {
                    Some(w) => w < i && orig[w as int].0 == out && (forall|j: int|
                        0 <= j < w ==> orig[j].0 != out),
                    None => forall|j: int| 0 <= j < i ==> orig[j].0 != out,
                },
            decreases n - i,
        {
            if at.is_none() && self.def_items[i].0 == out {
                at = Some(i);
            }
            i = i + 1;
        }
        match at {
            Some(w) => {
                proof {
                    lemma_iget_skip(orig, out as int, w as int);
                    assert(orig.skip(w as int)[0] == orig[w as int]);
                    assert(cur0 == orig[w as int].1);
                }
                let mut entry = self.def_items.remove(w);
                entry.1.append(targets);
                self.def_items.insert(w, entry);
                proof {
                    lemma_iset_found(orig, out, cur0 + old(targets)@, w as int);
                    assert(defs_view(self.def_items@) =~= orig.update(
                        w as int,
                        (out, cur0 + old(targets)@),
                    ));
                }
            },
            None => {
                proof {
                    lemma_iget_skip(orig, out as int, n as int);
                    assert(orig.skip(n as int) =~= Seq::<(i64, Seq<i64>)>::empty());
                }
                let mut fresh: Vec<i64> = Vec::new();
                fresh.append(targets);
                self.def_items.push((out, fresh));
                proof {
                    lemma_iset_missing(orig, out, cur0 + old(targets)@);
                    assert(cur0 =~= Seq::<i64>::empty());
                    assert(cur0 + old(targets)@ =~= old(targets)@);
                    assert(defs_view(self.def_items@) =~= orig.push((out, cur0 + old(targets)@)));
                }
            },
        }
    }
}

/// The ids of an optional `inVs` value.
pub open spec fn spec_ids_of_opt(v: Option<Jv>) -> Seq<i64> {
    match v {
        Some(j) => spec_ids_of(j),
        None => Seq::empty(),
    }
}

/// The current reference-result entry, or an empty one.
pub open spec fn spec_cur_refs(m: Seq<(i64, (Seq<i64>, Seq<i64>, Seq<i64>))>, k: int) -> (
    Seq<i64>,
    Seq<i64>,
    Seq<i64>,
) {
    match spec_iget(m, k) {
        Some(cur) => cur,
        None => (Seq::empty(), Seq::empty(), Seq::empty()),
    }
}

/// The current definition-result entry, or an empty one.
pub open spec fn spec_cur_defs(m: Seq<(i64, Seq<i64>)>, k: int) -> Seq<i64> {
    match spec_iget(m, k) {
        Some(cur) => cur,
        None => Seq::empty(),
    }
}

/// Everything but the range-to-document table is untouched.
pub open spec fn unchanged_but_range_doc(a: &LSIFIndex, b: &LSIFIndex) -> bool {
    &&& a.documents@ == b.documents@
    &&& a.doc_by_uri@ == b.doc_by_uri@
    &&& a.ranges@ == b.ranges@
    &&& a.result_sets@ == b.result_sets@
    &&& a.range_to_resultset@ == b.range_to_resultset@
    &&& a.rset_to_def@ == b.rset_to_def@
    &&& a.rset_to_ref@ == b.rset_to_ref@
    &&& a.range_to_def@ == b.range_to_def@
    &&& a.range_to_ref@ == b.range_to_ref@
    &&& a.def_items@ == b.def_items@
    &&& a.ref_items@ == b.ref_items@
    &&& a.hover_results@ == b.hover_results@
}

/// Same, phrased between two live states.
pub open spec fn unchanged_but_range_doc_state(a: &LSIFIndex, b: &LSIFIndex) -> bool {
    unchanged_but_range_doc(a, b)
}

pub open spec fn unchanged_but_next(a: &LSIFIndex, b: &LSIFIndex) -> bool {
    &&& a.documents@ == b.documents@
    &&& a.doc_by_uri@ == b.doc_by_uri@
    &&& a.ranges@ == b.ranges@
    &&& a.range_doc@ == b.range_doc@
    &&& a.result_sets@ == b.result_sets@
    &&& a.rset_to_def@ == b.rset_to_def@
    &&& a.rset_to_ref@ == b.rset_to_ref@
    &&& a.range_to_def@ == b.range_to_def@
    &&& a.range_to_ref@ == b.range_to_ref@
    &&& a.def_items@ == b.def_items@
    &&& a.ref_items@ == b.ref_items@
    &&& a.hover_results@ == b.hover_results@
}

pub open spec fn unchanged_but_def_edges(a: &LSIFIndex, b: &LSIFIndex) -> bool {
    &&& a.documents@ == b.documents@
    &&& a.doc_by_uri@ == b.doc_by_uri@
    &&& a.ranges@ == b.ranges@
    &&& a.range_doc@ == b.range_doc@
    &&& a.result_sets@ == b.result_sets@
    &&& a.range_to_resultset@ == b.range_to_resultset@
    &&& a.rset_to_ref@ == b.rset_to_ref@
    &&& a.range_to_ref@ == b.range_to_ref@
    &&& a.def_items@ == b.def_items@
    &&& a.ref_items@ == b.ref_items@
    &&& a.hover_results@ == b.hover_results@
}

pub open spec fn unchanged_but_ref_edges(a: &LSIFIndex, b: &LSIFIndex) -> bool {
    &&& a.documents@ == b.documents@
    &&& a.doc_by_uri@ == b.doc_by_uri@
    &&& a.ranges@ == b.ranges@
    &&& a.range_doc@ == b.range_doc@
    &&& a.result_sets@ == b.result_sets@
    &&& a.range_to_resultset@ == b.range_to_resultset@
    &&& a.rset_to_def@ == b.rset_to_def@
    &&& a.range_to_def@ == b.range_to_def@
    &&& a.def_items@ == b.def_items@
    &&& a.ref_items@ == b.ref_items@
    &&& a.hover_results@ == b.hover_results@
}

pub open spec fn unchanged_but_ref_items(a: &LSIFIndex, b: &LSIFIndex) -> bool {
    &&& a.documents@ == b.documents@
    &&& a.doc_by_uri@ == b.doc_by_uri@
    &&& a.ranges@ == b.ranges@
    &&& a.range_doc@ == b.range_doc@
    &&& a.result_sets@ == b.result_sets@
    &&& a.range_to_resultset@ == b.range_to_resultset@
    &&& a.rset_to_def@ == b.rset_to_def@
    &&& a.rset_to_ref@ == b.rset_to_ref@
    &&& a.range_to_def@ == b.range_to_def@
    &&& a.range_to_ref@ == b.range_to_ref@
    &&& a.def_items@ == b.def_items@
    &&& a.hover_results@ == b.hover_results@
}

pub open spec fn unchanged_but_def_items(a: &LSIFIndex, b: &LSIFIndex) -> bool {
    &&& a.documents@ == b.documents@
    &&& a.doc_by_uri@ == b.doc_by_uri@
    &&& a.ranges@ == b.ranges@
    &&& a.range_doc@ == b.range_doc@
    &&& a.result_sets@ == b.result_sets@
    &&& a.range_to_resultset@ == b.range_to_resultset@
    &&& a.rset_to_def@ == b.rset_to_def@
    &&& a.rset_to_ref@ == b.rset_to_ref@
    &&& a.range_to_def@ == b.range_to_def@
    &&& a.range_to_ref@ == b.range_to_ref@
    &&& a.ref_items@ == b.ref_items@
    &&& a.hover_results@ == b.hover_results@
}

// ---------------------------------------------------------------------------
// Queries
// ---------------------------------------------------------------------------

/// The tie-break measure of a span: line spread weighted, then characters.
pub open spec fn spec_span_len(s: Span) -> int {
    (s.end.line - s.start.line) * 1000000 + (s.end.character - s.start.character)
}

impl LSIFIndex {
    /// Whether the range entry at position `i` contains `pos` and lies in
    /// document `did`.
    pub open spec fn spec_candidate(self, did: i64, i: int, pos: Pos) -> bool {
        &&& 0 <= i < self.ranges@.len()
        &&& spec_contains(self.ranges@[i].1, pos)
        &&& spec_iget(self.range_doc@, self.ranges@[i].0 as int) == Some(did)
    }

    /// Whether the document behind `uri` is known and some of its ranges
    /// contains `pos`.
    pub open spec fn spec_has_range_at(self, uri: Seq<char>, pos: Pos) -> bool {
        match crate::alist::spec_assoc_get(doc_uri_view(self.doc_by_uri@), uri) {
            Some(did) => exists|i: int| #[trigger] self.spec_candidate(did, i, pos),
            None => false,
        }
    }

    /// Whether `rid` names a shortest range of `uri`'s document containing
    /// `pos`.
    pub open spec fn spec_best_range_at(self, uri: Seq<char>, pos: Pos, rid: i64) -> bool {
        match crate::alist::spec_assoc_get(doc_uri_view(self.doc_by_uri@), uri) {
            Some(did) => exists|i: int|
                #[trigger] self.spec_candidate(did, i, pos) && self.ranges@[i].0 == rid && forall|
                    j: int,
                |
                    #[trigger] self.spec_candidate(did, j, pos) ==> spec_span_len(
                        self.ranges@[i].1,
                    ) <= spec_span_len(self.ranges@[j].1),
            None => false,
        }
    }

    /// The id of the shortest range containing the position, exactly when
    /// the document is known and some range contains it.  Among several
    /// shortest ranges the pick is arbitrary.
    pub fn find_best_range(&self, uri: &str, pos: Pos) -> (r: Option<i64>)
        ensures
            match r {
                Some(rid) => self.spec_best_range_at(uri@, pos, rid),
                None => !self.spec_has_range_at(uri@, pos),
            },
    {
        let did = match self.doc_id_of(uri) {
            Some(d) => d,
            None => {
                return None;
            },
        };
        let n = self.ranges.len();
        let mut best: Option<(usize, i64, Span)> = None;
        let mut i: usize = 0;
        while i < n
            invariant
                i <= n == self.ranges@.len(),
                match best {
                    Some((w, rid, span)) => self.spec_candidate(did, w as int, pos)
                        && self.ranges@[w as int].0 == rid && self.ranges@[w as int].1 == span && (
                    forall|j: int|
                        0 <= j < i && #[trigger] self.spec_candidate(did, j, pos) ==> spec_span_len(
                            span,
                        ) <= spec_span_len(self.ranges@[j].1)),
                    None => forall|j: int| 0 <= j < i ==> !#[trigger] self.spec_candidate(did, j, pos),
                },
            decreases n - i,
        {
            let entry = self.ranges[i];
            let span = entry.1;
            if crate::contains(span, pos) {
                let owner = iget_i64(&self.range_doc, entry.0);
                if owner == Some(did) {
                    let cur_len: i64 = (span.end.line as i64 - span.start.line as i64) * 1000000 + (
                    span.end.character as i64 - span.start.character as i64);
                    match best {
                        None => {
                            best = Some((i, entry.0, span));
                        },
                        Some((w, rid, prev)) => {
                            let prev_len: i64 = (prev.end.line as i64 - prev.start.line as i64)
                                * 1000000 + (prev.end.character as i64
                                - prev.start.character as i64);
                            if cur_len < prev_len {
                                best = Some((i, entry.0, span));
                            }
                        },
                    }
                }
            }
            i = i + 1;
        }
        match best {
            Some((w, rid, _)) => Some(rid),
            None => None,
        }
    }

    /// The result set a range points to, when that target really is one.
    pub fn resultset_for_range(&self, rid: i64) -> (r: Option<i64>)
        ensures
            r == (match spec_iget(self.range_to_resultset@, rid as int) {
                Some(id) => if self.result_sets@.contains(id) {
                    Some(id)
                } else {
                    None
                },
                None => None::<i64>,
            }),
    {
        match iget_i64(&self.range_to_resultset, rid) {
            Some(id) => {
                if ids_contain(&self.result_sets, id) {
                    Some(id)
                } else {
                    None
                }
            },
            None => None,
        }
    }

    /// The location of one range id, when its span, document and URI are all
    /// known.
    pub open spec fn spec_loc_of(self, rid: i64) -> Option<(Seq<char>, Span)> {
        match spec_iget(self.ranges@, rid as int) {
            Some(span) => match spec_iget(self.range_doc@, rid as int) {
                Some(did) => match spec_iget(docs_view(self.documents@), did as int) {
                    Some(uri) => Some((uri, span)),
                    None => None,
                },
                None => None,
            },
            None => None,
        }
    }

    /// The locations of a run of range ids, in order, dropping unknown ones.
    pub open spec fn spec_locs_of(self, ids: Seq<i64>) -> Seq<(Seq<char>, Span)>
        decreases ids.len(),
    {
        if ids.len() == 0 {
            Seq::empty()
        } else {
            (match self.spec_loc_of(ids[0]) {
                Some(l) => seq![l],
                None => Seq::empty(),
            }) + self.spec_locs_of(ids.skip(1))
        }
    }

    /// The URI bound to a document id.
    fn uri_of_doc(&self, did: i64) -> (r: Option<String>)
        ensures
            match r {
                Some(u) => spec_iget(docs_view(self.documents@), did as int) == Some(u@),
                None => spec_iget(docs_view(self.documents@), did as int) is None,
            },
    {
        let ghost dv = docs_view(self.documents@);
        let n = self.documents.len();
        let mut i: usize = 0;
        while i < n
            invariant
                i <= n == self.documents@.len(),
                dv == docs_view(self.documents@),
                forall|j: int| 0 <= j < i ==> dv[j].0 != did,
            decreases n - i,
        {
            if self.documents[i].0 == did {
                proof {
                    lemma_iget_skip(dv, did as int, i as int);
                    assert(dv.skip(i as int)[0] == dv[i as int]);
                }
                return Some(self.documents[i].1.clone());
            }
            i = i + 1;
        }
        proof {
            lemma_iget_skip(dv, did as int, n as int);
            assert(dv.skip(n as int) =~= Seq::<(i64, Seq<char>)>::empty());
        }
        None
    }

    /// Append the locations of `ids` to `out`.
    fn push_locs(&self, ids: &Vec<i64>, out: &mut Vec<(String, Span)>)
        ensures
            locs_view(final(out)@) == locs_view(old(out)@) + self.spec_locs_of(ids@),
    {
        let ghost iv = ids@;
        let n = ids.len();
        let mut i: usize = 0;
        proof {
            assert(iv.skip(0) =~= iv);
        }
        while i < n
            invariant
                i <= n == ids@.len(),
                iv == ids@,
                locs_view(out@) + self.spec_locs_of(iv.skip(i as int)) == locs_view(old(out)@)
                    + self.spec_locs_of(iv),
            decreases n - i,
        {
            let rid = ids[i];
            proof {
                assert(iv.skip(i as int)[0] == iv[i as int]);
                assert(iv.skip(i as int).skip(1) =~= iv.skip(i as int + 1));
            }
            let span_opt = iget_span(&self.ranges, rid);
            if let Some(span) = span_opt {
                let did_opt = iget_i64(&self.range_doc, rid);
                if let Some(did) = did_opt {
                    let uri_opt = self.uri_of_doc(did);
                    if let Some(uri) = uri_opt {
                        let ghost before = locs_view(out@);
                        out.push((uri, span));
                        proof {
                            assert(locs_view(out@) =~= before.push(
                                (out@[out@.len() - 1].0@, span),
                            ));
                            assert(self.spec_loc_of(rid) == Some(
                                (out@[out@.len() - 1].0@, span),
                            ));
                            lemma_prepend_one(
                                before,
                                (out@[out@.len() - 1].0@, span),
                                self.spec_locs_of(iv.skip(i as int + 1)),
                            );
                        }
                    }
                }
            }
            proof {
                if self.spec_loc_of(rid) is None {
                    assert(self.spec_locs_of(iv.skip(i as int)) =~= self.spec_locs_of(
                        iv.skip(i as int + 1),
                    ));
                }
            }
            i = i + 1;
        }
        proof {
            assert(iv.skip(n as int) =~= Seq::<i64>::empty());
            assert(locs_view(out@) + Seq::<(Seq<char>, Span)>::empty() =~= locs_view(out@));
        }
    }
}

proof fn lemma_prepend_one(
    a: Seq<(Seq<char>, Span)>,
    x: (Seq<char>, Span),
    b: Seq<(Seq<char>, Span)>,
)
    ensures
        a.push(x) + b == a + (seq![x] + b),
{
    assert(a.push(x) + b =~= a + (seq![x] + b));
}

/// The view of a location list.
pub open spec fn locs_view(v: Seq<(String, Span)>) -> Seq<(Seq<char>, Span)> {
    Seq::new(v.len(), |i: int| (v[i].0@, v[i].1))
}

impl LSIFIndex {
    /// The locations of a definition result.
    pub fn ranges_for_result(&self, res_id: i64) -> (r: Vec<(String, Span)>)
        ensures
            locs_view(r@) == self.spec_locs_of(spec_cur_defs(defs_view(self.def_items@), res_id as int)),
    {
        let mut out: Vec<(String, Span)> = Vec::new();
        proof {
            assert(locs_view(out@) =~= Seq::<(Seq<char>, Span)>::empty());
        }
        let n = self.def_items.len();
        let mut i: usize = 0;
        let ghost dv = defs_view(self.def_items@);
        while i < n
            invariant
                i <= n == self.def_items@.len(),
                dv == defs_view(self.def_items@),
                out@.len() == 0,
                locs_view(out@) == Seq::<(Seq<char>, Span)>::empty(),
                forall|j: int| 0 <= j < i ==> dv[j].0 != res_id,
            decreases n - i,
        {
            if self.def_items[i].0 == res_id {
                proof {
                    lemma_iget_skip(dv, res_id as int, i as int);
                    assert(dv.skip(i as int)[0] == dv[i as int]);
                }
                self.push_locs(&self.def_items[i].1, &mut out);
                proof {
                    assert(Seq::<(Seq<char>, Span)>::empty() + self.spec_locs_of(
                        dv[i as int].1,
                    ) =~= self.spec_locs_of(dv[i as int].1));
                }
                return out;
            }
            i = i + 1;
        }
        proof {
            lemma_iget_skip(dv, res_id as int, n as int);
            assert(dv.skip(n as int) =~= Seq::<(i64, Seq<i64>)>::empty());
        }
        out
    }

    /// The locations of a reference result: the references, and with
    /// `include_decls` also the definitions and declarations.
    pub fn ranges_for_refs(&self, res_id: i64, include_decls: bool) -> (r: Vec<(String, Span)>)
        ensures
            ({
                let cur = spec_cur_refs(refs_view(self.ref_items@), res_id as int);
                locs_view(r@) == if include_decls {
                    self.spec_locs_of(cur.1) + self.spec_locs_of(cur.0) + self.spec_locs_of(cur.2)
                } else {
                    self.spec_locs_of(cur.1)
                }
            }),
    {
        let mut out: Vec<(String, Span)> = Vec::new();
        proof {
            assert(locs_view(out@) =~= Seq::<(Seq<char>, Span)>::empty());
        }
        let n = self.ref_items.len();
        let mut i: usize = 0;
        let ghost rv = refs_view(self.ref_items@);
        while i < n
            invariant
                i <= n == self.ref_items@.len(),
                rv == refs_view(self.ref_items@),
                out@.len() == 0,
                locs_view(out@) == Seq::<(Seq<char>, Span)>::empty(),
                forall|j: int| 0 <= j < i ==> rv[j].0 != res_id,
            decreases n - i,
        {
            if self.ref_items[i].0 == res_id {
                proof {
                    lemma_iget_skip(rv, res_id as int, i as int);
                    assert(rv.skip(i as int)[0] == rv[i as int]);
                }
                self.push_locs(&self.ref_items[i].1.references, &mut out);
                proof {
                    assert(Seq::<(Seq<char>, Span)>::empty() + self.spec_locs_of(
                        rv[i as int].1.1,
                    ) =~= self.spec_locs_of(rv[i as int].1.1));
                }
                if include_decls {
                    self.push_locs(&self.ref_items[i].1.definitions, &mut out);
                    self.push_locs(&self.ref_items[i].1.declarations, &mut out);
                }
                return out;
            }
            i = i + 1;
        }
        proof {
            lemma_iget_skip(rv, res_id as int, n as int);
            assert(rv.skip(n as int) =~= Seq::<(i64, (Seq<i64>, Seq<i64>, Seq<i64>))>::empty());
        }
        out
    }
}

/// The JSON shape of one location.
pub open spec fn spec_loc_jv(uri: Seq<char>, span: Span) -> Jv {
    Jv::Obj(
        seq![
            ("uri"@, Jv::Str(uri)),
            (
                "range"@,
                Jv::Obj(
                    seq![
                        (
                            "start"@,
                            Jv::Obj(
                                seq![
                                    ("line"@, Jv::Int(span.start.line as int)),
                                    ("character"@, Jv::Int(span.start.character as int)),
                                ],
                            ),
                        ),
                        (
                            "end"@,
                            Jv::Obj(
                                seq![
                                    ("line"@, Jv::Int(span.end.line as int)),
                                    ("character"@, Jv::Int(span.end.character as int)),
                                ],
                            ),
                        ),
                    ],
                ),
            ),
        ],
    )
}

/// The JSON shapes of a location list.
pub open spec fn spec_locs_jv(locs: Seq<(Seq<char>, Span)>) -> Seq<Jv>
    decreases locs.len(),
{
    if locs.len() == 0 {
        Seq::empty()
    } else {
        seq![spec_loc_jv(locs[0].0, locs[0].1)] + spec_locs_jv(locs.skip(1))
    }
}

/// The reply envelope of a location query.
pub open spec fn spec_locations_reply(locs: Seq<(Seq<char>, Span)>) -> Jv {
    Jv::Obj(seq![("locations"@, Jv::Arr(spec_locs_jv(locs)))])
}

fn pos_json(p: Pos) -> (r: Json)
    ensures
        r.jv() == Jv::Obj(
            seq![
                ("line"@, Jv::Int(p.line as int)),
                ("character"@, Jv::Int(p.character as int)),
            ],
        ),
{
    let mut pairs: Vec<(String, Json)> = Vec::new();
    pairs.push(("line".to_owned(), Json::Int(p.line as i64)));
    pairs.push(("character".to_owned(), Json::Int(p.character as i64)));
    let r = Json::Obj(pairs);
    proof {
        lemma_pairs_jv_props(r->Obj_0@);
        assert(pairs_jv(r->Obj_0@) =~= seq![
            ("line"@, Jv::Int(p.line as int)),
            ("character"@, Jv::Int(p.character as int)),
        ]);
    }
    r
}

/// One location as JSON.
pub fn loc_json(uri: &str, span: Span) -> (r: Json)
    ensures
        r.jv() == spec_loc_jv(uri@, span),
{
    let start = pos_json(span.start);
    let ghost sv = start.jv();
    let end = pos_json(span.end);
    let ghost ev = end.jv();
    let mut range: Vec<(String, Json)> = Vec::new();
    range.push(("start".to_owned(), start));
    range.push(("end".to_owned(), end));
    proof {
        lemma_pairs_jv_props(range@);
        assert(pairs_jv(range@) =~= seq![("start"@, sv), ("end"@, ev)]);
    }
    let ghost rv = pairs_jv(range@);
    let mut pairs: Vec<(String, Json)> = Vec::new();
    pairs.push(("uri".to_owned(), Json::str_of(uri)));
    pairs.push(("range".to_owned(), Json::Obj(range)));
    let r = Json::Obj(pairs);
    proof {
        lemma_pairs_jv_props(r->Obj_0@);
        assert(pairs_jv(r->Obj_0@) =~= seq![("uri"@, Jv::Str(uri@)), ("range"@, Jv::Obj(rv))]);
        assert(r.jv() =~= spec_loc_jv(uri@, span));
    }
    r
}

/// The `{locations: [...]}` reply for a location list.
pub fn locations_reply(locs: &Vec<(String, Span)>) -> (r: Json)
    ensures
        r.jv() == spec_locations_reply(locs_view(locs@)),
{
    let ghost lv = locs_view(locs@);
    let mut arr: Vec<Json> = Vec::new();
    let n = locs.len();
    let mut i: usize = 0;
    proof {
        assert(lv.skip(0) =~= lv);
        assert(seq_jv(arr@) =~= Seq::<Jv>::empty());
    }
    while i < n
        invariant
            i <= n == locs@.len(),
            lv == locs_view(locs@),
            seq_jv(arr@) + spec_locs_jv(lv.skip(i as int)) == spec_locs_jv(lv),
        decreases n - i,
    {
        proof {
            assert(lv.skip(i as int)[0] == lv[i as int]);
            assert(lv.skip(i as int).skip(1) =~= lv.skip(i as int + 1));
        }
        let item = loc_json(locs[i].0.as_str(), locs[i].1);
        proof {
            crate::json::lemma_seq_jv_push(arr@, item);
        }
        arr.push(item);
        i = i + 1;
        proof {
            assert(seq_jv(arr@) + spec_locs_jv(lv.skip(i as int)) =~= spec_locs_jv(lv));
        }
    }
    proof {
        assert(lv.skip(n as int) =~= Seq::<(Seq<char>, Span)>::empty());
        assert(seq_jv(arr@) + Seq::<Jv>::empty() =~= seq_jv(arr@));
    }
    let ghost av = seq_jv(arr@);
    let mut pairs: Vec<(String, Json)> = Vec::new();
    pairs.push(("locations".to_owned(), Json::Arr(arr)));
    let r = Json::Obj(pairs);
    proof {
        lemma_pairs_jv_props(r->Obj_0@);
        assert(pairs_jv(r->Obj_0@) =~= seq![("locations"@, Jv::Arr(av))]);
    }
    r
}

impl LSIFIndex {
    /// The definition result a range leads to: through its result set when
    /// one is wired, else directly.
    pub open spec fn spec_def_target(self, rid: i64) -> Option<i64> {
        let rset = match spec_iget(self.range_to_resultset@, rid as int) {
            Some(id) => if self.result_sets@.contains(id) {
                Some(id)
            } else {
                None
            },
            None => None,
        };
        match rset {
            Some(rs) => match spec_iget(self.rset_to_def@, rs as int) {
                Some(d) => Some(d),
                None => spec_iget(self.range_to_def@, rid as int),
            },
            None => spec_iget(self.range_to_def@, rid as int),
        }
    }

    /// The reference result a range leads to, likewise.
    pub open spec fn spec_ref_target(self, rid: i64) -> Option<i64> {
        let rset = match spec_iget(self.range_to_resultset@, rid as int) {
            Some(id) => if self.result_sets@.contains(id) {
                Some(id)
            } else {
                None
            },
            None => None,
        };
        match rset {
            Some(rs) => match spec_iget(self.rset_to_ref@, rs as int) {
                Some(d) => Some(d),
                None => spec_iget(self.range_to_ref@, rid as int),
            },
            None => spec_iget(self.range_to_ref@, rid as int),
        }
    }

    fn def_target(&self, rid: i64) -> (r: Option<i64>)
        ensures
            r == self.spec_def_target(rid),
    {
        let rset = self.resultset_for_range(rid);
        match rset {
            Some(rs) => match iget_i64(&self.rset_to_def, rs) {
                Some(d) => Some(d),
                None => iget_i64(&self.range_to_def, rid),
            },
            None => iget_i64(&self.range_to_def, rid),
        }
    }

    fn ref_target(&self, rid: i64) -> (r: Option<i64>)
        ensures
            r == self.spec_ref_target(rid),
    {
        let rset = self.resultset_for_range(rid);
        match rset {
            Some(rs) => match iget_i64(&self.rset_to_ref, rs) {
                Some(d) => Some(d),
                None => iget_i64(&self.range_to_ref, rid),
            },
            None => iget_i64(&self.range_to_ref, rid),
        }
    }

    /// The locations of a reference result, with the definitions and
    /// declarations items included on demand.
    pub open spec fn spec_reference_locs(self, rr: i64, with_decls: bool) -> Seq<
        (Seq<char>, Span),
    > {
        let cur = spec_cur_refs(refs_view(self.ref_items@), rr as int);
        if with_decls {
            self.spec_locs_of(cur.1) + self.spec_locs_of(cur.0) + self.spec_locs_of(cur.2)
        } else {
            self.spec_locs_of(cur.1)
        }
    }

    /// The locations a definition query replies with for the range `rid`:
    /// the definition result's targets, else the reference result's items
    /// with declarations, else nothing.
    pub open spec fn spec_definition_locs(self, rid: i64) -> Seq<(Seq<char>, Span)> {
        match self.spec_def_target(rid) {
            Some(d) => self.spec_locs_of(spec_cur_defs(defs_view(self.def_items@), d as int)),
            None => match self.spec_ref_target(rid) {
                Some(rr) => self.spec_reference_locs(rr, true),
                None => Seq::empty(),
            },
        }
    }

    /// A definition query: find the shortest range containing the position,
    /// follow its definition edge (falling back to references with
    /// declarations when no definition result is wired), and reply with the
    /// locations.  The query errors exactly when no range of the document
    /// contains the position.
    pub fn query_definition(&self, uri: &str, line: u32, character: u32) -> (r: Result<
        Json,
        BridgeError,
    >)
        ensures
            ({
                let pos = Pos { line, character };
                match r {
                    Ok(j) => self.spec_has_range_at(uri@, pos) && exists|rid: i64|
                        #[trigger] self.spec_best_range_at(uri@, pos, rid) && j.jv()
                            == spec_locations_reply(self.spec_definition_locs(rid)),
                    Err(e) => !self.spec_has_range_at(uri@, pos) && e is NotFound && e.msg()
                        == "no LSIF range at position"@,
                }
            }),
    {
        let pos = Pos { line, character };
        let rid = match self.find_best_range(uri, pos) {
            Some(rid) => rid,
            None => {
                return Err(BridgeError::NotFound("no LSIF range at position".to_owned()));
            },
        };
        proof {
            lemma_best_range_has_range(self, uri@, pos, rid);
        }
        let locs: Vec<(String, Span)> = match self.def_target(rid) {
            Some(d) => self.ranges_for_result(d),
            None => match self.ref_target(rid) {
                Some(rr) => self.ranges_for_refs(rr, true),
                None => {
                    let empty: Vec<(String, Span)> = Vec::new();
                    proof {
                        assert(locs_view(empty@) =~= Seq::<(Seq<char>, Span)>::empty());
                    }
                    empty
                },
            },
        };
        Ok(locations_reply(&locs))
    }

    /// A references query: the reference result of the shortest range
    /// containing the position.  The query errors when no range of the
    /// document contains the position, or when the best range reaches no
    /// reference result.
    pub fn query_references(
        &self,
        uri: &str,
        line: u32,
        character: u32,
        include_declarations: bool,
    ) -> (r: Result<Json, BridgeError>)
        ensures
            ({
                let pos = Pos { line, character };
                match r {
                    Ok(j) => exists|rid: i64|
                        #[trigger] self.spec_best_range_at(uri@, pos, rid)
                            && self.spec_ref_target(rid) is Some && j.jv()
                            == spec_locations_reply(
                            self.spec_reference_locs(
                                self.spec_ref_target(rid)->0,
                                include_declarations,
                            ),
                        ),
                    Err(e) => e is NotFound && if !self.spec_has_range_at(uri@, pos) {
                        e.msg() == "no LSIF range at position"@
                    } else {
                        exists|rid: i64|
                            #[trigger] self.spec_best_range_at(uri@, pos, rid)
                                && self.spec_ref_target(rid) is None && e.msg()
                                == "no references for symbol"@
                    },
                }
            }),
    {
        let pos = Pos { line, character };
        let rid = match self.find_best_range(uri, pos) {
            Some(rid) => rid,
            None => {
                return Err(BridgeError::NotFound("no LSIF range at position".to_owned()));
            },
        };
        proof {
            lemma_best_range_has_range(self, uri@, pos, rid);
        }
        let rr = match self.ref_target(rid) {
            Some(rr) => rr,
            None => {
                return Err(BridgeError::NotFound("no references for symbol".to_owned()));
            },
        };
        let locs = self.ranges_for_refs(rr, include_declarations);
        Ok(locations_reply(&locs))
    }

    /// Hover is not wired in this graph reader; the query always errors.
    pub fn query_hover(&self, uri: &str, line: u32, character: u32) -> (r: Result<
        Json,
        BridgeError,
    >)
        ensures
            r is Err,
            r->Err_0 is NotFound,
    {
        let _ = (uri, line, character);
        Err(BridgeError::NotFound("hover not available in this graph reader".to_owned()))
    }

    /// Feed every record of a loaded file into the graph, in order: each
    /// `vertex` record is ingested by `add_vertex`, each `edge` record by
    /// `add_edge`, and anything else is skipped, so the final graph is the
    /// fold of the record steps over the file.
    pub fn load_records(&mut self, records: &Vec<Json>)
        ensures
            exists|chain: Seq<LSIFIndex>|
                #![trigger chain.len()]
                {
                    &&& chain.len() == records@.len() + 1
                    &&& chain[0] == *old(self)
                    &&& chain[records@.len() as int] == *final(self)
                    &&& forall|k: int|
                        0 <= k < records@.len() ==> spec_record_step(
                            &(#[trigger] chain[k]),
                            &chain[k + 1],
                            records@[k].jv(),
                        )
                },
    {
        let ghost mut chain: Seq<LSIFIndex> = seq![*self];
        let n = records.len();
        let mut i: usize = 0;
        while i < n
            invariant
                i <= n == records@.len(),
                chain.len() == i + 1,
                chain[0] == *old(self),
                chain[i as int] == *self,
                forall|k: int|
                    0 <= k < i ==> spec_record_step(
                        &(#[trigger] chain[k]),
                        &chain[k + 1],
                        records@[k].jv(),
                    ),
            decreases n - i,
        {
            let ghost pre = *self;
            let kind: Option<String> = match records[i].get("type") {
                Some(j) => match j.as_str() {
                    Some(s) => Some(s.clone()),
                    None => None,
                },
                None => None,
            };
            match kind {
                Some(k) => {
                    if crate::text::str_eq(k.as_str(), "vertex") {
                        self.add_vertex(&records[i]);
                    } else if crate::text::str_eq(k.as_str(), "edge") {
                        self.add_edge(&records[i]);
                    }
                },
                None => {},
            }
            proof {
                let post = *self;
                assert(spec_record_step(&pre, &post, records@[i as int].jv()));
                chain = chain.push(post);
            }
            i = i + 1;
        }
    }
}

// ---------------------------------------------------------------------------
// The graph's tool surface
// ---------------------------------------------------------------------------

/// The graph reader's palette, in order.
pub open spec fn spec_lsif_tool_names() -> Seq<Seq<char>> {
    seq!["lsif_load"@, "lsif_definition"@, "lsif_references"@, "lsif_hover"@]
}

fn lsif_prop(t: &str) -> (r: Json)
    ensures
        r.jv() is Obj,
{
    let mut pairs: Vec<(String, Json)> = Vec::new();
    pairs.push(("type".to_owned(), Json::str_of(t)));
    Json::Obj(pairs)
}

fn lsif_schema(props: Vec<(String, Json)>, required: Vec<String>) -> (r: Json)
    ensures
        r.jv() is Obj,
        r.jv()->Obj_0.len() > 0,
{
    let mut req: Vec<Json> = Vec::new();
    let mut i: usize = 0;
    let n = required.len();
    while i < n
        invariant
            i <= n == required@.len(),
        decreases n - i,
    {
        req.push(Json::Str(required[i].clone()));
        i = i + 1;
    }
    let mut pairs: Vec<(String, Json)> = Vec::new();
    pairs.push(("type".to_owned(), Json::str_of("object")));
    pairs.push(("properties".to_owned(), Json::Obj(props)));
    pairs.push(("required".to_owned(), Json::Arr(req)));
    let r = Json::Obj(pairs);
    proof {
        lemma_pairs_jv_props(r->Obj_0@);
    }
    r
}

fn position_schema() -> (r: Json)
    ensures
        r.jv() is Obj,
{
    let mut inner: Vec<(String, Json)> = Vec::new();
    inner.push(("line".to_owned(), lsif_prop("integer")));
    inner.push(("character".to_owned(), lsif_prop("integer")));
    let mut pairs: Vec<(String, Json)> = Vec::new();
    pairs.push(("type".to_owned(), Json::str_of("object")));
    pairs.push(("properties".to_owned(), Json::Obj(inner)));
    Json::Obj(pairs)
}

fn lsif_push(v: &mut Vec<Tool>, name: &str, description: &str, input_schema: Json)
    requires
        input_schema.jv() is Obj,
        input_schema.jv()->Obj_0.len() > 0,
    ensures
        tools_view(final(v)@) == tools_view(old(v)@).push(name@),
        final(v)@.len() == old(v)@.len() + 1,
        (forall|i: int|
            0 <= i < old(v)@.len() ==> (#[trigger] old(v)@[i].input_schema.jv()) is Obj && old(
                v,
            )@[i].input_schema.jv()->Obj_0.len() > 0) ==> (forall|i: int|
            0 <= i < final(v)@.len() ==> (#[trigger] final(v)@[i].input_schema.jv()) is Obj
                && final(v)@[i].input_schema.jv()->Obj_0.len() > 0),
    {
    v.push(Tool { name: name.to_owned(), description: description.to_owned(), input_schema });
    proof {
        assert(tools_view(v@) =~= tools_view(old(v)@).push(name@));
    }
}

/// The graph reader's palette: load, definition, references, hover; every
/// schema is a non-empty object.
pub fn lsif_tools() -> (r: Vec<Tool>)
    ensures
        tools_view(r@) == spec_lsif_tool_names(),
        forall|i: int|
            0 <= i < r@.len() ==> (#[trigger] r@[i].input_schema.jv()) is Obj
                && r@[i].input_schema.jv()->Obj_0.len() > 0,
{
    let mut v: Vec<Tool> = Vec::new();
    proof {
        assert(tools_view(v@) =~= Seq::<Seq<char>>::empty());
    }
    {
        let mut props: Vec<(String, Json)> = Vec::new();
        props.push(("path".to_owned(), lsif_prop("string")));
        let mut req: Vec<String> = Vec::new();
        req.push("path".to_owned());
        lsif_push(&mut v, "lsif_load", "Load an LSIF graph from a file of JSON lines", lsif_schema(props, req));
    }
    {
        let mut props: Vec<(String, Json)> = Vec::new();
        props.push(("uri".to_owned(), lsif_prop("string")));
        props.push(("position".to_owned(), position_schema()));
        let mut req: Vec<String> = Vec::new();
        req.push("uri".to_owned());
        req.push("position".to_owned());
        lsif_push(&mut v, "lsif_definition", "Definitions through the loaded graph", lsif_schema(props, req));
    }
    {
        let mut props: Vec<(String, Json)> = Vec::new();
        props.push(("uri".to_owned(), lsif_prop("string")));
        props.push(("position".to_owned(), position_schema()));
        props.push(("includeDeclarations".to_owned(), lsif_prop("boolean")));
        let mut req: Vec<String> = Vec::new();
        req.push("uri".to_owned());
        req.push("position".to_owned());
        lsif_push(&mut v, "lsif_references", "References through the loaded graph", lsif_schema(props, req));
    }
    {
        let mut props: Vec<(String, Json)> = Vec::new();
        props.push(("uri".to_owned(), lsif_prop("string")));
        props.push(("position".to_owned(), position_schema()));
        let mut req: Vec<String> = Vec::new();
        req.push("uri".to_owned());
        req.push("position".to_owned());
        lsif_push(&mut v, "lsif_hover", "Hover through the loaded graph, when wired", lsif_schema(props, req));
    }
    proof {
        assert(tools_view(v@) =~= spec_lsif_tool_names());
    }
    v
}

/// What one graph tool call asks for.
pub enum LsifPlan {
    Load(String),
    Definition(String, u32, u32),
    References(String, u32, u32, bool),
    Hover(String, u32, u32),
    Fail(ErrorObject),
}

/// A coordinate wrapped into 32 bits, as the wire protocol carries it.
pub open spec fn spec_wrap_u32(n: int) -> u32 {
    (n % 0x100000000) as u32
}

/// What a well-read position satisfies: the `position` argument is an object
/// whose `line` and `character` are non-negative integers, wrapped into 32
/// bits.
pub open spec fn spec_position_ok(args: Jv, l: u32, c: u32) -> bool {
    match jv_get(args, "position"@) {
        Some(p) => p is Obj && (match (jv_get_int(p, "line"@), jv_get_int(p, "character"@)) {
            (Some(ln), Some(ch)) => ln >= 0 && ch >= 0 && l == spec_wrap_u32(ln) && c
                == spec_wrap_u32(ch),
            _ => false,
        }),
        None => false,
    }
}

/// When a position read fails, and with which message: a missing or
/// non-object `position` is a missing field; a missing, non-integer or
/// negative coordinate names the coordinate.
pub open spec fn spec_position_err(args: Jv, msg: Seq<char>) -> bool {
    match jv_get(args, "position"@) {
        None => msg == spec_missing_msg("position"@),
        Some(p) => if !(p is Obj) {
            msg == spec_missing_msg("position"@)
        } else {
            match jv_get_int(p, "line"@) {
                Some(ln) => if ln < 0 {
                    msg == "Field 'line' must be an integer"@
                } else {
                    match jv_get_int(p, "character"@) {
                        Some(ch) => ch < 0 && msg == "Field 'character' must be an integer"@,
                        None => msg == "Field 'character' must be an integer"@,
                    }
                },
                None => msg == "Field 'line' must be an integer"@,
            }
        },
    }
}

/// The `position` argument: an object whose `line` and `character` read as
/// non-negative integers, wrapped into 32 bits; anything else is an
/// invalid-parameters error naming what is wrong.
pub fn require_position(args: &Json) -> (r: Result<(u32, u32), ErrorObject>)
    ensures
        match r {
            Ok((l, c)) => spec_position_ok(args.jv(), l, c),
            Err(e) => e.code == -32602 && e.data is None && spec_position_err(
                args.jv(),
                e.message@,
            ),
        },
{
    let p = match args.get("position") {
        Some(p) => p,
        None => {
            return Err(invalid_params_error(lsif_missing_msg("position")));
        },
    };
    if !p.is_obj() {
        return Err(invalid_params_error(lsif_missing_msg("position")));
    }
    let line = match p.get("line") {
        Some(j) => match j.as_i64() {
            Some(n) => n,
            None => {
                return Err(
                    invalid_params_error("Field 'line' must be an integer".to_owned()),
                );
            },
        },
        None => {
            return Err(invalid_params_error("Field 'line' must be an integer".to_owned()));
        },
    };
    if line < 0 {
        return Err(invalid_params_error("Field 'line' must be an integer".to_owned()));
    }
    let character = match p.get("character") {
        Some(j) => match j.as_i64() {
            Some(n) => n,
            None => {
                return Err(
                    invalid_params_error("Field 'character' must be an integer".to_owned()),
                );
            },
        },
        None => {
            return Err(
                invalid_params_error("Field 'character' must be an integer".to_owned()),
            );
        },
    };
    if character < 0 {
        return Err(invalid_params_error("Field 'character' must be an integer".to_owned()));
    }
    let lc: u32 = (line % 4294967296) as u32;
    let cc: u32 = (character % 4294967296) as u32;
    Ok((lc, cc))
}

fn lsif_missing_msg(k: &str) -> (r: String)
    ensures
        r@ == spec_missing_msg(k@),
{
    let mut m: String = "Missing required field: ".to_owned();
    m.append(k);
    m
}

/// What a failed uri-and-position read reports: a missing or non-string
/// `uri` first, then whatever the position read reports.
pub open spec fn spec_query_args_err(args: Jv, msg: Seq<char>) -> bool {
    match jv_get_str(args, "uri"@) {
        None => msg == spec_missing_msg("uri"@),
        Some(_) => spec_position_err(args, msg),
    }
}

/// Plan one graph tool call: pull the required fields out, or refuse the
/// call before any graph work, naming what is missing or ill-typed.
pub fn plan_lsif_call(name: &str, args: &Json) -> (r: LsifPlan)
    ensures
        ({
            if name@ == "lsif_load"@ {
                match r {
                    LsifPlan::Load(p) => jv_get_str(args.jv(), "path"@) == Some(p@),
                    LsifPlan::Fail(e) => jv_get_str(args.jv(), "path"@) is None && e.code
                        == -32602 && e.message@ == spec_missing_msg("path"@) && e.data is None,
                    _ => false,
                }
            } else if name@ == "lsif_definition"@ {
                match r {
                    LsifPlan::Definition(u, l, c) => jv_get_str(args.jv(), "uri"@) == Some(u@)
                        && spec_position_ok(args.jv(), l, c),
                    LsifPlan::Fail(e) => e.code == -32602 && e.data is None
                        && spec_query_args_err(args.jv(), e.message@),
                    _ => false,
                }
            } else if name@ == "lsif_references"@ {
                match r {
                    LsifPlan::References(u, l, c, with_decls) => jv_get_str(args.jv(), "uri"@)
                        == Some(u@) && spec_position_ok(args.jv(), l, c) && with_decls == (
                    jv_get(args.jv(), "includeDeclarations"@) == Some(Jv::Bool(true))),
                    LsifPlan::Fail(e) => e.code == -32602 && e.data is None
                        && spec_query_args_err(args.jv(), e.message@),
                    _ => false,
                }
            } else if name@ == "lsif_hover"@ {
                match r {
                    LsifPlan::Hover(u, l, c) => jv_get_str(args.jv(), "uri"@) == Some(u@)
                        && spec_position_ok(args.jv(), l, c),
                    LsifPlan::Fail(e) => e.code == -32602 && e.data is None
                        && spec_query_args_err(args.jv(), e.message@),
                    _ => false,
                }
            } else {
                r matches LsifPlan::Fail(e) && e.code == -32602 && e.message@
                    == "Unsupported lsif tool: "@ + name@ && e.data is None
            }
        }),
{
    if crate::text::str_eq(name, "lsif_load") {
        match args.get("path") {
            Some(j) => match j.as_str() {
                Some(p) => LsifPlan::Load(p.clone()),
                None => LsifPlan::Fail(invalid_params_error(lsif_missing_msg("path"))),
            },
            None => LsifPlan::Fail(invalid_params_error(lsif_missing_msg("path"))),
        }
    } else if crate::text::str_eq(name, "lsif_definition") {
        let uri = match args.get("uri") {
            Some(j) => match j.as_str() {
                Some(u) => u.clone(),
                None => {
                    return LsifPlan::Fail(invalid_params_error(lsif_missing_msg("uri")));
                },
            },
            None => {
                return LsifPlan::Fail(invalid_params_error(lsif_missing_msg("uri")));
            },
        };
        match require_position(args) {
            Ok((l, c)) => LsifPlan::Definition(uri, l, c),
            Err(e) => LsifPlan::Fail(e),
        }
    } else if crate::text::str_eq(name, "lsif_references") {
        let uri = match args.get("uri") {
            Some(j) => match j.as_str() {
                Some(u) => u.clone(),
                None => {
                    return LsifPlan::Fail(invalid_params_error(lsif_missing_msg("uri")));
                },
            },
            None => {
                return LsifPlan::Fail(invalid_params_error(lsif_missing_msg("uri")));
            },
        };
        let with_decls: bool = match args.get("includeDeclarations") {
            Some(j) => match j.as_bool() {
                Some(b) => b,
                None => false,
            },
            None => false,
        };
        match require_position(args) {
            Ok((l, c)) => LsifPlan::References(uri, l, c, with_decls),
            Err(e) => LsifPlan::Fail(e),
        }
    } else if crate::text::str_eq(name, "lsif_hover") {
        let uri = match args.get("uri") {
            Some(j) => match j.as_str() {
                Some(u) => u.clone(),
                None => {
                    return LsifPlan::Fail(invalid_params_error(lsif_missing_msg("uri")));
                },
            },
            None => {
                return LsifPlan::Fail(invalid_params_error(lsif_missing_msg("uri")));
            },
        };
        match require_position(args) {
            Ok((l, c)) => LsifPlan::Hover(uri, l, c),
            Err(e) => LsifPlan::Fail(e),
        }
    } else {
        let mut m: String = "Unsupported lsif tool: ".to_owned();
        m.append(name);
        LsifPlan::Fail(invalid_params_error(m))
    }
}

} // verus!




