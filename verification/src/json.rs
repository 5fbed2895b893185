//! The library's model of a JSON value.
//!
//! Every message the bridges frame, route or inspect is JSON.  The logic here
//! works on `Json`, a plain recursive datatype; the unverified shell converts
//! between it and whatever representation the wire libraries use.  A number
//! that fits an `i64` is held as `Int`; any other numeric literal is carried
//! through verbatim as `NumText` so nothing is lost in transit.  An object is
//! a vector of key/value pairs in insertion order.
//!
//! Specifications speak of `Jv`, the mathematical mirror of `Json`.

use vstd::prelude::*;

use crate::alist::{
    lemma_assoc_get_skip, lemma_assoc_remove_take_step, lemma_assoc_set_found,
    lemma_assoc_set_missing, spec_assoc_get, spec_assoc_has, spec_assoc_remove, spec_assoc_set,
};

verus! {

#[derive(Debug, PartialEq, Eq)]
pub enum Json {
    Null,
    Bool(bool),
    Int(i64),
    NumText(String),
    Str(String),
    Arr(Vec<Json>),
    Obj(Vec<(String, Json)>),
}

/// The mathematical value of a `Json` tree.
#[verifier::ext_equal]
pub enum Jv {
    Null,
    Bool(bool),
    Int(int),
    NumText(Seq<char>),
    Str(Seq<char>),
    Arr(Seq<Jv>),
    Obj(Seq<(Seq<char>, Jv)>),
}

impl Json {
    /// The mathematical value of this tree.
    pub open spec fn jv(self) -> Jv
        decreases self,
        via Self::jv_decreases
    {
        match self {
            Json::Null => Jv::Null,
            Json::Bool(b) => Jv::Bool(b),
            Json::Int(i) => Jv::Int(i as int),
            Json::NumText(s) => Jv::NumText(s@),
            Json::Str(s) => Jv::Str(s@),
            Json::Arr(v) => Jv::Arr(seq_jv(v@)),
            Json::Obj(v) => Jv::Obj(pairs_jv(v@)),
        }
    }

    #[via_fn]
    proof fn jv_decreases(self) {
        match self {
            Json::Arr(v) => {
                assert(decreases_to!(self => v));
                assert(decreases_to!(v => v@));
            },
            Json::Obj(v) => {
                assert(decreases_to!(self => v));
                assert(decreases_to!(v => v@));
            },
            _ => {},
        }
    }
}

/// The mathematical values of a sequence of trees.
pub open spec fn seq_jv(v: Seq<Json>) -> Seq<Jv>
    decreases v,
    via seq_jv_decreases
{
    if v.len() == 0 {
        Seq::empty()
    } else {
        seq![v[0].jv()] + seq_jv(v.skip(1))
    }
}

#[via_fn]
proof fn seq_jv_decreases(v: Seq<Json>) {
    if v.len() > 0 {
        assert(decreases_to!(v => v[0]));
    }
}

/// The mathematical values of a sequence of key/value pairs.
pub open spec fn pairs_jv(v: Seq<(String, Json)>) -> Seq<(Seq<char>, Jv)>
    decreases v,
    via pairs_jv_decreases
{
    if v.len() == 0 {
        Seq::empty()
    } else {
        seq![(v[0].0@, v[0].1.jv())] + pairs_jv(v.skip(1))
    }
}

#[via_fn]
proof fn pairs_jv_decreases(v: Seq<(String, Json)>) {
    if v.len() > 0 {
        assert(decreases_to!(v => v[0]));
        assert(decreases_to!(v[0] => v[0].1));
    }
}

/// Length and elementwise reading of `seq_jv`.
pub broadcast proof fn lemma_seq_jv_props(s: Seq<Json>)
    ensures
        (#[trigger] seq_jv(s)).len() == s.len(),
        forall|i: int| 0 <= i < s.len() ==> seq_jv(s)[i] == s[i].jv(),
    decreases s.len(),
{
    if s.len() > 0 {
        lemma_seq_jv_props(s.skip(1));
    }
}

/// Length and elementwise reading of `pairs_jv`.
pub broadcast proof fn lemma_pairs_jv_props(s: Seq<(String, Json)>)
    ensures
        (#[trigger] pairs_jv(s)).len() == s.len(),
        forall|i: int| 0 <= i < s.len() ==> pairs_jv(s)[i] == (s[i].0@, s[i].1.jv()),
    decreases s.len(),
{
    if s.len() > 0 {
        lemma_pairs_jv_props(s.skip(1));
    }
}

pub broadcast proof fn lemma_seq_jv_push(s: Seq<Json>, x: Json)
    ensures
        #[trigger] seq_jv(s.push(x)) == seq_jv(s).push(x.jv()),
{
    lemma_seq_jv_props(s.push(x));
    lemma_seq_jv_props(s);
    assert(seq_jv(s.push(x)) =~= seq_jv(s).push(x.jv()));
}

pub broadcast proof fn lemma_pairs_jv_push(s: Seq<(String, Json)>, x: (String, Json))
    ensures
        #[trigger] pairs_jv(s.push(x)) == pairs_jv(s).push((x.0@, x.1.jv())),
{
    lemma_pairs_jv_props(s.push(x));
    lemma_pairs_jv_props(s);
    assert(pairs_jv(s.push(x)) =~= pairs_jv(s).push((x.0@, x.1.jv())));
}

/// Lookup of `k` in an object value; `None` on anything that is not an object.
pub open spec fn jv_get(j: Jv, k: Seq<char>) -> Option<Jv> {
    match j {
        Jv::Obj(pairs) => spec_assoc_get(pairs, k),
        _ => None,
    }
}

pub open spec fn jv_as_str(j: Jv) -> Option<Seq<char>> {
    match j {
        Jv::Str(s) => Some(s),
        _ => None,
    }
}

pub open spec fn jv_as_int(j: Jv) -> Option<int> {
    match j {
        Jv::Int(i) => Some(i),
        _ => None,
    }
}

pub open spec fn jv_as_bool(j: Jv) -> Option<bool> {
    match j {
        Jv::Bool(b) => Some(b),
        _ => None,
    }
}

pub open spec fn jv_as_arr(j: Jv) -> Option<Seq<Jv>> {
    match j {
        Jv::Arr(v) => Some(v),
        _ => None,
    }
}

pub open spec fn jv_as_obj(j: Jv) -> Option<Seq<(Seq<char>, Jv)>> {
    match j {
        Jv::Obj(p) => Some(p),
        _ => None,
    }
}

/// String value bound to `k`, if the object binds `k` to a string.
pub open spec fn jv_get_str(j: Jv, k: Seq<char>) -> Option<Seq<char>> {
    match jv_get(j, k) {
        Some(v) => jv_as_str(v),
        None => None,
    }
}

/// Integer value bound to `k`, if the object binds `k` to an `i64`.
pub open spec fn jv_get_int(j: Jv, k: Seq<char>) -> Option<int> {
    match jv_get(j, k) {
        Some(v) => jv_as_int(v),
        None => None,
    }
}

impl Json {
    /// Look a key up in an object; `None` when the value is not an object or
    /// the key is unbound.
    pub fn get<'a>(&'a self, key: &str) -> (r: Option<&'a Json>)
        ensures
            match r {
                Some(x) => jv_get(self.jv(), key@) == Some(x.jv()),
                None => jv_get(self.jv(), key@) is None,
            },
    {
        broadcast use lemma_pairs_jv_props;

        match self {
            Json::Obj(pairs) => {
                let ghost pv = pairs_jv(pairs@);
                let mut i: usize = 0;
                while i < pairs.len()
                    invariant
                        i <= pairs@.len(),
                        *self == Json::Obj(*pairs),
                        pv == pairs_jv(pairs@),
                        pv.len() == pairs@.len(),
                        forall|j: int| 0 <= j < i ==> pv[j].0 != key@,
                    decreases pairs@.len() - i,
                {
                    if crate::text::str_eq(pairs[i].0.as_str(), key) {
                        proof {
                            lemma_pairs_jv_props(pairs@);
                            assert(pv[i as int].0 == key@);
                            lemma_assoc_get_skip(pv, key@, i as int);
                            assert(pv.skip(i as int)[0] == pv[i as int]);
                        }
                        return Some(&pairs[i].1);
                    }
                    proof {
                        lemma_pairs_jv_props(pairs@);
                        assert(pv[i as int].0 != key@);
                    }
                    i = i + 1;
                }
                proof {
                    lemma_pairs_jv_props(pairs@);
                    lemma_assoc_get_skip(pv, key@, pairs@.len() as int);
                    assert(pv.skip(pairs@.len() as int) =~= Seq::<(Seq<char>, Jv)>::empty());
                }
                None
            },
            _ => None,
        }
    }

    pub fn as_str(&self) -> (r: Option<&String>)
        ensures
            match r {
                Some(s) => jv_as_str(self.jv()) == Some(s@),
                None => jv_as_str(self.jv()) is None,
            },
    {
        match self {
            Json::Str(s) => Some(s),
            _ => None,
        }
    }

    pub fn as_i64(&self) -> (r: Option<i64>)
        ensures
            match r {
                Some(i) => jv_as_int(self.jv()) == Some(i as int),
                None => jv_as_int(self.jv()) is None,
            },
    {
        match self {
            Json::Int(i) => Some(*i),
            _ => None,
        }
    }

    pub fn as_bool(&self) -> (r: Option<bool>)
        ensures
            match r {
                Some(b) => jv_as_bool(self.jv()) == Some(b),
                None => jv_as_bool(self.jv()) is None,
            },
    {
        match self {
            Json::Bool(b) => Some(*b),
            _ => None,
        }
    }

    pub fn as_arr(&self) -> (r: Option<&Vec<Json>>)
        ensures
            match r {
                Some(v) => jv_as_arr(self.jv()) == Some(seq_jv(v@)),
                None => jv_as_arr(self.jv()) is None,
            },
    {
        match self {
            Json::Arr(v) => Some(v),
            _ => None,
        }
    }

    pub fn as_obj(&self) -> (r: Option<&Vec<(String, Json)>>)
        ensures
            match r {
                Some(v) => jv_as_obj(self.jv()) == Some(pairs_jv(v@)),
                None => jv_as_obj(self.jv()) is None,
            },
    {
        match self {
            Json::Obj(v) => Some(v),
            _ => None,
        }
    }

    pub fn is_null(&self) -> (r: bool)
        ensures
            r == (self.jv() is Null),
    {
        match self {
            Json::Null => true,
            _ => false,
        }
    }

    pub fn is_obj(&self) -> (r: bool)
        ensures
            r == (self.jv() is Obj),
    {
        match self {
            Json::Obj(_) => true,
            _ => false,
        }
    }

    /// A structurally equal copy.
    pub fn duplicate(&self) -> (r: Json)
        ensures
            r.jv() == self.jv(),
        decreases self,
    {
        broadcast use lemma_seq_jv_push, lemma_pairs_jv_push, lemma_seq_jv_props,
            lemma_pairs_jv_props;

        match self {
            Json::Null => Json::Null,
            Json::Bool(b) => Json::Bool(*b),
            Json::Int(i) => Json::Int(*i),
            Json::NumText(s) => Json::NumText(s.clone()),
            Json::Str(s) => Json::Str(s.clone()),
            Json::Arr(v) => {
                let mut out: Vec<Json> = Vec::new();
                let mut i: usize = 0;
                while i < v.len()
                    invariant
                        i <= v@.len(),
                        *self == Json::Arr(*v),
                        seq_jv(out@) == seq_jv(v@).take(i as int),
                    decreases v@.len() - i,
                {
                    proof {
                        broadcast use lemma_seq_jv_props, lemma_seq_jv_push;

                        assert(decreases_to!(*self => self->Arr_0));
                        assert(decreases_to!(*v => v@));
                        assert(decreases_to!(v@ => v@[i as int]));
                    }
                    let x = v[i].duplicate();
                    proof {
                        assert(seq_jv(v@).take(i + 1) =~= seq_jv(v@).take(i as int).push(
                            seq_jv(v@)[i as int],
                        ));
                    }
                    out.push(x);
                    i = i + 1;
                }
                proof {
                    assert(seq_jv(v@).take(v@.len() as int) =~= seq_jv(v@));
                }
                Json::Arr(out)
            },
            Json::Obj(v) => {
                let mut out: Vec<(String, Json)> = Vec::new();
                let mut i: usize = 0;
                while i < v.len()
                    invariant
                        i <= v@.len(),
                        *self == Json::Obj(*v),
                        pairs_jv(out@) == pairs_jv(v@).take(i as int),
                    decreases v@.len() - i,
                {
                    proof {
                        broadcast use lemma_pairs_jv_props, lemma_pairs_jv_push;

                        assert(decreases_to!(*self => self->Obj_0));
                        assert(decreases_to!(*v => v@));
                        assert(decreases_to!(v@ => v@[i as int]));
                        assert(decreases_to!(v@[i as int] => v@[i as int].1));
                    }
                    let k = v[i].0.clone();
                    let x = v[i].1.duplicate();
                    proof {
                        assert(pairs_jv(v@).take(i + 1) =~= pairs_jv(v@).take(i as int).push(
                            pairs_jv(v@)[i as int],
                        ));
                    }
                    out.push((k, x));
                    i = i + 1;
                }
                proof {
                    assert(pairs_jv(v@).take(v@.len() as int) =~= pairs_jv(v@));
                }
                Json::Obj(out)
            },
        }
    }

    /// A string value built from a string slice.
    pub fn str_of(s: &str) -> (r: Json)
        ensures
            r.jv() == Jv::Str(s@),
    {
        Json::Str(s.to_owned())
    }

    /// The empty object.
    pub fn obj_empty() -> (r: Json)
        ensures
            r.jv() == Jv::Obj(Seq::<(Seq<char>, Jv)>::empty()),
    {
        let r = Json::Obj(Vec::new());
        proof {
            assert(pairs_jv(Seq::<(String, Json)>::empty()) =~= Seq::<(Seq<char>, Jv)>::empty());
        }
        r
    }
}

/// Replace the first binding of `key` in a pair vector, or append one.
pub fn pairs_set(pairs: &mut Vec<(String, Json)>, key: String, val: Json)
    ensures
        pairs_jv(final(pairs)@) == spec_assoc_set(pairs_jv(old(pairs)@), key@, val.jv()),
{
    broadcast use lemma_pairs_jv_props;

    let ghost orig = pairs_jv(pairs@);
    let ghost kv = key@;
    let ghost vv = val.jv();
    let n = pairs.len();
    let mut i: usize = 0;
    while i < n
        invariant
            i <= n == pairs@.len(),
            orig == pairs_jv(pairs@),
            orig == pairs_jv(old(pairs)@),
            orig.len() == n,
            kv == key@,
            vv == val.jv(),
            forall|j: int| 0 <= j < i ==> orig[j].0 != kv,
        decreases n - i,
    {
        if crate::text::str_eq(pairs[i].0.as_str(), key.as_str()) {
            proof {
                lemma_pairs_jv_props(pairs@);
                assert(orig[i as int].0 == kv);
            }
            pairs.set(i, (key, val));
            proof {
                lemma_pairs_jv_props(pairs@);
                lemma_assoc_set_found(orig, kv, vv, i as int);
                assert(pairs_jv(pairs@) =~= orig.update(i as int, (kv, vv)));
            }
            return;
        }
        proof {
            lemma_pairs_jv_props(pairs@);
            assert(orig[i as int].0 != kv);
        }
        i = i + 1;
    }
    proof {
        lemma_assoc_set_missing(orig, kv, vv);
        lemma_pairs_jv_push(pairs@, (key, val));
    }
    pairs.push((key, val));
}

/// Remove every binding of `key` from a pair vector.
pub fn pairs_remove(pairs: &mut Vec<(String, Json)>, key: &str)
    ensures
        pairs_jv(final(pairs)@) == spec_assoc_remove(pairs_jv(old(pairs)@), key@),
{
    broadcast use lemma_pairs_jv_props;

    let ghost orig = pairs_jv(pairs@);
    let ghost kv = key@;
    let mut out: Vec<(String, Json)> = Vec::new();
    let n = pairs.len();
    let mut i: usize = 0;
    while i < n
        invariant
            i <= n == pairs@.len(),
            orig == pairs_jv(pairs@),
            kv == key@,
            pairs_jv(out@) == spec_assoc_remove(orig.take(i as int), kv),
        decreases n - i,
    {
        let keep = !crate::text::str_eq(pairs[i].0.as_str(), key);
        proof {
            lemma_pairs_jv_props(pairs@);
            assert(orig[i as int] == (pairs@[i as int].0@, pairs@[i as int].1.jv()));
            lemma_assoc_remove_take_step(orig, kv, i as int);
        }
        if keep {
            let k = pairs[i].0.clone();
            let v = pairs[i].1.duplicate();
            proof {
                lemma_pairs_jv_push(out@, (k, v));
            }
            out.push((k, v));
        }
        i = i + 1;
    }
    proof {
        assert(orig.take(n as int) =~= orig);
    }
    *pairs = out;
}

/// First value bound to `key` in a pair vector.
pub fn pairs_get<'a>(pairs: &'a Vec<(String, Json)>, key: &str) -> (r: Option<&'a Json>)
    ensures
        match r {
            Some(x) => spec_assoc_get(pairs_jv(pairs@), key@) == Some(x.jv()),
            None => spec_assoc_get(pairs_jv(pairs@), key@) is None,
        },
{
    broadcast use lemma_pairs_jv_props;

    let ghost pv = pairs_jv(pairs@);
    let mut i: usize = 0;
    while i < pairs.len()
        invariant
            i <= pairs@.len(),
            pv == pairs_jv(pairs@),
            forall|j: int| 0 <= j < i ==> pv[j].0 != key@,
        decreases pairs@.len() - i,
    {
        if crate::text::str_eq(pairs[i].0.as_str(), key) {
            proof {
                lemma_pairs_jv_props(pairs@);
                assert(pv[i as int].0 == key@);
                lemma_assoc_get_skip(pv, key@, i as int);
                assert(pv.skip(i as int)[0] == pv[i as int]);
            }
            return Some(&pairs[i].1);
        }
        proof {
            lemma_pairs_jv_props(pairs@);
            assert(pv[i as int].0 != key@);
        }
        i = i + 1;
    }
    proof {
        lemma_pairs_jv_props(pairs@);
        lemma_assoc_get_skip(pv, key@, pairs@.len() as int);
        assert(pv.skip(pairs@.len() as int) =~= Seq::<(Seq<char>, Jv)>::empty());
    }
    None
}

/// Index of the first binding of `key` in a pair vector.
pub fn pairs_index_of(pairs: &Vec<(String, Json)>, key: &str) -> (r: Option<usize>)
    ensures
        match r {
            Some(i) => i < pairs@.len() && pairs@[i as int].0@ == key@ && spec_assoc_get(
                pairs_jv(pairs@),
                key@,
            ) == Some(pairs@[i as int].1.jv()),
            None => spec_assoc_get(pairs_jv(pairs@), key@) is None,
        },
{
    broadcast use lemma_pairs_jv_props;

    let ghost pv = pairs_jv(pairs@);
    let mut i: usize = 0;
    while i < pairs.len()
        invariant
            i <= pairs@.len(),
            pv == pairs_jv(pairs@),
            forall|j: int| 0 <= j < i ==> pv[j].0 != key@,
        decreases pairs@.len() - i,
    {
        if crate::text::str_eq(pairs[i].0.as_str(), key) {
            proof {
                lemma_pairs_jv_props(pairs@);
                assert(pv[i as int].0 == key@);
                lemma_assoc_get_skip(pv, key@, i as int);
                assert(pv.skip(i as int)[0] == pv[i as int]);
            }
            return Some(i);
        }
        proof {
            lemma_pairs_jv_props(pairs@);
            assert(pv[i as int].0 != key@);
        }
        i = i + 1;
    }
    proof {
        lemma_pairs_jv_props(pairs@);
        lemma_assoc_get_skip(pv, key@, pairs@.len() as int);
        assert(pv.skip(pairs@.len() as int) =~= Seq::<(Seq<char>, Jv)>::empty());
    }
    None
}

/// Whether a pair vector binds `key`.
pub fn pairs_has(pairs: &Vec<(String, Json)>, key: &str) -> (r: bool)
    ensures
        r == spec_assoc_has(pairs_jv(pairs@), key@),
{
    broadcast use lemma_pairs_jv_props;

    let ghost pv = pairs_jv(pairs@);
    let mut i: usize = 0;
    while i < pairs.len()
        invariant
            i <= pairs@.len(),
            pv == pairs_jv(pairs@),
            forall|j: int| 0 <= j < i ==> pv[j].0 != key@,
        decreases pairs@.len() - i,
    {
        if crate::text::str_eq(pairs[i].0.as_str(), key) {
            proof {
                lemma_pairs_jv_props(pairs@);
                assert(pv[i as int].0 == key@);
                lemma_assoc_get_skip(pv, key@, i as int);
                assert(pv.skip(i as int)[0] == pv[i as int]);
            }
            return true;
        }
        proof {
            lemma_pairs_jv_props(pairs@);
            assert(pv[i as int].0 != key@);
        }
        i = i + 1;
    }
    proof {
        lemma_pairs_jv_props(pairs@);
        lemma_assoc_get_skip(pv, key@, pairs@.len() as int);
        assert(pv.skip(pairs@.len() as int) =~= Seq::<(Seq<char>, Jv)>::empty());
    }
    false
}

/// What JSON text decodes to, read into the library's model: the same text
/// always decodes to the same value, or to nothing when it is not JSON.
pub uninterp spec fn json_of_text(s: Seq<char>) -> Option<Jv>;

/// Relies on `serde_json::from_str::<serde_json::Value>`: parsing is a
/// function of the text alone; the parsed value is carried over into the
/// library's model by `json_of_value`.
#[verifier::external_body]
pub fn decode_json_text(s: &str) -> (r: Option<Json>)
    ensures
        match r {
            Some(j) => json_of_text(s@) == Some(j.jv()),
            None => json_of_text(s@) is None,
        },
{
    match serde_json::from_str::<serde_json::Value>(s) {
        Ok(v) => Some(json_of_value(&v)),
        Err(_) => None,
    }
}

/// The wire library's JSON value type, declared so the conversion below can
/// name it; the library never looks inside such a value itself.
#[verifier::external_type_specification]
#[verifier::external_body]
pub struct ExValue(serde_json::Value);

/// Relies on `serde_json::Value`'s shape alone: each variant is carried over
/// one for one; a number is kept as an `i64` when it is one and as its
/// literal text otherwise.
#[verifier::external_body]
fn json_of_value(v: &serde_json::Value) -> Json {
    match v {
        serde_json::Value::Null => Json::Null,
        serde_json::Value::Bool(b) => Json::Bool(*b),
        serde_json::Value::Number(n) => match n.as_i64() {
            Some(i) => Json::Int(i),
            None => Json::NumText(n.to_string()),
        },
        serde_json::Value::String(s) => Json::Str(s.clone()),
        serde_json::Value::Array(a) => Json::Arr(a.iter().map(json_of_value).collect()),
        serde_json::Value::Object(m) => Json::Obj(
            m.iter().map(|(k, x)| (k.clone(), json_of_value(x))).collect(),
        ),
    }
}

} // verus!
