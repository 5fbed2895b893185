//! Association sequences: the mathematical reading of the key/value vectors
//! used for JSON objects and for the pool's routing tables.
//!
//! Lookup is first-match; replacing rewrites the first binding in place;
//! removing drops every binding of the key.

use vstd::prelude::*;

verus! {

/// First value bound to `k`, if any.
pub open spec fn spec_assoc_get<V>(s: Seq<(Seq<char>, V)>, k: Seq<char>) -> Option<V>
    decreases s.len(),
{
    if s.len() == 0 {
        None
    } else if s[0].0 == k {
        Some(s[0].1)
    } else {
        spec_assoc_get(s.skip(1), k)
    }
}

/// Whether `k` is bound.
pub open spec fn spec_assoc_has<V>(s: Seq<(Seq<char>, V)>, k: Seq<char>) -> bool {
    spec_assoc_get(s, k) is Some
}

/// The sequence with the first binding of `k` replaced by `v`, or `(k, v)`
/// appended when `k` is unbound.
pub open spec fn spec_assoc_set<V>(s: Seq<(Seq<char>, V)>, k: Seq<char>, v: V) -> Seq<
    (Seq<char>, V),
>
    decreases s.len(),
{
    if s.len() == 0 {
        seq![(k, v)]
    } else if s[0].0 == k {
        seq![(k, v)] + s.skip(1)
    } else {
        seq![s[0]] + spec_assoc_set(s.skip(1), k, v)
    }
}

/// The sequence with every binding of `k` removed.
pub open spec fn spec_assoc_remove<V>(s: Seq<(Seq<char>, V)>, k: Seq<char>) -> Seq<(Seq<char>, V)>
    decreases s.len(),
{
    if s.len() == 0 {
        s
    } else if s[0].0 == k {
        spec_assoc_remove(s.skip(1), k)
    } else {
        seq![s[0]] + spec_assoc_remove(s.skip(1), k)
    }
}

/// Lookup past a prefix free of the key.
pub proof fn lemma_assoc_get_skip<V>(s: Seq<(Seq<char>, V)>, k: Seq<char>, i: int)
    requires
        0 <= i <= s.len(),
        forall|j: int| 0 <= j < i ==> s[j].0 != k,
    ensures
        spec_assoc_get(s, k) == spec_assoc_get(s.skip(i), k),
    decreases i,
{
    if i == 0 {
        assert(s.skip(0) =~= s);
    } else {
        assert(spec_assoc_get(s, k) == spec_assoc_get(s.skip(1), k));
        lemma_assoc_get_skip(s.skip(1), k, i - 1);
        assert(s.skip(1).skip(i - 1) =~= s.skip(i));
    }
}

/// Replacing rewrites the first matching binding in place.
pub proof fn lemma_assoc_set_found<V>(s: Seq<(Seq<char>, V)>, k: Seq<char>, v: V, i: int)
    requires
        0 <= i < s.len(),
        s[i].0 == k,
        forall|j: int| 0 <= j < i ==> s[j].0 != k,
    ensures
        spec_assoc_set(s, k, v) == s.update(i, (k, v)),
    decreases i,
{
    if i == 0 {
        assert(spec_assoc_set(s, k, v) == seq![(k, v)] + s.skip(1));
        assert(seq![(k, v)] + s.skip(1) =~= s.update(0, (k, v)));
    } else {
        lemma_assoc_set_found(s.skip(1), k, v, i - 1);
        assert(spec_assoc_set(s, k, v) == seq![s[0]] + spec_assoc_set(s.skip(1), k, v));
        assert(seq![s[0]] + s.skip(1).update(i - 1, (k, v)) =~= s.update(i, (k, v)));
    }
}

/// Binding an unbound key appends.
pub proof fn lemma_assoc_set_missing<V>(s: Seq<(Seq<char>, V)>, k: Seq<char>, v: V)
    requires
        forall|j: int| 0 <= j < s.len() ==> s[j].0 != k,
    ensures
        spec_assoc_set(s, k, v) == s.push((k, v)),
    decreases s.len(),
{
    if s.len() == 0 {
        assert(spec_assoc_set(s, k, v) =~= s.push((k, v)));
    } else {
        lemma_assoc_set_missing(s.skip(1), k, v);
        assert(seq![s[0]] + s.skip(1).push((k, v)) =~= s.push((k, v)));
    }
}

/// Removal seen one element at a time, from the back.
pub proof fn lemma_assoc_remove_push<V>(s: Seq<(Seq<char>, V)>, x: (Seq<char>, V), k: Seq<char>)
    ensures
        spec_assoc_remove(s.push(x), k) == if x.0 == k {
            spec_assoc_remove(s, k)
        } else {
            spec_assoc_remove(s, k).push(x)
        },
    decreases s.len(),
{
    if s.len() == 0 {
        assert(s.push(x)[0] == x);
        assert(s.push(x).skip(1) =~= Seq::<(Seq<char>, V)>::empty());
        if x.0 == k {
            assert(spec_assoc_remove(s.push(x), k) == spec_assoc_remove(s.push(x).skip(1), k));
            assert(spec_assoc_remove(s.push(x).skip(1), k) =~= s);
        } else {
            assert(spec_assoc_remove(s.push(x), k) == seq![s.push(x)[0]] + spec_assoc_remove(
                s.push(x).skip(1),
                k,
            ));
            assert(seq![x] + spec_assoc_remove(s.push(x).skip(1), k) =~= spec_assoc_remove(
                s,
                k,
            ).push(x));
        }
    } else {
        assert(s.push(x).skip(1) =~= s.skip(1).push(x));
        lemma_assoc_remove_push(s.skip(1), x, k);
        assert(s.push(x)[0] == s[0]);
        if s[0].0 == k {
            assert(spec_assoc_remove(s.push(x), k) == spec_assoc_remove(s.skip(1).push(x), k));
        } else {
            assert(spec_assoc_remove(s.push(x), k) == seq![s[0]] + spec_assoc_remove(
                s.skip(1).push(x),
                k,
            ));
            if x.0 != k {
                assert(seq![s[0]] + spec_assoc_remove(s.skip(1), k).push(x) =~= (seq![s[0]]
                    + spec_assoc_remove(s.skip(1), k)).push(x));
            }
        }
    }
}

/// Removal of a prefix extended by one element.
pub proof fn lemma_assoc_remove_take_step<V>(s: Seq<(Seq<char>, V)>, k: Seq<char>, i: int)
    requires
        0 <= i < s.len(),
    ensures
        spec_assoc_remove(s.take(i + 1), k) == if s[i].0 == k {
            spec_assoc_remove(s.take(i), k)
        } else {
            spec_assoc_remove(s.take(i), k).push(s[i])
        },
{
    lemma_assoc_remove_push(s.take(i), s[i], k);
    assert(s.take(i + 1) =~= s.take(i).push(s[i]));
}

/// What lookup sees after a replacement: the set key reads back as the new
/// value, every other key is untouched.
pub proof fn lemma_assoc_set_get<V>(s: Seq<(Seq<char>, V)>, k: Seq<char>, v: V, q: Seq<char>)
    ensures
        spec_assoc_get(spec_assoc_set(s, k, v), q) == if q == k {
            Some(v)
        } else {
            spec_assoc_get(s, q)
        },
    decreases s.len(),
{
    if s.len() == 0 {
        let t = spec_assoc_set(s, k, v);
        assert(t == seq![(k, v)]);
        assert(t[0] == (k, v));
        assert(t.skip(1) =~= Seq::<(Seq<char>, V)>::empty());
        if q == k {
            assert(spec_assoc_get(t, q) == Some(v));
        } else {
            assert(spec_assoc_get(t, q) == spec_assoc_get(t.skip(1), q));
            assert(spec_assoc_get(t, q) == None::<V>);
        }
    } else if s[0].0 == k {
        let t = seq![(k, v)] + s.skip(1);
        assert(spec_assoc_set(s, k, v) == t);
        assert(t[0] == (k, v));
        assert(t.skip(1) =~= s.skip(1));
        if q == k {
            assert(spec_assoc_get(t, q) == Some(v));
        } else {
            assert(spec_assoc_get(t, q) == spec_assoc_get(s.skip(1), q));
            assert(spec_assoc_get(s, q) == spec_assoc_get(s.skip(1), q));
        }
    } else {
        lemma_assoc_set_get(s.skip(1), k, v, q);
        let t = seq![s[0]] + spec_assoc_set(s.skip(1), k, v);
        assert(spec_assoc_set(s, k, v) == t);
        assert(t[0] == s[0]);
        assert(t.skip(1) =~= spec_assoc_set(s.skip(1), k, v));
        if q == s[0].0 {
            assert(spec_assoc_get(t, q) == Some(s[0].1));
            assert(spec_assoc_get(s, q) == Some(s[0].1));
        } else {
            assert(spec_assoc_get(t, q) == spec_assoc_get(t.skip(1), q));
            assert(spec_assoc_get(s, q) == spec_assoc_get(s.skip(1), q));
        }
    }
}

/// What lookup sees after a removal: the removed key is unbound, every other
/// key is untouched.
pub proof fn lemma_assoc_remove_get<V>(s: Seq<(Seq<char>, V)>, k: Seq<char>, q: Seq<char>)
    ensures
        spec_assoc_get(spec_assoc_remove(s, k), q) == if q == k {
            None::<V>
        } else {
            spec_assoc_get(s, q)
        },
    decreases s.len(),
{
    if s.len() == 0 {
    } else {
        lemma_assoc_remove_get(s.skip(1), k, q);
        if s[0].0 != k {
            let t = seq![s[0]] + spec_assoc_remove(s.skip(1), k);
            assert(t[0] == s[0]);
            assert(t.skip(1) =~= spec_assoc_remove(s.skip(1), k));
        }
    }
}

/// Replacing grows the sequence exactly when the key was unbound.
pub proof fn lemma_assoc_set_len<V>(s: Seq<(Seq<char>, V)>, k: Seq<char>, v: V)
    ensures
        spec_assoc_set(s, k, v).len() == if spec_assoc_has(s, k) {
            s.len() as int
        } else {
            s.len() as int + 1
        },
    decreases s.len(),
{
    if s.len() > 0 && s[0].0 != k {
        lemma_assoc_set_len(s.skip(1), k, v);
    }
}

/// Binding the same key and value twice is the same as binding it once.
pub proof fn lemma_assoc_set_idempotent<V>(s: Seq<(Seq<char>, V)>, k: Seq<char>, v: V)
    ensures
        spec_assoc_set(spec_assoc_set(s, k, v), k, v) == spec_assoc_set(s, k, v),
    decreases s.len(),
{
    if s.len() == 0 {
        let t = seq![(k, v)];
        assert(t[0].0 == k);
        assert(seq![(k, v)] + t.skip(1) =~= t);
    } else if s[0].0 == k {
        let t = seq![(k, v)] + s.skip(1);
        assert(t[0].0 == k);
        assert(seq![(k, v)] + t.skip(1) =~= t);
    } else {
        lemma_assoc_set_idempotent(s.skip(1), k, v);
        let t = seq![s[0]] + spec_assoc_set(s.skip(1), k, v);
        assert(t[0] == s[0]);
        assert(t.skip(1) =~= spec_assoc_set(s.skip(1), k, v));
        assert(seq![t[0]] + spec_assoc_set(t.skip(1), k, v) =~= t);
    }
}

} // verus!
