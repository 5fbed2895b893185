//! Request/response correlation for one helper.
//!
//! Every outgoing request is assigned the next identifier from a counter that
//! starts at 1; the identifier joins the outstanding set until the matching
//! response (or a teardown) consumes it.  Identifiers are never reused within
//! a helper's lifetime; a shutdown clears the outstanding set and restarts
//! the counter at 1, so the next request goes out with identifier 1.

use vstd::prelude::*;

verus! {

/// The outstanding sequence with every occurrence of `id` removed.
pub open spec fn spec_remove_id(s: Seq<i64>, id: i64) -> Seq<i64>
    decreases s.len(),
{
    if s.len() == 0 {
        s
    } else if s[0] == id {
        spec_remove_id(s.skip(1), id)
    } else {
        seq![s[0]] + spec_remove_id(s.skip(1), id)
    }
}

pub struct CorrelationTable {
    /// The identifier the next request will carry.
    pub next_id: i64,
    /// Identifiers of requests whose reply is still owed.
    pub pending: Vec<i64>,
    /// Every identifier handed out in this lifetime.
    pub allocated: Ghost<Set<i64>>,
}

impl CorrelationTable {
    pub open spec fn wf(self) -> bool {
        &&& 1 <= self.next_id
        &&& forall|i: int|
            0 <= i < self.pending@.len() ==> 1 <= #[trigger] self.pending@[i] < self.next_id
        &&& forall|i: int, j: int|
            #![trigger self.pending@[i], self.pending@[j]]
            0 <= i < j < self.pending@.len() ==> self.pending@[i] != self.pending@[j]
        &&& forall|i: int|
            0 <= i < self.pending@.len() ==> self.allocated@.contains(#[trigger] self.pending@[i])
        &&& forall|id: i64| #[trigger] self.allocated@.contains(id) ==> 1 <= id < self.next_id
    }

    /// A fresh table: nothing outstanding, the counter at 1.
    pub fn new() -> (r: CorrelationTable)
        ensures
            r.wf(),
            r.next_id == 1,
            r.pending@ == Seq::<i64>::empty(),
            r.allocated@ == Set::<i64>::empty(),
    {
        CorrelationTable { next_id: 1, pending: Vec::new(), allocated: Ghost(Set::empty()) }
    }

    /// Allocate the identifier for one request: exactly one new outstanding
    /// entry is created, and the identifier was never handed out before.
    pub fn allocate(&mut self) -> (id: i64)
        requires
            old(self).wf(),
            old(self).next_id < i64::MAX,
        ensures
            final(self).wf(),
            id == old(self).next_id,
            !old(self).allocated@.contains(id),
            final(self).allocated@ == old(self).allocated@.insert(id),
            final(self).pending@ == old(self).pending@.push(id),
            final(self).next_id == old(self).next_id + 1,
    {
        let id = self.next_id;
        self.next_id = self.next_id + 1;
        self.pending.push(id);
        proof {
            self.allocated@ = self.allocated@.insert(id);
        }
        id
    }

    /// Consume the entry for `id`, reporting whether one was outstanding.
    pub fn settle(&mut self, id: i64) -> (found: bool)
        requires
            old(self).wf(),
        ensures
            final(self).wf(),
            found == old(self).pending@.contains(id),
            final(self).pending@ == spec_remove_id(old(self).pending@, id),
            final(self).next_id == old(self).next_id,
            final(self).allocated@ == old(self).allocated@,
    {
        let ghost orig = self.pending@;
        let mut out: Vec<i64> = Vec::new();
        let mut found: bool = false;
        let n = self.pending.len();
        let mut i: usize = 0;
        while i < n
            invariant
                i <= n == self.pending@.len(),
                orig == self.pending@,
                out@ == spec_remove_id(orig.take(i as int), id),
                found == orig.take(i as int).contains(id),
            decreases n - i,
        {
            let x = self.pending[i];
            proof {
                lemma_remove_id_take_step(orig, id, i as int);
                assert(orig.take(i as int + 1) =~= orig.take(i as int).push(orig[i as int]));
            }
            if x == id {
                found = true;
            } else {
                out.push(x);
                proof {
                    assert(out@ =~= spec_remove_id(orig.take(i as int), id).push(orig[i as int]));
                }
            }
            i = i + 1;
            proof {
                if found && !orig.take(i as int - 1).contains(id) && orig[i as int - 1] == id {
                    assert(orig.take(i as int)[i as int - 1] == id);
                }
            }
        }
        proof {
            assert(orig.take(n as int) =~= orig);
            lemma_remove_id_membership(orig, id);
            lemma_remove_id_nodup(orig, id);
            assert forall|w: int|
                0 <= w < out@.len() implies 1 <= out@[w] < self.next_id && self.allocated@.contains(
                out@[w],
            ) by {
                assert(orig.contains(out@[w]));
                let k = choose|k: int| 0 <= k < orig.len() && orig[k] == out@[w];
                assert(self.pending@[k] == out@[w]);
            }
        }
        self.pending = out;
        found
    }

    /// Whether a reply to `id` is still owed.
    pub fn is_pending(&self, id: i64) -> (r: bool)
        ensures
            r == self.pending@.contains(id),
    {
        let n = self.pending.len();
        let mut i: usize = 0;
        while i < n
            invariant
                i <= n == self.pending@.len(),
                forall|j: int| 0 <= j < i ==> self.pending@[j] != id,
            decreases n - i,
        {
            if self.pending[i] == id {
                return true;
            }
            i = i + 1;
        }
        false
    }

    /// Tear down: every outstanding entry is handed back, to be failed with a
    /// synthetic error, and nothing stays outstanding.
    pub fn drain(&mut self) -> (ids: Vec<i64>)
        requires
            old(self).wf(),
        ensures
            final(self).wf(),
            ids@ == old(self).pending@,
            final(self).pending@ == Seq::<i64>::empty(),
            final(self).next_id == old(self).next_id,
            final(self).allocated@ == old(self).allocated@,
    {
        let mut out: Vec<i64> = Vec::new();
        std::mem::swap(&mut out, &mut self.pending);
        out
    }

    /// Shutdown: no correlation entry survives and the counter restarts, so a
    /// subsequent request is numbered 1 again.
    pub fn reset(&mut self)
        ensures
            final(self).wf(),
            final(self).next_id == 1,
            final(self).pending@ == Seq::<i64>::empty(),
            final(self).allocated@ == Set::<i64>::empty(),
    {
        self.next_id = 1;
        self.pending = Vec::new();
        proof {
            self.allocated@ = Set::empty();
        }
    }
}

proof fn lemma_remove_id_push(s: Seq<i64>, x: i64, id: i64)
    ensures
        spec_remove_id(s.push(x), id) == if x == id {
            spec_remove_id(s, id)
        } else {
            spec_remove_id(s, id).push(x)
        },
    decreases s.len(),
{
    if s.len() == 0 {
        assert(s.push(x)[0] == x);
        assert(s.push(x).skip(1) =~= Seq::<i64>::empty());
        if x == id {
            assert(spec_remove_id(s.push(x), id) == spec_remove_id(s.push(x).skip(1), id));
            assert(spec_remove_id(s.push(x).skip(1), id) =~= s);
        } else {
            assert(seq![x] + spec_remove_id(s.push(x).skip(1), id) =~= spec_remove_id(s, id).push(
                x,
            ));
        }
    } else {
        assert(s.push(x).skip(1) =~= s.skip(1).push(x));
        lemma_remove_id_push(s.skip(1), x, id);
        assert(s.push(x)[0] == s[0]);
        if s[0] != id && x != id {
            assert(seq![s[0]] + spec_remove_id(s.skip(1), id).push(x) =~= (seq![s[0]]
                + spec_remove_id(s.skip(1), id)).push(x));
        }
    }
}

proof fn lemma_remove_id_take_step(s: Seq<i64>, id: i64, i: int)
    requires
        0 <= i < s.len(),
    ensures
        spec_remove_id(s.take(i + 1), id) == if s[i] == id {
            spec_remove_id(s.take(i), id)
        } else {
            spec_remove_id(s.take(i), id).push(s[i])
        },
{
    lemma_remove_id_push(s.take(i), s[i], id);
    assert(s.take(i + 1) =~= s.take(i).push(s[i]));
}

/// Every survivor of a removal was present before it.
proof fn lemma_remove_id_membership(s: Seq<i64>, id: i64)
    ensures
        forall|w: int|
            0 <= w < spec_remove_id(s, id).len() ==> s.contains(#[trigger] spec_remove_id(s, id)[w]),
    decreases s.len(),
{
    if s.len() > 0 {
        lemma_remove_id_membership(s.skip(1), id);
        let t = spec_remove_id(s, id);
        if s[0] == id {
            assert(t == spec_remove_id(s.skip(1), id));
            assert forall|w: int| 0 <= w < t.len() implies s.contains(t[w]) by {
                assert(s.skip(1).contains(spec_remove_id(s.skip(1), id)[w]));
                let k = choose|k: int| 0 <= k < s.skip(1).len() && s.skip(1)[k] == t[w];
                assert(s[k + 1] == t[w]);
            }
        } else {
            assert(t == seq![s[0]] + spec_remove_id(s.skip(1), id));
            assert forall|w: int| 0 <= w < t.len() implies s.contains(t[w]) by {
                if w == 0 {
                    assert(t[0] == s[0]);
                } else {
                    assert(t[w] == spec_remove_id(s.skip(1), id)[w - 1]);
                    assert(s.skip(1).contains(t[w]));
                    let k = choose|k: int| 0 <= k < s.skip(1).len() && s.skip(1)[k] == t[w];
                    assert(s[k + 1] == t[w]);
                }
            }
        }
    }
}

/// Removal keeps distinctness.
proof fn lemma_remove_id_nodup(s: Seq<i64>, id: i64)
    requires
        forall|i: int, j: int|
            #![trigger s[i], s[j]]
            0 <= i < j < s.len() ==> s[i] != s[j],
    ensures
        forall|i: int, j: int|
            #![trigger spec_remove_id(s, id)[i], spec_remove_id(s, id)[j]]
            0 <= i < j < spec_remove_id(s, id).len() ==> spec_remove_id(s, id)[i]
                != spec_remove_id(s, id)[j],
    decreases s.len(),
{
    if s.len() > 0 {
        assert forall|i: int, j: int|
            #![trigger s.skip(1)[i], s.skip(1)[j]]
            0 <= i < j < s.skip(1).len() implies s.skip(1)[i] != s.skip(1)[j] by {
            assert(s.skip(1)[i] == s[i + 1]);
            assert(s.skip(1)[j] == s[j + 1]);
        }
        lemma_remove_id_nodup(s.skip(1), id);
        lemma_remove_id_membership(s.skip(1), id);
        let t = spec_remove_id(s, id);
        if s[0] != id {
            let u = spec_remove_id(s.skip(1), id);
            assert(t == seq![s[0]] + u);
            assert forall|i: int, j: int|
                #![trigger t[i], t[j]]
                0 <= i < j < t.len() implies t[i] != t[j] by {
                if i == 0 {
                    assert(t[j] == u[j - 1]);
                    assert(s.skip(1).contains(u[j - 1]));
                    let k = choose|k: int| 0 <= k < s.skip(1).len() && s.skip(1)[k] == u[j - 1];
                    assert(s[k + 1] == u[j - 1]);
                    assert(s[0] != s[k + 1]);
                } else {
                    assert(t[i] == u[i - 1]);
                    assert(t[j] == u[j - 1]);
                }
            }
        }
    }
}

/// A consumed entry is gone for good: removing `id` leaves no occurrence of
/// it, removing it again changes nothing, and no other identifier is touched.
pub proof fn lemma_remove_id_consumes(s: Seq<i64>, id: i64, other: i64)
    ensures
        !spec_remove_id(s, id).contains(id),
        spec_remove_id(spec_remove_id(s, id), id) == spec_remove_id(s, id),
        other != id ==> (spec_remove_id(s, id).contains(other) == s.contains(other)),
    decreases s.len(),
{
    if s.len() == 0 {
        assert(spec_remove_id(spec_remove_id(s, id), id) == spec_remove_id(s, id));
    } else {
        lemma_remove_id_consumes(s.skip(1), id, other);
        let t = spec_remove_id(s, id);
        if s[0] == id {
            if other != id {
                if s.contains(other) {
                    let w = choose|w: int| 0 <= w < s.len() && s[w] == other;
                    assert(s.skip(1)[w - 1] == other);
                }
                if s.skip(1).contains(other) {
                    let w = choose|w: int| 0 <= w < s.skip(1).len() && s.skip(1)[w] == other;
                    assert(s[w + 1] == other);
                }
            }
        } else {
            assert(t == seq![s[0]] + spec_remove_id(s.skip(1), id));
            assert(t[0] == s[0]);
            assert(t.skip(1) =~= spec_remove_id(s.skip(1), id));
            assert forall|w: int| 0 <= w < t.len() implies t[w] != id by {
                if w > 0 {
                    assert(t[w] == spec_remove_id(s.skip(1), id)[w - 1]);
                }
            }
            assert(spec_remove_id(t, id) == seq![t[0]] + spec_remove_id(t.skip(1), id));
            if other != id {
                if s.contains(other) && s[0] != other {
                    let w = choose|w: int| 0 <= w < s.len() && s[w] == other;
                    assert(s.skip(1)[w - 1] == other);
                }
                if t.contains(other) && t[0] != other {
                    let w = choose|w: int| 0 <= w < t.len() && t[w] == other;
                    assert(t.skip(1)[w - 1] == other);
                }
                if s.skip(1).contains(other) {
                    let w = choose|w: int| 0 <= w < s.skip(1).len() && s.skip(1)[w] == other;
                    assert(s[w + 1] == other);
                }
                if spec_remove_id(s.skip(1), id).contains(other) {
                    let w = choose|w: int|
                        0 <= w < spec_remove_id(s.skip(1), id).len() && spec_remove_id(
                            s.skip(1),
                            id,
                        )[w] == other;
                    assert(t[w + 1] == other);
                }
            }
        }
    }
}

/// One request, one entry, consumed exactly once: allocating appends exactly
/// one outstanding entry for a fresh identifier; settling that identifier
/// removes it, restores the previous outstanding set, and a second settle
/// finds nothing.
pub proof fn lemma_entry_created_and_consumed_once(p: Seq<i64>, id: i64)
    requires
        !p.contains(id),
    ensures
        p.push(id).len() == p.len() + 1,
        p.push(id).contains(id),
        spec_remove_id(p.push(id), id) == p,
        !spec_remove_id(p.push(id), id).contains(id),
        spec_remove_id(spec_remove_id(p.push(id), id), id) == spec_remove_id(p.push(id), id),
    decreases p.len(),
{
    lemma_remove_id_push(p, id, id);
    lemma_remove_id_consumes(p.push(id), id, id);
    assert(p.push(id)[p.len() as int] == id);
    lemma_remove_id_noop(p, id);
}

proof fn lemma_remove_id_noop(s: Seq<i64>, id: i64)
    requires
        !s.contains(id),
    ensures
        spec_remove_id(s, id) == s,
    decreases s.len(),
{
    if s.len() > 0 {
        assert(s[0] != id);
        if s.skip(1).contains(id) {
            let w = choose|w: int| 0 <= w < s.skip(1).len() && s.skip(1)[w] == id;
            assert(s[w + 1] == id);
        }
        lemma_remove_id_noop(s.skip(1), id);
        assert(seq![s[0]] + s.skip(1) =~= s);
    }
}

/// Identifier uniqueness within a helper's lifetime: no two outstanding
/// requests share an identifier, and the identifier the next request will
/// take was never handed out before.
pub proof fn lemma_identifier_uniqueness(t: CorrelationTable)
    requires
        t.wf(),
    ensures
        forall|i: int, j: int|
            #![trigger t.pending@[i], t.pending@[j]]
            0 <= i < j < t.pending@.len() ==> t.pending@[i] != t.pending@[j],
        !t.allocated@.contains(t.next_id),
{
}

} // verus!
