//! Rendering a `Json` tree as text.
//!
//! This is the library's own canonical rendering, used when an error payload
//! is embedded in a message: compact, double-quoted strings with `"`, `\`,
//! newline, carriage return, tab and other control characters escaped, and
//! no added whitespace.

use vstd::prelude::*;

use crate::json::{lemma_pairs_jv_props, lemma_seq_jv_props, pairs_jv, seq_jv, Json, Jv};
use crate::text::{i64_render, spec_int_chars, string_to_chars};

verus! {

/// One character, escaped for a JSON string literal.
pub open spec fn spec_escape_char(c: char) -> Seq<char> {
    if c == '"' {
        seq!['\\', '"']
    } else if c == '\\' {
        seq!['\\', '\\']
    } else if c == '\n' {
        seq!['\\', 'n']
    } else if c == '\r' {
        seq!['\\', 'r']
    } else if c == '\t' {
        seq!['\\', 't']
    } else if (c as u32) < 32 {
        seq!['\\', 'u', '0', '0', spec_hex_char((c as u32) as nat / 16), spec_hex_char(
            (c as u32) as nat % 16,
        )]
    } else {
        seq![c]
    }
}

/// A hexadecimal digit, lower case.
pub open spec fn spec_hex_char(d: nat) -> char {
    if d < 10 {
        ((d + 0x30) as u8) as char
    } else {
        ((d + 0x57) as u8) as char
    }
}

/// A string body, escaped.
pub open spec fn spec_escape(s: Seq<char>) -> Seq<char>
    decreases s.len(),
{
    if s.len() == 0 {
        Seq::empty()
    } else {
        spec_escape_char(s[0]) + spec_escape(s.skip(1))
    }
}

/// The canonical text of a value.
pub open spec fn spec_json_text(j: Jv) -> Seq<char>
    decreases j,
    via spec_json_text_decreases
{
    match j {
        Jv::Null => "null"@,
        Jv::Bool(b) => if b {
            "true"@
        } else {
            "false"@
        },
        Jv::Int(i) => spec_int_chars(i),
        Jv::NumText(s) => s,
        Jv::Str(s) => seq!['"'] + spec_escape(s) + seq!['"'],
        Jv::Arr(v) => seq!['['] + spec_join_arr(v) + seq![']'],
        Jv::Obj(p) => seq!['{'] + spec_join_obj(p) + seq!['}'],
    }
}

#[via_fn]
proof fn spec_json_text_decreases(j: Jv) {
    match j {
        Jv::Arr(v) => {
            assert(decreases_to!(j => v));
        },
        Jv::Obj(p) => {
            assert(decreases_to!(j => p));
        },
        _ => {},
    }
}

/// Array elements, comma separated.
pub open spec fn spec_join_arr(v: Seq<Jv>) -> Seq<char>
    decreases v,
    via spec_join_arr_decreases
{
    if v.len() == 0 {
        Seq::empty()
    } else if v.len() == 1 {
        spec_json_text(v[0])
    } else {
        spec_json_text(v[0]) + seq![','] + spec_join_arr(v.skip(1))
    }
}

#[via_fn]
proof fn spec_join_arr_decreases(v: Seq<Jv>) {
    if v.len() > 0 {
        assert(decreases_to!(v => v[0]));
    }
}

/// Object members, comma separated, each a quoted key, a colon and a value.
pub open spec fn spec_join_obj(p: Seq<(Seq<char>, Jv)>) -> Seq<char>
    decreases p,
    via spec_join_obj_decreases
{
    if p.len() == 0 {
        Seq::empty()
    } else if p.len() == 1 {
        spec_member(p[0])
    } else {
        spec_member(p[0]) + seq![','] + spec_join_obj(p.skip(1))
    }
}

/// One object member.
pub open spec fn spec_member(m: (Seq<char>, Jv)) -> Seq<char>
    decreases m,
    via spec_member_decreases
{
    seq!['"'] + spec_escape(m.0) + seq!['"', ':'] + spec_json_text(m.1)
}

#[via_fn]
proof fn spec_member_decreases(m: (Seq<char>, Jv)) {
    assert(decreases_to!(m => m.1));
}

#[via_fn]
proof fn spec_join_obj_decreases(p: Seq<(Seq<char>, Jv)>) {
    if p.len() > 0 {
        assert(decreases_to!(p => p[0]));
        assert(decreases_to!(p[0] => p[0].1));
    }
}

/// Append the escaped body of `s` to `out`.
fn push_escaped(out: &mut String, s: &str)
    ensures
        final(out)@ == old(out)@ + spec_escape(s@),
{
    let sc = string_to_chars(s);
    let n = sc.len();
    let mut i: usize = 0;
    proof {
        assert(old(out)@ + spec_escape(s@.take(0)) =~= old(out)@);
    }
    while i < n
        invariant
            i <= n == sc@.len(),
            sc@ == s@,
            out@ == old(out)@ + spec_escape(s@.take(i as int)),
        decreases n - i,
    {
        let c = sc[i];
        proof {
            lemma_escape_take_step(s@, i as int);
        }
        if c == '"' {
            out.append("\\\"");
            proof {
                reveal_strlit("\\\"");
                assert("\\\""@ =~= spec_escape_char(c));
            }
        } else if c == '\\' {
            out.append("\\\\");
            proof {
                reveal_strlit("\\\\");
                assert("\\\\"@ =~= spec_escape_char(c));
            }
        } else if c == '\n' {
            out.append("\\n");
            proof {
                reveal_strlit("\\n");
                assert("\\n"@ =~= spec_escape_char(c));
            }
        } else if c == '\r' {
            out.append("\\r");
            proof {
                reveal_strlit("\\r");
                assert("\\r"@ =~= spec_escape_char(c));
            }
        } else if c == '\t' {
            out.append("\\t");
            proof {
                reveal_strlit("\\t");
                assert("\\t"@ =~= spec_escape_char(c));
            }
        } else if (c as u32) < 32 {
            let code = c as u32;
            let hi: u32 = code / 16;
            let lo: u32 = code % 16;
            let hic: char = ((hi + 0x30) as u8) as char;
            let loc: char = if lo < 10 {
                ((lo + 0x30) as u8) as char
            } else {
                ((lo + 0x57) as u8) as char
            };
            let mut quad: Vec<char> = Vec::new();
            quad.push('\\');
            quad.push('u');
            quad.push('0');
            quad.push('0');
            quad.push(hic);
            quad.push(loc);
            let qs = crate::text::string_from_chars(&quad);
            out.append(qs.as_str());
            proof {
                assert(quad@ =~= spec_escape_char(c));
            }
        } else {
            let mut one: Vec<char> = Vec::new();
            one.push(c);
            let cs = crate::text::string_from_chars(&one);
            out.append(cs.as_str());
            proof {
                assert(one@ =~= spec_escape_char(c));
            }
        }
        i = i + 1;
        proof {
            assert(out@ =~= old(out)@ + spec_escape(s@.take(i as int)));
        }
    }
    proof {
        assert(s@.take(n as int) =~= s@);
    }
}

proof fn lemma_escape_take_step(s: Seq<char>, i: int)
    requires
        0 <= i < s.len(),
    ensures
        spec_escape(s.take(i + 1)) == spec_escape(s.take(i)) + spec_escape_char(s[i]),
{
    lemma_escape_push(s.take(i), s[i]);
    assert(s.take(i + 1) =~= s.take(i).push(s[i]));
}

proof fn lemma_escape_push(s: Seq<char>, c: char)
    ensures
        spec_escape(s.push(c)) == spec_escape(s) + spec_escape_char(c),
    decreases s.len(),
{
    if s.len() == 0 {
        assert(s.push(c)[0] == c);
        assert(s.push(c).skip(1) =~= Seq::<char>::empty());
        assert(spec_escape_char(c) + spec_escape(s.push(c).skip(1)) =~= spec_escape(s)
            + spec_escape_char(c));
    } else {
        assert(s.push(c).skip(1) =~= s.skip(1).push(c));
        lemma_escape_push(s.skip(1), c);
        assert(s.push(c)[0] == s[0]);
        assert(spec_escape_char(s[0]) + (spec_escape(s.skip(1)) + spec_escape_char(c))
            =~= (spec_escape_char(s[0]) + spec_escape(s.skip(1))) + spec_escape_char(c));
    }
}

/// Render a value as its canonical text.
pub fn json_to_text(j: &Json) -> (r: String)
    ensures
        r@ == spec_json_text(j.jv()),
    decreases j,
{
    match j {
        Json::Null => "null".to_owned(),
        Json::Bool(b) => if *b {
            "true".to_owned()
        } else {
            "false".to_owned()
        },
        Json::Int(i) => i64_render(*i),
        Json::NumText(s) => s.clone(),
        Json::Str(s) => {
            let mut out: String = "\"".to_owned();
            push_escaped(&mut out, s.as_str());
            out.append("\"");
            proof {
                reveal_strlit("\"");
                assert(out@ =~= spec_json_text(j.jv()));
            }
            out
        },
        Json::Arr(v) => {
            let mut out: String = "[".to_owned();
            let n = v.len();
            let mut i: usize = 0;
            proof {
                reveal_strlit("[");
                reveal_strlit("]");
                reveal_strlit(",");
                lemma_seq_jv_props(v@);
            }
            while i < n
                invariant
                    i <= n == v@.len(),
                    *j == Json::Arr(*v),
                    out@ == "["@ + spec_join_partial_arr(seq_jv(v@), i as int),
                decreases n - i,
            {
                proof {
                    reveal_strlit(",");
                    lemma_seq_jv_props(v@);
                    assert(decreases_to!(*j => j->Arr_0));
                    assert(decreases_to!(*v => v@));
                    assert(decreases_to!(v@ => v@[i as int]));
                }
                if i > 0 {
                    out.append(",");
                }
                let piece = json_to_text(&v[i]);
                out.append(piece.as_str());
                i = i + 1;
                proof {
                    lemma_join_partial_arr_step(seq_jv(v@), i as int - 1);
                    assert(out@ =~= "["@ + spec_join_partial_arr(seq_jv(v@), i as int));
                }
            }
            out.append("]");
            proof {
                lemma_seq_jv_props(v@);
                lemma_join_partial_arr_full(seq_jv(v@));
                assert(out@ =~= spec_json_text(j.jv()));
            }
            out
        },
        Json::Obj(p) => {
            let mut out: String = "{".to_owned();
            let n = p.len();
            let mut i: usize = 0;
            proof {
                reveal_strlit("{");
                reveal_strlit("}");
                reveal_strlit(",");
                lemma_pairs_jv_props(p@);
            }
            while i < n
                invariant
                    i <= n == p@.len(),
                    *j == Json::Obj(*p),
                    out@ == "{"@ + spec_join_partial_obj(pairs_jv(p@), i as int),
                decreases n - i,
            {
                proof {
                    reveal_strlit(",");
                    reveal_strlit("\"");
                    reveal_strlit("\":");
                    lemma_pairs_jv_props(p@);
                    assert(decreases_to!(*j => j->Obj_0));
                    assert(decreases_to!(*p => p@));
                    assert(decreases_to!(p@ => p@[i as int]));
                    assert(decreases_to!(p@[i as int] => p@[i as int].1));
                }
                if i > 0 {
                    out.append(",");
                }
                out.append("\"");
                push_escaped(&mut out, p[i].0.as_str());
                out.append("\":");
                let piece = json_to_text(&p[i].1);
                out.append(piece.as_str());
                i = i + 1;
                proof {
                    lemma_join_partial_obj_step(pairs_jv(p@), i as int - 1);
                    assert(spec_member(pairs_jv(p@)[i - 1]) =~= seq!['"'] + spec_escape(
                        p@[i - 1].0@,
                    ) + "\":"@ + spec_json_text(p@[i - 1].1.jv()));
                    assert(out@ =~= "{"@ + spec_join_partial_obj(pairs_jv(p@), i as int));
                }
            }
            out.append("}");
            proof {
                lemma_pairs_jv_props(p@);
                lemma_join_partial_obj_full(pairs_jv(p@));
                assert(out@ =~= spec_json_text(j.jv()));
            }
            out
        },
    }
}

/// The first `i` array elements, joined.
pub open spec fn spec_join_partial_arr(v: Seq<Jv>, i: int) -> Seq<char>
    decreases i,
{
    if i <= 0 {
        Seq::empty()
    } else if i == 1 {
        spec_json_text(v[0])
    } else {
        spec_join_partial_arr(v, i - 1) + seq![','] + spec_json_text(v[i - 1])
    }
}

proof fn lemma_join_partial_arr_step(v: Seq<Jv>, i: int)
    requires
        0 <= i < v.len(),
    ensures
        spec_join_partial_arr(v, i + 1) == if i == 0 {
            spec_join_partial_arr(v, i) + spec_json_text(v[i])
        } else {
            spec_join_partial_arr(v, i) + seq![','] + spec_json_text(v[i])
        },
{
    if i == 0 {
        assert(spec_join_partial_arr(v, 0) + spec_json_text(v[0]) =~= spec_json_text(v[0]));
    }
}

proof fn lemma_join_partial_arr_full(v: Seq<Jv>)
    ensures
        spec_join_partial_arr(v, v.len() as int) == spec_join_arr(v),
    decreases v.len(),
{
    if v.len() > 1 {
        lemma_join_partial_arr_full(v.skip(1));
        assert(spec_json_text(v[0]) + seq![','] + spec_join_partial_arr(v.skip(1), v.len() - 1)
            =~= spec_join_partial_arr(v, v.len() as int)) by {
            lemma_join_partial_shift_all(v, v.len() as int);
        }
    }
}

/// Joining the first `i` elements equals the head, a comma, then the first
/// `i - 1` elements of the tail, once there are at least two.
proof fn lemma_join_partial_shift_all(v: Seq<Jv>, i: int)
    requires
        2 <= i <= v.len(),
    ensures
        spec_join_partial_arr(v, i) == spec_json_text(v[0]) + seq![','] + spec_join_partial_arr(
            v.skip(1),
            i - 1,
        ),
    decreases i,
{
    if i == 2 {
        assert(v.skip(1)[0] == v[1]);
        assert(spec_join_partial_arr(v, 1) == spec_json_text(v[0]));
        assert(spec_join_partial_arr(v.skip(1), 1) == spec_json_text(v.skip(1)[0]));
        assert(spec_json_text(v[0]) + seq![','] + spec_json_text(v[1]) =~= spec_join_partial_arr(
            v,
            1,
        ) + seq![','] + spec_json_text(v[1]));
    } else {
        lemma_join_partial_shift_all(v, i - 1);
        assert(v.skip(1)[i - 2] == v[i - 1]);
        assert((spec_json_text(v[0]) + seq![','] + spec_join_partial_arr(v.skip(1), i - 2))
            + seq![','] + spec_json_text(v[i - 1]) =~= spec_json_text(v[0]) + seq![','] + (
        spec_join_partial_arr(v.skip(1), i - 2) + seq![','] + spec_json_text(v.skip(1)[i - 2])));
    }
}

/// The first `i` object members, joined.
pub open spec fn spec_join_partial_obj(p: Seq<(Seq<char>, Jv)>, i: int) -> Seq<char>
    decreases i,
{
    if i <= 0 {
        Seq::empty()
    } else if i == 1 {
        spec_member(p[0])
    } else {
        spec_join_partial_obj(p, i - 1) + seq![','] + spec_member(p[i - 1])
    }
}

proof fn lemma_join_partial_obj_step(p: Seq<(Seq<char>, Jv)>, i: int)
    requires
        0 <= i < p.len(),
    ensures
        spec_join_partial_obj(p, i + 1) == if i == 0 {
            spec_join_partial_obj(p, i) + spec_member(p[i])
        } else {
            spec_join_partial_obj(p, i) + seq![','] + spec_member(p[i])
        },
{
    if i == 0 {
        assert(spec_join_partial_obj(p, 0) + spec_member(p[0]) =~= spec_member(p[0]));
    }
}

proof fn lemma_join_partial_obj_full(p: Seq<(Seq<char>, Jv)>)
    ensures
        spec_join_partial_obj(p, p.len() as int) == spec_join_obj(p),
    decreases p.len(),
{
    if p.len() > 1 {
        lemma_join_partial_obj_full(p.skip(1));
        assert(spec_member(p[0]) + seq![','] + spec_join_partial_obj(p.skip(1), p.len() - 1)
            =~= spec_join_partial_obj(p, p.len() as int)) by {
            lemma_join_partial_obj_shift_all(p, p.len() as int);
        }
    }
}

proof fn lemma_join_partial_obj_shift_all(p: Seq<(Seq<char>, Jv)>, i: int)
    requires
        2 <= i <= p.len(),
    ensures
        spec_join_partial_obj(p, i) == spec_member(p[0]) + seq![','] + spec_join_partial_obj(
            p.skip(1),
            i - 1,
        ),
    decreases i,
{
    if i == 2 {
        assert(p.skip(1)[0] == p[1]);
        assert(spec_join_partial_obj(p, 1) == spec_member(p[0]));
        assert(spec_join_partial_obj(p.skip(1), 1) == spec_member(p.skip(1)[0]));
        assert(spec_member(p[0]) + seq![','] + spec_member(p[1]) =~= spec_join_partial_obj(
            p,
            1,
        ) + seq![','] + spec_member(p[1]));
    } else {
        lemma_join_partial_obj_shift_all(p, i - 1);
        assert(p.skip(1)[i - 2] == p[i - 1]);
        assert((spec_member(p[0]) + seq![','] + spec_join_partial_obj(p.skip(1), i - 2)) + seq![',']
            + spec_member(p[i - 1]) =~= spec_member(p[0]) + seq![','] + (spec_join_partial_obj(
            p.skip(1),
            i - 2,
        ) + seq![','] + spec_member(p.skip(1)[i - 2])));
    }
}

} // verus!
