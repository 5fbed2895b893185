//! Small text utilities shared by the bridge modules: decimal rendering of
//! integers, ASCII case folding on bytes, prefix tests, and the few trusted
//! conversions between byte vectors, character vectors and `String`.

use vstd::prelude::*;

verus! {

/// Decimal digits of `n`, most significant first, as ASCII bytes.
pub open spec fn spec_dec_bytes(n: nat) -> Seq<u8>
    decreases n,
{
    if n < 10 {
        seq![(n + 0x30) as u8]
    } else {
        spec_dec_bytes(n / 10).push((n % 10 + 0x30) as u8)
    }
}

/// Decimal digits of `n` as characters.
pub open spec fn spec_dec_chars(n: nat) -> Seq<char> {
    spec_dec_bytes(n).map_values(|b: u8| b as char)
}

/// Render `n` in decimal as ASCII bytes, most significant digit first.
pub fn u64_to_dec_bytes(n: u64) -> (r: Vec<u8>)
    ensures
        r@ == spec_dec_bytes(n as nat),
        forall|i: int| 0 <= i < r@.len() ==> 0x30 <= #[trigger] r@[i] <= 0x39,
    decreases n,
{
    if n < 10 {
        let mut v: Vec<u8> = Vec::new();
        v.push((n as u8) + 0x30);
        v
    } else {
        let mut v = u64_to_dec_bytes(n / 10);
        v.push(((n % 10) as u8) + 0x30);
        v
    }
}

/// Render `n` in decimal as characters.
pub fn u64_to_dec_string(n: u64) -> (r: String)
    ensures
        r@ == spec_dec_chars(n as nat),
{
    let bytes = u64_to_dec_bytes(n);
    let s = ascii_bytes_to_string(&bytes);
    proof {
        assert(s@ =~= spec_dec_chars(n as nat));
    }
    s
}

/// Decimal rendering of a signed integer.
pub open spec fn spec_int_chars(i: int) -> Seq<char> {
    if i < 0 {
        seq!['-'] + spec_dec_chars((-i) as nat)
    } else {
        spec_dec_chars(i as nat)
    }
}

/// Render an `i64`, sign included.
pub fn i64_render(n: i64) -> (r: String)
    ensures
        r@ == spec_int_chars(n as int),
{
    if n >= 0 {
        let s = u64_to_dec_string(n as u64);
        proof {
            assert(s@ =~= spec_int_chars(n as int));
        }
        s
    } else {
        let magnitude: u64 = if n == i64::MIN {
            9223372036854775808u64
        } else {
            (-n) as u64
        };
        let digits = u64_to_dec_string(magnitude);
        let mut out: String = "-".to_owned();
        out.append(digits.as_str());
        proof {
            reveal_strlit("-");
            assert(out@ =~= spec_int_chars(n as int));
        }
        out
    }
}

/// ASCII lower-casing of one byte.
pub open spec fn spec_lower_byte(b: u8) -> u8 {
    if 0x41 <= b <= 0x5a {
        (b + 0x20) as u8
    } else {
        b
    }
}

/// ASCII lower-casing of a byte sequence.
pub open spec fn spec_lower_bytes(s: Seq<u8>) -> Seq<u8> {
    s.map_values(|b: u8| spec_lower_byte(b))
}

/// Lower-case the ASCII letters of a byte vector.
pub fn lower_ascii_bytes(s: &[u8]) -> (r: Vec<u8>)
    ensures
        r@ == spec_lower_bytes(s@),
{
    let mut out: Vec<u8> = Vec::new();
    let mut i: usize = 0;
    while i < s.len()
        invariant
            i <= s@.len(),
            out@ == spec_lower_bytes(s@).take(i as int),
        decreases s@.len() - i,
    {
        let b = s[i];
        if 0x41 <= b && b <= 0x5a {
            out.push(b + 0x20);
        } else {
            out.push(b);
        }
        i = i + 1;
        proof {
            assert(out@ =~= spec_lower_bytes(s@).take(i as int));
        }
    }
    proof {
        assert(out@ =~= spec_lower_bytes(s@));
    }
    out
}

/// Whether `p` is a prefix of `s`.
pub open spec fn spec_starts_with(s: Seq<u8>, p: Seq<u8>) -> bool {
    s.len() >= p.len() && s.take(p.len() as int) == p
}

/// Prefix test on byte slices.
pub fn bytes_start_with(s: &[u8], p: &[u8]) -> (r: bool)
    ensures
        r == spec_starts_with(s@, p@),
{
    if s.len() < p.len() {
        proof {
            assert(!spec_starts_with(s@, p@));
        }
        return false;
    }
    let mut i: usize = 0;
    while i < p.len()
        invariant
            i <= p@.len() <= s@.len(),
            forall|j: int| 0 <= j < i ==> s@[j] == p@[j],
        decreases p@.len() - i,
    {
        if s[i] != p[i] {
            proof {
                assert(s@.take(p@.len() as int)[i as int] != p@[i as int]);
            }
            return false;
        }
        i = i + 1;
    }
    proof {
        assert(s@.take(p@.len() as int) =~= p@);
    }
    true
}

/// Whether every byte of the sequence is ASCII.
pub open spec fn spec_all_ascii(s: Seq<u8>) -> bool {
    forall|i: int| 0 <= i < s.len() ==> #[trigger] s[i] < 0x80
}

/// A byte sequence read as characters, one character per byte.
pub open spec fn spec_bytes_as_chars(s: Seq<u8>) -> Seq<char> {
    s.map_values(|b: u8| b as char)
}

/// Relies on `String::from_utf8`: a vector of ASCII bytes is valid UTF-8 and
/// decodes to one character per byte.
#[verifier::external_body]
pub fn ascii_bytes_to_string(v: &Vec<u8>) -> (r: String)
    requires
        spec_all_ascii(v@),
    ensures
        r@ == spec_bytes_as_chars(v@),
{
    String::from_utf8(v.clone()).unwrap_or_default()
}

/// Relies on `String::from_iter` over `char`: collecting characters yields a
/// string whose characters are exactly the input sequence.
#[verifier::external_body]
pub fn string_from_chars(v: &Vec<char>) -> (r: String)
    ensures
        r@ == v@,
{
    v.iter().collect()
}

/// Relies on `str::chars`: the characters of a string, in order, as a vector.
#[verifier::external_body]
pub fn string_to_chars(s: &str) -> (r: Vec<char>)
    ensures
        r@ == s@,
{
    s.chars().collect()
}

/// Equality of two string slices by their characters.
pub fn str_eq(a: &str, b: &str) -> (r: bool)
    ensures
        r == (a@ == b@),
{
    let x: String = a.to_owned();
    let y: String = b.to_owned();
    x == y
}

/// Whether `p` is a prefix of `s`, as characters.
pub open spec fn spec_str_starts_with(s: Seq<char>, p: Seq<char>) -> bool {
    s.len() >= p.len() && s.take(p.len() as int) == p
}

/// Prefix test on string slices, character by character.
pub fn str_starts_with(s: &str, p: &str) -> (r: bool)
    ensures
        r == spec_str_starts_with(s@, p@),
{
    let sc = string_to_chars(s);
    let pc = string_to_chars(p);
    if sc.len() < pc.len() {
        proof {
            assert(!spec_str_starts_with(s@, p@));
        }
        return false;
    }
    let mut i: usize = 0;
    while i < pc.len()
        invariant
            i <= pc@.len() <= sc@.len(),
            sc@ == s@,
            pc@ == p@,
            forall|j: int| 0 <= j < i ==> s@[j] == p@[j],
        decreases pc@.len() - i,
    {
        if sc[i] != pc[i] {
            proof {
                assert(s@.take(p@.len() as int)[i as int] != p@[i as int]);
            }
            return false;
        }
        i = i + 1;
    }
    proof {
        assert(s@.take(p@.len() as int) =~= p@);
    }
    true
}

/// The characters of `s` from `from` (inclusive) to its end.
pub fn str_suffix(s: &str, from: usize) -> (r: String)
    requires
        from <= s@.len(),
    ensures
        r@ == s@.skip(from as int),
{
    let sc = string_to_chars(s);
    let mut out: Vec<char> = Vec::new();
    let mut i: usize = from;
    while i < sc.len()
        invariant
            from <= i <= sc@.len(),
            sc@ == s@,
            out@ == s@.subrange(from as int, i as int),
        decreases sc@.len() - i,
    {
        out.push(sc[i]);
        i = i + 1;
        proof {
            assert(out@ =~= s@.subrange(from as int, i as int));
        }
    }
    proof {
        assert(out@ =~= s@.skip(from as int));
    }
    string_from_chars(&out)
}

/// ASCII lower-casing of one character.
pub open spec fn spec_lower_char(c: char) -> char {
    if 65 <= c as u32 <= 90 {
        (((c as u32) + 32) as u8) as char
    } else {
        c
    }
}

/// ASCII lower-casing of a character sequence.
pub open spec fn spec_lower_chars(s: Seq<char>) -> Seq<char> {
    s.map_values(|c: char| spec_lower_char(c))
}

/// Lower-case one character.
pub fn lower_char(c: char) -> (r: char)
    ensures
        r == spec_lower_char(c),
{
    let code = c as u32;
    if 65 <= code && code <= 90 {
        ((code + 32) as u8) as char
    } else {
        c
    }
}

/// Lower-case the ASCII letters of a string.
pub fn lower_chars(s: &str) -> (r: String)
    ensures
        r@ == spec_lower_chars(s@),
{
    let sc = string_to_chars(s);
    let mut out: Vec<char> = Vec::new();
    let mut i: usize = 0;
    while i < sc.len()
        invariant
            i <= sc@.len(),
            sc@ == s@,
            out@ == spec_lower_chars(s@).take(i as int),
        decreases sc@.len() - i,
    {
        out.push(lower_char(sc[i]));
        i = i + 1;
        proof {
            assert(out@ =~= spec_lower_chars(s@).take(i as int));
        }
    }
    proof {
        assert(out@ =~= spec_lower_chars(s@));
    }
    string_from_chars(&out)
}

/// ASCII whitespace, as trimmed around loose parameter text.
pub open spec fn spec_is_ws_char(c: char) -> bool {
    c == ' ' || c == '\t' || c == '\r' || c == '\n'
}

pub open spec fn spec_trim_chars_front(s: Seq<char>) -> Seq<char>
    decreases s.len(),
{
    if s.len() > 0 && spec_is_ws_char(s[0]) {
        spec_trim_chars_front(s.skip(1))
    } else {
        s
    }
}

pub open spec fn spec_trim_chars_back(s: Seq<char>) -> Seq<char>
    decreases s.len(),
{
    if s.len() > 0 && spec_is_ws_char(s.last()) {
        spec_trim_chars_back(s.drop_last())
    } else {
        s
    }
}

/// A string without its leading and trailing ASCII whitespace.
pub open spec fn spec_trim_chars(s: Seq<char>) -> Seq<char> {
    spec_trim_chars_back(spec_trim_chars_front(s))
}

proof fn lemma_trim_chars_front_skip(s: Seq<char>, a: int)
    requires
        0 <= a <= s.len(),
        forall|j: int| 0 <= j < a ==> spec_is_ws_char(s[j]),
        a == s.len() || !spec_is_ws_char(s[a]),
    ensures
        spec_trim_chars_front(s) == s.skip(a),
    decreases a,
{
    if a == 0 {
        assert(s.skip(0) =~= s);
    } else {
        lemma_trim_chars_front_skip(s.skip(1), a - 1);
        assert(s.skip(1).skip(a - 1) =~= s.skip(a));
    }
}

proof fn lemma_trim_chars_back_take(s: Seq<char>, a: int)
    requires
        0 <= a <= s.len(),
        forall|j: int| a <= j < s.len() ==> spec_is_ws_char(s[j]),
        a == 0 || !spec_is_ws_char(s[a - 1]),
    ensures
        spec_trim_chars_back(s) == s.take(a),
    decreases s.len(),
{
    if a == s.len() {
        assert(s.take(a) =~= s);
    } else {
        lemma_trim_chars_back_take(s.drop_last(), a);
        assert(s.drop_last().take(a) =~= s.take(a));
    }
}

/// Strip ASCII whitespace from both ends.
pub fn trim_chars(s: &str) -> (r: String)
    ensures
        r@ == spec_trim_chars(s@),
{
    let sc = string_to_chars(s);
    let n = sc.len();
    let mut a: usize = 0;
    while a < n && (sc[a] == ' ' || sc[a] == '\t' || sc[a] == '\r' || sc[a] == '\n')
        invariant
            a <= n == sc@.len(),
            sc@ == s@,
            forall|j: int| 0 <= j < a ==> spec_is_ws_char(s@[j]),
        decreases n - a,
    {
        a = a + 1;
    }
    proof {
        lemma_trim_chars_front_skip(s@, a as int);
    }
    let mut b: usize = n;
    while b > a && (sc[b - 1] == ' ' || sc[b - 1] == '\t' || sc[b - 1] == '\r' || sc[b - 1]
        == '\n')
        invariant
            a <= b <= n == sc@.len(),
            sc@ == s@,
            spec_trim_chars_front(s@) == s@.skip(a as int),
            forall|j: int| b <= j < n ==> spec_is_ws_char(s@[j]),
        decreases b,
    {
        b = b - 1;
    }
    let mut out: Vec<char> = Vec::new();
    let mut i: usize = a;
    while i < b
        invariant
            a <= i <= b <= n == sc@.len(),
            sc@ == s@,
            out@ == s@.subrange(a as int, i as int),
        decreases b - i,
    {
        out.push(sc[i]);
        i = i + 1;
        proof {
            assert(out@ =~= s@.subrange(a as int, i as int));
        }
    }
    proof {
        let t = s@.skip(a as int);
        assert forall|j: int| b - a <= j < t.len() implies spec_is_ws_char(t[j]) by {
            assert(t[j] == s@[j + a]);
        }
        if b > a {
            assert(!spec_is_ws_char(t[b - a - 1]));
        }
        lemma_trim_chars_back_take(t, b as int - a as int);
        assert(t.take(b as int - a as int) =~= s@.subrange(a as int, b as int));
        assert(out@ =~= s@.subrange(a as int, b as int));
    }
    string_from_chars(&out)
}

/// Index of the last occurrence of `c`, if any.
pub open spec fn spec_last_index_of(s: Seq<char>, c: char) -> Option<int>
    decreases s.len(),
{
    if s.len() == 0 {
        None
    } else if s.last() == c {
        Some(s.len() - 1)
    } else {
        spec_last_index_of(s.drop_last(), c)
    }
}

proof fn lemma_last_index_at(s: Seq<char>, c: char, i: int)
    requires
        0 <= i < s.len(),
        s[i] == c,
        forall|j: int| i < j < s.len() ==> s[j] != c,
    ensures
        spec_last_index_of(s, c) == Some(i),
    decreases s.len(),
{
    if i < s.len() - 1 {
        lemma_last_index_at(s.drop_last(), c, i);
    }
}

proof fn lemma_last_index_none(s: Seq<char>, c: char)
    requires
        forall|j: int| 0 <= j < s.len() ==> s[j] != c,
    ensures
        spec_last_index_of(s, c) is None,
    decreases s.len(),
{
    if s.len() > 0 {
        lemma_last_index_none(s.drop_last(), c);
    }
}

/// Last occurrence of `c` in a character vector.
pub fn last_index_in(chars: &Vec<char>, c: char) -> (r: Option<usize>)
    ensures
        match r {
            Some(i) => i < chars@.len() && spec_last_index_of(chars@, c) == Some(i as int),
            None => spec_last_index_of(chars@, c) is None,
        },
{
    let mut i: usize = chars.len();
    while i > 0
        invariant
            i <= chars@.len(),
            forall|j: int| i <= j < chars@.len() ==> chars@[j] != c,
        decreases i,
    {
        i = i - 1;
        if chars[i] == c {
            proof {
                lemma_last_index_at(chars@, c, i as int);
            }
            return Some(i);
        }
    }
    proof {
        lemma_last_index_none(chars@, c);
    }
    None
}

} // verus!

