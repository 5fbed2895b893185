//! Byte framing of wire messages.
//!
//! Two framings coexist downstream: *length-prefixed* (an HTTP-style
//! `Content-Length: N` header block, a blank line, then exactly N payload
//! bytes) and *newline-delimited* (one payload per line).  A helper's read
//! side may also start in *auto* mode, where the first non-empty line decides:
//! a line opening with `{` or `[` is a newline-framed payload, anything else
//! is the first header line of a length-prefixed message.  Once detected the
//! read mode is sticky.
//!
//! Everything here works on byte buffers; the unverified shell only pumps
//! bytes between a child process and these functions.

use vstd::prelude::*;

use crate::text::{
    bytes_start_with, lower_ascii_bytes, spec_dec_bytes, spec_lower_bytes, spec_starts_with,
    u64_to_dec_bytes,
};

verus! {

/// A concrete wire framing.
#[derive(Clone, Copy, Debug, PartialEq, Eq, Structural)]
pub enum Framing {
    ContentLength,
    Newline,
}

/// The configured preference for a helper's framing.
#[derive(Clone, Copy, Debug, PartialEq, Eq, Structural)]
pub enum FramingPreference {
    Auto,
    ContentLength,
    Newline,
}

pub open spec fn spec_initial_read_mode(p: FramingPreference) -> Option<Framing> {
    match p {
        FramingPreference::Auto => None,
        FramingPreference::ContentLength => Some(Framing::ContentLength),
        FramingPreference::Newline => Some(Framing::Newline),
    }
}

impl FramingPreference {
    /// The read mode a fresh helper starts in: none (to be detected) in auto,
    /// otherwise the preferred framing.
    pub fn initial_read_mode(self) -> (r: Option<Framing>)
        ensures
            r == spec_initial_read_mode(self),
    {
        match self {
            FramingPreference::Auto => None,
            FramingPreference::ContentLength => Some(Framing::ContentLength),
            FramingPreference::Newline => Some(Framing::Newline),
        }
    }
}

/// The framing preference named by a configuration value: the value is
/// trimmed and lower-cased; `newline` and its synonyms pick newline framing,
/// `content-length` and its synonyms pick length-prefixed framing, and
/// everything else (the empty string and `auto` included) falls back to
/// auto-detection.
pub open spec fn spec_framing_preference_of(v: Seq<char>) -> FramingPreference {
    let t = crate::text::spec_lower_chars(crate::text::spec_trim_chars(v));
    if t == "newline"@ || t == "line"@ || t == "lines"@ {
        FramingPreference::Newline
    } else if t == "content-length"@ || t == "content_length"@ || t == "contentlength"@ || t
        == "cl"@ {
        FramingPreference::ContentLength
    } else {
        FramingPreference::Auto
    }
}

/// Parse a configured framing preference.
pub fn framing_preference_of(value: &str) -> (r: FramingPreference)
    ensures
        r == spec_framing_preference_of(value@),
{
    let trimmed = crate::text::trim_chars(value);
    let t = crate::text::lower_chars(trimmed.as_str());
    if crate::text::str_eq(t.as_str(), "newline") || crate::text::str_eq(t.as_str(), "line")
        || crate::text::str_eq(t.as_str(), "lines") {
        FramingPreference::Newline
    } else if crate::text::str_eq(t.as_str(), "content-length") || crate::text::str_eq(
        t.as_str(),
        "content_length",
    ) || crate::text::str_eq(t.as_str(), "contentlength") || crate::text::str_eq(
        t.as_str(),
        "cl",
    ) {
        FramingPreference::ContentLength
    } else {
        FramingPreference::Auto
    }
}

/// The framing used for writes: a fixed preference wins; in auto the detected
/// read mode is followed, defaulting to length-prefixed before detection.
pub open spec fn spec_write_mode(pref: FramingPreference, detected: Option<Framing>) -> Framing {
    match pref {
        FramingPreference::ContentLength => Framing::ContentLength,
        FramingPreference::Newline => Framing::Newline,
        FramingPreference::Auto => match detected {
            Some(m) => m,
            None => Framing::ContentLength,
        },
    }
}

pub fn write_mode(pref: FramingPreference, detected: Option<Framing>) -> (r: Framing)
    ensures
        r == spec_write_mode(pref, detected),
{
    match pref {
        FramingPreference::ContentLength => Framing::ContentLength,
        FramingPreference::Newline => Framing::Newline,
        FramingPreference::Auto => match detected {
            Some(m) => m,
            None => Framing::ContentLength,
        },
    }
}

// ---------------------------------------------------------------------------
// Encoding
// ---------------------------------------------------------------------------

/// The bytes of an ASCII string, one byte per character.
pub open spec fn spec_ascii(s: Seq<char>) -> Seq<u8> {
    s.map_values(|c: char| c as u8)
}

/// The header prefix of a length-prefixed frame.
pub open spec fn spec_cl_prefix() -> Seq<u8> {
    spec_ascii("Content-Length: "@)
}

/// Carriage return then line feed.
pub open spec fn spec_crlf() -> Seq<u8> {
    seq![13u8, 10u8]
}

/// The whole header block for a payload of `n` bytes.
pub open spec fn spec_cl_header(n: nat) -> Seq<u8> {
    spec_cl_prefix() + spec_dec_bytes(n) + spec_crlf() + spec_crlf()
}

/// A length-prefixed frame.
pub open spec fn spec_cl_frame(body: Seq<u8>) -> Seq<u8> {
    spec_cl_header(body.len()) + body
}

/// A newline-delimited frame.
pub open spec fn spec_nl_frame(body: Seq<u8>) -> Seq<u8> {
    body + seq![10u8]
}

/// The frame for a payload under the given framing.
pub open spec fn spec_frame(body: Seq<u8>, mode: Framing) -> Seq<u8> {
    match mode {
        Framing::ContentLength => spec_cl_frame(body),
        Framing::Newline => spec_nl_frame(body),
    }
}

/// The header prefix as a concrete vector.
fn cl_prefix_bytes() -> (r: Vec<u8>)
    ensures
        r@ == spec_cl_prefix(),
{
    let s = "Content-Length: ";
    proof {
        reveal_strlit("Content-Length: ");
    }
    let v = s.as_bytes_vec();
    proof {
        assert(s.is_ascii());
        assert(v@ =~= spec_cl_prefix());
    }
    v
}

/// Frame one payload for the wire.
pub fn encode_frame(body: &[u8], mode: Framing) -> (r: Vec<u8>)
    requires
        body@.len() <= u64::MAX,
    ensures
        r@ == spec_frame(body@, mode),
{
    match mode {
        Framing::ContentLength => {
            let mut out = cl_prefix_bytes();
            let mut digits = u64_to_dec_bytes(body.len() as u64);
            let ghost before_digits = out@;
            let mut i: usize = 0;
            while i < digits.len()
                invariant
                    i <= digits@.len(),
                    out@ == before_digits + digits@.take(i as int),
                decreases digits@.len() - i,
            {
                out.push(digits[i]);
                i = i + 1;
                proof {
                    assert(out@ =~= before_digits + digits@.take(i as int));
                }
            }
            proof {
                assert(digits@.take(digits@.len() as int) =~= digits@);
            }
            out.push(13);
            out.push(10);
            out.push(13);
            out.push(10);
            let ghost header = out@;
            let mut j: usize = 0;
            while j < body.len()
                invariant
                    j <= body@.len(),
                    out@ == header + body@.take(j as int),
                decreases body@.len() - j,
            {
                out.push(body[j]);
                j = j + 1;
                proof {
                    assert(out@ =~= header + body@.take(j as int));
                }
            }
            proof {
                assert(body@.take(body@.len() as int) =~= body@);
                assert(out@ =~= spec_cl_frame(body@));
            }
            out
        },
        Framing::Newline => {
            let mut out: Vec<u8> = Vec::new();
            let mut j: usize = 0;
            while j < body.len()
                invariant
                    j <= body@.len(),
                    out@ == body@.take(j as int),
                decreases body@.len() - j,
            {
                out.push(body[j]);
                j = j + 1;
                proof {
                    assert(out@ =~= body@.take(j as int));
                }
            }
            out.push(10);
            proof {
                assert(body@.take(body@.len() as int) =~= body@);
                assert(out@ =~= spec_nl_frame(body@));
            }
            out
        },
    }
}

// ---------------------------------------------------------------------------
// Decimal parsing for the Content-Length value
// ---------------------------------------------------------------------------

/// The numeric value of a digit string, most significant digit first.
pub open spec fn spec_dec_value(s: Seq<u8>) -> int
    decreases s.len(),
{
    if s.len() == 0 {
        0
    } else {
        spec_dec_value(s.drop_last()) * 10 + (s.last() - 0x30)
    }
}

/// Whether every byte is an ASCII digit.
pub open spec fn spec_all_digits(s: Seq<u8>) -> bool {
    forall|i: int| 0 <= i < s.len() ==> 0x30 <= #[trigger] s[i] <= 0x39
}

/// A digit string parses when it is non-empty, all digits, and its value fits
/// a `usize`.
pub open spec fn spec_parse_dec(s: Seq<u8>) -> Option<int> {
    if s.len() > 0 && spec_all_digits(s) && spec_dec_value(s) <= usize::MAX {
        Some(spec_dec_value(s))
    } else {
        None
    }
}

proof fn lemma_dec_value_step(s: Seq<u8>, i: int)
    requires
        0 <= i < s.len(),
    ensures
        spec_dec_value(s.take(i + 1)) == spec_dec_value(s.take(i)) * 10 + (s[i] - 0x30),
{
    assert(s.take(i + 1).drop_last() =~= s.take(i));
    assert(s.take(i + 1).last() == s[i]);
}

/// Parse an ASCII decimal number.
pub fn parse_dec(s: &[u8]) -> (r: Option<usize>)
    ensures
        match r {
            Some(v) => spec_parse_dec(s@) == Some(v as int),
            None => spec_parse_dec(s@) is None,
        },
{
    if s.len() == 0 {
        return None;
    }
    let mut acc: u128 = 0;
    let mut over: bool = false;
    let mut i: usize = 0;
    while i < s.len()
        invariant
            i <= s@.len(),
            spec_all_digits(s@.take(i as int)),
            !over ==> acc as int == spec_dec_value(s@.take(i as int)) && acc <= usize::MAX,
            over ==> spec_dec_value(s@.take(i as int)) > usize::MAX,
        decreases s@.len() - i,
    {
        let b = s[i];
        if b < 0x30 || b > 0x39 {
            proof {
                assert(!spec_all_digits(s@));
            }
            return None;
        }
        proof {
            assert(s@.take(i + 1).take(i as int) =~= s@.take(i as int));
            lemma_dec_value_step(s@, i as int);
        }
        if over {
            proof {
                assert(spec_dec_value(s@.take(i + 1)) >= spec_dec_value(s@.take(i as int)));
            }
        } else {
            let next: u128 = acc * 10 + ((b - 0x30) as u128);
            if next > usize::MAX as u128 {
                over = true;
            } else {
                acc = next;
            }
            proof {
                assert(spec_dec_value(s@.take(i + 1)) == spec_dec_value(s@.take(i as int)) * 10 + (
                b - 0x30));
            }
        }
        i = i + 1;
    }
    proof {
        assert(s@.take(s@.len() as int) =~= s@);
    }
    if over {
        None
    } else {
        Some(acc as usize)
    }
}

// ---------------------------------------------------------------------------
// Decoding
// ---------------------------------------------------------------------------

/// Index of the first occurrence of `b`, if any.
pub open spec fn spec_find_byte(s: Seq<u8>, b: u8) -> Option<int>
    decreases s.len(),
{
    if s.len() == 0 {
        None
    } else if s[0] == b {
        Some(0)
    } else {
        match spec_find_byte(s.skip(1), b) {
            Some(i) => Some(i + 1),
            None => None,
        }
    }
}

/// `spec_find_byte` finds the first occurrence.
pub proof fn lemma_find_byte(s: Seq<u8>, b: u8)
    ensures
        match spec_find_byte(s, b) {
            Some(i) => 0 <= i < s.len() && s[i] == b && forall|j: int| 0 <= j < i ==> s[j] != b,
            None => forall|j: int| 0 <= j < s.len() ==> s[j] != b,
        },
    decreases s.len(),
{
    if s.len() > 0 && s[0] != b {
        lemma_find_byte(s.skip(1), b);
        match spec_find_byte(s.skip(1), b) {
            Some(i) => {
                assert(s[i + 1] == s.skip(1)[i]);
                assert forall|j: int| 0 <= j < i + 1 implies s[j] != b by {
                    if j > 0 {
                        assert(s[j] == s.skip(1)[j - 1]);
                    }
                }
            },
            None => {
                assert forall|j: int| 0 <= j < s.len() implies s[j] != b by {
                    if j > 0 {
                        assert(s[j] == s.skip(1)[j - 1]);
                    }
                }
            },
        }
    }
}

/// Converse: a first occurrence determines `spec_find_byte`.
pub proof fn lemma_find_byte_at(s: Seq<u8>, b: u8, i: int)
    requires
        0 <= i < s.len(),
        s[i] == b,
        forall|j: int| 0 <= j < i ==> s[j] != b,
    ensures
        spec_find_byte(s, b) == Some(i),
    decreases i,
{
    if i > 0 {
        lemma_find_byte_at(s.skip(1), b, i - 1);
    }
}

pub proof fn lemma_find_byte_none(s: Seq<u8>, b: u8)
    requires
        forall|j: int| 0 <= j < s.len() ==> s[j] != b,
    ensures
        spec_find_byte(s, b) is None,
    decreases s.len(),
{
    if s.len() > 0 {
        lemma_find_byte_none(s.skip(1), b);
    }
}

/// A byte sequence without its trailing carriage returns.
pub open spec fn spec_trim_cr(s: Seq<u8>) -> Seq<u8>
    decreases s.len(),
{
    if s.len() > 0 && s.last() == 13 {
        spec_trim_cr(s.drop_last())
    } else {
        s
    }
}

/// ASCII whitespace, as trimmed around a header value.
pub open spec fn spec_is_ws(b: u8) -> bool {
    b == 32 || b == 9 || b == 13 || b == 10
}

pub open spec fn spec_trim_front(s: Seq<u8>) -> Seq<u8>
    decreases s.len(),
{
    if s.len() > 0 && spec_is_ws(s[0]) {
        spec_trim_front(s.skip(1))
    } else {
        s
    }
}

pub open spec fn spec_trim_back(s: Seq<u8>) -> Seq<u8>
    decreases s.len(),
{
    if s.len() > 0 && spec_is_ws(s.last()) {
        spec_trim_back(s.drop_last())
    } else {
        s
    }
}

pub open spec fn spec_trim_ws(s: Seq<u8>) -> Seq<u8> {
    spec_trim_back(spec_trim_front(s))
}

proof fn lemma_trim_front_skip(s: Seq<u8>, a: int)
    requires
        0 <= a <= s.len(),
        forall|j: int| 0 <= j < a ==> spec_is_ws(s[j]),
        a == s.len() || !spec_is_ws(s[a]),
    ensures
        spec_trim_front(s) == s.skip(a),
    decreases a,
{
    if a == 0 {
        assert(s.skip(0) =~= s);
    } else {
        lemma_trim_front_skip(s.skip(1), a - 1);
        assert(s.skip(1).skip(a - 1) =~= s.skip(a));
    }
}

proof fn lemma_trim_back_take(s: Seq<u8>, a: int)
    requires
        0 <= a <= s.len(),
        forall|j: int| a <= j < s.len() ==> spec_is_ws(s[j]),
        a == 0 || !spec_is_ws(s[a - 1]),
    ensures
        spec_trim_back(s) == s.take(a),
    decreases s.len(),
{
    if a == s.len() {
        assert(s.take(a) =~= s);
    } else {
        lemma_trim_back_take(s.drop_last(), a);
        assert(s.drop_last().take(a) =~= s.take(a));
    }
}

/// The lower-cased name of the one header that matters.
pub open spec fn spec_cl_key() -> Seq<u8> {
    spec_ascii("content-length:"@)
}

/// The value carried by a header line, when the line is a
/// `Content-Length` header (matched case-insensitively) whose value parses.
pub open spec fn spec_parse_content_length(line: Seq<u8>) -> Option<int> {
    let low = spec_lower_bytes(line);
    if spec_starts_with(low, spec_cl_key()) {
        spec_parse_dec(spec_trim_ws(low.skip(spec_cl_key().len() as int)))
    } else {
        None
    }
}

/// Result of scanning header lines up to the blank separator.
pub enum HeaderScan {
    /// No complete header block in the buffer yet.
    Incomplete,
    /// Blank line reached without any `Content-Length` header; the payload
    /// would start at the given remainder.
    NoLength(Seq<u8>),
    /// `Content-Length` found; the remainder follows the blank line.
    Length(int, Seq<u8>),
}

/// Scan header lines: each line runs to a line feed; a line that is empty
/// after stripping carriage returns ends the block; the first parseable
/// `Content-Length` header wins.
pub open spec fn spec_scan_headers(s: Seq<u8>, acc: Option<int>) -> HeaderScan
    decreases s.len(),
    via spec_scan_headers_decreases
{
    match spec_find_byte(s, 10) {
        None => HeaderScan::Incomplete,
        Some(i) => {
            let line = spec_trim_cr(s.take(i));
            let rest = s.skip(i + 1);
            if line.len() == 0 {
                match acc {
                    Some(n) => HeaderScan::Length(n, rest),
                    None => HeaderScan::NoLength(rest),
                }
            } else {
                let acc2 = if acc is Some {
                    acc
                } else {
                    spec_parse_content_length(line)
                };
                spec_scan_headers(rest, acc2)
            }
        },
    }
}

#[via_fn]
proof fn spec_scan_headers_decreases(s: Seq<u8>, acc: Option<int>) {
    lemma_find_byte(s, 10);
}

/// One attempt to decode a frame out of a buffer prefix.
pub enum SpecDecode {
    /// The buffer does not hold a whole frame yet.
    NeedMore,
    /// The header block ended without a `Content-Length` header.
    Malformed,
    /// A payload, and how many buffer bytes the frame occupied.
    Msg(Seq<u8>, int),
}

/// Decode one length-prefixed frame from the front of the buffer.
pub open spec fn spec_decode_cl(s: Seq<u8>) -> SpecDecode {
    match spec_scan_headers(s, None) {
        HeaderScan::Incomplete => SpecDecode::NeedMore,
        HeaderScan::NoLength(_) => SpecDecode::Malformed,
        HeaderScan::Length(n, rest) => if rest.len() < n {
            SpecDecode::NeedMore
        } else {
            SpecDecode::Msg(rest.take(n), s.len() - rest.len() + n)
        },
    }
}

/// Decode one newline-delimited frame: the first line, stripped of trailing
/// carriage returns.
pub open spec fn spec_decode_nl(s: Seq<u8>) -> SpecDecode {
    match spec_find_byte(s, 10) {
        None => SpecDecode::NeedMore,
        Some(i) => SpecDecode::Msg(spec_trim_cr(s.take(i)), i + 1),
    }
}

/// Drop complete blank lines from the front of the buffer.
pub open spec fn spec_skip_blank_lines(s: Seq<u8>) -> Seq<u8>
    decreases s.len(),
    via spec_skip_blank_lines_decreases
{
    match spec_find_byte(s, 10) {
        Some(i) => if spec_trim_cr(s.take(i)).len() == 0 {
            spec_skip_blank_lines(s.skip(i + 1))
        } else {
            s
        },
        None => s,
    }
}

#[via_fn]
proof fn spec_skip_blank_lines_decreases(s: Seq<u8>) {
    lemma_find_byte(s, 10);
}

/// Decode in auto mode: skip blank lines; a first line opening with `{` or
/// `[` is a newline-framed payload, anything else starts a length-prefixed
/// header block.  The framing is reported only when a payload is produced.
pub open spec fn spec_decode_auto(s: Seq<u8>) -> (SpecDecode, Option<Framing>) {
    let t = spec_skip_blank_lines(s);
    let skipped = s.len() - t.len();
    match spec_find_byte(t, 10) {
        None => (SpecDecode::NeedMore, None),
        Some(i) => {
            let line = spec_trim_cr(t.take(i));
            if line.len() > 0 && (line[0] == 123 || line[0] == 91) {
                (SpecDecode::Msg(line, skipped + i + 1), Some(Framing::Newline))
            } else {
                match spec_decode_cl(t) {
                    SpecDecode::Msg(b, c) => (
                        SpecDecode::Msg(b, c + skipped),
                        Some(Framing::ContentLength),
                    ),
                    other => (other, None),
                }
            }
        },
    }
}

/// What a decode attempt produced, executably.
#[derive(Debug, PartialEq, Eq)]
pub enum Decoded {
    NeedMore,
    Malformed,
    Msg { body: Vec<u8>, consumed: usize },
}

impl Decoded {
    /// The mathematical reading of this outcome.
    pub open spec fn dv(self) -> SpecDecode {
        match self {
            Decoded::NeedMore => SpecDecode::NeedMore,
            Decoded::Malformed => SpecDecode::Malformed,
            Decoded::Msg { body, consumed } => SpecDecode::Msg(body@, consumed as int),
        }
    }
}

/// First occurrence of `b` in `s` at or after `from`.
fn find_byte_from(s: &[u8], from: usize, b: u8) -> (r: Option<usize>)
    requires
        from <= s@.len(),
    ensures
        match r {
            Some(j) => from <= j < s@.len() && s@[j as int] == b && forall|k: int|
                from <= k < j ==> s@[k] != b,
            None => forall|k: int| from <= k < s@.len() ==> s@[k] != b,
        },
{
    let mut i: usize = from;
    while i < s.len()
        invariant
            from <= i <= s@.len(),
            forall|k: int| from <= k < i ==> s@[k] != b,
        decreases s@.len() - i,
    {
        if s[i] == b {
            return Some(i);
        }
        i = i + 1;
    }
    None
}

/// Copy `s[from..to]` into a fresh vector.
fn copy_range(s: &[u8], from: usize, to: usize) -> (r: Vec<u8>)
    requires
        from <= to <= s@.len(),
    ensures
        r@ == s@.subrange(from as int, to as int),
{
    let mut out: Vec<u8> = Vec::new();
    let mut i: usize = from;
    while i < to
        invariant
            from <= i <= to <= s@.len(),
            out@ == s@.subrange(from as int, i as int),
        decreases to - i,
    {
        out.push(s[i]);
        i = i + 1;
        proof {
            assert(out@ =~= s@.subrange(from as int, i as int));
        }
    }
    out
}

/// Strip trailing carriage returns in place.
fn trim_cr_vec(v: &mut Vec<u8>)
    ensures
        final(v)@ == spec_trim_cr(old(v)@),
{
    loop
        invariant
            spec_trim_cr(v@) == spec_trim_cr(old(v)@),
        decreases v@.len(),
    {
        let n = v.len();
        if n == 0 {
            return;
        }
        if v[n - 1] != 13 {
            return;
        }
        proof {
            assert(v@.drop_last() =~= v@.take(n - 1));
        }
        v.pop();
    }
}

/// The header key as a concrete vector.
fn cl_key_bytes() -> (r: Vec<u8>)
    ensures
        r@ == spec_cl_key(),
{
    let s = "content-length:";
    proof {
        reveal_strlit("content-length:");
    }
    let v = s.as_bytes_vec();
    proof {
        assert(s.is_ascii());
        assert(v@ =~= spec_cl_key());
    }
    v
}

/// Strip ASCII whitespace from both ends.
fn trim_ws_slice(s: &[u8]) -> (r: Vec<u8>)
    ensures
        r@ == spec_trim_ws(s@),
{
    let n = s.len();
    let mut a: usize = 0;
    while a < n && (s[a] == 32 || s[a] == 9 || s[a] == 13 || s[a] == 10)
        invariant
            a <= n == s@.len(),
            forall|j: int| 0 <= j < a ==> spec_is_ws(s@[j]),
        decreases n - a,
    {
        a = a + 1;
    }
    proof {
        lemma_trim_front_skip(s@, a as int);
    }
    let mut b: usize = n;
    while b > a && (s[b - 1] == 32 || s[b - 1] == 9 || s[b - 1] == 13 || s[b - 1] == 10)
        invariant
            a <= b <= n == s@.len(),
            spec_trim_front(s@) == s@.skip(a as int),
            forall|j: int| b <= j < n ==> spec_is_ws(s@[j]),
        decreases b,
    {
        b = b - 1;
    }
    let r = copy_range(s, a, b);
    proof {
        let t = s@.skip(a as int);
        assert forall|j: int| b - a <= j < t.len() implies spec_is_ws(t[j]) by {
            assert(t[j] == s@[j + a]);
        }
        if b > a {
            assert(!spec_is_ws(t[b - a - 1]));
        }
        lemma_trim_back_take(t, b as int - a as int);
        assert(t.take(b as int - a as int) =~= s@.subrange(a as int, b as int));
    }
    r
}

/// Read the value of a `Content-Length` header line, if this is one.
fn parse_content_length_line(line: &[u8]) -> (r: Option<usize>)
    ensures
        match r {
            Some(v) => spec_parse_content_length(line@) == Some(v as int),
            None => spec_parse_content_length(line@) is None,
        },
{
    let low = lower_ascii_bytes(line);
    let key = cl_key_bytes();
    if !bytes_start_with(low.as_slice(), key.as_slice()) {
        return None;
    }
    proof {
        assert(spec_cl_key().len() == 15) by {
            reveal_strlit("content-length:");
        }
    }
    let tail = copy_range(low.as_slice(), 15, low.len());
    proof {
        assert(tail@ =~= spec_lower_bytes(line@).skip(spec_cl_key().len() as int));
    }
    let trimmed = trim_ws_slice(tail.as_slice());
    parse_dec(trimmed.as_slice())
}

/// Decode one length-prefixed frame from the front of `buf`.
pub fn decode_cl(buf: &[u8]) -> (r: Decoded)
    ensures
        r.dv() == spec_decode_cl(buf@),
{
    let blen = buf.len();
    proof {
        assert(buf@.skip(0) =~= buf@);
    }
    let mut pos: usize = 0;
    let mut acc: Option<usize> = None;
    loop
        invariant
            blen == buf@.len(),
            pos <= buf@.len(),
            spec_scan_headers(buf@, None) == spec_scan_headers(
                buf@.skip(pos as int),
                match acc {
                    Some(v) => Some(v as int),
                    None => None,
                },
            ),
        decreases buf@.len() - pos,
    {
        let ghost tail = buf@.skip(pos as int);
        let found = find_byte_from(buf, pos, 10);
        match found {
            None => {
                proof {
                    assert forall|k: int| 0 <= k < tail.len() implies tail[k] != 10 by {
                        assert(tail[k] == buf@[k + pos]);
                    }
                    lemma_find_byte_none(tail, 10);
                }
                return Decoded::NeedMore;
            },
            Some(j) => {
                proof {
                    assert forall|k: int| 0 <= k < j - pos implies tail[k] != 10 by {
                        assert(tail[k] == buf@[k + pos]);
                    }
                    assert(tail[j - pos] == 10);
                    lemma_find_byte_at(tail, 10, j - pos);
                }
                let mut line = copy_range(buf, pos, j);
                proof {
                    assert(line@ =~= tail.take(j - pos));
                }
                trim_cr_vec(&mut line);
                let ghost rest = tail.skip(j - pos + 1);
                if line.len() == 0 {
                    match acc {
                        None => {
                            return Decoded::Malformed;
                        },
                        Some(n) => {
                            if buf.len() - (j + 1) >= n {
                                let body = copy_range(buf, j + 1, j + 1 + n);
                                proof {
                                    assert(rest =~= buf@.skip(j + 1));
                                    assert(body@ =~= rest.take(n as int));
                                }
                                return Decoded::Msg { body, consumed: j + 1 + n };
                            } else {
                                proof {
                                    assert(rest =~= buf@.skip(j + 1));
                                }
                                return Decoded::NeedMore;
                            }
                        },
                    }
                } else {
                    let acc2: Option<usize> = match acc {
                        Some(v) => Some(v),
                        None => parse_content_length_line(line.as_slice()),
                    };
                    proof {
                        assert(rest =~= buf@.skip(j + 1));
                    }
                    acc = acc2;
                    pos = j + 1;
                }
            },
        }
    }
}

/// Decode one newline-delimited frame from the front of `buf`.
pub fn decode_nl(buf: &[u8]) -> (r: Decoded)
    ensures
        r.dv() == spec_decode_nl(buf@),
{
    let blen = buf.len();
    let found = find_byte_from(buf, 0, 10);
    match found {
        None => {
            proof {
                lemma_find_byte_none(buf@, 10);
            }
            Decoded::NeedMore
        },
        Some(j) => {
            proof {
                lemma_find_byte_at(buf@, 10, j as int);
            }
            let mut line = copy_range(buf, 0, j);
            proof {
                assert(line@ =~= buf@.take(j as int));
            }
            trim_cr_vec(&mut line);
            Decoded::Msg { body: line, consumed: j + 1 }
        },
    }
}

/// Decode in auto mode; also report the framing detected on success.
pub fn decode_auto(buf: &[u8]) -> (r: (Decoded, Option<Framing>))
    ensures
        (r.0.dv(), r.1) == spec_decode_auto(buf@),
{
    let blen = buf.len();
    proof {
        assert(buf@.skip(0) =~= buf@);
    }
    let mut pos: usize = 0;
    loop
        invariant
            blen == buf@.len(),
            pos <= buf@.len(),
            spec_skip_blank_lines(buf@) == spec_skip_blank_lines(buf@.skip(pos as int)),
        decreases buf@.len() - pos,
    {
        let ghost tail = buf@.skip(pos as int);
        let found = find_byte_from(buf, pos, 10);
        match found {
            None => {
                proof {
                    assert forall|k: int| 0 <= k < tail.len() implies tail[k] != 10 by {
                        assert(tail[k] == buf@[k + pos]);
                    }
                    lemma_find_byte_none(tail, 10);
                }
                return (Decoded::NeedMore, None);
            },
            Some(j) => {
                proof {
                    assert forall|k: int| 0 <= k < j - pos implies tail[k] != 10 by {
                        assert(tail[k] == buf@[k + pos]);
                    }
                    assert(tail[j - pos] == 10);
                    lemma_find_byte_at(tail, 10, j - pos);
                }
                let mut line = copy_range(buf, pos, j);
                proof {
                    assert(line@ =~= tail.take(j - pos));
                }
                trim_cr_vec(&mut line);
                if line.len() == 0 {
                    proof {
                        assert(tail.skip(j - pos + 1) =~= buf@.skip(j + 1));
                    }
                    pos = j + 1;
                } else {
                    let first = line[0];
                    proof {
                        assert(spec_skip_blank_lines(tail) == tail);
                    }
                    if first == 123 || first == 91 {
                        return (Decoded::Msg { body: line, consumed: j + 1 }, Some(
                            Framing::Newline,
                        ));
                    } else {
                        let sub = vstd::slice::slice_subrange(buf, pos, buf.len());
                        let inner = decode_cl(sub);
                        proof {
                            assert(sub@ =~= tail);
                        }
                        match inner {
                            Decoded::Msg { body, consumed } => {
                                return (
                                    Decoded::Msg { body, consumed: consumed + pos },
                                    Some(Framing::ContentLength),
                                );
                            },
                            other => {
                                return (other, None);
                            },
                        }
                    }
                }
            },
        }
    }
}

/// The read half of a helper's transport: the sticky detected framing.
///
/// In auto mode the first successfully decoded frame fixes the mode; a fixed
/// mode is never changed by reads.
pub struct FrameReader {
    pub mode: Option<Framing>,
}

impl FrameReader {
    /// A reader starting per the configured preference.
    pub fn new(pref: FramingPreference) -> (r: FrameReader)
        ensures
            r.mode == spec_initial_read_mode(pref),
    {
        FrameReader { mode: pref.initial_read_mode() }
    }

    /// Decode one frame from the front of `buf`.  A known mode is used and
    /// kept; in auto mode the first decoded frame determines the mode for
    /// every later read.
    pub fn read_frame(&mut self, buf: &[u8]) -> (r: Decoded)
        ensures
            match old(self).mode {
                Some(Framing::ContentLength) => r.dv() == spec_decode_cl(buf@) && final(self).mode
                    == old(self).mode,
                Some(Framing::Newline) => r.dv() == spec_decode_nl(buf@) && final(self).mode == old(
                    self,
                ).mode,
                None => {
                    let (d, m) = spec_decode_auto(buf@);
                    r.dv() == d && final(self).mode == m
                },
            },
    {
        match self.mode {
            Some(Framing::ContentLength) => decode_cl(buf),
            Some(Framing::Newline) => decode_nl(buf),
            None => {
                let (d, m) = decode_auto(buf);
                self.mode = m;
                d
            },
        }
    }
}

// ---------------------------------------------------------------------------
// Round trips: what was framed is what is read back
// ---------------------------------------------------------------------------

proof fn lemma_dec_bytes_digits(n: nat)
    ensures
        spec_dec_bytes(n).len() >= 1,
        forall|i: int|
            0 <= i < spec_dec_bytes(n).len() ==> 0x30 <= #[trigger] spec_dec_bytes(n)[i] <= 0x39,
    decreases n,
{
    if n >= 10 {
        lemma_dec_bytes_digits(n / 10);
    }
}

proof fn lemma_dec_value_of_dec_bytes(n: nat)
    ensures
        spec_dec_value(spec_dec_bytes(n)) == n,
    decreases n,
{
    if n < 10 {
        assert(spec_dec_bytes(n).drop_last() =~= Seq::<u8>::empty());
        assert(spec_dec_bytes(n).last() == (n + 0x30) as u8);
        assert(spec_dec_value(Seq::<u8>::empty()) == 0);
    } else {
        lemma_dec_value_of_dec_bytes(n / 10);
        assert(spec_dec_bytes(n) == spec_dec_bytes(n / 10).push((n % 10 + 0x30) as u8));
        assert(spec_dec_bytes(n).drop_last() =~= spec_dec_bytes(n / 10));
        assert(spec_dec_bytes(n).last() == (n % 10 + 0x30) as u8);
        assert(n / 10 * 10 + n % 10 == n) by {
            vstd::arithmetic::div_mod::lemma_fundamental_div_mod(n as int, 10);
        }
    }
}

/// Facts about the header text used by the round-trip proofs.
proof fn lemma_header_text()
    ensures
        spec_cl_prefix().len() == 16,
        spec_cl_key().len() == 15,
        forall|i: int| 0 <= i < 16 ==> #[trigger] spec_cl_prefix()[i] != 10,
        forall|i: int| 0 <= i < 16 ==> #[trigger] spec_cl_prefix()[i] != 13,
        spec_cl_prefix()[0] == 67,
        spec_lower_bytes(spec_cl_prefix()) == spec_cl_key() + seq![32u8],
{
    reveal_strlit("Content-Length: ");
    reveal_strlit("content-length:");
    assert(spec_lower_bytes(spec_cl_prefix()) =~= spec_cl_key() + seq![32u8]);
}

/// A length-prefixed frame decodes to exactly the payload that was framed,
/// whatever bytes follow it.
pub proof fn lemma_cl_round_trip(body: Seq<u8>, rest: Seq<u8>)
    requires
        body.len() <= usize::MAX,
    ensures
        spec_decode_cl(spec_cl_frame(body) + rest) == SpecDecode::Msg(
            body,
            spec_cl_frame(body).len() as int,
        ),
{
    lemma_header_text();
    let n = body.len();
    let digits = spec_dec_bytes(n);
    lemma_dec_bytes_digits(n);
    lemma_dec_value_of_dec_bytes(n);
    let head = spec_cl_prefix() + digits;
    let s = spec_cl_frame(body) + rest;
    let hl = head.len() as int;
    assert(s =~= head + seq![13u8, 10u8, 13u8, 10u8] + body + rest);

    // The first line feed sits right after the carriage return that ends the
    // header line.
    assert(s[hl + 1] == 10);
    assert forall|j: int| 0 <= j < hl + 1 implies s[j] != 10 by {
        if j < 16 {
            assert(s[j] == spec_cl_prefix()[j]);
        } else if j < hl {
            assert(s[j] == digits[j - 16]);
        } else {
            assert(s[j] == 13);
        }
    }
    lemma_find_byte_at(s, 10, hl + 1);

    // The header line is the prefix and the digits, once the carriage return
    // is trimmed.
    assert(s.take(hl + 1) =~= head + seq![13u8]);
    assert((head + seq![13u8]).drop_last() =~= head);
    assert(head.last() == digits.last());
    assert((head + seq![13u8]).last() == 13);
    assert(0x30 <= digits.last() <= 0x39);
    assert(spec_trim_cr(head) == head);
    assert(spec_trim_cr(s.take(hl + 1)) == head);

    // That line parses as a Content-Length header carrying the body length.
    let low = spec_lower_bytes(head);
    assert(low =~= spec_lower_bytes(spec_cl_prefix()) + digits) by {
        assert forall|i: int| 16 <= i < head.len() implies spec_lower_bytes(head)[i] == digits[i
            - 16] by {
            assert(head[i] == digits[i - 16]);
        }
    }
    assert(low =~= spec_cl_key() + seq![32u8] + digits);
    assert(spec_starts_with(low, spec_cl_key())) by {
        assert(low.take(15) =~= spec_cl_key());
    }
    assert(low.skip(15) =~= seq![32u8] + digits);
    lemma_trim_front_skip(seq![32u8] + digits, 1);
    assert((seq![32u8] + digits).skip(1) =~= digits);
    lemma_trim_back_take(digits, digits.len() as int);
    assert(digits.take(digits.len() as int) =~= digits);
    assert(spec_trim_ws(low.skip(15)) == digits);
    assert(spec_parse_content_length(head) == Some(n as int));

    // The scan then finds the blank line at once.
    let rest1 = s.skip(hl + 2);
    assert(rest1 =~= seq![13u8, 10u8] + body + rest);
    assert(spec_scan_headers(s, None) == spec_scan_headers(rest1, Some(n as int)));
    assert(rest1[0] == 13 && rest1[1] == 10);
    lemma_find_byte_at(rest1, 10, 1);
    assert(rest1.take(1) =~= seq![13u8]);
    assert(seq![13u8].last() == 13);
    assert(seq![13u8].drop_last() =~= Seq::<u8>::empty());
    assert(spec_trim_cr(Seq::<u8>::empty()) == Seq::<u8>::empty());
    assert(spec_trim_cr(rest1.take(1)) == Seq::<u8>::empty());
    let rest2 = rest1.skip(2);
    assert(rest2 =~= body + rest);
    assert(spec_scan_headers(s, None) == HeaderScan::Length(n as int, rest2));

    // And the payload is the framed body.
    assert(rest2.take(n as int) =~= body);
    assert(s.len() - rest2.len() + n == spec_cl_frame(body).len());
}

/// A newline-delimited frame decodes to exactly the payload that was framed,
/// provided the payload has no line feed and no trailing carriage return.
pub proof fn lemma_nl_round_trip(body: Seq<u8>, rest: Seq<u8>)
    requires
        forall|i: int| 0 <= i < body.len() ==> body[i] != 10,
        body.len() > 0 ==> body.last() != 13,
    ensures
        spec_decode_nl(spec_nl_frame(body) + rest) == SpecDecode::Msg(body, body.len() + 1 as int),
{
    let s = spec_nl_frame(body) + rest;
    assert(s[body.len() as int] == 10);
    assert forall|j: int| 0 <= j < body.len() implies s[j] != 10 by {
        assert(s[j] == body[j]);
    }
    lemma_find_byte_at(s, 10, body.len() as int);
    assert(s.take(body.len() as int) =~= body);
    assert(spec_trim_cr(body) == body);
}

/// In auto mode, a length-prefixed first frame is read correctly and fixes
/// the detected framing to length-prefixed.
pub proof fn lemma_auto_detects_cl(body: Seq<u8>, rest: Seq<u8>)
    requires
        body.len() <= usize::MAX,
    ensures
        spec_decode_auto(spec_cl_frame(body) + rest) == (
            SpecDecode::Msg(body, spec_cl_frame(body).len() as int),
            Some(Framing::ContentLength),
        ),
{
    lemma_header_text();
    lemma_dec_bytes_digits(body.len());
    let digits = spec_dec_bytes(body.len());
    let head = spec_cl_prefix() + digits;
    let s = spec_cl_frame(body) + rest;
    let hl = head.len() as int;
    assert(s =~= head + seq![13u8, 10u8, 13u8, 10u8] + body + rest);
    assert(s[hl + 1] == 10);
    assert forall|j: int| 0 <= j < hl + 1 implies s[j] != 10 by {
        if j < 16 {
            assert(s[j] == spec_cl_prefix()[j]);
        } else if j < hl {
            assert(s[j] == digits[j - 16]);
        } else {
            assert(s[j] == 13);
        }
    }
    lemma_find_byte_at(s, 10, hl + 1);
    assert(s.take(hl + 1) =~= head + seq![13u8]);
    assert((head + seq![13u8]).drop_last() =~= head);
    assert(head.last() == digits.last());
    assert((head + seq![13u8]).last() == 13);
    assert(0x30 <= digits.last() <= 0x39);
    assert(spec_trim_cr(head) == head);
    assert(spec_trim_cr(s.take(hl + 1)) == head);
    assert(spec_skip_blank_lines(s) == s);
    assert(head[0] == 67);
    lemma_cl_round_trip(body, rest);
}

/// In auto mode, a newline-delimited first frame whose payload opens with a
/// brace or bracket is read correctly and fixes the detected framing to
/// newline.
pub proof fn lemma_auto_detects_nl(body: Seq<u8>, rest: Seq<u8>)
    requires
        body.len() > 0,
        body[0] == 123 || body[0] == 91,
        forall|i: int| 0 <= i < body.len() ==> body[i] != 10,
        body.last() != 13,
    ensures
        spec_decode_auto(spec_nl_frame(body) + rest) == (
            SpecDecode::Msg(body, body.len() + 1 as int),
            Some(Framing::Newline),
        ),
{
    let s = spec_nl_frame(body) + rest;
    assert(s[body.len() as int] == 10);
    assert forall|j: int| 0 <= j < body.len() implies s[j] != 10 by {
        assert(s[j] == body[j]);
    }
    lemma_find_byte_at(s, 10, body.len() as int);
    assert(s.take(body.len() as int) =~= body);
    assert(spec_trim_cr(body) == body);
    assert(spec_skip_blank_lines(s) == s);
}

/// Messages framed back to back are read back in order: decoding consumes
/// exactly the first frame and the next decode starts on the second.  With an
/// auto-mode reader, the first message also determines the framing used for
/// every subsequent read.
pub proof fn lemma_auto_stream_in_order(b1: Seq<u8>, b2: Seq<u8>, rest: Seq<u8>)
    requires
        b1.len() <= usize::MAX,
        b2.len() <= usize::MAX,
    ensures
        ({
            let s = spec_cl_frame(b1) + spec_cl_frame(b2) + rest;
            let l1 = spec_cl_frame(b1).len() as int;
            spec_decode_auto(s) == (SpecDecode::Msg(b1, l1), Some(Framing::ContentLength))
                && spec_decode_cl(s.skip(l1)) == SpecDecode::Msg(
                b2,
                spec_cl_frame(b2).len() as int,
            )
        }),
{
    let s = spec_cl_frame(b1) + spec_cl_frame(b2) + rest;
    let l1 = spec_cl_frame(b1).len() as int;
    assert(s =~= spec_cl_frame(b1) + (spec_cl_frame(b2) + rest));
    lemma_auto_detects_cl(b1, spec_cl_frame(b2) + rest);
    assert(s.skip(l1) =~= spec_cl_frame(b2) + rest);
    lemma_cl_round_trip(b2, rest);
}

} // verus!


