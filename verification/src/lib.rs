//! Verified core of a family of MCP protocol bridges.
//!
//! The library holds the logic of four bridge programs that translate a
//! tool-calling client's requests into the native protocols of long-lived
//! helper processes: LSP language servers, DAP debug adapters, LSIF index
//! files, and nested MCP agents.  The byte framing, the request/response
//! correlation, the routing tables, the tool dispatch and the approval
//! bookkeeping are implemented and specified here; process spawning and
//! stream I/O live outside, in a thin unverified shell that feeds plain
//! values in and out.

pub mod agent;
pub mod alist;
pub mod client;
pub mod correlation;
pub mod dap;
pub mod dispatch;
pub mod errors;
pub mod framing;
pub mod json;
pub mod lsif;
pub mod pool;
pub mod render;
pub mod rpc;
pub mod text;
pub mod tool_args;

use vstd::prelude::*;

verus! {

/// One position in a document: zero-based line and character.
#[derive(Clone, Copy, Debug, PartialEq, Eq, Structural)]
pub struct Pos {
    pub line: u32,
    pub character: u32,
}

/// A half-open span between two positions.
#[derive(Clone, Copy, Debug, PartialEq, Eq, Structural)]
pub struct Span {
    pub start: Pos,
    pub end: Pos,
}

/// Order on positions: `a` at or before `b`.
pub open spec fn spec_pos_leq(a: Pos, b: Pos) -> bool {
    a.line < b.line || (a.line == b.line && a.character <= b.character)
}

/// Strict order on positions: `a` strictly before `b`.
pub open spec fn spec_pos_lt(a: Pos, b: Pos) -> bool {
    a.line < b.line || (a.line == b.line && a.character < b.character)
}

pub fn pos_leq(a: Pos, b: Pos) -> (r: bool)
    ensures
        r == spec_pos_leq(a, b),
{
    a.line < b.line || (a.line == b.line && a.character <= b.character)
}

pub fn pos_lt(a: Pos, b: Pos) -> (r: bool)
    ensures
        r == spec_pos_lt(a, b),
{
    a.line < b.line || (a.line == b.line && a.character < b.character)
}

/// A span contains a position when the position is at or after the start and
/// strictly before the end.
pub open spec fn spec_contains(span: Span, p: Pos) -> bool {
    spec_pos_leq(span.start, p) && spec_pos_lt(p, span.end)
}

pub fn contains(span: Span, p: Pos) -> (r: bool)
    ensures
        r == spec_contains(span, p),
{
    pos_leq(span.start, p) && pos_lt(p, span.end)
}

} // verus!
