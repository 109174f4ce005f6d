//! Source positions.
//!
//! A `Span` is an opaque position tag attached to every leaf token and carried
//! into the syntax tree for diagnostics and for faithful reconstruction.  The
//! parser itself never reads a span: two trees that differ only in spans are
//! grammar-equal.

use vstd::prelude::*;

verus! {

/// An opaque source-position tag.
///
/// The external lexer numbers the atomic tokens it produces; `0` is the
/// distinguished zero-width marker used for nodes that are built
/// programmatically rather than parsed.
#[derive(Clone, Copy, Debug, PartialEq, Eq, Structural)]
pub struct Span(pub u32);

impl Span {
    /// The zero-width placeholder span for synthesized tokens.
    pub fn call_site() -> (s: Span)
        ensures
            s == Span(0u32),
    {
        Span(0)
    }
}

impl Default for Span {
    fn default() -> (s: Span)
        ensures
            s == Span(0u32),
    {
        Span(0)
    }
}

} // verus!
