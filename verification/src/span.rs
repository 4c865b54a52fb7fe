//! Positions in source files.
use vstd::prelude::*;

verus! {

/// The identifier of a source file that is not known.
pub const UNKNOWN_SOURCE: u32 = 0xffff_ffff;

/// A range of bytes in a source file.
#[derive(Clone, Copy, PartialEq, Eq, Debug, Hash, Structural)]
pub struct SourceSpan {
    pub source_id: u32,
    pub start: u32,
    pub end: u32,
}

impl SourceSpan {
    /// The span of an item whose position is not known.
    pub open spec fn unknown_span() -> SourceSpan {
        SourceSpan { source_id: UNKNOWN_SOURCE, start: 0, end: 0 }
    }

    /// The span of an item that the compiler made up.
    pub open spec fn synthetic_span() -> SourceSpan {
        SourceSpan { source_id: UNKNOWN_SOURCE, start: u32::MAX, end: u32::MAX }
    }

    /// The span of an item whose position is not known.
    pub fn unknown() -> (span: SourceSpan)
        ensures
            span == Self::unknown_span(),
    {
        SourceSpan { source_id: UNKNOWN_SOURCE, start: 0, end: 0 }
    }

    /// The span that marks code which the compiler made up.
    pub fn synthetic() -> (span: SourceSpan)
        ensures
            span == Self::synthetic_span(),
    {
        SourceSpan { source_id: UNKNOWN_SOURCE, start: u32::MAX, end: u32::MAX }
    }

    /// Whether the span points into no known file.
    pub fn is_unknown(&self) -> (unknown: bool)
        ensures
            unknown == (self.source_id == UNKNOWN_SOURCE),
    {
        self.source_id == UNKNOWN_SOURCE
    }
}

/// Whether `span` marks code that the compiler made up: it points into no known file, and both
/// of its ends are at the largest offset.
pub fn is_synthetic(span: &SourceSpan) -> (synthetic: bool)
    ensures
        synthetic == (*span == SourceSpan::synthetic_span()),
{
    span.is_unknown() && span.start == u32::MAX && span.end == u32::MAX
}

} // verus!
