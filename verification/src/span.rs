//! Source positions and the position-tagged wrapper.

use vstd::prelude::*;

verus! {

/// A half-open region of source text, given by start and end offsets.
#[derive(Clone, Copy, Debug, PartialEq, Eq, Structural)]
pub struct Span {
    pub start: usize,
    pub end: usize,
}

impl Span {
    /// Builds the region from `start` (inclusive) to `end` (exclusive).
    pub fn new(start: usize, end: usize) -> (r: Span)
        ensures
            r.start == start,
            r.end == end,
    {
        Span { start, end }
    }
}

/// A payload together with the source region it was parsed from.
///
/// The span is informational metadata only: nothing in this model compares
/// payloads by their spans.  The span type is a parameter so that producers
/// may attach whatever location data their source supplies.
#[derive(Clone, Debug)]
pub struct Spanned<T, S> {
    pub span: S,
    pub value: T,
}

impl<T, S> Spanned<T, S> {
    /// Pairs a payload with its source region.
    pub fn new(span: S, value: T) -> (r: Spanned<T, S>)
        ensures
            r.span == span,
            r.value == value,
    {
        Spanned { span, value }
    }

    /// Transforms the payload in place while keeping the original span.
    pub fn map<U, F: FnOnce(T) -> U>(self, f: F) -> (r: Spanned<U, S>)
        requires
            call_requires(f, (self.value,)),
        ensures
            r.span == self.span,
            call_ensures(f, (self.value,), r.value),
    {
        Spanned { span: self.span, value: f(self.value) }
    }
}

} // verus!
