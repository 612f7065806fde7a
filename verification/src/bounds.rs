//! Resolution of one-dimensional range endpoints against a grid extent.

use vstd::prelude::*;

verus! {

/// One endpoint of a one-dimensional range of row or column indices.
#[derive(Clone, Copy, Debug, PartialEq, Eq, Structural)]
pub enum Bound {
    /// The endpoint sits at the given index, and the index belongs to the range.
    Included(usize),
    /// The endpoint sits at the given index, and the index is left out of the range.
    Excluded(usize),
    /// The range is open on this side.
    Unbounded,
}

/// A possibly open-ended range of row or column indices, stored as its two
/// endpoints. A span is a reusable descriptor: it is resolved against an
/// actual extent only when a selector is evaluated.
#[derive(Clone, Copy, Debug, PartialEq, Eq, Structural)]
pub struct Span {
    /// Where the range begins. A start endpoint must never be excluded.
    pub start: Bound,
    /// Where the range ends.
    pub end: Bound,
}

impl Span {
    /// A span can be resolved when its start is not excluded (an excluded
    /// start is a programming error, not an input to handle) and an included
    /// end leaves room for the half-open upper bound `end + 1`.
    pub open spec fn wf(&self) -> bool {
        &&& !(self.start is Excluded)
        &&& (self.end matches Bound::Included(y) ==> y < usize::MAX)
    }

    /// The span of every index: `..`.
    pub fn full() -> (s: Span)
        ensures
            s == (Span { start: Bound::Unbounded, end: Bound::Unbounded }),
    {
        Span { start: Bound::Unbounded, end: Bound::Unbounded }
    }

    /// The span of every index from `start` on: `start..`.
    pub fn starting_from(start: usize) -> (s: Span)
        ensures
            s == (Span { start: Bound::Included(start), end: Bound::Unbounded }),
    {
        Span { start: Bound::Included(start), end: Bound::Unbounded }
    }

    /// The span of every index below `end`: `..end`.
    pub fn up_to(end: usize) -> (s: Span)
        ensures
            s == (Span { start: Bound::Unbounded, end: Bound::Excluded(end) }),
    {
        Span { start: Bound::Unbounded, end: Bound::Excluded(end) }
    }

    /// The half-open span `start..end`.
    pub fn between(start: usize, end: usize) -> (s: Span)
        ensures
            s == (Span { start: Bound::Included(start), end: Bound::Excluded(end) }),
    {
        Span { start: Bound::Included(start), end: Bound::Excluded(end) }
    }

    /// The closed span `start..=end`.
    pub fn through(start: usize, end: usize) -> (s: Span)
        ensures
            s == (Span { start: Bound::Included(start), end: Bound::Included(end) }),
    {
        Span { start: Bound::Included(start), end: Bound::Included(end) }
    }
}

/// The first index of the half-open interval a start endpoint denotes.
/// The value for an excluded start is never relied upon: the resolver
/// rejects an excluded start outright.
pub open spec fn resolved_start(start: Bound) -> int {
    match start {
        Bound::Included(x) => x as int,
        Bound::Excluded(x) => x as int + 1,
        Bound::Unbounded => 0,
    }
}

/// The index one past the last of the half-open interval an end endpoint
/// denotes, against `count` elements. Only an unbounded end looks at
/// `count`; a concrete endpoint is taken as given, even past the extent.
pub open spec fn resolved_end(end: Bound, count: usize) -> int {
    match end {
        Bound::Included(y) => y as int + 1,
        Bound::Excluded(y) => y as int,
        Bound::Unbounded => count as int,
    }
}

/// Resolves a pair of range endpoints against an element count into a
/// concrete half-open `[start, end)` interval.
///
/// No clamping against `count_elements` happens here: a caller that supplies
/// an endpoint past the extent receives an interval that simply yields
/// nothing (or out-of-extent indices, for the unchecked selectors) when
/// iterated. An excluded start endpoint is a violated precondition, never a
/// handled case.
pub fn bounds_to_usize(left: Bound, right: Bound, count_elements: usize) -> (r: (usize, usize))
    requires
        !(left is Excluded),
        right matches Bound::Included(y) ==> y < usize::MAX,
    ensures
        r.0 as int == resolved_start(left),
        r.1 as int == resolved_end(right, count_elements),
{
    let start = match left {
        Bound::Included(x) => x,
        Bound::Excluded(_) => vstd::pervasive::unreached(),
        Bound::Unbounded => 0,
    };
    let end = match right {
        Bound::Included(y) => y + 1,
        Bound::Excluded(y) => y,
        Bound::Unbounded => count_elements,
    };
    (start, end)
}

} // verus!
