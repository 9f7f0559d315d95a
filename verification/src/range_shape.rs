//! Range shapes and their resolution against a region's length.
use vstd::prelude::*;

verus! {

/// The shape of a subrange request, before it is resolved against a
/// region's length.
///
/// Each variant stands for one of the standard combinations of an open or
/// given lower bound with an open, exclusive or inclusive upper bound.
/// Resolving a shape against a region of length `n` yields the half-open
/// interval `[lo, hi)` it targets; the request is in bounds exactly when
/// `lo <= hi <= n`.
#[derive(Clone, Copy)]
pub enum RangeShape {
    /// The whole region: resolves to `[0, n)`.
    Full,
    /// From `lo` to the end: resolves to `[lo, n)`.
    StartingAt(usize),
    /// From the start up to, excluding, `hi`: resolves to `[0, hi)`.
    UpTo(usize),
    /// From the start up to, including, `end`: resolves to `[0, end + 1)`.
    UpToIncluding(usize),
    /// From `lo` up to, excluding, `hi`: resolves to `[lo, hi)`.
    Between(usize, usize),
    /// From `lo` up to, including, `end`: resolves to `[lo, end + 1)`.
    BetweenIncluding(usize, usize),
}

impl RangeShape {
    /// The lower bound of the half-open interval this shape targets in a
    /// region of length `n`.
    pub open spec fn lo_spec(self, n: nat) -> int {
        match self {
            RangeShape::Full => 0,
            RangeShape::StartingAt(lo) => lo as int,
            RangeShape::UpTo(_) => 0,
            RangeShape::UpToIncluding(_) => 0,
            RangeShape::Between(lo, _) => lo as int,
            RangeShape::BetweenIncluding(lo, _) => lo as int,
        }
    }

    /// The upper bound (exclusive) of the half-open interval this shape
    /// targets in a region of length `n`.
    pub open spec fn hi_spec(self, n: nat) -> int {
        match self {
            RangeShape::Full => n as int,
            RangeShape::StartingAt(_) => n as int,
            RangeShape::UpTo(hi) => hi as int,
            RangeShape::UpToIncluding(end) => end + 1,
            RangeShape::Between(_, hi) => hi as int,
            RangeShape::BetweenIncluding(_, end) => end + 1,
        }
    }

    /// Whether the interval this shape resolves to lies inside a region of
    /// length `n`: neither inverted nor past the end.
    pub open spec fn in_bounds(self, n: nat) -> bool {
        self.lo_spec(n) <= self.hi_spec(n) <= n
    }

    /// Resolve this shape against a region of length `n`.
    ///
    /// Returns the targeted half-open interval `[lo, hi)` when the request
    /// is in bounds, and `None` when it is inverted or reaches past the
    /// end.
    pub fn resolve(self, n: usize) -> (r: Option<(usize, usize)>)
        ensures
            self.in_bounds(n as nat) <==> r is Some,
            r is Some ==> r.unwrap().0 == self.lo_spec(n as nat)
                && r.unwrap().1 == self.hi_spec(n as nat),
    {
        match self {
            RangeShape::Full => Some((0, n)),
            RangeShape::StartingAt(lo) => if lo <= n {
                Some((lo, n))
            } else {
                None
            },
            RangeShape::UpTo(hi) => if hi <= n {
                Some((0, hi))
            } else {
                None
            },
            RangeShape::UpToIncluding(end) => if end < n {
                Some((0, end + 1))
            } else {
                None
            },
            RangeShape::Between(lo, hi) => if lo <= hi && hi <= n {
                Some((lo, hi))
            } else {
                None
            },
            RangeShape::BetweenIncluding(lo, end) => if end < n && lo <= end + 1 {
                Some((lo, end + 1))
            } else {
                None
            },
        }
    }
}

} // verus!
