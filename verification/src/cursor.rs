//! Positions in the buffer and their order.

use std::cmp::Ordering;
use vstd::prelude::*;
use vstd::std_specs::cmp::PartialOrdSpec;

verus! {

/// A place in the buffer: a row and a column counted in characters.
#[derive(Debug, Clone, Copy, PartialEq, Eq, Structural, Ord, Hash)]
pub struct CursorPosition {
    pub row: usize,
    pub col: usize,
}

impl CursorPosition {
    /// `self` comes strictly before `other`: on an earlier row, or on the same
    /// row at an earlier column.
    pub open spec fn before(self, other: CursorPosition) -> bool {
        self.row < other.row || (self.row == other.row && self.col < other.col)
    }

    /// `self` comes before `other` or is equal to it.
    pub open spec fn before_or_at(self, other: CursorPosition) -> bool {
        self.before(other) || self == other
    }

    /// The earlier of two positions.
    pub open spec fn spec_min(self, other: CursorPosition) -> CursorPosition {
        if self.before(other) {
            self
        } else {
            other
        }
    }

    /// The later of two positions.
    pub open spec fn spec_max(self, other: CursorPosition) -> CursorPosition {
        if self.before(other) {
            other
        } else {
            self
        }
    }

    /// Whether `self` comes strictly before `other`.
    pub fn is_before(&self, other: &CursorPosition) -> (r: bool)
        ensures
            r == self.before(*other),
    {
        self.row < other.row || (self.row == other.row && self.col < other.col)
    }

    /// The two positions in order: the earlier one first.
    pub fn ordered(a: CursorPosition, b: CursorPosition) -> (r: (CursorPosition, CursorPosition))
        ensures
            r.0 == a.spec_min(b),
            r.1 == a.spec_max(b),
            r.0.before_or_at(r.1),
    {
        if a.is_before(&b) {
            (a, b)
        } else {
            (b, a)
        }
    }

    /// Of two positions exactly one of three holds: the first is before the
    /// second, they are equal, or the second is before the first.
    pub proof fn lemma_order_total(a: CursorPosition, b: CursorPosition)
        ensures
            a.before(b) || a == b || b.before(a),
            !(a.before(b) && b.before(a)),
            !(a.before(b) && a == b),
    {
    }

    /// The order is transitive.
    pub proof fn lemma_order_transitive(a: CursorPosition, b: CursorPosition, c: CursorPosition)
        requires
            a.before(b),
            b.before(c),
        ensures
            a.before(c),
    {
    }

    /// Comparing two positions gives what comparing the pairs `(row, col)`
    /// lexicographically gives.
    pub proof fn lemma_order_lexicographic(a: CursorPosition, b: CursorPosition)
        ensures
            a.partial_cmp_spec(&b) == (a.row, a.col).partial_cmp_spec(&(b.row, b.col)),
            a.partial_cmp_spec(&b) == Some(Ordering::Less) <==> a.before(b),
            a.partial_cmp_spec(&b) == Some(Ordering::Equal) <==> a == b,
            a.partial_cmp_spec(&b) == Some(Ordering::Greater) <==> b.before(a),
    {
    }
}

impl Default for CursorPosition {
    fn default() -> (r: CursorPosition)
        ensures
            r == (CursorPosition { row: 0, col: 0 }),
    {
        CursorPosition { row: 0, col: 0 }
    }
}

impl PartialOrd for CursorPosition {
    fn partial_cmp(&self, other: &CursorPosition) -> (r: Option<Ordering>) {
        if self.row == other.row && self.col == other.col {
            Some(Ordering::Equal)
        } else if self.row < other.row || (self.row == other.row && self.col < other.col) {
            Some(Ordering::Less)
        } else {
            Some(Ordering::Greater)
        }
    }
}

impl vstd::std_specs::cmp::PartialOrdSpecImpl for CursorPosition {
    open spec fn obeys_partial_cmp_spec() -> bool {
        true
    }

    open spec fn partial_cmp_spec(&self, other: &CursorPosition) -> Option<Ordering> {
        if *self == *other {
            Some(Ordering::Equal)
        } else if self.before(*other) {
            Some(Ordering::Less)
        } else {
            Some(Ordering::Greater)
        }
    }
}

} // verus!
