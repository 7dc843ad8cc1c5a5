//! Rectangular regions in grid-cell units: the intersection and containment
//! primitives that every other component builds on.

use vstd::prelude::*;

verus! {

/// A rectangular area in grid-cell units, used both as an absolute grid bound
/// and as a relative offset within a parent panel. A width or height of zero
/// marks a degenerate region, the valid "unset" sentinel: it intersects
/// nothing and is contained in nothing except itself.
#[derive(Clone, Copy, PartialEq, Eq, Structural, Hash, Debug)]
pub struct Region {
    pub origin_row: u32,
    pub origin_col: u32,
    pub width: u32,
    pub height: u32,
}

/// The degenerate region at the origin: the "unset" sentinel.
pub open spec fn zero_region() -> Region {
    Region { origin_row: 0, origin_col: 0, width: 0, height: 0 }
}

impl Region {
    /// The cell at (`row`, `col`) lies inside this region.
    pub open spec fn covers(self, row: int, col: int) -> bool {
        &&& self.origin_row <= row < self.origin_row + self.height
        &&& self.origin_col <= col < self.origin_col + self.width
    }

    pub open spec fn is_degenerate(self) -> bool {
        self.width == 0 || self.height == 0
    }

    /// Two regions intersect exactly when some cell lies in both.
    pub open spec fn intersects_spec(self, other: Region) -> bool {
        exists|row: int, col: int| self.covers(row, col) && other.covers(row, col)
    }

    /// `self` contains `other`: either they are equal, or `other` is
    /// non-degenerate and lies fully inside `self`.
    pub open spec fn contains_spec(self, other: Region) -> bool {
        self == other || (other.width > 0 && other.height > 0
            && self.origin_row <= other.origin_row
            && self.origin_col <= other.origin_col
            && other.origin_row + other.height <= self.origin_row + self.height
            && other.origin_col + other.width <= self.origin_col + self.width)
    }

    /// Machine bound: the region's far edges fit in the cell coordinate type.
    pub open spec fn wf(self) -> bool {
        &&& self.origin_row + self.height <= u32::MAX
        &&& self.origin_col + self.width <= u32::MAX
    }

    /// Whether this region's far edges fit in the cell coordinate type, so
    /// that unverified callers can test `wf` before handing a grid bound in.
    pub fn is_well_formed(&self) -> (r: bool)
        ensures
            r == self.wf(),
    {
        self.height as u64 <= u32::MAX as u64 - self.origin_row as u64
            && self.width as u64 <= u32::MAX as u64 - self.origin_col as u64
    }

    /// Axis-aligned overlap test: true unless one rectangle is entirely left
    /// of, right of, above, or below the other. A degenerate region
    /// intersects nothing.
    pub fn intersects(&self, other: &Region) -> (r: bool)
        ensures
            r == self.intersects_spec(*other),
    {
        let row_lo: u64 = if self.origin_row >= other.origin_row {
            self.origin_row as u64
        } else {
            other.origin_row as u64
        };
        let row_hi_a: u64 = self.origin_row as u64 + self.height as u64;
        let row_hi_b: u64 = other.origin_row as u64 + other.height as u64;
        let row_hi: u64 = if row_hi_a <= row_hi_b { row_hi_a } else { row_hi_b };
        let col_lo: u64 = if self.origin_col >= other.origin_col {
            self.origin_col as u64
        } else {
            other.origin_col as u64
        };
        let col_hi_a: u64 = self.origin_col as u64 + self.width as u64;
        let col_hi_b: u64 = other.origin_col as u64 + other.width as u64;
        let col_hi: u64 = if col_hi_a <= col_hi_b { col_hi_a } else { col_hi_b };
        let overlap = row_lo < row_hi && col_lo < col_hi;
        proof {
            if overlap {
                assert(self.covers(row_lo as int, col_lo as int));
                assert(other.covers(row_lo as int, col_lo as int));
            } else {
                assert forall|row: int, col: int|
                    !(self.covers(row, col) && other.covers(row, col)) by {}
            }
        }
        overlap
    }

    /// Fully-inside test used to bound a placement within a grid.
    pub fn contains(&self, other: &Region) -> (r: bool)
        ensures
            r == self.contains_spec(*other),
    {
        *self == *other || (other.width > 0 && other.height > 0
            && self.origin_row <= other.origin_row
            && self.origin_col <= other.origin_col
            && other.origin_row as u64 + other.height as u64
                <= self.origin_row as u64 + self.height as u64
            && other.origin_col as u64 + other.width as u64
                <= self.origin_col as u64 + self.width as u64)
    }
}

impl Default for Region {
    /// The degenerate region at the origin: the "unset" sentinel.
    fn default() -> (r: Region)
        ensures
            r == zero_region(),
    {
        Region { origin_row: 0, origin_col: 0, width: 0, height: 0 }
    }
}

/// Intersection is symmetric: whether two regions overlap does not depend on
/// the order they are asked in.
pub proof fn lemma_intersects_symmetric(a: Region, b: Region)
    ensures
        a.intersects_spec(b) == b.intersects_spec(a),
{
    if a.intersects_spec(b) {
        let (row, col) = choose|row: int, col: int| a.covers(row, col) && b.covers(row, col);
        assert(b.covers(row, col) && a.covers(row, col));
    }
    if b.intersects_spec(a) {
        let (row, col) = choose|row: int, col: int| b.covers(row, col) && a.covers(row, col);
        assert(a.covers(row, col) && b.covers(row, col));
    }
}

/// A non-degenerate region intersects itself.
pub proof fn lemma_nondegenerate_self_intersects(a: Region)
    requires
        a.width > 0,
        a.height > 0,
    ensures
        a.intersects_spec(a),
{
    assert(a.covers(a.origin_row as int, a.origin_col as int));
}

/// A degenerate region intersects nothing.
pub proof fn lemma_degenerate_intersects_nothing(a: Region, b: Region)
    requires
        a.is_degenerate(),
    ensures
        !a.intersects_spec(b),
{
}

} // verus!
