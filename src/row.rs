use vstd::prelude::*;

verus! {

/// A vertical extent in content-local units (independent of the scroll offset).
#[derive(Clone, Copy, Debug, PartialEq, Eq, Structural)]
pub struct RowRect {
    pub top: i64,
    pub bottom: i64,
}

/// The part of the content that the viewport exposes, in content-local units.
#[derive(Clone, Copy, Debug, PartialEq, Eq, Structural)]
pub struct VisibleRegion {
    pub top: i64,
    pub bottom: i64,
}

/// One measured row: the half-open item range `start..end` it holds and
/// where it was laid out.
#[derive(Clone, Copy, Debug, PartialEq, Eq, Structural)]
pub struct RowRecord {
    pub start: usize,
    pub end: usize,
    pub top: i64,
    pub bottom: i64,
}

/// The size of a rectangle along the scroll axis; an inverted one has none.
pub open spec fn height_spec(rect: RowRect) -> u64 {
    if rect.bottom >= rect.top {
        (rect.bottom - rect.top) as u64
    } else {
        0
    }
}

impl RowRect {
    pub fn height(&self) -> (r: u64)
        ensures
            r == height_spec(*self),
    {
        if self.bottom >= self.top {
            (self.bottom as i128 - self.top as i128) as u64
        } else {
            0
        }
    }
}

/// Adjacent rows follow each other without gap or overlap.
pub open spec fn partitioned(rows: Seq<RowRecord>) -> bool {
    forall|i: int| 0 <= i < rows.len() - 1 ==> #[trigger] rows[i].end == rows[i + 1].start
}

} // verus!
