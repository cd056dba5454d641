use crate::row::RowRecord;
use vstd::prelude::*;

verus! {

/// Walking back from row `i`: the first row whose top is at or above
/// `visible_top`, or row 0.
pub open spec fn start_row_spec(rows: Seq<RowRecord>, i: int, visible_top: i64) -> int
    decreases i,
{
    if i <= 0 {
        0
    } else if i < rows.len() && rows[i].top <= visible_top {
        i
    } else {
        start_row_spec(rows, i - 1, visible_top)
    }
}

/// Resolves the row to start rendering from, starting at the cached `hint`
/// and stepping back while a row starts below the visible top.
pub fn locate_start_row(rows: &Vec<RowRecord>, hint: usize, visible_top: i64) -> (r: usize)
    ensures
        r == start_row_spec(rows@, hint as int, visible_top),
        r <= hint,
{
    let mut i: usize = hint;
    loop
        invariant
            i <= hint,
            start_row_spec(rows@, i as int, visible_top) == start_row_spec(
                rows@,
                hint as int,
                visible_top,
            ),
        ensures
            i == start_row_spec(rows@, hint as int, visible_top),
            i <= hint,
        decreases i,
    {
        if i == 0 {
            break;
        }
        if i < rows.len() && rows[i].top <= visible_top {
            assert(start_row_spec(rows@, i as int, visible_top) == i);
            break;
        }
        i = i - 1;
    }
    i
}

} // verus!
