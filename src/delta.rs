use std::ops::Range;
use vstd::prelude::*;

verus! {

/// What one layout pass reports: the items it displayed, and how that set
/// moved against the previous pass.
pub struct VirtualListResponse {
    /// The range of items that was displayed.
    pub item_range: Range<usize>,
    /// Items in this range are now visible.
    pub newly_visible_items: Range<usize>,
    /// Items in this range are no longer visible.
    pub hidden_items: Range<usize>,
}

pub open spec fn min_index(a: usize, b: usize) -> usize {
    if a <= b { a } else { b }
}

pub open spec fn max_index(a: usize, b: usize) -> usize {
    if a >= b { a } else { b }
}

/// The items that left the view: the head of `prev` cut off by `cur`, or,
/// where nothing was cut off there, the tail of `prev` past `cur`.
pub open spec fn hidden_spec(prev: Range<usize>, cur: Range<usize>) -> (usize, usize) {
    let head_end = min_index(cur.start, prev.end);
    if prev.start < head_end {
        (prev.start, head_end)
    } else {
        (max_index(cur.end, prev.start), prev.end)
    }
}

/// The items that came into view: the tail of `cur` past `prev`, or, where
/// there is none, the head of `cur` before `prev`.
pub open spec fn newly_visible_spec(prev: Range<usize>, cur: Range<usize>) -> (usize, usize) {
    let tail_start = max_index(prev.end, cur.start);
    if tail_start < cur.end {
        (tail_start, cur.end)
    } else {
        (cur.start, min_index(prev.start, cur.end))
    }
}

/// `r` reports `cur` as displayed, with the delta against `prev`.
pub open spec fn reports_delta(r: VirtualListResponse, prev: Range<usize>, cur: Range<usize>) -> bool {
    &&& r.item_range == cur
    &&& (r.hidden_items.start, r.hidden_items.end) == hidden_spec(prev, cur)
    &&& (r.newly_visible_items.start, r.newly_visible_items.end) == newly_visible_spec(prev, cur)
}

/// Diffs the range displayed now against the one displayed before.
pub fn visibility_delta(prev: &Range<usize>, cur: &Range<usize>) -> (r: VirtualListResponse)
    ensures
        reports_delta(r, *prev, *cur),
{
    let head_end = if cur.start <= prev.end { cur.start } else { prev.end };
    let hidden = if prev.start < head_end {
        prev.start..head_end
    } else {
        let from = if cur.end >= prev.start { cur.end } else { prev.start };
        from..prev.end
    };
    let tail_start = if prev.end >= cur.start { prev.end } else { cur.start };
    let newly_visible = if tail_start < cur.end {
        tail_start..cur.end
    } else {
        cur.start..(if prev.start <= cur.end { prev.start } else { cur.end })
    };
    VirtualListResponse {
        item_range: cur.start..cur.end,
        newly_visible_items: newly_visible,
        hidden_items: hidden,
    }
}

} // verus!
