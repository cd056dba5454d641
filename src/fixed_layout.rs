use crate::locator::start_row_spec;
use crate::row::{partitioned, RowRecord, RowRect, VisibleRegion};
use crate::virtual_list::ListView;
use std::ops::Range;
use vstd::prelude::*;

verus! {

/// `layout` arranges `length` items in rows that never change: each row
/// holds at least one item, and the rows follow each other from item 0.
pub open spec fn fixed_layout(layout: Seq<RowRecord>, length: usize) -> bool {
    &&& 0 < layout.len() < usize::MAX
    &&& layout[0].start == 0
    &&& layout.last().end == length
    &&& partitioned(layout)
    &&& forall|j: int| 0 <= j < layout.len() ==> #[trigger] layout[j].start < layout[j].end
}

/// The cache holds the first rows of `layout`, and the hint names the last.
pub open spec fn cache_follows(v: ListView, layout: Seq<RowRecord>) -> bool {
    &&& v.rows.len() <= layout.len()
    &&& v.rows == layout.take(v.rows.len() as int)
    &&& v.last_known_row_index == (if v.rows.len() == 0 {
        None
    } else {
        Some((v.rows.len() - 1) as usize)
    })
}

/// The pass stands at the start of a row of `layout`.
pub open spec fn pass_follows(v: ListView, layout: Seq<RowRecord>, length: usize) -> bool {
    &&& v.pass.length == length
    &&& v.pass.current_row <= v.rows.len()
    &&& v.pass.current_row < layout.len() ==> v.pass.current_item
        == layout[v.pass.current_row as int].start
}

/// The row at which a pass from row `r` stops: the first whose bottom passes
/// `bottom`, or the last row.
pub open spec fn pass_end(layout: Seq<RowRecord>, r: int, bottom: i64) -> int
    decreases layout.len() - r,
{
    if r >= layout.len() - 1 || layout[r].bottom > bottom {
        r
    } else {
        pass_end(layout, r + 1, bottom)
    }
}

/// The rest of a pass whose host renders the rows of `layout`: asked for the
/// row at the pass's current row, it reports that row of `layout`.
pub open spec fn run_pass(v: ListView, layout: Seq<RowRecord>) -> ListView
    decreases usize::MAX - v.pass.current_item,
{
    if v.next_item_spec() is Some && v.pass.current_row < layout.len() {
        let rec = layout[v.pass.current_row as int];
        let w = v.after_row((rec.end - rec.start) as usize, RowRect { top: rec.top, bottom: rec.bottom });
        if v.pass.current_item < w.pass.current_item <= usize::MAX {
            run_pass(w, layout)
        } else {
            w
        }
    } else {
        v
    }
}

/// One whole frame over `layout`: begin, render rows until done, finish.
pub open spec fn frame(
    v: ListView,
    layout: Seq<RowRecord>,
    length: usize,
    width: i64,
    visible: VisibleRegion,
) -> ListView {
    run_pass(v.begun(length, width, visible), layout).finished()
}

proof fn lemma_walk(rows: Seq<RowRecord>, h: int, top: i64)
    requires
        0 <= h,
    ensures
        0 <= start_row_spec(rows, h, top) <= h,
        start_row_spec(rows, h, top) == 0 || (start_row_spec(rows, h, top) < rows.len()
            && rows[start_row_spec(rows, h, top)].top <= top),
        forall|j: int|
            start_row_spec(rows, h, top) < j <= h && j < rows.len() ==> #[trigger] rows[j].top
                > top,
    decreases h,
{
    if h > 0 && !(h < rows.len() && rows[h].top <= top) {
        lemma_walk(rows, h - 1, top);
    }
}

proof fn lemma_end_bounded(layout: Seq<RowRecord>, length: usize, j: int)
    requires
        fixed_layout(layout, length),
        0 <= j < layout.len(),
    ensures
        layout[j].end <= length,
    decreases layout.len() - j,
{
    if j + 1 < layout.len() {
        assert(layout[j].end == layout[j + 1].start);
        assert(layout[j + 1].start < layout[j + 1].end);
        lemma_end_bounded(layout, length, j + 1);
    }
}

proof fn lemma_run(v: ListView, layout: Seq<RowRecord>, length: usize)
    requires
        fixed_layout(layout, length),
        cache_follows(v, layout),
        pass_follows(v, layout, length),
        v.pass.active,
        v.pass.current_row < layout.len(),
    ensures
        cache_follows(run_pass(v, layout), layout),
        run_pass(v, layout).rows.len() >= v.rows.len(),
        run_pass(v, layout).rows.len() > v.pass.current_row,
        run_pass(v, layout).pass.current_item == layout[pass_end(
            layout,
            v.pass.current_row as int,
            v.pass.visible_bottom,
        )].end,
        run_pass(v, layout).pass.first_item == v.pass.first_item,
        run_pass(v, layout).last_width == v.last_width,
    decreases usize::MAX - v.pass.current_item,
{
    let r = v.pass.current_row as int;
    let rec = layout[r];
    assert(rec.start < rec.end);
    lemma_end_bounded(layout, length, r);
    let count = (rec.end - rec.start) as usize;
    let rect = RowRect { top: rec.top, bottom: rec.bottom };
    let w = v.after_row(count, rect);
    let n = v.rows.len() as int;
    assert(v.next_item_spec() == Some(v.pass.current_item));
    assert(crate::virtual_list::progress(count) == count);
    assert(crate::virtual_list::sat_add(v.pass.current_item, count) == rec.end);
    assert(RowRecord { start: v.pass.current_item, end: rec.end, top: rect.top, bottom: rect.bottom }
        == rec);
    if r < n {
        assert(v.rows[r] == layout[r]);
        assert(w.rows =~= v.rows);
    } else {
        assert(w.rows =~= layout.take(n + 1));
    }
    assert(w.pass.current_item == rec.end);
    if r + 1 < layout.len() {
        assert(layout[r].end == layout[r + 1].start);
    }
    assert(run_pass(v, layout) == (if w.pass.current_item <= usize::MAX {
        run_pass(w, layout)
    } else {
        w
    }));
    if w.pass.active && r + 1 < layout.len() {
        lemma_run(w, layout, length);
    } else {
        if r + 1 == layout.len() {
            assert(w.pass.current_item == length);
        }
        assert(w.next_item_spec() is None);
        assert(run_pass(w, layout) == w);
    }
}

proof fn lemma_frame(
    v: ListView,
    layout: Seq<RowRecord>,
    length: usize,
    width: i64,
    visible: VisibleRegion,
)
    requires
        fixed_layout(layout, length),
        cache_follows(v, layout),
        v.last_width == width,
    ensures
        cache_follows(frame(v, layout, length, width, visible), layout),
        frame(v, layout, length, width, visible).rows.len() >= v.rows.len(),
        frame(v, layout, length, width, visible).rows.len() > v.start_row(visible),
        frame(v, layout, length, width, visible).last_width == width,
        frame(v, layout, length, width, visible).previous_item_range == (Range {
            start: layout[v.start_row(visible)].start,
            end: layout[pass_end(layout, v.start_row(visible), visible.bottom)].end,
        }),
{
    let b = v.begun(length, width, visible);
    let s = v.start_row(visible);
    let hint = match v.last_known_row_index {
        Some(h) => h,
        None => 0,
    };
    lemma_walk(v.rows, hint as int, visible.top);
    if v.rows.len() > 0 {
        assert(v.rows[s] == layout[s]);
    }
    lemma_run(b, layout, length);
}

/// With rows that do not change, a frame at `visible`, any frame at `other`,
/// and a frame at `visible` again report the same item range, provided the
/// first frame already started from the row of the layout at the region's
/// top (a list that was never scrolled starts there).
pub proof fn rescroll_restores_range(
    v: ListView,
    layout: Seq<RowRecord>,
    length: usize,
    width: i64,
    visible: VisibleRegion,
    other: VisibleRegion,
)
    requires
        fixed_layout(layout, length),
        cache_follows(v, layout),
        v.last_width == width,
        v.start_row(visible) == start_row_spec(layout, layout.len() - 1, visible.top),
    ensures
        frame(
            frame(frame(v, layout, length, width, visible), layout, length, width, other),
            layout,
            length,
            width,
            visible,
        ).previous_item_range == frame(v, layout, length, width, visible).previous_item_range,
{
    let f1 = frame(v, layout, length, width, visible);
    lemma_frame(v, layout, length, width, visible);
    let f2 = frame(f1, layout, length, width, other);
    lemma_frame(f1, layout, length, width, other);
    lemma_frame(f2, layout, length, width, visible);
    let j = start_row_spec(layout, layout.len() - 1, visible.top);
    let n2 = f2.rows.len();
    let s3 = f2.start_row(visible);
    assert(s3 == start_row_spec(f2.rows, n2 - 1, visible.top));
    lemma_walk(f2.rows, n2 - 1, visible.top);
    lemma_walk(layout, layout.len() - 1, visible.top);
    if s3 < j {
        assert(f2.rows[j] == layout[j]);
    }
    if s3 > j {
        assert(f2.rows[s3] == layout[s3]);
    }
    assert(s3 == j);
}

} // verus!
