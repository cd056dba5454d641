use crate::delta::{reports_delta, visibility_delta, VirtualListResponse};
use crate::estimator::{observed_uniform, uniform_rows_average_exactly, Estimator};
use crate::locator::{locate_start_row, start_row_spec};
use crate::row::{height_spec, partitioned, RowRecord, RowRect, VisibleRegion};
use std::ops::Range;
use vstd::prelude::*;

verus! {

/// Where the layout pass under way stands.
#[derive(Clone, Copy, Debug, PartialEq, Eq, Structural)]
pub struct LayoutPass {
    /// More rows are wanted: the visible region's bottom was not passed yet.
    pub active: bool,
    /// The number of items in the list.
    pub length: usize,
    /// Rows whose bottom passes this end the pass.
    pub visible_bottom: i64,
    /// The first item the pass displayed.
    pub first_item: usize,
    pub current_item: usize,
    pub current_row: usize,
}

/// The state of a list, as a value.
pub struct ListView {
    pub rows: Seq<RowRecord>,
    pub previous_item_range: Range<usize>,
    pub last_known_row_index: Option<usize>,
    pub estimator: Estimator,
    pub last_width: i64,
    pub pass: LayoutPass,
}

/// A row is worth at least one item, so that every pass makes progress.
pub open spec fn progress(count: usize) -> usize {
    if count == 0 {
        1
    } else {
        count
    }
}

/// `a + b`, stopping at `usize::MAX`.
pub open spec fn sat_add(a: usize, b: usize) -> usize {
    if a + b > usize::MAX {
        usize::MAX
    } else {
        (a + b) as usize
    }
}

impl ListView {
    /// The averages count the cached rows, the hint names a cached row, and
    /// the pass stands at most one row past the cache.
    pub open spec fn wf(self) -> bool {
        &&& self.rows.len() == 0 || self.estimator.samples == self.rows.len()
        &&& match self.last_known_row_index {
            Some(h) => h < self.rows.len(),
            None => true,
        }
        &&& self.pass.current_row <= self.rows.len()
    }

    /// The pass stands where its row begins: at the cached start of the row
    /// it is at, or at the end of the last cached row.
    pub open spec fn aligned(self) -> bool {
        &&& self.pass.current_row < self.rows.len() ==> self.rows[self.pass.current_row as int].start
            == self.pass.current_item
        &&& (self.pass.current_row == self.rows.len() && self.rows.len() > 0) ==> self.rows[self.rows.len()
            - 1].end == self.pass.current_item
    }

    /// The item the host is to render next, if the pass wants another row.
    pub open spec fn next_item_spec(self) -> Option<usize> {
        if self.pass.active && self.pass.current_item < self.pass.length {
            Some(self.pass.current_item)
        } else {
            None
        }
    }

    /// The row the pass starts from, once the cache is settled.
    pub open spec fn start_row(self, visible: VisibleRegion) -> int {
        let hint = match self.last_known_row_index {
            Some(h) => h,
            None => 0,
        };
        start_row_spec(self.rows, hint as int, visible.top)
    }

    /// The cache as it stands for a pass at `width`: dropped if the width changed.
    pub open spec fn for_width(self, width: i64) -> ListView {
        if width != self.last_width {
            ListView { rows: Seq::empty(), last_known_row_index: None, last_width: width, ..self }
        } else {
            self
        }
    }

    /// The state once a pass over `length` items has begun.
    pub open spec fn begun(self, length: usize, width: i64, visible: VisibleRegion) -> ListView {
        let c = self.for_width(width);
        let start = c.start_row(visible);
        let first = if start < c.rows.len() {
            c.rows[start].start
        } else {
            0
        };
        ListView {
            pass: LayoutPass {
                active: true,
                length,
                visible_bottom: visible.bottom,
                first_item: first,
                current_item: first,
                current_row: start as usize,
            },
            ..c
        }
    }

    /// The state once the host has rendered the next row, which took `count`
    /// items and was laid out at `rect`.
    pub open spec fn after_row(self, count: usize, rect: RowRect) -> ListView {
        let p = self.pass;
        if self.next_item_spec() is None {
            self
        } else if p.current_row == self.rows.len() && self.rows.len() == usize::MAX {
            ListView { pass: LayoutPass { active: false, ..p }, ..self }
        } else {
            let c = progress(count);
            let end = sat_add(p.current_item, c);
            let rec = RowRecord { start: p.current_item, end, top: rect.top, bottom: rect.bottom };
            let is_new = p.current_row >= self.rows.len();
            ListView {
                rows: if is_new {
                    self.rows.push(rec)
                } else {
                    self.rows.update(p.current_row as int, rec)
                },
                estimator: if is_new {
                    self.estimator.observed(p.current_row, c, height_spec(rect))
                } else {
                    self.estimator
                },
                last_known_row_index: if is_new {
                    Some(p.current_row)
                } else {
                    self.last_known_row_index
                },
                pass: LayoutPass {
                    active: rect.bottom <= p.visible_bottom,
                    current_item: end,
                    current_row: (p.current_row + 1) as usize,
                    ..p
                },
                ..self
            }
        }
    }

    /// The items this pass displayed.
    pub open spec fn item_range(self) -> Range<usize> {
        Range { start: self.pass.first_item, end: self.pass.current_item }
    }

    /// The extent to reserve for the items past the displayed ones, if any.
    pub open spec fn reserve_spec(self) -> Option<u64> {
        if self.pass.current_item < self.pass.length {
            Some(self.estimator.estimate_spec((self.pass.length - self.pass.current_item) as usize))
        } else {
            None
        }
    }

    /// The state once the pass is over.
    pub open spec fn finished(self) -> ListView {
        ListView {
            previous_item_range: self.item_range(),
            pass: LayoutPass { active: false, ..self.pass },
            ..self
        }
    }

    /// Adjacent cached rows follow each other, and the pass stands where its
    /// row begins.
    pub open spec fn coherent(self) -> bool {
        partitioned(self.rows) && self.aligned()
    }

    /// The next row reports the items that the cache already holds for it,
    /// wherever another cached row follows (the items' sizes did not change).
    pub open spec fn row_agrees(self, count: usize) -> bool {
        let p = self.pass;
        p.current_row + 1 < self.rows.len() ==> sat_add(p.current_item, progress(count))
            == self.rows[p.current_row as int].end
    }
}

/// Recording a row keeps adjacent cached rows without gap or overlap, as
/// long as the row reports the items the cache already holds for it where
/// another cached row follows.
pub proof fn partition_kept_by_row(v: ListView, count: usize, rect: RowRect)
    requires
        v.wf(),
        v.coherent(),
        v.row_agrees(count),
    ensures
        v.after_row(count, rect).coherent(),
{
    let w = v.after_row(count, rect);
    let r = v.pass.current_row as int;
    assert forall|i: int| 0 <= i < w.rows.len() - 1 implies #[trigger] w.rows[i].end == w.rows[i
        + 1].start by {
        if i + 1 < r || i > r {
            assert(w.rows[i] == v.rows[i] && w.rows[i + 1] == v.rows[i + 1]);
        }
    }
}

/// The state after the host reported `reports` in turn, each a row's item
/// count and rectangle.
pub open spec fn after_rows(v: ListView, reports: Seq<(usize, RowRect)>) -> ListView
    decreases reports.len(),
{
    if reports.len() == 0 {
        v
    } else {
        let last = reports.last();
        after_rows(v, reports.drop_last()).after_row(last.0, last.1)
    }
}

/// `e` after taking in `reports` as rows newly discovered in turn, the
/// `i`-th of them preceded by `i` known rows.
pub open spec fn observed_reports(e: Estimator, reports: Seq<(usize, RowRect)>) -> Estimator
    decreases reports.len(),
{
    if reports.len() == 0 {
        e
    } else {
        let last = reports.last();
        observed_reports(e, reports.drop_last()).observed(
            (reports.len() - 1) as usize,
            progress(last.0),
            height_spec(last.1),
        )
    }
}

/// Where the item counts of a cache rebuilt from scratch begin: row `j`
/// starts where row `j - 1` ends, row 0 at item 0.
pub open spec fn rebuilt_from(rows: Seq<RowRecord>, reports: Seq<(usize, RowRect)>) -> bool {
    &&& rows.len() == reports.len()
    &&& forall|j: int|
        0 <= j < rows.len() ==> {
            &&& #[trigger] rows[j].start == (if j == 0 {
                0
            } else {
                rows[j - 1].end
            })
            &&& rows[j].end == sat_add(rows[j].start, progress(reports[j].0))
            &&& rows[j].top == reports[j].1.top
            &&& rows[j].bottom == reports[j].1.bottom
        }
}

proof fn lemma_rebuild(b: ListView, reports: Seq<(usize, RowRect)>)
    requires
        b.rows.len() == 0,
        b.last_known_row_index is None,
        b.pass.current_row == 0,
        b.pass.current_item == 0,
        reports.len() < usize::MAX,
        forall|i: int| 0 <= i < reports.len() ==> (#[trigger] after_rows(b, reports.take(i))).next_item_spec() is Some,
    ensures
        rebuilt_from(after_rows(b, reports).rows, reports),
        after_rows(b, reports).pass.current_row == reports.len(),
        after_rows(b, reports).pass.current_item == (if reports.len() == 0 {
            0
        } else {
            after_rows(b, reports).rows.last().end
        }),
        after_rows(b, reports).last_known_row_index == (if reports.len() == 0 {
            None
        } else {
            Some((reports.len() - 1) as usize)
        }),
        after_rows(b, reports).estimator == observed_reports(b.estimator, reports),
        after_rows(b, reports).last_width == b.last_width,
        after_rows(b, reports).pass.first_item == b.pass.first_item,
    decreases reports.len(),
{
    if reports.len() > 0 {
        let n = reports.len() - 1;
        let prev = reports.drop_last();
        assert forall|i: int| 0 <= i < prev.len() implies (#[trigger] after_rows(b, prev.take(i))).next_item_spec() is Some by {
            assert(prev.take(i) =~= reports.take(i));
        }
        lemma_rebuild(b, prev);
        assert(reports.take(n) =~= prev);
        let v = after_rows(b, prev);
        assert(v.next_item_spec() is Some);
        let w = after_rows(b, reports);
        assert(w == v.after_row(reports.last().0, reports.last().1));
        assert forall|j: int| 0 <= j < w.rows.len() implies {
            &&& #[trigger] w.rows[j].start == (if j == 0 {
                0
            } else {
                w.rows[j - 1].end
            })
            &&& w.rows[j].end == sat_add(w.rows[j].start, progress(reports[j].0))
            &&& w.rows[j].top == reports[j].1.top
            &&& w.rows[j].bottom == reports[j].1.bottom
        } by {
            if j < n {
                assert(w.rows[j] == v.rows[j]);
                assert(reports[j] == prev[j]);
                if j > 0 {
                    assert(w.rows[j - 1] == v.rows[j - 1]);
                }
            } else if j > 0 {
                assert(w.rows[j - 1] == v.rows[j - 1]);
            }
        }
    }
}

/// A pass at a new width measures from scratch: whatever rows the host then
/// reports while rows are wanted make up the whole cache, row `j` from the
/// `j`-th report, starting at item 0; the hint names the last of them, and
/// the averages are taken over these rows alone.
pub proof fn width_change_rebuilds_cache(
    v: ListView,
    length: usize,
    width: i64,
    visible: VisibleRegion,
    reports: Seq<(usize, RowRect)>,
)
    requires
        v.wf(),
        width != v.last_width,
        reports.len() < usize::MAX,
        forall|i: int|
            0 <= i < reports.len() ==> (#[trigger] after_rows(
                v.begun(length, width, visible),
                reports.take(i),
            )).next_item_spec() is Some,
    ensures
        v.begun(length, width, visible).rows.len() == 0,
        v.begun(length, width, visible).last_known_row_index is None,
        rebuilt_from(after_rows(v.begun(length, width, visible), reports).rows, reports),
        after_rows(v.begun(length, width, visible), reports).last_known_row_index == (if reports.len()
            == 0 {
            None
        } else {
            Some((reports.len() - 1) as usize)
        }),
        after_rows(v.begun(length, width, visible), reports).last_width == width,
        after_rows(v.begun(length, width, visible), reports).pass.first_item == 0,
        after_rows(v.begun(length, width, visible), reports).estimator == observed_reports(
            v.estimator,
            reports,
        ),
{
    let b = v.begun(length, width, visible);
    assert(b.start_row(visible) == 0);
    lemma_rebuild(b, reports);
}

proof fn lemma_uniform_reports(e: Estimator, reports: Seq<(usize, RowRect)>, items: usize, size: u64)
    requires
        items >= 1,
        reports.len() < usize::MAX,
        forall|i: int|
            0 <= i < reports.len() ==> (#[trigger] reports[i]).0 == items && height_spec(reports[i].1)
                == size,
    ensures
        observed_reports(e, reports) == observed_uniform(e, reports.len() as nat, items, size),
    decreases reports.len(),
{
    if reports.len() > 0 {
        let prev = reports.drop_last();
        assert forall|i: int| 0 <= i < prev.len() implies (#[trigger] prev[i]).0 == items
            && height_spec(prev[i].1) == size by {
            assert(prev[i] == reports[i]);
        }
        lemma_uniform_reports(e, prev, items, size);
        assert(reports.last() == reports[reports.len() - 1]);
    }
}

/// After a pass at a new width in which every row the host reports holds
/// `items` items and has size `size`, the averages over the `n` rows found
/// are exactly `items` items and `size` units per row.
pub proof fn rebuilt_cache_averages_exactly(
    v: ListView,
    length: usize,
    width: i64,
    visible: VisibleRegion,
    reports: Seq<(usize, RowRect)>,
    items: usize,
    size: u64,
)
    requires
        v.wf(),
        width != v.last_width,
        1 <= reports.len() < usize::MAX,
        forall|i: int|
            0 <= i < reports.len() ==> (#[trigger] after_rows(
                v.begun(length, width, visible),
                reports.take(i),
            )).next_item_spec() is Some,
        items >= 1,
        forall|i: int|
            0 <= i < reports.len() ==> (#[trigger] reports[i]).0 == items && height_spec(reports[i].1)
                == size,
        reports.len() * items <= u64::MAX,
        reports.len() * size <= u64::MAX,
    ensures
        after_rows(v.begun(length, width, visible), reports).estimator.samples == reports.len(),
        after_rows(v.begun(length, width, visible), reports).estimator.items_sum == reports.len()
            * items,
        after_rows(v.begun(length, width, visible), reports).estimator.size_sum == reports.len()
            * size,
{
    width_change_rebuilds_cache(v, length, width, visible, reports);
    lemma_uniform_reports(v.estimator, reports, items, size);
    uniform_rows_average_exactly(v.estimator, reports.len() as nat, items, size);
}

/// A long list that lays out only the rows meeting the visible region.
///
/// The host drives one pass per frame: `begin_layout`, then, while
/// `next_item` names an item, renders a row from it and hands its item count
/// and rectangle to `record_row`; `finish_layout` closes the pass.
pub struct VirtualList {
    rows: Vec<RowRecord>,
    previous_item_range: Range<usize>,
    last_known_row_index: Option<usize>,
    estimator: Estimator,
    last_width: i64,
    pass: LayoutPass,
}

impl View for VirtualList {
    type V = ListView;

    closed spec fn view(&self) -> ListView {
        ListView {
            rows: self.rows@,
            previous_item_range: self.previous_item_range,
            last_known_row_index: self.last_known_row_index,
            estimator: self.estimator,
            last_width: self.last_width,
            pass: self.pass,
        }
    }
}

impl VirtualList {
    pub fn new() -> (r: VirtualList)
        ensures
            r@.wf(),
            r@.rows.len() == 0,
            r@.last_known_row_index is None,
            r@.estimator.samples == 0,
            r@.last_width == 0,
            r@.previous_item_range == (Range { start: usize::MAX, end: usize::MAX }),
            !r@.pass.active,
            r@.pass.current_row == 0,
    {
        VirtualList {
            rows: Vec::new(),
            previous_item_range: usize::MAX..usize::MAX,
            last_known_row_index: None,
            estimator: Estimator::new(),
            last_width: 0,
            pass: LayoutPass {
                active: false,
                length: 0,
                visible_bottom: 0,
                first_item: 0,
                current_item: 0,
                current_row: 0,
            },
        }
    }

    /// Starts a pass over `length` items at `width`, for the `visible` region.
    /// Returns the extent to skip before the first row, where the pass starts
    /// past row 0.
    pub fn begin_layout(&mut self, length: usize, width: i64, visible: VisibleRegion) -> (r: Option<
        i64,
    >)
        requires
            old(self)@.wf(),
        ensures
            final(self)@ == old(self)@.begun(length, width, visible),
            final(self)@.wf(),
            r == (if final(self)@.pass.current_row > 0 {
                Some(final(self)@.rows[final(self)@.pass.current_row as int].top)
            } else {
                None
            }),
            width != old(self)@.last_width ==> final(self)@.rows.len() == 0
                && final(self)@.last_known_row_index is None && final(self)@.pass.current_row == 0
                && final(self)@.pass.first_item == 0,
            final(self)@.aligned(),
            partitioned(old(self)@.rows) ==> partitioned(final(self)@.rows),
    {
        if width != self.last_width {
            self.last_known_row_index = None;
            self.last_width = width;
            self.rows.clear();
        }
        let hint: usize = match self.last_known_row_index {
            Some(h) => h,
            None => 0,
        };
        let start = locate_start_row(&self.rows, hint, visible.top);
        let first: usize = if start < self.rows.len() {
            self.rows[start].start
        } else {
            0
        };
        self.pass = LayoutPass {
            active: true,
            length,
            visible_bottom: visible.bottom,
            first_item: first,
            current_item: first,
            current_row: start,
        };
        if start > 0 {
            Some(self.rows[start].top)
        } else {
            None
        }
    }

    /// The item to render the next row from, or `None` once the pass has
    /// covered the visible region or run out of items.
    pub fn next_item(&self) -> (r: Option<usize>)
        ensures
            r == self@.next_item_spec(),
    {
        if self.pass.active && self.pass.current_item < self.pass.length {
            Some(self.pass.current_item)
        } else {
            None
        }
    }

    /// Takes in the row the host rendered from `next_item`: it held `count`
    /// items and was laid out at `rect`. Outside a pass, nothing changes.
    pub fn record_row(&mut self, count: usize, rect: RowRect)
        requires
            old(self)@.wf(),
        ensures
            final(self)@ == old(self)@.after_row(count, rect),
            final(self)@.wf(),
            old(self)@.coherent() && old(self)@.row_agrees(count) ==> final(self)@.coherent(),
    {
        proof {
            if self@.coherent() && self@.row_agrees(count) {
                partition_kept_by_row(self@, count, rect);
            }
        }
        if !(self.pass.active && self.pass.current_item < self.pass.length) {
            return;
        }
        let row = self.pass.current_row;
        if row == self.rows.len() && self.rows.len() == usize::MAX {
            self.pass.active = false;
            return;
        }
        let c: usize = if count == 0 {
            1
        } else {
            count
        };
        let start = self.pass.current_item;
        let end: usize = if start > usize::MAX - c {
            usize::MAX
        } else {
            start + c
        };
        let rec = RowRecord { start, end, top: rect.top, bottom: rect.bottom };
        if row < self.rows.len() {
            self.rows.set(row, rec);
        } else {
            self.rows.push(rec);
            self.estimator.observe(row, c, rect.height());
            self.last_known_row_index = Some(row);
        }
        self.pass.active = rect.bottom <= self.pass.visible_bottom;
        self.pass.current_item = end;
        self.pass.current_row = row + 1;
    }

    /// Closes the pass: reports the items displayed and the delta against the
    /// previous pass, and the extent to reserve for the items past them.
    pub fn finish_layout(&mut self) -> (r: (VirtualListResponse, Option<u64>))
        requires
            old(self)@.wf(),
        ensures
            reports_delta(r.0, old(self)@.previous_item_range, old(self)@.item_range()),
            r.1 == old(self)@.reserve_spec(),
            final(self)@ == old(self)@.finished(),
            final(self)@.wf(),
    {
        let cur = self.pass.first_item..self.pass.current_item;
        let response = visibility_delta(&self.previous_item_range, &cur);
        let reserve = if self.pass.current_item < self.pass.length {
            Some(self.estimator.estimate_remaining_extent(self.pass.length - self.pass.current_item))
        } else {
            None
        };
        self.previous_item_range = cur;
        self.pass.active = false;
        (response, reserve)
    }

    /// Forgets every measured row and both averages, so that the next pass
    /// measures from scratch.
    pub fn reset(&mut self)
        requires
            old(self)@.wf(),
        ensures
            final(self)@.wf(),
            final(self)@.rows.len() == 0,
            final(self)@.last_known_row_index is None,
            final(self)@.estimator.samples == 0,
            final(self)@.last_width == 0,
            final(self)@.previous_item_range == old(self)@.previous_item_range,
            !final(self)@.pass.active,
    {
        self.last_known_row_index = None;
        self.last_width = 0;
        self.estimator = Estimator::new();
        self.rows.clear();
        self.pass.active = false;
        self.pass.current_row = 0;
    }

    /// The cached record of row `i`.
    pub fn row(&self, i: usize) -> (r: Option<RowRecord>)
        ensures
            r == (if i < self@.rows.len() {
                Some(self@.rows[i as int])
            } else {
                None
            }),
    {
        if i < self.rows.len() {
            Some(self.rows[i])
        } else {
            None
        }
    }

    /// How many rows the cache holds.
    pub fn row_count(&self) -> (r: usize)
        ensures
            r == self@.rows.len(),
    {
        self.rows.len()
    }

    /// The row that the next pass starts looking back from.
    pub fn last_known_row_index(&self) -> (r: Option<usize>)
        ensures
            r == self@.last_known_row_index,
    {
        self.last_known_row_index
    }

    /// The running averages.
    pub fn estimator(&self) -> (r: Estimator)
        ensures
            r == self@.estimator,
    {
        self.estimator
    }
}

} // verus!
