use virtual_list::{locate_start_row, RowRecord, RowRect, VirtualList, VirtualListResponse, VisibleRegion};

/// Runs one pass in which every row holds `per_row` items and rows of
/// `row_height` units sit one under the other from the top of the content.
fn pass(
    list: &mut VirtualList,
    length: usize,
    width: i64,
    visible: VisibleRegion,
    per_row: usize,
    row_height: i64,
) -> (Option<i64>, VirtualListResponse, Option<u64>) {
    let lead = list.begin_layout(length, width, visible);
    while let Some(item) = list.next_item() {
        let row = (item / per_row) as i64;
        let top = row * row_height;
        list.record_row(per_row, RowRect { top, bottom: top + row_height });
    }
    let (response, reserve) = list.finish_layout();
    (lead, response, reserve)
}

fn region(top: i64, bottom: i64) -> VisibleRegion {
    VisibleRegion { top, bottom }
}

fn assert_partitioned(list: &VirtualList) {
    for i in 1..list.row_count() {
        let a = list.row(i - 1).unwrap();
        let b = list.row(i).unwrap();
        assert_eq!(a.end, b.start);
    }
}

#[test]
fn hundred_items_at_the_top() {
    let mut list = VirtualList::new();
    let (lead, r, reserve) = pass(&mut list, 100, 400, region(0, 100), 1, 20);
    assert_eq!(lead, None);
    // Rows 0..=5: the sixth is the first whose bottom (120) passes 100.
    assert_eq!(r.item_range, 0..6);
    // 94 items left, 20 units per item on average.
    assert_eq!(reserve, Some(94 * 20));
    assert_eq!(list.row_count(), 6);
    assert_eq!(list.last_known_row_index(), Some(5));
    assert_eq!(
        list.row(5),
        Some(RowRecord { start: 5, end: 6, top: 100, bottom: 120 })
    );
    assert_eq!(list.row(6), None);
}

#[test]
fn width_change_drops_the_cache() {
    let mut list = VirtualList::new();
    pass(&mut list, 100, 400, region(0, 100), 1, 20);
    assert_eq!(list.row_count(), 6);
    list.begin_layout(100, 300, region(40, 140));
    assert_eq!(list.row_count(), 0);
    assert_eq!(list.last_known_row_index(), None);
    assert_eq!(list.next_item(), Some(0));
}

#[test]
fn same_width_keeps_the_cache() {
    let mut list = VirtualList::new();
    pass(&mut list, 100, 400, region(0, 100), 1, 20);
    let lead = list.begin_layout(100, 400, region(40, 140));
    assert_eq!(lead, Some(40));
    assert_eq!(list.row_count(), 6);
    assert_eq!(list.next_item(), Some(2));
}

#[test]
fn scroll_forward_then_back_restores_range() {
    let mut list = VirtualList::new();
    let (_, first, _) = pass(&mut list, 100, 400, region(0, 100), 1, 20);
    let (lead, fwd, _) = pass(&mut list, 100, 400, region(40, 140), 1, 20);
    assert_eq!(lead, Some(40));
    assert_eq!(fwd.item_range, 2..8);
    assert_eq!(fwd.hidden_items, 0..2);
    assert_eq!(fwd.newly_visible_items, 6..8);
    let (_, back, _) = pass(&mut list, 100, 400, region(0, 100), 1, 20);
    assert_eq!(back.item_range, first.item_range);
    assert_eq!(back.hidden_items, 6..8);
    assert_eq!(back.newly_visible_items, 0..2);
}

#[test]
fn cache_stays_partitioned_over_passes() {
    let mut list = VirtualList::new();
    for top in [0i64, 35, 200, 90, 500, 10, 0] {
        pass(&mut list, 200, 400, region(top, top + 100), 3, 30);
        assert_partitioned(&list);
    }
    assert!(list.row_count() >= 20);
}

#[test]
fn zero_count_still_advances() {
    let mut list = VirtualList::new();
    list.begin_layout(3, 100, region(0, 1000));
    let mut seen = Vec::new();
    while let Some(item) = list.next_item() {
        seen.push(item);
        list.record_row(0, RowRect { top: 0, bottom: 1 });
    }
    assert_eq!(seen, vec![0, 1, 2]);
    let (r, reserve) = list.finish_layout();
    assert_eq!(r.item_range, 0..3);
    assert_eq!(reserve, None);
}

#[test]
fn empty_list() {
    let mut list = VirtualList::new();
    let (lead, r, reserve) = pass(&mut list, 0, 100, region(0, 100), 1, 20);
    assert_eq!(lead, None);
    assert_eq!(r.item_range, 0..0);
    assert_eq!(reserve, None);
    assert_eq!(list.row_count(), 0);
}

#[test]
fn grouped_rows_estimate_tail() {
    let mut list = VirtualList::new();
    let (_, r, reserve) = pass(&mut list, 50, 100, region(0, 60), 4, 25);
    // Rows of 25 units: rows 0, 1, 2 (bottom 75 > 60): items 0..12.
    assert_eq!(r.item_range, 0..12);
    // 38 items at 4 per row of 25 units: 38 * 75 / 12 = 237.
    assert_eq!(reserve, Some(237));
}

#[test]
fn reset_forgets_rows_and_averages() {
    let mut list = VirtualList::new();
    pass(&mut list, 100, 400, region(0, 100), 1, 20);
    list.reset();
    assert_eq!(list.row_count(), 0);
    assert_eq!(list.last_known_row_index(), None);
    assert_eq!(list.estimator().samples, 0);
    assert_eq!(list.next_item(), None);
    let (_, r, _) = pass(&mut list, 100, 400, region(0, 100), 1, 20);
    assert_eq!(r.item_range, 0..6);
}

#[test]
fn record_outside_a_pass_changes_nothing() {
    let mut list = VirtualList::new();
    list.record_row(3, RowRect { top: 0, bottom: 10 });
    assert_eq!(list.row_count(), 0);
}

#[test]
fn locator_walks_back_to_visible_top() {
    let rows: Vec<RowRecord> = (0..6)
        .map(|i| RowRecord { start: i, end: i + 1, top: 20 * i as i64, bottom: 20 * i as i64 + 20 })
        .collect();
    assert_eq!(locate_start_row(&rows, 5, 45), 2);
    assert_eq!(locate_start_row(&rows, 5, 0), 0);
    assert_eq!(locate_start_row(&rows, 5, 1000), 5);
    assert_eq!(locate_start_row(&rows, 3, 1000), 3);
    assert_eq!(locate_start_row(&rows, 9, 1000), 5);
    assert_eq!(locate_start_row(&rows, 0, -5), 0);
}

#[test]
fn row_height_of_inverted_rect_is_zero() {
    assert_eq!(RowRect { top: 10, bottom: 4 }.height(), 0);
    assert_eq!(RowRect { top: i64::MIN, bottom: i64::MAX }.height(), u64::MAX);
}

#[test]
fn changed_row_is_overwritten_in_place() {
    let mut list = VirtualList::new();
    pass(&mut list, 100, 400, region(0, 100), 1, 20);
    // Row 0 now holds two items and alone fills the region.
    list.begin_layout(100, 400, region(0, 10));
    assert_eq!(list.next_item(), Some(0));
    list.record_row(2, RowRect { top: 0, bottom: 40 });
    assert_eq!(list.next_item(), None);
    let (r, _) = list.finish_layout();
    assert_eq!(r.item_range, 0..2);
    assert_eq!(list.row(0), Some(RowRecord { start: 0, end: 2, top: 0, bottom: 40 }));
    // Rows past the rendered one keep what they held.
    assert_eq!(list.row(1), Some(RowRecord { start: 1, end: 2, top: 20, bottom: 40 }));
    // Averages only count rows when first discovered.
    assert_eq!(list.estimator().samples, 6);
    assert_eq!(list.estimator().items_sum, 6);
}

#[test]
fn backward_scroll_through_passes() {
    let mut list = VirtualList::new();
    let (_, r, _) = pass(&mut list, 100, 400, region(0, 380), 1, 20);
    assert_eq!(r.item_range, 0..20);
    let (_, r, _) = pass(&mut list, 100, 400, region(200, 380), 1, 20);
    assert_eq!(r.item_range, 10..20);
    let (lead, r, _) = pass(&mut list, 100, 400, region(100, 280), 1, 20);
    assert_eq!(lead, Some(100));
    assert_eq!(r.item_range, 5..15);
    assert_eq!(r.hidden_items, 15..20);
    assert_eq!(r.newly_visible_items, 5..10);
}
