use virtual_list::Estimator;

#[test]
fn no_rows_estimate_zero() {
    let e = Estimator::new();
    assert_eq!(e.estimate_remaining_extent(50), 0);
}

#[test]
fn uniform_rows_keep_exact_averages() {
    let mut e = Estimator::new();
    for n in 0..7usize {
        e.observe(n, 3, 25);
    }
    assert_eq!(e.samples, 7);
    assert_eq!(e.items_sum, 7 * 3);
    assert_eq!(e.size_sum, 7 * 25);
    // 30 items at 3 per row of size 25: 10 rows.
    assert_eq!(e.estimate_remaining_extent(30), 250);
}

#[test]
fn mixed_rows_use_the_mean() {
    let mut e = Estimator::new();
    e.observe(0, 1, 20);
    e.observe(1, 2, 40);
    // 3 items over 2 rows, 60 units over 2 rows: 20 units per item.
    assert_eq!(e.estimate_remaining_extent(9), 180);
    // 7 * 60 / 3 = 140.
    assert_eq!(e.estimate_remaining_extent(7), 140);
}

#[test]
fn observe_from_no_rows_starts_afresh() {
    let mut e = Estimator::new();
    e.observe(0, 4, 100);
    e.observe(1, 4, 100);
    e.observe(0, 2, 10);
    assert_eq!(e.samples, 1);
    assert_eq!(e.estimate_remaining_extent(4), 20);
}

#[test]
fn sums_saturate() {
    let mut e = Estimator::new();
    e.observe(0, 1, u64::MAX);
    e.observe(1, 1, 5);
    assert_eq!(e.size_sum, u64::MAX);
    assert_eq!(e.estimate_remaining_extent(usize::MAX), u64::MAX);
}
