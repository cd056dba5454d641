use vstd::prelude::*;

verus! {

/// `x` held in a `u64`, stopping at its largest value.
pub open spec fn saturate(x: int) -> u64 {
    if x > u64::MAX {
        u64::MAX
    } else if x < 0 {
        0
    } else {
        x as u64
    }
}

/// Running averages of row size and items per row over newly discovered rows.
///
/// Both means are held exactly, as a sum over a sample count: the mean row
/// size is `size_sum / samples`, the mean item count `items_sum / samples`.
/// The sums stop at `u64::MAX`.
#[derive(Clone, Copy, Debug, PartialEq, Eq, Structural)]
pub struct Estimator {
    pub samples: usize,
    pub size_sum: u64,
    pub items_sum: u64,
}

impl Estimator {
    /// The estimator after one more row: `new_avg = (n * avg + sample) / (n + 1)`
    /// with `n` rows known before it, so `n == 0` starts afresh.
    pub open spec fn observed(self, existing_rows: usize, items: usize, size: u64) -> Estimator {
        if existing_rows == 0 {
            Estimator { samples: 1, size_sum: size, items_sum: saturate(items as int) }
        } else {
            Estimator {
                samples: (self.samples + 1) as usize,
                size_sum: saturate(self.size_sum + size),
                items_sum: saturate(self.items_sum + items),
            }
        }
    }

    /// `remaining / avg_items * avg_size`, that is `remaining * size_sum / items_sum`
    /// rounded down; zero before any row was observed.
    pub open spec fn estimate_spec(self, remaining: usize) -> u64 {
        if self.samples == 0 || self.items_sum == 0 {
            0
        } else {
            saturate(remaining * self.size_sum / self.items_sum as int)
        }
    }

    /// An estimator that has seen no row.
    pub fn new() -> (r: Estimator)
        ensures
            r.samples == 0,
            r.size_sum == 0,
            r.items_sum == 0,
    {
        Estimator { samples: 0, size_sum: 0, items_sum: 0 }
    }

    /// Takes in a row that was not known before: `existing_rows` rows precede it.
    pub fn observe(&mut self, existing_rows: usize, items: usize, size: u64)
        requires
            existing_rows == 0 || existing_rows == old(self).samples,
            existing_rows < usize::MAX,
        ensures
            *final(self) == old(self).observed(existing_rows, items, size),
    {
        let items64: u64 = if items as u128 > u64::MAX as u128 {
            u64::MAX
        } else {
            items as u64
        };
        if existing_rows == 0 {
            *self = Estimator { samples: 1, size_sum: size, items_sum: items64 };
        } else {
            let size_sum = if self.size_sum > u64::MAX - size {
                u64::MAX
            } else {
                self.size_sum + size
            };
            let items_sum = if self.items_sum > u64::MAX - items64 {
                u64::MAX
            } else {
                self.items_sum + items64
            };
            *self = Estimator { samples: self.samples + 1, size_sum, items_sum };
        }
    }

    /// The extent to reserve for `remaining` items that were never measured.
    pub fn estimate_remaining_extent(&self, remaining: usize) -> (r: u64)
        ensures
            r == self.estimate_spec(remaining),
    {
        if self.samples == 0 || self.items_sum == 0 {
            return 0;
        }
        assert(remaining as u128 * self.size_sum as u128 <= u128::MAX) by (nonlinear_arith)
            requires
                remaining <= u64::MAX,
                self.size_sum <= u64::MAX,
        ;
        let product: u128 = remaining as u128 * self.size_sum as u128;
        let quotient: u128 = product / self.items_sum as u128;
        if quotient > u64::MAX as u128 {
            u64::MAX
        } else {
            quotient as u64
        }
    }
}

/// `e` after `n` newly discovered rows, the `i`-th of them preceded by `i`
/// known rows, each holding `items` items and of size `size`.
pub open spec fn observed_uniform(e: Estimator, n: nat, items: usize, size: u64) -> Estimator
    decreases n,
{
    if n == 0 {
        e
    } else {
        observed_uniform(e, (n - 1) as nat, items, size).observed((n - 1) as usize, items, size)
    }
}

/// Where every discovered row holds `items` items and has size `size`, after
/// `n` rows the mean items per row is exactly `items` and the mean row size
/// exactly `size`; the remaining extent is then `remaining * size / items`.
pub proof fn uniform_rows_average_exactly(e: Estimator, n: nat, items: usize, size: u64)
    requires
        1 <= n < usize::MAX,
        n * items <= u64::MAX,
        n * size <= u64::MAX,
    ensures
        observed_uniform(e, n, items, size).samples == n,
        observed_uniform(e, n, items, size).items_sum == n * items,
        observed_uniform(e, n, items, size).size_sum == n * size,
        forall|remaining: usize|
            items > 0 ==> #[trigger] observed_uniform(e, n, items, size).estimate_spec(remaining)
                == saturate(remaining * size / items as int),
    decreases n,
{
    let r = observed_uniform(e, n, items, size);
    if n == 1 {
        assert(1 * items == items && 1 * size == size);
    } else {
        assert((n - 1) * items <= n * items) by (nonlinear_arith)
            requires
                n >= 1,
        ;
        assert((n - 1) * size <= n * size) by (nonlinear_arith)
            requires
                n >= 1,
        ;
        uniform_rows_average_exactly(e, (n - 1) as nat, items, size);
        assert(n * items == (n - 1) * items + items) by (nonlinear_arith);
        assert(n * size == (n - 1) * size + size) by (nonlinear_arith);
    }
    assert forall|remaining: usize| items > 0 implies #[trigger] r.estimate_spec(remaining)
        == saturate(remaining * size / items as int) by {
        let q = remaining * size;
        assert(remaining * (n * size) == n * q) by (nonlinear_arith)
            requires
                q == remaining * size,
        ;
        assert(n * items > 0) by (nonlinear_arith)
            requires
                n >= 1,
                items > 0,
        ;
        assert((n * q) / (n * items) == q / items as int) by (nonlinear_arith)
            requires
                n >= 1,
                items > 0,
                q >= 0,
        ;
    }
}

} // verus!
