//! A windowing engine for very long lists: only the rows that meet the
//! visible region are laid out, the rest of the content is estimated from
//! running averages over the rows measured so far.

mod delta;
mod estimator;
mod fixed_layout;
mod inbox;
mod locator;
mod row;
mod virtual_list;

pub use delta::{visibility_delta, VirtualListResponse};
pub use estimator::{uniform_rows_average_exactly, Estimator};
pub use fixed_layout::rescroll_restores_range;
pub use inbox::SendError;
pub use locator::locate_start_row;
pub use row::{RowRecord, RowRect, VisibleRegion};
pub use virtual_list::{
    partition_kept_by_row, rebuilt_cache_averages_exactly, width_change_rebuilds_cache, LayoutPass, ListView,
    VirtualList,
};
