pub mod fmt;
pub mod movefile;
pub mod planner;
pub mod scan;
pub mod sched;

pub use movefile::{effective_buffer, size_verified, tmp_path};
pub use planner::{feasibility_check, FeasibilityInfo, SwapConfig};
pub use sched::{
    all_done, build_report, effective_free, next_move, pick_largest_that_fits, run_dry, NextMove,
    RunError, Scheduler, SwapReport,
};
pub use scan::{FileEntry, max_file, total_size};
