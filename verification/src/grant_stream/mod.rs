//! Streaming grant distribution: fixed-point payout slices and the
//! truncation-remainder accumulator.

pub mod precision;
pub mod scheduler;

pub use precision::{
    calculate_accrued_with_remainder, flush_remainder, get_remainder, reset_remainder,
    PrecisionEvent, PrecisionKey, PrecisionStore, FP_SCALE,
};
pub use scheduler::{
    fixed_point_div, fixed_point_mul, GrantSchedule, SchedulerError, FIXED_POINT_SCALE,
    MAX_RATE_BASIS_POINTS,
};
