//! Linear vesting with cliff enforcement and slippage-aware capital
//! conversion timing.

pub mod scheduler;

pub use scheduler::{
    cliff_validation_overflows, release_vested_with_slippage, validate_cliff_with_slippage, SchedulerError,
    SlippageAdjustedSchedule, VestingError, VestingEvent, VestingSchedule, VestingStore,
    CLIFF_PERIOD, MAX_CONVERSION_DELAY, VESTING_PERIOD,
};
