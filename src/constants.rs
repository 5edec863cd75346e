//! Tunable values shared by the components.
//!
//! Quantities are in thousandths of their unit unless a name says otherwise.

use vstd::prelude::*;

verus! {

/// 100 %, in thousandths of a percent.
pub const FULL_PERCENT: i32 = 100_000;

/// Number of frames in the run cycle.
pub const RUN_FRAMES: u8 = 10;

/// Number of raw samples averaged by the smoother.
pub const CPU_SAMPLE_COUNT: u32 = 10;

/// Smallest change of the smoothed load that is worth redisplaying.
pub const CPU_DISPLAY_THRESHOLD: u32 = 500;

/// Smallest change of a raw sample that counts as a new sample.
pub const CPU_RAW_EPSILON: u32 = 10;

/// Legacy sleep threshold range (percent).
pub const MIN_SLEEP_THRESHOLD: i32 = 0;
pub const MAX_SLEEP_THRESHOLD: i32 = 20_000;

/// Sleep threshold range in usage mode (percent).
pub const MAX_CPU_THRESHOLD: i32 = 100_000;

/// Sleep threshold range in frequency mode (MHz).
pub const MAX_FREQ_THRESHOLD: i32 = 10_000_000;

/// Sleep threshold range in temperature mode (degrees Celsius).
pub const MAX_TEMP_THRESHOLD: i32 = 150_000;

/// Allowed animation speeds (frames per second).
pub const MIN_FPS: i32 = 1000;
pub const MAX_FPS: i32 = 30_000;

/// A scheduling-loop iteration longer than this (milliseconds) means the
/// machine was suspended and resumed.
pub const SUSPEND_RESUME_THRESHOLD_MS: u64 = 5000;

/// A lock file older than this (seconds) no longer marks a running process.
pub const LOCKFILE_STALE_THRESHOLD_SECS: u64 = 45;

/// Critical temperature assumed when a sensor reports none (degrees Celsius).
pub const DEFAULT_CRITICAL_TEMP: i32 = 100_000;

} // verus!
