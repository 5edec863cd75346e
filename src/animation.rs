//! Animation policy: the sleep decision and the frame clock.

use vstd::prelude::*;
use crate::config::{fps_for, threshold_of, AnimationSource, Config};
use crate::constants::RUN_FRAMES;
use crate::smoother::seq_sum;
use crate::sysinfo::{
    max_temp_of, percent_sum, temp_percent, CpuFrequency, CpuTemperature,
};
use crate::constants::DEFAULT_CRITICAL_TEMP;

verus! {

/// Milliseconds per second, squared: a frame is due once
/// `elapsed_ms * fps_thousandths >= FRAME_CLOCK`.
pub const FRAME_CLOCK: u64 = 1_000_000;

/// The active source's values: `metric` in thousandths of a percent drives
/// the speed, `actual` in thousandths of the source's own unit drives the
/// sleep decision.
#[derive(Debug, Clone, Copy, PartialEq, Eq, Structural)]
pub struct Reading {
    pub metric: i32,
    pub actual: i64,
}

/// Asleep exactly when the actual value is strictly below the threshold.
pub open spec fn sleeps(actual: int, threshold: int) -> bool {
    actual < threshold
}

/// A value saturated into `i32`.
pub open spec fn sat_i32(v: int) -> int {
    if v > i32::MAX as int {
        i32::MAX as int
    } else {
        v
    }
}

/// Time since the last frame advance; 0 if the clock went backwards.
pub open spec fn elapsed_since(last: u64, now: u64) -> int {
    if now >= last {
        now - last
    } else {
        0
    }
}

/// At `fps` thousandths of a frame per second, a frame lasts
/// `1_000_000 / fps` milliseconds.
pub open spec fn frame_due(elapsed_ms: int, fps: int) -> bool {
    fps > 0 && elapsed_ms * fps >= FRAME_CLOCK as int
}

/// The reading the active source gives.
pub open spec fn reading_of(
    source: AnimationSource,
    cpu: u32,
    freq_per: Seq<u32>,
    freq_max: Seq<u32>,
    temp_cores: Seq<i32>,
    temp_package: Option<i32>,
    temp_critical: Option<i32>,
) -> Reading {
    match source {
        AnimationSource::CpuUsage => Reading { metric: sat_i32(cpu as int) as i32, actual: cpu as i64 },
        AnimationSource::Frequency => {
            let n = freq_per.len() as int;
            let pct = if n == 0 {
                0
            } else {
                percent_sum(freq_per, freq_max, n) as int / n
            };
            let mhz = if n == 0 {
                0
            } else {
                seq_sum(freq_per) / n
            };
            Reading { metric: sat_i32(pct) as i32, actual: (mhz * 1000) as i64 }
        },
        AnimationSource::Temperature => Reading {
            metric: temp_percent(
                max_temp_of(temp_cores, temp_package),
                match temp_critical {
                    Some(c) => c as int,
                    None => DEFAULT_CRITICAL_TEMP as int,
                },
            ) as i32,
            actual: max_temp_of(temp_cores, temp_package) as i64,
        },
    }
}

/// The sleep decision: strictly below the threshold.
pub fn should_sleep(actual: i64, threshold: i32) -> (r: bool)
    ensures
        r == sleeps(actual as int, threshold as int),
{
    actual < threshold as i64
}

/// A value at the threshold is awake, and one a thousandth below it is
/// asleep.
pub proof fn lemma_sleep_is_strict(threshold: int)
    ensures
        !sleeps(threshold, threshold),
        sleeps(threshold - 1, threshold),
        forall|a: int| a >= threshold ==> !#[trigger] sleeps(a, threshold),
{
}

/// The active source's reading: the smoothed usage for `CpuUsage`; the mean
/// per-core percentage of maximum and the mean MHz for `Frequency`; the
/// percentage of the critical threshold and the hottest reading for
/// `Temperature`.
pub fn active_reading(
    source: AnimationSource,
    cpu: u32,
    freq: &CpuFrequency,
    temp: &CpuTemperature,
) -> (r: Reading)
    ensures
        r == reading_of(
            source,
            cpu,
            freq.per_core@,
            freq.max_per_core@,
            temp.per_core@,
            temp.package,
            temp.critical,
        ),
{
    match source {
        AnimationSource::CpuUsage => {
            let metric = if cpu > i32::MAX as u32 {
                i32::MAX
            } else {
                cpu as i32
            };
            Reading { metric, actual: cpu as i64 }
        },
        AnimationSource::Frequency => {
            let pct = freq.average_percentage();
            let metric = if pct > i32::MAX as u64 {
                i32::MAX
            } else {
                pct as i32
            };
            let mhz = freq.average_mhz();
            Reading { metric, actual: mhz as i64 * 1000 }
        },
        AnimationSource::Temperature => {
            let metric = temp.percentage();
            let actual = temp.max_temp() as i64;
            Reading { metric, actual }
        },
    }
}

/// Frame index, sleep flag and the time of the last frame advance
/// (milliseconds on a monotonic clock).
#[derive(Debug, Clone, Copy, PartialEq, Eq, Structural)]
pub struct AnimationState {
    pub current_frame: u8,
    pub is_sleeping: bool,
    pub last_advance_ms: u64,
}

impl AnimationState {
    /// First frame, asleep until the first tick decides otherwise.
    pub fn new(now_ms: u64) -> (r: AnimationState)
        ensures
            r == (AnimationState { current_frame: 0, is_sleeping: true, last_advance_ms: now_ms }),
    {
        AnimationState { current_frame: 0, is_sleeping: true, last_advance_ms: now_ms }
    }

    /// One tick: recomputes the sleep flag from the actual value and the
    /// active threshold; while awake, advances the frame (wrapping after the
    /// last one) once a full frame period at the current speed has passed.
    /// While asleep the frame stays where it is. Returns whether the frame
    /// advanced.
    pub fn tick(&mut self, reading: Reading, config: &Config, now_ms: u64) -> (advanced: bool)
        ensures
            final(self).is_sleeping == sleeps(reading.actual as int, threshold_of(*config) as int),
            ({
                let fps = fps_for(config.min_fps as int, config.max_fps as int, reading.metric as int);
                let due = !final(self).is_sleeping && frame_due(
                    elapsed_since(old(self).last_advance_ms, now_ms),
                    fps,
                );
                &&& advanced == due
                &&& if due {
                    final(self).current_frame as int == (old(self).current_frame as int + 1) % (
                    RUN_FRAMES as int) && final(self).last_advance_ms == now_ms
                } else {
                    final(self).current_frame == old(self).current_frame
                        && final(self).last_advance_ms == old(self).last_advance_ms
                }
            }),
    {
        let sleeping = should_sleep(reading.actual, config.current_threshold());
        self.is_sleeping = sleeping;
        if !sleeping {
            let fps = config.calculate_fps(reading.metric);
            if fps > 0 {
                let elapsed: u64 = if now_ms >= self.last_advance_ms {
                    now_ms - self.last_advance_ms
                } else {
                    0
                };
                let due = if elapsed >= FRAME_CLOCK {
                    assert(elapsed * fps >= FRAME_CLOCK) by (nonlinear_arith)
                        requires elapsed >= FRAME_CLOCK, fps >= 1;
                    true
                } else {
                    assert(elapsed * fps <= FRAME_CLOCK * 0x8000_0000) by (nonlinear_arith)
                        requires elapsed < FRAME_CLOCK, 0 < fps < 0x8000_0000;
                    elapsed * (fps as u64) >= FRAME_CLOCK
                };
                if due {
                    self.current_frame = ((self.current_frame as u16 + 1) % (RUN_FRAMES as u16)) as u8;
                    self.last_advance_ms = now_ms;
                    return true;
                }
            }
        }
        false
    }
}

} // verus!
