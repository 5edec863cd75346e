//! The decisions of the tray's scheduling loop. The loop itself, with its
//! timers and connections, runs outside; it hands each event to
//! [`TrayLoop`] and carries out what comes back.

use vstd::prelude::*;
use crate::animation::{frame_due, elapsed_since, sleeps, AnimationState, Reading};
use crate::config::{fps_for, threshold_of, Config};
use crate::constants::{
    CPU_DISPLAY_THRESHOLD, CPU_RAW_EPSILON, CPU_SAMPLE_COUNT, RUN_FRAMES, SUSPEND_RESUME_THRESHOLD_MS,
};
use crate::smoother::{pushed_window, smoothed_value, Smoother};

verus! {

/// What the loop does after a tick.
#[derive(Debug, Clone, Copy, PartialEq, Eq, Structural)]
pub enum TickOutcome {
    /// The iteration took far longer than its cadence: the machine was
    /// suspended. Tear down and restart the tray.
    SuspendResume,
    /// A quit was requested.
    Quit,
    /// Awake, and the frame advanced: redraw.
    Advanced,
    /// Asleep: show the sleeping sprite.
    Asleep,
    /// Awake, and no frame is due yet.
    Waiting,
}

pub open spec fn abs_diff(a: u32, b: u32) -> int {
    if a >= b {
        a - b
    } else {
        b - a
    }
}

/// A raw sample counts as new when there was none before or it moved by
/// more than the epsilon.
pub open spec fn is_new_sample(last: Option<u32>, raw: u32) -> bool {
    match last {
        Some(l) => abs_diff(raw, l) > CPU_RAW_EPSILON,
        None => true,
    }
}

/// A load in thousandths of a percent, rounded to whole percent, halves up.
pub open spec fn whole_percent(v: u32) -> int {
    (v as int + 500) / 1000
}

/// A suspend shows as an iteration longer than the threshold.
pub open spec fn suspended(elapsed_ms: int) -> bool {
    elapsed_ms > SUSPEND_RESUME_THRESHOLD_MS as int
}

pub open spec fn moved(a: i32, b: i32) -> bool {
    a - b > 100 || b - a > 100
}

/// A reloaded configuration counts as changed when the overlay flag or the
/// source changed, or a threshold moved by more than a tenth of its unit.
pub open spec fn config_changed_spec(old: Config, new: Config) -> bool {
    new.show_percentage != old.show_percentage || new.animation_source != old.animation_source
        || moved(new.sleep_threshold_cpu, old.sleep_threshold_cpu) || moved(
        new.sleep_threshold_freq,
        old.sleep_threshold_freq,
    ) || moved(new.sleep_threshold_temp, old.sleep_threshold_temp)
}

/// Whether the loop iteration that took `elapsed_ms` spans a suspend.
pub fn is_suspend_resume(elapsed_ms: u64) -> (r: bool)
    ensures
        r == suspended(elapsed_ms as int),
{
    elapsed_ms > SUSPEND_RESUME_THRESHOLD_MS
}

/// Whether a reloaded configuration differs from the one in use in a way
/// the tray must act on.
pub fn config_changed(old: &Config, new: &Config) -> (r: bool)
    ensures
        r == config_changed_spec(*old, *new),
{
    let d_cpu = new.sleep_threshold_cpu as i64 - old.sleep_threshold_cpu as i64;
    let d_freq = new.sleep_threshold_freq as i64 - old.sleep_threshold_freq as i64;
    let d_temp = new.sleep_threshold_temp as i64 - old.sleep_threshold_temp as i64;
    new.show_percentage != old.show_percentage || new.animation_source != old.animation_source
        || d_cpu > 100 || d_cpu < -100 || d_freq > 100 || d_freq < -100 || d_temp > 100 || d_temp
        < -100
}

/// State of the tray's scheduling loop.
pub struct TrayLoop {
    /// Moving average of the raw usage samples.
    pub smoother: Smoother,
    /// The last raw sample that counted as new.
    pub last_raw_cpu: Option<u32>,
    /// The smoothed usage the animation runs on (thousandths of a percent).
    pub current_cpu: u32,
    pub animation: AnimationState,
    /// When the current loop iteration started (milliseconds).
    pub loop_start_ms: u64,
}

impl TrayLoop {
    pub open spec fn wf(&self) -> bool {
        self.smoother.wf() && self.smoother.capacity() == CPU_SAMPLE_COUNT as nat
    }

    /// A loop that starts at `now_ms` with no samples, asleep on frame 0.
    pub fn new(now_ms: u64) -> (r: TrayLoop)
        ensures
            r.wf(),
            r.smoother.window() == Seq::<u32>::empty(),
            r.last_raw_cpu is None,
            r.current_cpu == 0,
            r.animation == (AnimationState { current_frame: 0, is_sleeping: true, last_advance_ms: now_ms }),
            r.loop_start_ms == now_ms,
    {
        TrayLoop {
            smoother: Smoother::new(CPU_SAMPLE_COUNT),
            last_raw_cpu: None,
            current_cpu: 0,
            animation: AnimationState::new(now_ms),
            loop_start_ms: now_ms,
        }
    }

    /// A raw usage sample arrives. One that counts as new goes into the
    /// smoother; when the smoothed value moved by more than the display
    /// threshold it becomes the current value, and its whole-percent
    /// rounding is returned for display.
    pub fn on_cpu_sample(&mut self, raw: u32) -> (r: Option<u32>)
        requires
            old(self).wf(),
        ensures
            final(self).wf(),
            final(self).animation == old(self).animation,
            final(self).loop_start_ms == old(self).loop_start_ms,
            !is_new_sample(old(self).last_raw_cpu, raw) ==> {
                &&& final(self).smoother.window() == old(self).smoother.window()
                &&& final(self).last_raw_cpu == old(self).last_raw_cpu
                &&& final(self).current_cpu == old(self).current_cpu
                &&& r is None
            },
            is_new_sample(old(self).last_raw_cpu, raw) ==> {
                let w = pushed_window(old(self).smoother.window(), raw, CPU_SAMPLE_COUNT as nat);
                let s = smoothed_value(w, raw);
                &&& final(self).smoother.window() == w
                &&& final(self).last_raw_cpu == Some(raw)
                &&& if s - old(self).current_cpu > CPU_DISPLAY_THRESHOLD as int || old(
                    self,
                ).current_cpu - s > CPU_DISPLAY_THRESHOLD as int {
                    &&& final(self).current_cpu == s
                    &&& r == Some(whole_percent(final(self).current_cpu) as u32)
                } else {
                    &&& final(self).current_cpu == old(self).current_cpu
                    &&& r is None
                }
            },
    {
        let fresh = match self.last_raw_cpu {
            Some(l) => if raw >= l {
                raw - l > CPU_RAW_EPSILON
            } else {
                l - raw > CPU_RAW_EPSILON
            },
            None => true,
        };
        if !fresh {
            return None;
        }
        self.last_raw_cpu = Some(raw);
        let smoothed = self.smoother.push(raw);
        let change = if smoothed >= self.current_cpu {
            smoothed - self.current_cpu
        } else {
            self.current_cpu - smoothed
        };
        if change > CPU_DISPLAY_THRESHOLD {
            self.current_cpu = smoothed;
            let shown = (smoothed as u64 + 500) / 1000;
            Some(shown as u32)
        } else {
            None
        }
    }

    /// A timer tick at `now_ms`. A long gap since the previous tick means a
    /// suspend; otherwise the iteration clock restarts, a requested quit
    /// ends the loop, and the animation takes one step on `reading`.
    pub fn on_tick(&mut self, now_ms: u64, quit: bool, reading: Reading, config: &Config) -> (r:
        TickOutcome)
        requires
            old(self).wf(),
        ensures
            final(self).wf(),
            final(self).smoother == old(self).smoother,
            final(self).current_cpu == old(self).current_cpu,
            final(self).last_raw_cpu == old(self).last_raw_cpu,
            suspended(elapsed_since(old(self).loop_start_ms, now_ms)) ==> r == TickOutcome::SuspendResume
                && final(self).animation == old(self).animation && final(self).loop_start_ms == old(
                self,
            ).loop_start_ms,
            !suspended(elapsed_since(old(self).loop_start_ms, now_ms)) ==> final(self).loop_start_ms
                == now_ms,
            !suspended(elapsed_since(old(self).loop_start_ms, now_ms)) && quit ==> r == TickOutcome::Quit
                && final(self).animation == old(self).animation,
            !suspended(elapsed_since(old(self).loop_start_ms, now_ms)) && !quit ==> {
                let asleep = sleeps(reading.actual as int, threshold_of(*config) as int);
                let fps = fps_for(config.min_fps as int, config.max_fps as int, reading.metric as int);
                let due = !asleep && frame_due(
                    elapsed_since(old(self).animation.last_advance_ms, now_ms),
                    fps,
                );
                &&& final(self).animation.is_sleeping == asleep
                &&& r == if asleep {
                    TickOutcome::Asleep
                } else if due {
                    TickOutcome::Advanced
                } else {
                    TickOutcome::Waiting
                }
                &&& due ==> final(self).animation.current_frame as int == (
                old(self).animation.current_frame as int + 1) % (RUN_FRAMES as int)
                &&& !due ==> final(self).animation.current_frame == old(
                    self,
                ).animation.current_frame
                &&& due ==> final(self).animation.last_advance_ms == now_ms
                &&& !due ==> final(self).animation.last_advance_ms == old(
                    self,
                ).animation.last_advance_ms
            },
    {
        let elapsed: u64 = if now_ms >= self.loop_start_ms {
            now_ms - self.loop_start_ms
        } else {
            0
        };
        if is_suspend_resume(elapsed) {
            return TickOutcome::SuspendResume;
        }
        self.loop_start_ms = now_ms;
        if quit {
            return TickOutcome::Quit;
        }
        let advanced = self.animation.tick(reading, config, now_ms);
        if self.animation.is_sleeping {
            TickOutcome::Asleep
        } else if advanced {
            TickOutcome::Advanced
        } else {
            TickOutcome::Waiting
        }
    }
}

} // verus!
