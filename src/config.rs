//! User configuration: thresholds, frame-rate bounds and the active metric.

use vstd::prelude::*;
use vstd::arithmetic::div_mod::{lemma_div_by_multiple, lemma_div_is_ordered};
use vstd::arithmetic::mul::lemma_mul_inequality;
use crate::constants::{
    FULL_PERCENT, MAX_CPU_THRESHOLD, MAX_FPS, MAX_FREQ_THRESHOLD, MAX_SLEEP_THRESHOLD,
    MAX_TEMP_THRESHOLD, MIN_FPS, MIN_SLEEP_THRESHOLD,
};

verus! {

/// Popup position relative to the screen edges.
#[derive(Debug, Clone, Copy, PartialEq, Eq, Structural)]
pub enum PopupPosition {
    TopLeft,
    TopRight,
    BottomLeft,
    BottomRight,
}

impl Default for PopupPosition {
    fn default() -> (r: Self)
        ensures
            r == PopupPosition::TopRight,
    {
        PopupPosition::TopRight
    }
}

/// The metric that drives the animation speed and the sleep decision.
#[derive(Debug, Clone, Copy, PartialEq, Eq, Structural)]
pub enum AnimationSource {
    /// CPU utilisation, in percent.
    CpuUsage,
    /// Average clock frequency, in MHz.
    Frequency,
    /// Hottest sensor reading, in degrees Celsius.
    Temperature,
}

impl Default for AnimationSource {
    fn default() -> (r: Self)
        ensures
            r == AnimationSource::CpuUsage,
    {
        AnimationSource::CpuUsage
    }
}

/// Persisted user settings. Thresholds and frame rates are in thousandths.
#[derive(Debug, Clone, Copy, PartialEq, Eq, Structural)]
pub struct Config {
    /// Legacy usage threshold, kept for older readers of the file (percent).
    pub sleep_threshold: i32,
    /// Sleep threshold in usage mode (percent).
    pub sleep_threshold_cpu: i32,
    /// Sleep threshold in frequency mode (MHz).
    pub sleep_threshold_freq: i32,
    /// Sleep threshold in temperature mode (degrees Celsius).
    pub sleep_threshold_temp: i32,
    /// Fastest animation speed (frames per second).
    pub max_fps: i32,
    /// Slowest animation speed while awake (frames per second).
    pub min_fps: i32,
    /// Whether the numeric overlay is shown next to the sprite.
    pub show_percentage: bool,
    pub popup_position: PopupPosition,
    pub animation_source: AnimationSource,
}

/// The first rule that a configuration breaks, with the offending value.
#[derive(Debug, Clone, Copy, PartialEq, Eq, Structural)]
pub enum ConfigError {
    SleepThreshold(i32),
    SleepThresholdCpu(i32),
    SleepThresholdFreq(i32),
    SleepThresholdTemp(i32),
    MinFps(i32),
    MaxFps(i32),
    FpsOrder { min_fps: i32, max_fps: i32 },
}

/// The compiled-in configuration.
pub open spec fn default_config() -> Config {
    Config {
        sleep_threshold: 5000,
        sleep_threshold_cpu: 5000,
        sleep_threshold_freq: 1_000_000,
        sleep_threshold_temp: 40_000,
        max_fps: 15_000,
        min_fps: 2000,
        show_percentage: true,
        popup_position: PopupPosition::TopRight,
        animation_source: AnimationSource::CpuUsage,
    }
}

pub open spec fn in_range(v: int, lo: int, hi: int) -> bool {
    lo <= v <= hi
}

/// The first violated rule, checked in a fixed order.
pub open spec fn config_error(c: Config) -> Option<ConfigError> {
    if !in_range(c.sleep_threshold as int, MIN_SLEEP_THRESHOLD as int, MAX_SLEEP_THRESHOLD as int) {
        Some(ConfigError::SleepThreshold(c.sleep_threshold))
    } else if !in_range(c.sleep_threshold_cpu as int, 0, MAX_CPU_THRESHOLD as int) {
        Some(ConfigError::SleepThresholdCpu(c.sleep_threshold_cpu))
    } else if !in_range(c.sleep_threshold_freq as int, 0, MAX_FREQ_THRESHOLD as int) {
        Some(ConfigError::SleepThresholdFreq(c.sleep_threshold_freq))
    } else if !in_range(c.sleep_threshold_temp as int, 0, MAX_TEMP_THRESHOLD as int) {
        Some(ConfigError::SleepThresholdTemp(c.sleep_threshold_temp))
    } else if !in_range(c.min_fps as int, MIN_FPS as int, MAX_FPS as int) {
        Some(ConfigError::MinFps(c.min_fps))
    } else if !in_range(c.max_fps as int, MIN_FPS as int, MAX_FPS as int) {
        Some(ConfigError::MaxFps(c.max_fps))
    } else if c.min_fps >= c.max_fps {
        Some(ConfigError::FpsOrder { min_fps: c.min_fps, max_fps: c.max_fps })
    } else {
        None
    }
}

/// A configuration that satisfies every rule.
pub open spec fn config_valid(c: Config) -> bool {
    &&& in_range(c.sleep_threshold as int, MIN_SLEEP_THRESHOLD as int, MAX_SLEEP_THRESHOLD as int)
    &&& in_range(c.sleep_threshold_cpu as int, 0, MAX_CPU_THRESHOLD as int)
    &&& in_range(c.sleep_threshold_freq as int, 0, MAX_FREQ_THRESHOLD as int)
    &&& in_range(c.sleep_threshold_temp as int, 0, MAX_TEMP_THRESHOLD as int)
    &&& in_range(c.min_fps as int, MIN_FPS as int, MAX_FPS as int)
    &&& in_range(c.max_fps as int, MIN_FPS as int, MAX_FPS as int)
    &&& c.min_fps < c.max_fps
}

/// The threshold that belongs to the active source.
pub open spec fn threshold_of(c: Config) -> i32 {
    match c.animation_source {
        AnimationSource::CpuUsage => c.sleep_threshold_cpu,
        AnimationSource::Frequency => c.sleep_threshold_freq,
        AnimationSource::Temperature => c.sleep_threshold_temp,
    }
}

/// `c` with the active source's threshold replaced by `v`.
pub open spec fn with_threshold(c: Config, v: i32) -> Config {
    match c.animation_source {
        AnimationSource::CpuUsage => Config { sleep_threshold_cpu: v, ..c },
        AnimationSource::Frequency => Config { sleep_threshold_freq: v, ..c },
        AnimationSource::Temperature => Config { sleep_threshold_temp: v, ..c },
    }
}

/// A metric clamped to `[0, 100 %]`.
pub open spec fn clamp_percent(m: int) -> int {
    if m < 0 {
        0
    } else if m > FULL_PERCENT as int {
        FULL_PERCENT as int
    } else {
        m
    }
}

/// Linear interpolation from `min` at 0 % to `max` at 100 %, the fraction
/// rounded towards `min`.
pub open spec fn fps_for(min: int, max: int, metric: int) -> int {
    let n = clamp_percent(metric);
    if min <= max {
        min + n * (max - min) / (FULL_PERCENT as int)
    } else {
        min - n * (min - max) / (FULL_PERCENT as int)
    }
}

impl Default for Config {
    fn default() -> (r: Self)
        ensures
            r == default_config(),
    {
        Config {
            sleep_threshold: 5000,
            sleep_threshold_cpu: 5000,
            sleep_threshold_freq: 1_000_000,
            sleep_threshold_temp: 40_000,
            max_fps: 15_000,
            min_fps: 2000,
            show_percentage: true,
            popup_position: PopupPosition::TopRight,
            animation_source: AnimationSource::CpuUsage,
        }
    }
}

impl Config {
    /// The sleep threshold of the active source.
    pub fn current_threshold(&self) -> (r: i32)
        ensures
            r == threshold_of(*self),
    {
        match self.animation_source {
            AnimationSource::CpuUsage => self.sleep_threshold_cpu,
            AnimationSource::Frequency => self.sleep_threshold_freq,
            AnimationSource::Temperature => self.sleep_threshold_temp,
        }
    }

    /// Replaces the sleep threshold of the active source; every other field,
    /// the legacy threshold included, keeps its value.
    pub fn set_current_threshold(&mut self, value: i32)
        ensures
            *final(self) == with_threshold(*old(self), value),
    {
        match self.animation_source {
            AnimationSource::CpuUsage => self.sleep_threshold_cpu = value,
            AnimationSource::Frequency => self.sleep_threshold_freq = value,
            AnimationSource::Temperature => self.sleep_threshold_temp = value,
        }
    }

    /// Checks every threshold against its range, then the frame-rate bounds,
    /// and reports the first rule broken.
    pub fn validate(&self) -> (r: Result<(), ConfigError>)
        ensures
            r is Ok <==> config_valid(*self),
            r is Ok <==> config_error(*self) is None,
            r matches Err(e) ==> config_error(*self) == Some(e),
    {
        if self.sleep_threshold < MIN_SLEEP_THRESHOLD || self.sleep_threshold > MAX_SLEEP_THRESHOLD {
            return Err(ConfigError::SleepThreshold(self.sleep_threshold));
        }
        if self.sleep_threshold_cpu < 0 || self.sleep_threshold_cpu > MAX_CPU_THRESHOLD {
            return Err(ConfigError::SleepThresholdCpu(self.sleep_threshold_cpu));
        }
        if self.sleep_threshold_freq < 0 || self.sleep_threshold_freq > MAX_FREQ_THRESHOLD {
            return Err(ConfigError::SleepThresholdFreq(self.sleep_threshold_freq));
        }
        if self.sleep_threshold_temp < 0 || self.sleep_threshold_temp > MAX_TEMP_THRESHOLD {
            return Err(ConfigError::SleepThresholdTemp(self.sleep_threshold_temp));
        }
        if self.min_fps < MIN_FPS || self.min_fps > MAX_FPS {
            return Err(ConfigError::MinFps(self.min_fps));
        }
        if self.max_fps < MIN_FPS || self.max_fps > MAX_FPS {
            return Err(ConfigError::MaxFps(self.max_fps));
        }
        if self.min_fps >= self.max_fps {
            return Err(ConfigError::FpsOrder { min_fps: self.min_fps, max_fps: self.max_fps });
        }
        Ok(())
    }

    /// Animation speed for a metric in percent: `min_fps` at 0 %, `max_fps`
    /// at 100 %, linear in between; metrics outside `[0, 100 %]` are clamped.
    pub fn calculate_fps(&self, metric: i32) -> (r: i32)
        ensures
            r as int == fps_for(self.min_fps as int, self.max_fps as int, metric as int),
    {
        let n: i64 = if metric < 0 {
            0
        } else if metric > FULL_PERCENT {
            FULL_PERCENT as i64
        } else {
            metric as i64
        };
        let lo = self.min_fps as i64;
        let hi = self.max_fps as i64;
        if lo <= hi {
            let span: i64 = hi - lo;
            assert(0 <= n * span <= FULL_PERCENT * span) by (nonlinear_arith)
                requires 0 <= n <= FULL_PERCENT, 0 <= span;
            let step: i64 = n * span / (FULL_PERCENT as i64);
            assert(step <= span) by (nonlinear_arith)
                requires step == n * span / (FULL_PERCENT as int), n * span <= FULL_PERCENT * span,
                    0 <= n * span;
            (lo + step) as i32
        } else {
            let span: i64 = lo - hi;
            assert(0 <= n * span <= FULL_PERCENT * span) by (nonlinear_arith)
                requires 0 <= n <= FULL_PERCENT, 0 <= span;
            let step: i64 = n * span / (FULL_PERCENT as i64);
            assert(step <= span) by (nonlinear_arith)
                requires step == n * span / (FULL_PERCENT as int), n * span <= FULL_PERCENT * span,
                    0 <= n * span;
            (lo - step) as i32
        }
    }
}

/// Where the configuration in use came from.
#[derive(Debug, Clone, Copy, PartialEq, Eq, Structural)]
pub enum ConfigOrigin {
    /// The primary file; the configuration stays where it is.
    Primary,
    /// The legacy file; the configuration is to be written to the primary
    /// path and the legacy file removed once that write succeeds.
    Legacy,
    /// Neither file could be read: the compiled-in defaults.
    Defaults,
}

/// The configuration chosen at start-up and where it came from.
#[derive(Debug, Clone, Copy, PartialEq, Eq, Structural)]
pub struct LoadedConfig {
    pub config: Config,
    pub origin: ConfigOrigin,
}

/// A parsed configuration if it is valid, the defaults otherwise: never a
/// mix of the two.
pub open spec fn validated_or_default(c: Config) -> Config {
    if config_valid(c) {
        c
    } else {
        default_config()
    }
}

/// The start-up choice between the primary file, the legacy file and the
/// defaults.
pub open spec fn load_spec(primary: Option<Config>, legacy: Option<Config>) -> LoadedConfig {
    match primary {
        Some(c) => LoadedConfig { config: validated_or_default(c), origin: ConfigOrigin::Primary },
        None => match legacy {
            Some(c) => LoadedConfig {
                config: validated_or_default(c),
                origin: ConfigOrigin::Legacy,
            },
            None => LoadedConfig { config: default_config(), origin: ConfigOrigin::Defaults },
        },
    }
}

impl Config {
    /// Chooses the configuration to use from what the primary file and the
    /// legacy file held (`None`: absent or unparsable; the legacy file also
    /// counts as absent when it is the primary file). The primary file wins;
    /// an invalid one is replaced by the defaults as a whole.
    pub fn load(primary: Option<Config>, legacy: Option<Config>) -> (r: LoadedConfig)
        ensures
            r == load_spec(primary, legacy),
            config_valid(r.config),
    {
        match primary {
            Some(c) => {
                let config = match c.validate() {
                    Ok(()) => c,
                    Err(_) => Config::default(),
                };
                LoadedConfig { config, origin: ConfigOrigin::Primary }
            },
            None => match legacy {
                Some(c) => {
                    let config = match c.validate() {
                        Ok(()) => c,
                        Err(_) => Config::default(),
                    };
                    LoadedConfig { config, origin: ConfigOrigin::Legacy }
                },
                None => LoadedConfig { config: Config::default(), origin: ConfigOrigin::Defaults },
            },
        }
    }
}

/// Every valid configuration passes `validate`, and a valid configuration
/// with exactly one field moved out of its range fails on that field, the
/// offending value reported.
pub proof fn lemma_validate_names_corrupted_field(c: Config, v: i32)
    requires
        config_valid(c),
    ensures
        config_error(c) is None,
        !in_range(v as int, MIN_SLEEP_THRESHOLD as int, MAX_SLEEP_THRESHOLD as int) ==> config_error(
            Config { sleep_threshold: v, ..c },
        ) == Some(ConfigError::SleepThreshold(v)),
        !in_range(v as int, 0, MAX_CPU_THRESHOLD as int) ==> config_error(
            Config { sleep_threshold_cpu: v, ..c },
        ) == Some(ConfigError::SleepThresholdCpu(v)),
        !in_range(v as int, 0, MAX_FREQ_THRESHOLD as int) ==> config_error(
            Config { sleep_threshold_freq: v, ..c },
        ) == Some(ConfigError::SleepThresholdFreq(v)),
        !in_range(v as int, 0, MAX_TEMP_THRESHOLD as int) ==> config_error(
            Config { sleep_threshold_temp: v, ..c },
        ) == Some(ConfigError::SleepThresholdTemp(v)),
        !in_range(v as int, MIN_FPS as int, MAX_FPS as int) ==> config_error(
            Config { min_fps: v, ..c },
        ) == Some(ConfigError::MinFps(v)),
        !in_range(v as int, MIN_FPS as int, MAX_FPS as int) ==> config_error(
            Config { max_fps: v, ..c },
        ) == Some(ConfigError::MaxFps(v)),
        in_range(v as int, MIN_FPS as int, MAX_FPS as int) && v <= c.min_fps ==> config_error(
            Config { max_fps: v, ..c },
        ) == Some(ConfigError::FpsOrder { min_fps: c.min_fps, max_fps: v }),
{
}

/// The frame rate does not decrease as the metric grows, starts at `min` at
/// 0 %, reaches `max` at 100 %, and treats a metric outside `[0, 100 %]` as
/// the nearest bound.
pub proof fn lemma_fps_monotone_and_bounded(min: int, max: int, m1: int, m2: int)
    requires
        min <= max,
        m1 <= m2,
    ensures
        fps_for(min, max, m1) <= fps_for(min, max, m2),
        fps_for(min, max, 0) == min,
        fps_for(min, max, FULL_PERCENT as int) == max,
        min <= fps_for(min, max, m1) <= max,
        fps_for(min, max, m1) == fps_for(min, max, clamp_percent(m1)),
        m1 < 0 ==> fps_for(min, max, m1) == min,
        m1 > FULL_PERCENT as int ==> fps_for(min, max, m1) == max,
{
    let d = max - min;
    let f = FULL_PERCENT as int;
    let n1 = clamp_percent(m1);
    let n2 = clamp_percent(m2);
    lemma_mul_inequality(n1, n2, d);
    lemma_div_is_ordered(n1 * d, n2 * d, f);
    lemma_mul_inequality(0, n1, d);
    lemma_div_is_ordered(0, n1 * d, f);
    lemma_mul_inequality(n1, f, d);
    lemma_div_is_ordered(n1 * d, f * d, f);
    lemma_div_by_multiple(d, f);
    assert(f * d == d * f) by (nonlinear_arith);
    assert(0 * d == 0);
}

/// A malformed configuration in the primary file yields exactly the
/// defaults, never a partial merge.
pub proof fn lemma_malformed_primary_gives_defaults(c: Config, legacy: Option<Config>)
    requires
        !config_valid(c),
    ensures
        load_spec(Some(c), legacy).config == default_config(),
{
}

} // verus!
