use cosmic_runkat::animation::{active_reading, should_sleep, AnimationState, Reading};
use cosmic_runkat::config::{AnimationSource, Config};
use cosmic_runkat::sysinfo::{CpuFrequency, CpuTemperature};

#[test]
fn sleep_decision_is_strict() {
    assert!(!should_sleep(5000, 5000));
    assert!(should_sleep(4999, 5000));
    assert!(!should_sleep(5001, 5000));
}

#[test]
fn awake_tick_advances_after_a_frame_period() {
    let config = Config::default();
    let mut a = AnimationState::new(0);
    // 100 %: 15 fps, a frame every 66.67 ms
    let busy = Reading { metric: 100_000, actual: 100_000 };
    assert!(!a.tick(busy, &config, 66));
    assert!(!a.is_sleeping);
    assert_eq!(a.current_frame, 0);
    assert!(a.tick(busy, &config, 67));
    assert_eq!(a.current_frame, 1);
    assert_eq!(a.last_advance_ms, 67);
}

#[test]
fn frame_wraps_after_last() {
    let config = Config::default();
    let mut a = AnimationState { current_frame: 9, is_sleeping: false, last_advance_ms: 0 };
    let busy = Reading { metric: 100_000, actual: 100_000 };
    assert!(a.tick(busy, &config, 1000));
    assert_eq!(a.current_frame, 0);
}

#[test]
fn sleeping_freezes_frame() {
    let config = Config::default();
    let mut a = AnimationState { current_frame: 4, is_sleeping: false, last_advance_ms: 0 };
    let idle = Reading { metric: 1000, actual: 1000 };
    assert!(!a.tick(idle, &config, 10_000));
    assert!(a.is_sleeping);
    assert_eq!(a.current_frame, 4);
    assert_eq!(a.last_advance_ms, 0);
}

#[test]
fn frequency_reading_uses_mhz_for_sleep() {
    let freq = CpuFrequency { per_core: vec![2000, 3000], max_per_core: vec![4000, 4000] };
    let temp = CpuTemperature::default();
    let r = active_reading(AnimationSource::Frequency, 0, &freq, &temp);
    assert_eq!(r.metric, 62_500);
    assert_eq!(r.actual, 2_500_000);
}

#[test]
fn temperature_reading_uses_degrees_for_sleep() {
    let freq = CpuFrequency::default();
    let temp = CpuTemperature { per_core: vec![50_000, 60_000], package: Some(55_000), critical: Some(80_000) };
    let r = active_reading(AnimationSource::Temperature, 0, &freq, &temp);
    assert_eq!(r.metric, 75_000);
    assert_eq!(r.actual, 60_000);
}

#[test]
fn usage_reading_is_the_smoothed_value() {
    let r = active_reading(AnimationSource::CpuUsage, 12_345, &CpuFrequency::default(), &CpuTemperature::default());
    assert_eq!(r, Reading { metric: 12_345, actual: 12_345 });
}
