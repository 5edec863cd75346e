use cosmic_runkat::animation::Reading;
use cosmic_runkat::config::Config;
use cosmic_runkat::scheduler::{is_suspend_resume, TickOutcome, TrayLoop};
use cosmic_runkat::settings::{action, source_from_name, source_name, SettingsAction};
use cosmic_runkat::config::AnimationSource;

#[test]
fn suspend_threshold_is_strict() {
    assert!(!is_suspend_resume(5000));
    assert!(is_suspend_resume(5001));
}

#[test]
fn samples_are_filtered_and_smoothed() {
    let mut t = TrayLoop::new(0);
    assert_eq!(t.on_cpu_sample(20_000), Some(20));
    assert_eq!(t.current_cpu, 20_000);
    // within the raw epsilon: ignored
    assert_eq!(t.on_cpu_sample(20_005), None);
    assert_eq!(t.smoother.len(), 1);
    // mean 20_250: moved by less than the display threshold
    assert_eq!(t.on_cpu_sample(20_500), None);
    assert_eq!(t.current_cpu, 20_000);
    // mean 23_500: shown, rounded to whole percent
    assert_eq!(t.on_cpu_sample(30_000), Some(24));
}

#[test]
fn tick_detects_suspend_and_quit() {
    let config = Config::default();
    let r = Reading { metric: 50_000, actual: 50_000 };
    let mut t = TrayLoop::new(1000);
    assert_eq!(t.on_tick(7000, false, r, &config), TickOutcome::SuspendResume);
    assert_eq!(t.loop_start_ms, 1000);
    let mut u = TrayLoop::new(1000);
    assert_eq!(u.on_tick(1033, true, r, &config), TickOutcome::Quit);
}

#[test]
fn tick_runs_the_animation() {
    let config = Config::default();
    let mut t = TrayLoop::new(0);
    let idle = Reading { metric: 1000, actual: 1000 };
    assert_eq!(t.on_tick(33, false, idle, &config), TickOutcome::Asleep);
    let busy = Reading { metric: 100_000, actual: 100_000 };
    assert_eq!(t.on_tick(66, false, busy, &config), TickOutcome::Waiting);
    assert_eq!(t.on_tick(99, false, busy, &config), TickOutcome::Advanced);
    assert_eq!(t.animation.current_frame, 1);
}

#[test]
fn settings_actions() {
    assert_eq!(action("reset"), SettingsAction::Save(Config::default()));
    assert_eq!(action("other"), SettingsAction::Unknown);
    assert_eq!(source_from_name("Frequency"), Some(AnimationSource::Frequency));
    assert_eq!(source_from_name("Temperature"), Some(AnimationSource::Temperature));
    assert_eq!(source_from_name("CpuUsage"), Some(AnimationSource::CpuUsage));
    assert_eq!(source_from_name("cpu"), None);
    assert_eq!(source_name(AnimationSource::Frequency), "Frequency");
}
