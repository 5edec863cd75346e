use cosmic_runkat::config::{AnimationSource, Config, ConfigError, ConfigOrigin};
use cosmic_runkat::animation::should_sleep;
use cosmic_runkat::scheduler::config_changed;

#[test]
fn test_config_validation_valid() {
    let config = Config::default();
    assert!(config.validate().is_ok());
}

#[test]
fn test_config_validation_sleep_threshold_too_low() {
    let mut config = Config::default();
    config.sleep_threshold = -5000;
    assert!(config.validate().is_err());
}

#[test]
fn test_config_validation_sleep_threshold_too_high() {
    let mut config = Config::default();
    config.sleep_threshold = 25_000;
    assert!(config.validate().is_err());
}

#[test]
fn test_config_validation_min_fps_invalid() {
    let mut config = Config::default();
    config.min_fps = 500;
    assert!(config.validate().is_err());

    config = Config::default();
    config.min_fps = 35_000;
    assert!(config.validate().is_err());
}

#[test]
fn test_config_validation_fps_order_invalid() {
    let mut config = Config::default();
    config.min_fps = 20_000;
    config.max_fps = 10_000;
    assert!(config.validate().is_err());
}

#[test]
fn test_fps_calculation() {
    let config = Config::default();

    let low_fps = config.calculate_fps(3000);
    assert!(low_fps >= config.min_fps);
    assert!(low_fps < config.min_fps + 1000);

    assert!((config.calculate_fps(100_000) - config.max_fps).abs() < 10);
}

#[test]
fn test_sleep_threshold() {
    let config = Config::default();

    assert!(should_sleep(3000, config.sleep_threshold));
    assert!(should_sleep(4900, config.sleep_threshold));

    assert!(!should_sleep(5000, config.sleep_threshold));
    assert!(!should_sleep(50_000, config.sleep_threshold));
}

#[test]
fn validate_names_each_corrupted_field() {
    let base = Config::default();
    let mut c = base;
    c.sleep_threshold_cpu = 100_001;
    assert_eq!(c.validate(), Err(ConfigError::SleepThresholdCpu(100_001)));
    let mut c = base;
    c.sleep_threshold_freq = -1;
    assert_eq!(c.validate(), Err(ConfigError::SleepThresholdFreq(-1)));
    let mut c = base;
    c.sleep_threshold_temp = 150_001;
    assert_eq!(c.validate(), Err(ConfigError::SleepThresholdTemp(150_001)));
    let mut c = base;
    c.min_fps = 999;
    assert_eq!(c.validate(), Err(ConfigError::MinFps(999)));
    let mut c = base;
    c.max_fps = 30_001;
    assert_eq!(c.validate(), Err(ConfigError::MaxFps(30_001)));
    let mut c = base;
    c.sleep_threshold = 20_001;
    assert_eq!(c.validate(), Err(ConfigError::SleepThreshold(20_001)));
}

#[test]
fn validate_rejects_equal_fps_bounds() {
    let mut c = Config::default();
    c.min_fps = 10_000;
    c.max_fps = 10_000;
    assert_eq!(c.validate(), Err(ConfigError::FpsOrder { min_fps: 10_000, max_fps: 10_000 }));
}

#[test]
fn validate_reports_first_violation() {
    let mut c = Config::default();
    c.sleep_threshold_cpu = -1;
    c.min_fps = 0;
    assert_eq!(c.validate(), Err(ConfigError::SleepThresholdCpu(-1)));
}

#[test]
fn validate_accepts_range_edges() {
    let mut c = Config::default();
    c.sleep_threshold = 0;
    c.sleep_threshold_cpu = 100_000;
    c.sleep_threshold_freq = 10_000_000;
    c.sleep_threshold_temp = 0;
    c.min_fps = 1000;
    c.max_fps = 30_000;
    assert_eq!(c.validate(), Ok(()));
}

#[test]
fn fps_interpolates_and_clamps() {
    let config = Config::default();
    assert_eq!(config.calculate_fps(0), 2000);
    assert_eq!(config.calculate_fps(100_000), 15_000);
    assert_eq!(config.calculate_fps(50_000), 8500);
    assert_eq!(config.calculate_fps(3000), 2390);
    assert_eq!(config.calculate_fps(-20_000), 2000);
    assert_eq!(config.calculate_fps(250_000), 15_000);
    let mut prev = config.calculate_fps(0);
    let mut m = 0;
    while m <= 100_000 {
        let f = config.calculate_fps(m);
        assert!(f >= prev);
        prev = f;
        m += 2500;
    }
}

#[test]
fn default_scenario_speeds() {
    let config = Config::default();
    assert_eq!(config.sleep_threshold_cpu, 5000);
    assert_eq!(config.min_fps, 2000);
    assert_eq!(config.max_fps, 15_000);
    let low = config.calculate_fps(3000);
    assert!(low >= 2000 && low < 3000);
    assert!((config.calculate_fps(100_000) - 15_000).abs() <= 10);
}

#[test]
fn current_threshold_follows_source() {
    let mut c = Config::default();
    assert_eq!(c.current_threshold(), 5000);
    c.animation_source = AnimationSource::Frequency;
    assert_eq!(c.current_threshold(), 1_000_000);
    c.set_current_threshold(2_000_000);
    assert_eq!(c.sleep_threshold_freq, 2_000_000);
    assert_eq!(c.sleep_threshold_cpu, 5000);
    assert_eq!(c.sleep_threshold, 5000);
    c.animation_source = AnimationSource::Temperature;
    c.set_current_threshold(55_000);
    assert_eq!(c.sleep_threshold_temp, 55_000);
    assert_eq!(c.current_threshold(), 55_000);
}

#[test]
fn malformed_primary_config_loads_defaults() {
    let mut bad = Config::default();
    bad.min_fps = 20_000;
    bad.max_fps = 10_000;
    bad.show_percentage = false;
    let loaded = Config::load(Some(bad), None);
    assert_eq!(loaded.config, Config::default());
    assert_eq!(loaded.origin, ConfigOrigin::Primary);
}

#[test]
fn load_prefers_primary_then_legacy() {
    let mut primary = Config::default();
    primary.sleep_threshold_cpu = 7000;
    let mut legacy = Config::default();
    legacy.sleep_threshold_cpu = 9000;
    let a = Config::load(Some(primary), Some(legacy));
    assert_eq!(a.config.sleep_threshold_cpu, 7000);
    assert_eq!(a.origin, ConfigOrigin::Primary);
    let b = Config::load(None, Some(legacy));
    assert_eq!(b.config.sleep_threshold_cpu, 9000);
    assert_eq!(b.origin, ConfigOrigin::Legacy);
    let c = Config::load(None, None);
    assert_eq!(c.config, Config::default());
    assert_eq!(c.origin, ConfigOrigin::Defaults);
}

#[test]
fn reload_change_detection() {
    let a = Config::default();
    let mut b = a;
    b.sleep_threshold_cpu = 5100;
    assert!(!config_changed(&a, &b));
    b.sleep_threshold_cpu = 5101;
    assert!(config_changed(&a, &b));
    let mut c = a;
    c.show_percentage = false;
    assert!(config_changed(&a, &c));
    let mut d = a;
    d.max_fps = 20_000;
    assert!(!config_changed(&a, &d));
}
