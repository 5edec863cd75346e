use cosmic_runkat::sysinfo::{mhz_from_khz_text, CpuFrequency, CpuTemperature, HwmonDevice, HwmonEntry};

fn text(s: &str) -> Option<Vec<u8>> {
    Some(s.as_bytes().to_vec())
}

fn entry(name: &str, content: &str) -> HwmonEntry {
    HwmonEntry { file_name: name.as_bytes().to_vec(), content: text(content) }
}

fn sample_cpufreq() -> Vec<(Option<Vec<u8>>, Option<Vec<u8>>)> {
    vec![
        (text("2400000\n"), text("4800000\n")),
        (text("1200000\n"), text("4800000\n")),
    ]
}

#[test]
fn test_frequency_read() {
    let freq = CpuFrequency::read(&sample_cpufreq());
    assert!(!freq.per_core.is_empty(), "Expected at least one CPU core frequency");
    assert_eq!(
        freq.per_core.len(),
        freq.max_per_core.len(),
        "per_core and max_per_core should have same length"
    );
    for &max in &freq.max_per_core {
        assert!(max > 0, "Max frequency should be positive, got {}", max);
    }
}

#[test]
fn test_frequency_average_mhz() {
    let freq = CpuFrequency::read(&sample_cpufreq());
    let avg = freq.average_mhz();
    if !freq.per_core.is_empty() {
        assert!(avg > 0, "Average frequency should be positive on a running system");
    }
    assert_eq!(avg, 1800);
}

#[test]
fn test_frequency_average_mhz_empty() {
    let freq = CpuFrequency::default();
    assert_eq!(freq.average_mhz(), 0);
}

#[test]
fn test_frequency_percentage() {
    let freq = CpuFrequency { per_core: vec![2000, 3000], max_per_core: vec![4000, 4000] };
    assert!((freq.percentage(0) as i64 - 50_000).abs() < 100);
    assert!((freq.percentage(1) as i64 - 75_000).abs() < 100);
    assert!((freq.average_percentage() as i64 - 62_500).abs() < 100);
}

#[test]
fn frequency_unreadable_core_counts_as_zero() {
    let files = vec![(None, text("4000000")), (text("garbage"), None), (text("  3999999 \n"), text("+4000000"))];
    let freq = CpuFrequency::read(&files);
    assert_eq!(freq.per_core, vec![0, 0, 3999]);
    assert_eq!(freq.max_per_core, vec![4000, 0, 4000]);
    assert_eq!(freq.percentage(1), 0);
    assert_eq!(freq.percentage(7), 0);
}

#[test]
fn khz_text_parsing() {
    assert_eq!(mhz_from_khz_text(b"2400000\n"), 2400);
    assert_eq!(mhz_from_khz_text(b"999"), 0);
    assert_eq!(mhz_from_khz_text(b"-5"), 0);
    assert_eq!(mhz_from_khz_text(b"4294967295"), 4_294_967);
    assert_eq!(mhz_from_khz_text(b"4294967296"), 0);
    assert_eq!(mhz_from_khz_text(b""), 0);
}

fn coretemp_device() -> HwmonDevice {
    HwmonDevice {
        name: text("coretemp\n"),
        entries: vec![
            entry("temp1_input", "55000\n"),
            entry("temp1_label", "Package id 0\n"),
            entry("temp1_crit", "100000\n"),
            entry("temp2_input", "50000\n"),
            entry("temp2_label", "Core 0\n"),
            entry("temp3_input", "60000\n"),
            entry("temp3_label", "Core 1\n"),
        ],
    }
}

#[test]
fn test_temperature_read() {
    let devices = vec![
        HwmonDevice { name: text("nvme\n"), entries: vec![entry("temp1_input", "40000")] },
        coretemp_device(),
    ];
    let temp = CpuTemperature::read(&devices);
    if !temp.per_core.is_empty() || temp.package.is_some() {
        let max = temp.max_temp();
        assert!(max > 0, "Max temp should be positive if sensors exist");
        assert!(max < 200_000, "Max temp should be reasonable, got {}", max);
    }
    assert_eq!(temp.per_core, vec![50_000, 60_000]);
    assert_eq!(temp.package, Some(55_000));
    assert_eq!(temp.critical, Some(100_000));
}

#[test]
fn test_temperature_percentage() {
    let temp = CpuTemperature { per_core: vec![50_000, 60_000], package: Some(55_000), critical: Some(100_000) };
    assert!((temp.percentage() - 60_000).abs() < 100);
}

#[test]
fn test_temperature_max_temp() {
    let temp = CpuTemperature { per_core: vec![50_000, 70_000], package: Some(65_000), critical: None };
    assert_eq!(temp.max_temp(), 70_000);
}

#[test]
fn unlabelled_sensor_becomes_package() {
    let entries = vec![entry("temp1_input", "47000"), entry("temp2_input", "52000")];
    let t = CpuTemperature::read_hwmon(&entries);
    assert_eq!(t.package, Some(47_000));
    assert!(t.per_core.is_empty());
    assert_eq!(t.critical, None);
}

#[test]
fn amd_tctl_label_is_package() {
    let entries = vec![entry("temp1_input", "61250"), entry("temp1_label", "Tctl")];
    let t = CpuTemperature::read_hwmon(&entries);
    assert_eq!(t.package, Some(61_250));
}

#[test]
fn no_known_sensor_gives_empty_reading() {
    let devices = vec![HwmonDevice { name: text("acpitz"), entries: vec![entry("temp1_input", "30000")] }];
    let t = CpuTemperature::read(&devices);
    assert!(t.per_core.is_empty());
    assert_eq!(t.package, None);
    assert_eq!(t.max_temp(), 0);
    assert_eq!(t.percentage(), 0);
}

#[test]
fn temperature_percentage_defaults_and_clamps() {
    let t = CpuTemperature { per_core: vec![], package: Some(50_000), critical: None };
    assert_eq!(t.percentage(), 50_000);
    let hot = CpuTemperature { per_core: vec![120_000], package: None, critical: Some(100_000) };
    assert_eq!(hot.percentage(), 100_000);
}
