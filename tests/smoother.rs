use cosmic_runkat::smoother::Smoother;

#[test]
fn smoother_evicts_oldest_after_eleven_pushes() {
    let mut s = Smoother::new(10);
    let mut last = 0;
    for _ in 0..10 {
        last = s.push(10_000);
    }
    assert_eq!(last, 10_000);
    assert_eq!(s.push(50_000), 14_000);
    assert_eq!(s.len(), 10);
}

#[test]
fn smoother_full_window_shift() {
    let mut s = Smoother::new(3);
    s.push(3000);
    s.push(6000);
    assert_eq!(s.push(9000), 6000);
    // evicting 3000 and adding 12000 raises the sum by 9000: mean +3000
    assert_eq!(s.push(12_000), 9000);
}

#[test]
fn smoother_partial_window_has_no_phantom_zeros() {
    let mut s = Smoother::new(10);
    assert_eq!(s.push(40_000), 40_000);
    assert_eq!(s.push(20_000), 30_000);
    assert_eq!(s.len(), 2);
}

#[test]
fn smoother_empty_window_returns_raw() {
    let mut s = Smoother::new(0);
    assert_eq!(s.push(12_345), 12_345);
    assert_eq!(s.len(), 0);
}

#[test]
fn smoother_mean_rounds_down() {
    let mut s = Smoother::new(10);
    s.push(1);
    assert_eq!(s.push(2), 1);
}
