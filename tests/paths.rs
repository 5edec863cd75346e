use cosmic_runkat::paths::is_flatpak;

#[test]
fn test_is_flatpak_detection() {
    let _ = is_flatpak();
}
