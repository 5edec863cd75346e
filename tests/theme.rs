use cosmic_runkat::theme::{get_cosmic_theme_colors, is_dark_text, parse_color_from_ron, theme_variant, ThemeColors};

#[test]
fn test_parse_color_from_ron() {
    let ron_content = r#"
        (
            base: (red: 0.1, green: 0.2, blue: 0.3, alpha: 1.0),
            on: (red: 0.784, green: 0.784, blue: 0.784, alpha: 1.0),
        )
        "#;

    let color = parse_color_from_ron(ron_content, "on");
    assert!(color.is_some());

    let (r, g, b) = color.unwrap();
    assert_eq!(r, 199);
    assert_eq!(g, 199);
    assert_eq!(b, 199);
}

#[test]
fn test_theme_colors_default() {
    let theme = ThemeColors::default();
    assert_eq!(theme.foreground, (200, 200, 200));
    assert_eq!(theme.is_dark, true);
}

#[test]
fn ron_channels_clamp_and_reject() {
    assert_eq!(parse_color_from_ron("on: (red: 1.5, green: -0.2, blue: 0.5)", "on"), Some((255, 0, 127)));
    assert_eq!(parse_color_from_ron("on: (red: 1, green: 0, blue: .2)", "on"), Some((255, 0, 51)));
    assert_eq!(parse_color_from_ron("on: (red: x, green: 0, blue: 0)", "on"), None);
    assert_eq!(parse_color_from_ron("on: (red: 0.1, green: 0.2)", "on"), None);
    assert_eq!(parse_color_from_ron("base: (red: 0.1, green: 0.2, blue: 0.3)", "on"), None);
    assert_eq!(parse_color_from_ron("on: red: 0.1, green: 0.2, blue: 0.3", "on"), None);
}

#[test]
fn ron_uses_first_matching_key() {
    let text = "base: (red: 0.0, green: 0.0, blue: 0.0), on: (red: 0.2, green: 0.4, blue: 0.6)";
    assert_eq!(parse_color_from_ron(text, "base"), Some((0, 0, 0)));
    assert_eq!(parse_color_from_ron(text, "on"), Some((51, 102, 153)));
}

#[test]
fn theme_colors_from_files() {
    let mode = Some(b"true\n".to_vec());
    let light = Some(b"false".to_vec());
    let bg = Some(b"(on: (red: 0.2, green: 0.4, blue: 0.6, alpha: 1.0))".to_vec());
    let c = get_cosmic_theme_colors(&mode, &bg);
    assert_eq!(c, ThemeColors { foreground: (51, 102, 153), is_dark: true });
    let l = get_cosmic_theme_colors(&light, &bg);
    assert_eq!(l.is_dark, false);
    assert_eq!(get_cosmic_theme_colors(&None, &bg), ThemeColors::default());
    assert_eq!(get_cosmic_theme_colors(&mode, &Some(b"nothing".to_vec())), ThemeColors::default());
}

#[test]
fn dark_mode_text() {
    assert!(is_dark_text(b" true\n"));
    assert!(!is_dark_text(b"True"));
    assert_eq!(theme_variant(true), "Dark");
    assert_eq!(theme_variant(false), "Light");
}
