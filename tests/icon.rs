use cosmic_runkat::cache::SpriteCache;
use cosmic_runkat::icon::{CAT_SIZE, CAT_SIZE_SCALED};
use cosmic_runkat::sprite::Sprite;
use cosmic_runkat::theme::{is_panel_medium_or_larger, portal_prefers_dark};

fn glyph(mark: u8) -> Sprite {
    let mut s = Sprite::new(8, 12);
    s.put_pixel(0, 0, (mark, mark, mark, 255));
    s
}

fn cache_with_glyphs() -> SpriteCache {
    let mut cat = Sprite::new(CAT_SIZE, CAT_SIZE);
    cat.put_pixel(0, 0, (1, 1, 1, 255));
    let frames = vec![cat];
    let digits: Vec<Sprite> = (0..11).map(|i| glyph(100 + i as u8)).collect();
    SpriteCache::from_sprites(frames, Sprite::new(CAT_SIZE, CAT_SIZE), digits).expect("one frame")
}

#[test]
fn icon_with_percentage_places_digits() {
    let cache = cache_with_glyphs();
    let icon = cache.build_icon(0, false, true, true, 42);
    // cat 32 + gap 2 + two digits of 9 + percent sign 8
    assert_eq!(icon.width, 60);
    assert_eq!(icon.height, 32);
    assert_eq!(icon.get_pixel(0, 0), (1, 1, 1, 255));
    assert_eq!(icon.get_pixel(34, 10), (104, 104, 104, 255));
    assert_eq!(icon.get_pixel(43, 10), (102, 102, 102, 255));
    assert_eq!(icon.get_pixel(52, 10), (110, 110, 110, 255));
}

#[test]
fn icon_caps_the_number() {
    let cache = cache_with_glyphs();
    let icon = cache.build_icon(0, false, true, true, 1234);
    assert_eq!(icon.width, 69);
    assert_eq!(icon.get_pixel(34, 10), (109, 109, 109, 255));
}

#[test]
fn icon_without_percentage() {
    let cache = cache_with_glyphs();
    let asleep = cache.build_icon(0, true, true, true, 42);
    assert_eq!((asleep.width, asleep.height), (CAT_SIZE, CAT_SIZE));
    let small = cache.build_icon(0, false, true, false, 42);
    assert_eq!((small.width, small.height), (CAT_SIZE_SCALED, CAT_SIZE_SCALED));
    assert_eq!(small.get_pixel(0, 0), (1, 1, 1, 255));
    assert_eq!(small.pixels.len(), 48 * 48);
}

#[test]
fn panel_size_and_portal_answers() {
    assert!(is_panel_medium_or_larger(&Some(b"xl\n".to_vec())));
    assert!(is_panel_medium_or_larger(&Some(b"M".to_vec())));
    assert!(!is_panel_medium_or_larger(&Some(b"S".to_vec())));
    assert!(!is_panel_medium_or_larger(&Some(b"XS".to_vec())));
    assert!(is_panel_medium_or_larger(&None));
    assert_eq!(portal_prefers_dark(b"(<<uint32 1>>,)"), Some(true));
    assert_eq!(portal_prefers_dark(b"(<<uint32 2>>,)"), Some(false));
    assert_eq!(portal_prefers_dark(b"(<<uint32 0>>,)"), None);
}
