use cosmic_runkat::cache::{decode_sprite, SpriteCache};
use cosmic_runkat::constants::RUN_FRAMES;
use cosmic_runkat::icon::CAT_SIZE;
use cosmic_runkat::sprite::{composite_sprite, create_fallback_icon, recolor_image, Sprite};

const TWO_PIXEL_PNG: [u8; 74] = [
    137, 80, 78, 71, 13, 10, 26, 10, 0, 0, 0, 13, 73, 72, 68, 82, 0, 0, 0, 2, 0, 0, 0, 1, 8, 6, 0,
    0, 0, 244, 34, 127, 138, 0, 0, 0, 17, 73, 68, 65, 84, 120, 156, 99, 248, 207, 192, 240, 159,
    75, 68, 142, 1, 0, 13, 156, 2, 59, 83, 133, 62, 46, 0, 0, 0, 0, 73, 69, 78, 68, 174, 66, 96,
    130,
];

fn filled(w: u32, h: u32, p: (u8, u8, u8, u8)) -> Sprite {
    let mut s = Sprite::new(w, h);
    for y in 0..h {
        for x in 0..w {
            s.put_pixel(x, y, p);
        }
    }
    s
}

fn white_cat(size: u32) -> Sprite {
    let mut s = Sprite::new(size, size);
    s.put_pixel(size / 2, size / 2, (255, 255, 255, 255));
    s.put_pixel(1, 1, (255, 255, 255, 90));
    s
}

fn test_cache() -> SpriteCache {
    let frames: Vec<Sprite> = (0..RUN_FRAMES).map(|_| white_cat(CAT_SIZE)).collect();
    let digits: Vec<Sprite> = (0..11).map(|_| filled(8, 12, (255, 255, 255, 255))).collect();
    SpriteCache::from_sprites(frames, white_cat(CAT_SIZE), digits).expect("Should load test resources")
}

#[test]
fn test_recolor_image_preserves_alpha() {
    let mut img = Sprite::new(2, 2);
    img.put_pixel(0, 0, (100, 100, 100, 255));
    img.put_pixel(1, 0, (50, 50, 50, 128));
    img.put_pixel(0, 1, (0, 0, 0, 0));
    img.put_pixel(1, 1, (200, 200, 200, 255));

    let recolored = recolor_image(&img, (255, 0, 0));

    assert_eq!(recolored.get_pixel(0, 0), (255, 0, 0, 255));
    assert_eq!(recolored.get_pixel(1, 1), (255, 0, 0, 255));
    assert_eq!(recolored.get_pixel(1, 0), (255, 0, 0, 128));
    assert_eq!(recolored.get_pixel(0, 1).3, 0);
}

#[test]
fn test_composite_sprite_basic() {
    let mut target = Sprite::new(10, 10);
    let sprite = filled(3, 3, (255, 0, 0, 255));

    composite_sprite(&mut target, &sprite, 2, 2);

    assert_eq!(target.get_pixel(2, 2), (255, 0, 0, 255));
    assert_eq!(target.get_pixel(4, 4), (255, 0, 0, 255));
    assert_eq!(target.get_pixel(0, 0).0, 0);
    assert_eq!(target.get_pixel(9, 9).0, 0);
}

#[test]
fn test_composite_sprite_skips_transparent() {
    let mut target = filled(10, 10, (255, 255, 255, 255));
    let mut sprite = Sprite::new(2, 2);
    sprite.put_pixel(0, 0, (255, 0, 0, 255));
    sprite.put_pixel(1, 0, (0, 255, 0, 0));

    composite_sprite(&mut target, &sprite, 0, 0);

    assert_eq!(target.get_pixel(0, 0), (255, 0, 0, 255));
    assert_eq!(target.get_pixel(1, 0), (255, 255, 255, 255));
}

#[test]
fn composite_clips_at_the_edge() {
    let mut target = Sprite::new(4, 4);
    let sprite = filled(3, 3, (9, 9, 9, 255));
    composite_sprite(&mut target, &sprite, 3, 3);
    assert_eq!(target.get_pixel(3, 3), (9, 9, 9, 255));
    assert_eq!(target.get_pixel(2, 2), (0, 0, 0, 0));
    assert_eq!(target.pixels.len(), 16);
}

#[test]
fn test_resources_update_colors_caches() {
    let mut resources = test_cache();

    let color1 = (255, 0, 0);
    let color2 = (0, 0, 255);

    resources.update_colors(color1);
    assert_eq!(resources.last_theme_color, Some(color1));

    let cat_frame = resources.get_cat_frame(0, false);
    let has_red = cat_frame.pixels.iter().any(|p| p.3 > 0 && p.0 > 200);
    assert!(has_red, "Should have recolored to red");

    resources.update_colors(color1);
    assert_eq!(resources.last_theme_color, Some(color1));
    assert_eq!(resources.recolor_count, 1);

    resources.update_colors(color2);
    assert_eq!(resources.last_theme_color, Some(color2));
    assert_eq!(resources.recolor_count, 2);

    let cat_frame = resources.get_cat_frame(0, false);
    let has_blue = cat_frame.pixels.iter().any(|p| p.3 > 0 && p.2 > 200);
    assert!(has_blue, "Should have recolored to blue");
}

#[test]
fn test_resources_get_cat_frame() {
    let resources = test_cache();

    let sleeping = resources.get_cat_frame(0, true);
    assert_eq!(sleeping.width, CAT_SIZE);
    assert_eq!(sleeping.height, CAT_SIZE);

    let running = resources.get_cat_frame(5, false);
    assert_eq!(running.width, CAT_SIZE);
    assert_eq!(running.height, CAT_SIZE);

    let frame_high = resources.get_cat_frame(99, false);
    assert_eq!(frame_high.width, CAT_SIZE);
}

#[test]
fn test_resources_get_digit() {
    let resources = test_cache();

    for ch in "0123456789%".chars() {
        let digit = resources.get_digit(ch);
        assert!(digit.is_some(), "Digit '{}' should be loaded", ch);

        if let Some(img) = digit {
            assert_eq!(img.width, 8);
            assert_eq!(img.height, 12);
        }
    }

    assert!(resources.get_digit('X').is_none());
}

#[test]
fn test_fallback_icon_creation() {
    let icon = create_fallback_icon(32, (200, 200, 200));
    assert_eq!(icon.width, 32);
    assert_eq!(icon.height, 32);

    let center_pixel = icon.get_pixel(16, 16);
    assert_eq!(center_pixel.0, 200);
    assert_eq!(center_pixel.1, 200);
    assert_eq!(center_pixel.2, 200);
    assert_eq!(center_pixel.3, 255);

    let corner_pixel = icon.get_pixel(0, 0);
    assert_eq!(corner_pixel.3, 0);
}

#[test]
fn test_resources_load_or_fallback() {
    let frames: Vec<Vec<u8>> = (0..RUN_FRAMES).map(|_| vec![1, 2, 3]).collect();
    let resources = SpriteCache::load_or_fallback(&[0, 1], &frames, &Vec::new());

    assert!(!resources.cat_frames_original.is_empty());
    assert_eq!(resources.cat_frames_original.len(), RUN_FRAMES as usize);
}

#[test]
fn decoding_a_png_gives_its_pixels() {
    let s = decode_sprite(&TWO_PIXEL_PNG).expect("a valid image");
    assert_eq!((s.width, s.height), (2, 1));
    assert_eq!(s.pixels, vec![(255, 0, 0, 255), (10, 20, 30, 0)]);
    assert!(decode_sprite(&TWO_PIXEL_PNG[..20]).is_none());
}

#[test]
fn load_decodes_every_sprite() {
    let frames = vec![TWO_PIXEL_PNG.to_vec(), TWO_PIXEL_PNG.to_vec()];
    let cache = SpriteCache::load(&TWO_PIXEL_PNG, &frames, &vec![TWO_PIXEL_PNG.to_vec()]).expect("decodes");
    assert_eq!(cache.cat_frames_original.len(), 2);
    assert_eq!(cache.get_cat_frame(3, false).pixels[0], (255, 0, 0, 255));
    assert!(SpriteCache::load(&TWO_PIXEL_PNG, &Vec::new(), &Vec::new()).is_none());
}

#[test]
fn fallback_is_already_coloured() {
    let c = SpriteCache::create_fallback();
    assert_eq!(c.last_theme_color, Some((200, 200, 200)));
    assert!(c.get_digit('5').is_none());
    assert_eq!(c.get_cat_frame(0, false).get_pixel(16, 16), (200, 200, 200, 255));
}

#[test]
fn load_or_fallback_keeps_decoded_sprites() {
    let frames = vec![TWO_PIXEL_PNG.to_vec()];
    let cache = SpriteCache::load_or_fallback(&TWO_PIXEL_PNG, &frames, &Vec::new());
    assert_eq!(cache.last_theme_color, None);
    assert_eq!(cache.cat_frames_original.len(), 1);
    assert_eq!(cache.cat_sleep_original.pixels, vec![(255, 0, 0, 255), (10, 20, 30, 0)]);
    let fallback = SpriteCache::load_or_fallback(&TWO_PIXEL_PNG, &Vec::new(), &Vec::new());
    assert_eq!(fallback.last_theme_color, Some((200, 200, 200)));
    assert_eq!(fallback.cat_sleep_original.width, CAT_SIZE);
}
