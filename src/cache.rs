//! The sprite set and its recoloured copies, redone only when the theme
//! colour changes.

use vstd::prelude::*;
use crate::constants::RUN_FRAMES;
use crate::icon::CAT_SIZE;
use crate::sprite::{
    create_fallback_icon, is_fallback_icon, is_recolor_of, recolor_image, same_image, sprite_wf, Rgba,
    Sprite,
};

verus! {

/// Width, height and row-major pixels of the image that `bytes` encode.
pub uninterp spec fn decoded_image(bytes: Seq<u8>) -> Option<(u32, u32, Seq<(u8, u8, u8, u8)>)>;

/// Relies on `image::load_from_memory` (format guessed from the bytes, then
/// decoded) and `DynamicImage::to_rgba8`; `ImageBuffer::pixels` yields the
/// `width * height` pixels row by row. The decoded image depends on the
/// bytes alone.
#[verifier::external_body]
fn decode_image(bytes: &[u8]) -> (r: Option<Sprite>)
    ensures
        r matches Some(s) ==> sprite_wf(s) && decoded_image(bytes@) == Some(
            (s.width, s.height, s.pixels@),
        ),
        r is None ==> decoded_image(bytes@) is None,
{
    match image::load_from_memory(bytes) {
        Ok(img) => {
            let rgba = img.to_rgba8();
            let (width, height) = rgba.dimensions();
            let pixels: Vec<Rgba> = rgba.pixels().map(|p| (p.0[0], p.0[1], p.0[2], p.0[3])).collect();
            Some(Sprite { width, height, pixels })
        },
        Err(_) => None,
    }
}

/// `s` is the image that `bytes` encode.
pub open spec fn decodes_to(bytes: Seq<u8>, s: Sprite) -> bool {
    decoded_image(bytes) == Some((s.width, s.height, s.pixels@))
}

/// Every byte string in `pngs` encodes an image.
pub open spec fn all_decode(pngs: Seq<Vec<u8>>) -> bool {
    forall|i: int| 0 <= i < pngs.len() ==> (#[trigger] decoded_image(pngs[i]@)) is Some
}

/// Each sprite of `v` is the image of the byte string at the same index.
pub open spec fn each_decodes_to(pngs: Seq<Vec<u8>>, v: Seq<Sprite>) -> bool {
    v.len() == pngs.len() && forall|i: int| 0 <= i < pngs.len() ==> decodes_to(pngs[i]@, #[trigger] v[i])
}

/// The whole sprite set decodes and has a run frame.
pub open spec fn set_decodes(sleep_png: Seq<u8>, frame_pngs: Seq<Vec<u8>>, digit_pngs: Seq<Vec<u8>>) -> bool {
    frame_pngs.len() > 0 && decoded_image(sleep_png) is Some && all_decode(frame_pngs) && all_decode(
        digit_pngs,
    )
}

/// The sprite decoded from `bytes`, when they encode an image.
pub fn decode_sprite(bytes: &[u8]) -> (r: Option<Sprite>)
    ensures
        r matches Some(s) ==> sprite_wf(s) && decoded_image(bytes@) == Some(
            (s.width, s.height, s.pixels@),
        ),
        r is None ==> decoded_image(bytes@) is None,
{
    decode_image(bytes)
}

/// `colored` is `orig` in the colour last applied, or a plain copy before
/// any colour was applied.
pub open spec fn colored_from(colored: Sprite, orig: Sprite, last: Option<(u8, u8, u8)>) -> bool {
    match last {
        Some(c) => is_recolor_of(colored, orig, c),
        None => same_image(colored, orig),
    }
}

pub open spec fn all_colored_from(
    colored: Seq<Sprite>,
    orig: Seq<Sprite>,
    last: Option<(u8, u8, u8)>,
) -> bool {
    colored.len() == orig.len() && forall|i: int|
        0 <= i < orig.len() ==> colored_from(#[trigger] colored[i], orig[i], last)
}

pub open spec fn all_wf(s: Seq<Sprite>) -> bool {
    forall|i: int| 0 <= i < s.len() ==> sprite_wf(#[trigger] s[i])
}

/// The sleep/run sprites and the digit glyphs (`0`-`9`, then `%`), each
/// kept as loaded and as recoloured to the last theme colour.
pub struct SpriteCache {
    pub cat_frames_original: Vec<Sprite>,
    pub cat_sleep_original: Sprite,
    pub digits_original: Vec<Sprite>,
    pub last_theme_color: Option<(u8, u8, u8)>,
    pub cat_frames_colored: Vec<Sprite>,
    pub cat_sleep_colored: Sprite,
    pub digits_colored: Vec<Sprite>,
    /// How many times the sprites were recoloured.
    pub recolor_count: u64,
}

/// The colour and recolour count after `update_colors(c)`.
pub open spec fn after_update(last: Option<(u8, u8, u8)>, count: int, c: (u8, u8, u8)) -> (Option<(u8, u8, u8)>, int) {
    if last == Some(c) {
        (last, count)
    } else {
        (Some(c), count + 1)
    }
}

/// Applying the same colour twice recolours at most once, and not at all
/// when it is already the applied colour.
pub proof fn lemma_update_twice_recolors_once(last: Option<(u8, u8, u8)>, count: int, c: (u8, u8, u8))
    ensures
        after_update(after_update(last, count, c).0, after_update(last, count, c).1, c) == after_update(
            last,
            count,
            c,
        ),
        after_update(last, count, c).1 == count + if last == Some(c) {
            0int
        } else {
            1int
        },
{
}

/// Index of a digit glyph: `0`-`9`, then `%`.
pub open spec fn glyph_index(ch: char) -> Option<int> {
    if '0' <= ch && ch <= '9' {
        Some(ch as int - '0' as int)
    } else if ch == '%' {
        Some(10)
    } else {
        None
    }
}

fn copy_all(v: &Vec<Sprite>) -> (r: Vec<Sprite>)
    ensures
        all_colored_from(r@, v@, None),
{
    let mut r: Vec<Sprite> = Vec::new();
    let mut i: usize = 0;
    while i < v.len()
        invariant
            i <= v@.len(),
            r@.len() == i,
            forall|j: int| 0 <= j < i ==> same_image(#[trigger] r@[j], v@[j]),
        decreases v@.len() - i,
    {
        r.push(v[i].duplicate());
        i = i + 1;
    }
    r
}

fn recolor_all(v: &Vec<Sprite>, c: (u8, u8, u8)) -> (r: Vec<Sprite>)
    ensures
        all_colored_from(r@, v@, Some(c)),
{
    let mut r: Vec<Sprite> = Vec::new();
    let mut i: usize = 0;
    while i < v.len()
        invariant
            i <= v@.len(),
            r@.len() == i,
            forall|j: int| 0 <= j < i ==> is_recolor_of(#[trigger] r@[j], v@[j], c),
        decreases v@.len() - i,
    {
        r.push(recolor_image(&v[i], c));
        i = i + 1;
    }
    r
}

impl SpriteCache {
    /// The coloured copies follow the originals and the last colour; there
    /// is at least one run frame; every sprite is well formed.
    pub open spec fn wf(&self) -> bool {
        &&& self.cat_frames_original@.len() > 0
        &&& all_wf(self.cat_frames_original@)
        &&& all_wf(self.digits_original@)
        &&& sprite_wf(self.cat_sleep_original)
        &&& all_colored_from(self.cat_frames_colored@, self.cat_frames_original@, self.last_theme_color)
        &&& all_colored_from(self.digits_colored@, self.digits_original@, self.last_theme_color)
        &&& colored_from(self.cat_sleep_colored, self.cat_sleep_original, self.last_theme_color)
    }

    /// A cache over the given sprites, not yet recoloured; `None` without a
    /// run frame.
    pub fn from_sprites(frames: Vec<Sprite>, sleep: Sprite, digits: Vec<Sprite>) -> (r: Option<
        SpriteCache,
    >)
        requires
            all_wf(frames@),
            all_wf(digits@),
            sprite_wf(sleep),
        ensures
            r is Some <==> frames@.len() > 0,
            r matches Some(c) ==> c.wf() && c.last_theme_color is None && c.recolor_count == 0
                && c.cat_frames_original@ == frames@ && c.digits_original@ == digits@
                && c.cat_sleep_original == sleep,
    {
        if frames.len() == 0 {
            return None;
        }
        let cat_frames_colored = copy_all(&frames);
        let digits_colored = copy_all(&digits);
        let cat_sleep_colored = sleep.duplicate();
        Some(
            SpriteCache {
                cat_frames_original: frames,
                cat_sleep_original: sleep,
                digits_original: digits,
                last_theme_color: None,
                cat_frames_colored,
                cat_sleep_colored,
                digits_colored,
                recolor_count: 0,
            },
        )
    }

    /// Decodes the sleeping sprite, the run frames and the digit glyphs;
    /// `None` when any of them does not decode or there is no run frame.
    pub fn load(sleep_png: &[u8], frame_pngs: &Vec<Vec<u8>>, digit_pngs: &Vec<Vec<u8>>) -> (r:
        Option<SpriteCache>)
        ensures
            r is Some <==> set_decodes(sleep_png@, frame_pngs@, digit_pngs@),
            r matches Some(c) ==> c.wf() && c.last_theme_color is None && c.recolor_count == 0
                && decodes_to(sleep_png@, c.cat_sleep_original)
                && each_decodes_to(frame_pngs@, c.cat_frames_original@)
                && each_decodes_to(digit_pngs@, c.digits_original@),
    {
        let sleep = match decode_sprite(sleep_png) {
            Some(s) => s,
            None => return None,
        };
        let frames = match decode_all(frame_pngs) {
            Some(v) => v,
            None => return None,
        };
        let digits = match decode_all(digit_pngs) {
            Some(v) => v,
            None => return None,
        };
        Self::from_sprites(frames, sleep, digits)
    }

    /// The fallback set: every run frame and the sleeping sprite a grey disc
    /// of the default colour, no digits.
    pub fn create_fallback() -> (r: SpriteCache)
        ensures
            r.wf(),
            r.cat_frames_original@.len() == RUN_FRAMES as int,
            r.digits_original@.len() == 0,
            r.last_theme_color == Some((200u8, 200u8, 200u8)),
            r.recolor_count == 0,
            is_fallback_icon(r.cat_sleep_original, CAT_SIZE, (200u8, 200u8, 200u8)),
            forall|i: int|
                0 <= i < r.cat_frames_original@.len() ==> is_fallback_icon(
                    #[trigger] r.cat_frames_original@[i],
                    CAT_SIZE,
                    (200u8, 200u8, 200u8),
                ),
    {
        let color: (u8, u8, u8) = (200, 200, 200);
        let icon = create_fallback_icon(CAT_SIZE, color);
        let mut frames: Vec<Sprite> = Vec::new();
        let mut i: u8 = 0;
        while i < RUN_FRAMES
            invariant
                i <= RUN_FRAMES,
                frames@.len() == i,
                sprite_wf(icon),
                forall|j: int| 0 <= j < i ==> same_image(#[trigger] frames@[j], icon),
            decreases RUN_FRAMES - i,
        {
            frames.push(icon.duplicate());
            i = i + 1;
        }
        assert forall|j: int| 0 <= j < frames@.len() implies is_fallback_icon(
            #[trigger] frames@[j],
            CAT_SIZE,
            color,
        ) by {
            assert(same_image(frames@[j], icon));
            assert forall|x: int, y: int| 0 <= x < CAT_SIZE && 0 <= y < CAT_SIZE implies #[trigger] crate::sprite::pixel_at(
                frames@[j],
                x,
                y,
            ) == crate::sprite::pixel_at(icon, x, y) by {}
        }
        let cat_frames_colored = recolor_all(&frames, color);
        let cat_sleep_colored = recolor_image(&icon, color);
        let digits_original: Vec<Sprite> = Vec::new();
        let digits_colored: Vec<Sprite> = Vec::new();
        SpriteCache {
            cat_frames_original: frames,
            cat_sleep_original: icon,
            digits_original,
            last_theme_color: Some(color),
            cat_frames_colored,
            cat_sleep_colored,
            digits_colored,
            recolor_count: 0,
        }
    }

    /// The decoded set, or the fallback set when it does not decode.
    pub fn load_or_fallback(
        sleep_png: &[u8],
        frame_pngs: &Vec<Vec<u8>>,
        digit_pngs: &Vec<Vec<u8>>,
    ) -> (r: SpriteCache)
        ensures
            r.wf(),
            r.recolor_count == 0,
            set_decodes(sleep_png@, frame_pngs@, digit_pngs@) ==> {
                &&& r.last_theme_color is None
                &&& decodes_to(sleep_png@, r.cat_sleep_original)
                &&& each_decodes_to(frame_pngs@, r.cat_frames_original@)
                &&& each_decodes_to(digit_pngs@, r.digits_original@)
            },
            !set_decodes(sleep_png@, frame_pngs@, digit_pngs@) ==> {
                &&& r.last_theme_color == Some((200u8, 200u8, 200u8))
                &&& r.cat_frames_original@.len() == RUN_FRAMES as int
                &&& r.digits_original@.len() == 0
                &&& is_fallback_icon(r.cat_sleep_original, CAT_SIZE, (200u8, 200u8, 200u8))
                &&& forall|i: int|
                    0 <= i < r.cat_frames_original@.len() ==> is_fallback_icon(
                        #[trigger] r.cat_frames_original@[i],
                        CAT_SIZE,
                        (200u8, 200u8, 200u8),
                    )
            },
    {
        match Self::load(sleep_png, frame_pngs, digit_pngs) {
            Some(c) => c,
            None => Self::create_fallback(),
        }
    }

    /// Recolours every sprite from its original to `new_color`, unless that
    /// is already the colour applied, in which case nothing is done.
    pub fn update_colors(&mut self, new_color: (u8, u8, u8))
        requires
            old(self).wf(),
            old(self).recolor_count < u64::MAX,
        ensures
            final(self).wf(),
            final(self).last_theme_color == Some(new_color),
            (final(self).last_theme_color, final(self).recolor_count as int) == after_update(
                old(self).last_theme_color,
                old(self).recolor_count as int,
                new_color,
            ),
            final(self).cat_frames_original@ == old(self).cat_frames_original@,
            final(self).digits_original@ == old(self).digits_original@,
            final(self).cat_sleep_original == old(self).cat_sleep_original,
    {
        if let Some(c) = self.last_theme_color {
            if c.0 == new_color.0 && c.1 == new_color.1 && c.2 == new_color.2 {
                return;
            }
        }
        self.cat_frames_colored = recolor_all(&self.cat_frames_original, new_color);
        self.cat_sleep_colored = recolor_image(&self.cat_sleep_original, new_color);
        self.digits_colored = recolor_all(&self.digits_original, new_color);
        self.last_theme_color = Some(new_color);
        self.recolor_count = self.recolor_count + 1;
    }

    /// The coloured sprite to show: the sleeping one, or run frame `frame`
    /// wrapped around the number of frames.
    pub fn get_cat_frame(&self, frame: u8, sleeping: bool) -> (r: &Sprite)
        requires
            self.wf(),
        ensures
            sleeping ==> *r == self.cat_sleep_colored,
            !sleeping ==> *r == self.cat_frames_colored@[frame as int % self.cat_frames_colored@.len() as int],
    {
        if sleeping {
            &self.cat_sleep_colored
        } else {
            &self.cat_frames_colored[frame as usize % self.cat_frames_colored.len()]
        }
    }

    /// The coloured glyph of a digit or `%`; `None` for other characters and
    /// glyphs the set lacks.
    pub fn get_digit(&self, ch: char) -> (r: Option<&Sprite>)
        ensures
            r matches Some(s) ==> glyph_index(ch) matches Some(i) && i < self.digits_colored@.len()
                && *s == self.digits_colored@[i],
            r is None ==> !(glyph_index(ch) matches Some(i) && i < self.digits_colored@.len()),
    {
        let i: usize = if '0' <= ch && ch <= '9' {
            (ch as u32 - '0' as u32) as usize
        } else if ch == '%' {
            10
        } else {
            return None;
        };
        if i < self.digits_colored.len() {
            Some(&self.digits_colored[i])
        } else {
            None
        }
    }
}

fn decode_all(pngs: &Vec<Vec<u8>>) -> (r: Option<Vec<Sprite>>)
    ensures
        r is Some <==> all_decode(pngs@),
        r matches Some(v) ==> each_decodes_to(pngs@, v@) && all_wf(v@),
{
    let mut out: Vec<Sprite> = Vec::new();
    let mut i: usize = 0;
    while i < pngs.len()
        invariant
            i <= pngs@.len(),
            out@.len() == i,
            all_wf(out@),
            forall|j: int| 0 <= j < i ==> decodes_to(pngs@[j]@, #[trigger] out@[j]),
        decreases pngs@.len() - i,
    {
        match decode_sprite(pngs[i].as_slice()) {
            Some(s) => out.push(s),
            None => return None,
        }
        i = i + 1;
    }
    assert forall|j: int| 0 <= j < pngs@.len() implies (#[trigger] decoded_image(pngs@[j]@)) is Some by {
        assert(decodes_to(pngs@[j]@, out@[j]));
    }
    Some(out)
}

} // verus!
