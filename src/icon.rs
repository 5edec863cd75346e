//! The tray icon: the current cat sprite, with the load in whole percent
//! beside it when there is room and the cat is awake.

use vstd::prelude::*;
use crate::cache::{glyph_index, SpriteCache};
use crate::sprite::{copy_sprite, composite_sprite, drawn, same_image, sprite_wf, Rgba, Sprite};

verus! {

/// Side of the cat sprite.
pub const CAT_SIZE: u32 = 32;

/// Side of the scaled-up cat shown alone on small panels.
pub const CAT_SIZE_SCALED: u32 = 48;

/// Size of a digit glyph.
pub const DIGIT_WIDTH: u32 = 8;
pub const DIGIT_HEIGHT: u32 = 12;

/// Gap between the cat and the text.
pub const CAT_PCT_SPACING: u32 = 2;

/// Pixels `nw` by `nh` of the nearest-neighbour scaling of a `w` by `h`
/// image.
pub uninterp spec fn nearest_resized(w: u32, h: u32, pixels: Seq<(u8, u8, u8, u8)>, nw: u32, nh: u32) -> Seq<(u8, u8, u8, u8)>;

/// Relies on `image::ImageBuffer::from_raw` (which accepts a buffer of
/// exactly `4 * width * height` bytes) and `image::imageops::resize` with
/// `FilterType::Nearest`, which returns an `nw` by `nh` image whose pixels
/// depend on the source pixels and sizes alone. The new buffer must fit in
/// memory (`ImageBuffer::new` panics when its length overflows).
#[verifier::external_body]
fn resize_nearest(s: &Sprite, nw: u32, nh: u32) -> (r: Sprite)
    requires
        sprite_wf(*s),
        nw as int * nh as int <= 0x1000_0000,
    ensures
        sprite_wf(r),
        r.width == nw,
        r.height == nh,
        r.pixels@ == nearest_resized(s.width, s.height, s.pixels@, nw, nh),
{
    let raw: Vec<u8> = s.pixels.iter().flat_map(|p| [p.0, p.1, p.2, p.3]).collect();
    let img = image::RgbaImage::from_raw(s.width, s.height, raw).unwrap();
    let out = image::imageops::resize(&img, nw, nh, image::imageops::FilterType::Nearest);
    let pixels: Vec<Rgba> = out.pixels().map(|p| (p.0[0], p.0[1], p.0[2], p.0[3])).collect();
    Sprite { width: nw, height: nh, pixels }
}

pub open spec fn digit_char(d: int) -> char {
    (48 + d) as char
}

/// Decimal digits of `n`, no leading zeros.
pub open spec fn decimal(n: nat) -> Seq<char>
    decreases n,
{
    if n < 10 {
        seq![digit_char(n as int)]
    } else {
        decimal(n / 10).push(digit_char((n % 10) as int))
    }
}

/// The pixels after each character of `text` that has a glyph is drawn at
/// `(x, y)`, the pen moving one glyph and one pixel right after each drawn
/// glyph; characters without a glyph are skipped.
pub open spec fn draw_text(tw: int, tp: Seq<Rgba>, glyphs: Seq<Sprite>, text: Seq<char>, x: int, y: int) -> Seq<Rgba>
    decreases text.len(),
{
    if text.len() == 0 {
        tp
    } else {
        let g = glyph_index(text[0]);
        if g is Some && g->0 < glyphs.len() {
            draw_text(
                tw,
                drawn(tw, tp, glyphs[g->0], x, y, true),
                glyphs,
                text.drop_first(),
                x + DIGIT_WIDTH + 1,
                y,
            )
        } else {
            draw_text(tw, tp, glyphs, text.drop_first(), x, y)
        }
    }
}

/// The width of the icon with `digits` digits and the percent sign.
pub open spec fn icon_width(digits: int) -> int {
    CAT_SIZE + CAT_PCT_SPACING + digits * (DIGIT_WIDTH + 1) + DIGIT_WIDTH
}

pub open spec fn clamp999(n: u32) -> nat {
    if n > 999 {
        999
    } else {
        n as nat
    }
}

/// Decimal digits of `n <= 999`.
fn decimal_chars(n: u32) -> (r: Vec<char>)
    requires
        n <= 999,
    ensures
        r@ == decimal(n as nat),
        1 <= r@.len() <= 3,
{
    proof {
        reveal_with_fuel(decimal, 3);
    }
    let mut r: Vec<char> = Vec::new();
    if n >= 100 {
        r.push(((48 + n / 100) as u8) as char);
        r.push(((48 + n / 10 % 10) as u8) as char);
        r.push(((48 + n % 10) as u8) as char);
        assert(r@ =~= decimal(n as nat));
    } else if n >= 10 {
        r.push(((48 + n / 10) as u8) as char);
        r.push(((48 + n % 10) as u8) as char);
        assert(r@ =~= decimal(n as nat));
    } else {
        r.push(((48 + n) as u8) as char);
        assert(r@ =~= decimal(n as nat));
    }
    r
}

/// Number of decimal digits of `n <= 999`.
fn digit_count(n: u32) -> (r: u32)
    requires
        n <= 999,
    ensures
        r as int == decimal(n as nat).len(),
        1 <= r <= 3,
{
    proof {
        reveal_with_fuel(decimal, 3);
    }
    if n >= 100 {
        3
    } else if n >= 10 {
        2
    } else {
        1
    }
}

impl SpriteCache {
    /// The coloured cat sprite for this frame and sleep state.
    pub open spec fn cat_for(&self, frame: u8, sleeping: bool) -> Sprite {
        if sleeping {
            self.cat_sleep_colored
        } else {
            self.cat_frames_colored@[frame as int % self.cat_frames_colored@.len() as int]
        }
    }

    /// The tray icon. With the overlay enabled, a panel of medium size or
    /// larger and the cat awake: the cat at the left of a `CAT_SIZE` high
    /// icon and, beside it, the load (`cpu_percent`, at most 999) in digit
    /// glyphs followed by `%`, vertically centred. Otherwise the cat alone,
    /// scaled to `CAT_SIZE_SCALED` on a small panel.
    pub fn build_icon(
        &self,
        frame: u8,
        sleeping: bool,
        show_percentage: bool,
        panel_medium_or_larger: bool,
        cpu_percent: u32,
    ) -> (r: Sprite)
        requires
            self.wf(),
        ensures
            sprite_wf(r),
            !(show_percentage && panel_medium_or_larger && !sleeping) && !panel_medium_or_larger
                ==> r.width == CAT_SIZE_SCALED && r.height == CAT_SIZE_SCALED && r.pixels@
                == nearest_resized(
                self.cat_for(frame, sleeping).width,
                self.cat_for(frame, sleeping).height,
                self.cat_for(frame, sleeping).pixels@,
                CAT_SIZE_SCALED,
                CAT_SIZE_SCALED,
            ),
            !(show_percentage && panel_medium_or_larger && !sleeping) && panel_medium_or_larger
                ==> same_image(r, self.cat_for(frame, sleeping)),
            show_percentage && panel_medium_or_larger && !sleeping ==> {
                let digits = decimal(clamp999(cpu_percent));
                let w = icon_width(digits.len() as int);
                &&& r.width == w
                &&& r.height == CAT_SIZE
                &&& r.pixels@ == draw_text(
                    w,
                    drawn(
                        w,
                        Seq::new((w * CAT_SIZE) as nat, |i: int| (0u8, 0u8, 0u8, 0u8)),
                        self.cat_for(frame, sleeping),
                        0,
                        0,
                        false,
                    ),
                    self.digits_colored@,
                    digits.push('%'),
                    (CAT_SIZE + CAT_PCT_SPACING) as int,
                    ((CAT_SIZE - DIGIT_HEIGHT) / 2) as int,
                )
            },
    {
        let cat = self.get_cat_frame(frame, sleeping);
        proof {
            let i = frame as int % self.cat_frames_colored@.len() as int;
            assert(sprite_wf(self.cat_frames_original@[i]));
        }
        if !(show_percentage && panel_medium_or_larger && !sleeping) {
            if !panel_medium_or_larger {
                return resize_nearest(cat, CAT_SIZE_SCALED, CAT_SIZE_SCALED);
            }
            return cat.duplicate();
        }
        let n = if cpu_percent > 999 {
            999
        } else {
            cpu_percent
        };
        let mut text = decimal_chars(n);
        let ghost digits = text@;
        text.push('%');
        let nd = digit_count(n);
        assert(nd as int == digits.len());
        let width = CAT_SIZE + CAT_PCT_SPACING + nd * (DIGIT_WIDTH + 1) + DIGIT_WIDTH;
        let mut icon = Sprite::new(width, CAT_SIZE);
        assert(icon.pixels@ =~= Seq::new((width * CAT_SIZE) as nat, |i: int| (0u8, 0u8, 0u8, 0u8)));
        copy_sprite(&mut icon, cat, 0, 0);
        let y = (CAT_SIZE - DIGIT_HEIGHT) / 2;
        let mut x = CAT_SIZE + CAT_PCT_SPACING;
        let ghost target = draw_text(
            width as int,
            icon.pixels@,
            self.digits_colored@,
            text@,
            x as int,
            y as int,
        );
        assert(text@.subrange(0, text@.len() as int) =~= text@);
        let mut i: usize = 0;
        while i < text.len()
            invariant
                self.wf(),
                i <= text@.len(),
                text@.len() <= 4,
                icon.width == width,
                icon.height == CAT_SIZE,
                sprite_wf(icon),
                x as int <= 34 + 9 * (i as int),
                target == draw_text(
                    width as int,
                    icon.pixels@,
                    self.digits_colored@,
                    text@.subrange(i as int, text@.len() as int),
                    x as int,
                    y as int,
                ),
            decreases text@.len() - i,
        {
            let ch = text[i];
            proof {
                assert(text@.subrange(i as int, text@.len() as int).drop_first() =~= text@.subrange(
                    i + 1,
                    text@.len() as int,
                ));
            }
            match self.get_digit(ch) {
                Some(glyph) => {
                    proof {
                        let g = glyph_index(ch)->0;
                        assert(sprite_wf(self.digits_original@[g]));
                    }
                    composite_sprite(&mut icon, glyph, x, y);
                    x = x + DIGIT_WIDTH + 1;
                },
                None => {},
            }
            i = i + 1;
        }
        assert(text@.subrange(i as int, text@.len() as int) =~= Seq::<char>::empty());
        assert(text@ =~= digits.push('%'));
        icon
    }
}

} // verus!
