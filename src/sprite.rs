//! RGBA sprites, their recolouring, compositing, and the recolour cache.

use vstd::prelude::*;

verus! {

/// One pixel: red, green, blue, alpha.
pub type Rgba = (u8, u8, u8, u8);

/// An RGBA bitmap, rows top to bottom, each row left to right.
#[derive(Debug)]
pub struct Sprite {
    pub width: u32,
    pub height: u32,
    pub pixels: Vec<Rgba>,
}

/// A sprite's pixel buffer matches its size.
pub open spec fn sprite_wf(s: Sprite) -> bool {
    s.pixels@.len() == s.width as int * s.height as int
}

/// Pixel `(x, y)` of a sprite.
pub open spec fn pixel_at(s: Sprite, x: int, y: int) -> Rgba {
    s.pixels@[y * s.width as int + x]
}

/// Every visible pixel (alpha above 0) takes the colour `c` and keeps its
/// alpha; transparent pixels stay as they are.
pub open spec fn recolor_pixels(p: Seq<Rgba>, c: (u8, u8, u8)) -> Seq<Rgba> {
    Seq::new(p.len(), |i: int| if p[i].3 > 0 {
        (c.0, c.1, c.2, p[i].3)
    } else {
        p[i]
    })
}

/// `r` is `s` recoloured to `c`.
pub open spec fn is_recolor_of(r: Sprite, s: Sprite, c: (u8, u8, u8)) -> bool {
    r.width == s.width && r.height == s.height && r.pixels@ == recolor_pixels(s.pixels@, c)
}

/// `r` has the size and the pixels of `s`.
pub open spec fn same_image(r: Sprite, s: Sprite) -> bool {
    r.width == s.width && r.height == s.height && r.pixels@ == s.pixels@
}

/// Pixel `k` of a target `tw` pixels wide, with pixels `tp`, after `s` is
/// drawn onto it with its top-left corner at `(x, y)`: the sprite pixel
/// that lands there (unless `skip_clear` and it is fully transparent), the
/// target pixel otherwise. Sprite pixels that fall outside are dropped.
pub open spec fn placed_pixel(tw: int, tp: Seq<Rgba>, s: Sprite, x: int, y: int, k: int, skip_clear: bool) -> Rgba {
    let tx = k % tw;
    let ty = k / tw;
    let sx = tx - x;
    let sy = ty - y;
    if 0 <= sx < s.width && 0 <= sy < s.height && !(skip_clear && s.pixels@[sy * s.width as int + sx].3 == 0) {
        s.pixels@[sy * s.width as int + sx]
    } else {
        tp[k]
    }
}

/// The target pixels after `s` is drawn at `(x, y)`.
pub open spec fn drawn(tw: int, tp: Seq<Rgba>, s: Sprite, x: int, y: int, skip_clear: bool) -> Seq<Rgba> {
    Seq::new(tp.len(), |k: int| placed_pixel(tw, tp, s, x, y, k, skip_clear))
}

/// Whether the pixel `(x, y)` of a `size` square lies in the fallback
/// disc: centre `size / 2`, radius `size / 2.5`.
pub open spec fn in_disc(size: int, x: int, y: int) -> bool {
    25 * ((2 * x - size) * (2 * x - size) + (2 * y - size) * (2 * y - size)) <= 16 * size * size
}

/// `s` is the `size` square with an opaque disc of `color` at its centre,
/// radius `size / 2.5`, on a transparent ground.
pub open spec fn is_fallback_icon(s: Sprite, size: u32, color: (u8, u8, u8)) -> bool {
    &&& sprite_wf(s)
    &&& s.width == size
    &&& s.height == size
    &&& forall|x: int, y: int|
        0 <= x < size && 0 <= y < size ==> #[trigger] pixel_at(s, x, y) == if in_disc(size as int, x, y) {
            (color.0, color.1, color.2, 255u8)
        } else {
            (0u8, 0u8, 0u8, 0u8)
        }
}

proof fn lemma_index_in_bounds(x: int, y: int, w: int, h: int)
    requires
        0 <= x < w,
        0 <= y < h,
    ensures
        0 <= y * w + x < w * h,
{
    assert(y * w + x < w * h) by (nonlinear_arith)
        requires 0 <= x < w, 0 <= y < h;
    assert(0 <= y * w) by (nonlinear_arith)
        requires 0 <= y, 0 <= w;
}

proof fn lemma_u32_product(a: u32, b: u32)
    ensures
        0 <= a as int * b as int <= 0xFFFF_FFFE_0000_0001,
{
    assert(0 <= a as int * b as int <= 0xFFFF_FFFF * 0xFFFF_FFFF) by (nonlinear_arith)
        requires a <= 0xFFFF_FFFF, b <= 0xFFFF_FFFF;
}

impl Sprite {
    /// A fully transparent `width` by `height` sprite.
    pub fn new(width: u32, height: u32) -> (r: Sprite)
        ensures
            sprite_wf(r),
            r.width == width,
            r.height == height,
            forall|i: int| 0 <= i < r.pixels@.len() ==> #[trigger] r.pixels@[i] == (0u8, 0u8, 0u8, 0u8),
    {
        proof {
            lemma_u32_product(width, height);
        }
        let n: u64 = width as u64 * height as u64;
        let mut pixels: Vec<Rgba> = Vec::new();
        let mut i: u64 = 0;
        while i < n
            invariant
                i <= n,
                n == width as int * height as int,
                pixels@.len() == i,
                forall|j: int| 0 <= j < i ==> #[trigger] pixels@[j] == (0u8, 0u8, 0u8, 0u8),
            decreases n - i,
        {
            pixels.push((0, 0, 0, 0));
            i = i + 1;
        }
        Sprite { width, height, pixels }
    }

    /// Pixel `(x, y)`.
    pub fn get_pixel(&self, x: u32, y: u32) -> (r: Rgba)
        requires
            sprite_wf(*self),
            x < self.width,
            y < self.height,
        ensures
            r == pixel_at(*self, x as int, y as int),
    {
        let len = self.pixels.len();
        proof {
            lemma_index_in_bounds(x as int, y as int, self.width as int, self.height as int);
            lemma_u32_product(y, self.width);
            assert(y as int * self.width as int + x < len);
        }
        let k = y as u64 * self.width as u64 + x as u64;
        self.pixels[k as usize]
    }

    /// Sets pixel `(x, y)`.
    pub fn put_pixel(&mut self, x: u32, y: u32, p: Rgba)
        requires
            sprite_wf(*old(self)),
            x < old(self).width,
            y < old(self).height,
        ensures
            sprite_wf(*final(self)),
            final(self).width == old(self).width,
            final(self).height == old(self).height,
            final(self).pixels@ == old(self).pixels@.update(
                y as int * old(self).width as int + x as int,
                p,
            ),
    {
        let len = self.pixels.len();
        proof {
            lemma_index_in_bounds(x as int, y as int, self.width as int, self.height as int);
            lemma_u32_product(y, self.width);
            assert(y as int * self.width as int + x < len);
        }
        let k = y as u64 * self.width as u64 + x as u64;
        self.pixels.set(k as usize, p);
    }

    /// A copy of the sprite.
    pub fn duplicate(&self) -> (r: Sprite)
        ensures
            same_image(r, *self),
    {
        let mut pixels: Vec<Rgba> = Vec::new();
        let mut i: usize = 0;
        while i < self.pixels.len()
            invariant
                i <= self.pixels@.len(),
                pixels@ == self.pixels@.subrange(0, i as int),
            decreases self.pixels@.len() - i,
        {
            pixels.push(self.pixels[i]);
            i = i + 1;
        }
        assert(pixels@ =~= self.pixels@);
        Sprite { width: self.width, height: self.height, pixels }
    }
}

/// The sprite with every visible pixel turned to `color`, alpha kept.
pub fn recolor_image(img: &Sprite, color: (u8, u8, u8)) -> (r: Sprite)
    ensures
        is_recolor_of(r, *img, color),
{
    let mut pixels: Vec<Rgba> = Vec::new();
    let mut i: usize = 0;
    while i < img.pixels.len()
        invariant
            i <= img.pixels@.len(),
            pixels@ == recolor_pixels(img.pixels@, color).subrange(0, i as int),
        decreases img.pixels@.len() - i,
    {
        let p = img.pixels[i];
        let q = if p.3 > 0 {
            (color.0, color.1, color.2, p.3)
        } else {
            p
        };
        pixels.push(q);
        i = i + 1;
    }
    assert(pixels@ =~= recolor_pixels(img.pixels@, color));
    Sprite { width: img.width, height: img.height, pixels }
}

/// Draws `sprite` onto `target` with its top-left corner at `(x, y)`,
/// skipping fully transparent sprite pixels and whatever falls outside the
/// target.
pub fn composite_sprite(target: &mut Sprite, sprite: &Sprite, x: u32, y: u32)
    requires
        sprite_wf(*old(target)),
        sprite_wf(*sprite),
    ensures
        sprite_wf(*final(target)),
        final(target).width == old(target).width,
        final(target).height == old(target).height,
        final(target).pixels@ == drawn(
            old(target).width as int,
            old(target).pixels@,
            *sprite,
            x as int,
            y as int,
            true,
        ),
{
    draw_sprite(target, sprite, x, y, true)
}

/// Copies `sprite` onto `target` with its top-left corner at `(x, y)`,
/// transparent pixels included; what falls outside the target is dropped.
pub fn copy_sprite(target: &mut Sprite, sprite: &Sprite, x: u32, y: u32)
    requires
        sprite_wf(*old(target)),
        sprite_wf(*sprite),
    ensures
        sprite_wf(*final(target)),
        final(target).width == old(target).width,
        final(target).height == old(target).height,
        final(target).pixels@ == drawn(
            old(target).width as int,
            old(target).pixels@,
            *sprite,
            x as int,
            y as int,
            false,
        ),
{
    draw_sprite(target, sprite, x, y, false)
}

fn draw_sprite(target: &mut Sprite, sprite: &Sprite, x: u32, y: u32, skip_clear: bool)
    requires
        sprite_wf(*old(target)),
        sprite_wf(*sprite),
    ensures
        sprite_wf(*final(target)),
        final(target).width == old(target).width,
        final(target).height == old(target).height,
        final(target).pixels@ == drawn(
            old(target).width as int,
            old(target).pixels@,
            *sprite,
            x as int,
            y as int,
            skip_clear,
        ),
{
    let n = target.pixels.len();
    let tw = target.width as u64;
    let ghost t0 = *target;
    let mut k: usize = 0;
    while k < n
        invariant
            n == t0.pixels@.len(),
            sprite_wf(t0),
            sprite_wf(*sprite),
            tw == t0.width,
            k <= n,
            target.width == t0.width,
            target.height == t0.height,
            target.pixels@.len() == n,
            forall|j: int|
                0 <= j < k ==> #[trigger] target.pixels@[j] == placed_pixel(
                    t0.width as int,
                    t0.pixels@,
                    *sprite,
                    x as int,
                    y as int,
                    j,
                    skip_clear,
                ),
            forall|j: int| k <= j < n ==> #[trigger] target.pixels@[j] == t0.pixels@[j],
        decreases n - k,
    {
        proof {
            if tw == 0 {
                assert(t0.width as int * t0.height as int == 0);
            }
        }
        let tx = k as u64 % tw;
        let ty = k as u64 / tw;
        if tx >= x as u64 && ty >= y as u64 {
            let sx = tx - x as u64;
            let sy = ty - y as u64;
            if sx < sprite.width as u64 && sy < sprite.height as u64 {
                let slen = sprite.pixels.len();
                proof {
                    lemma_index_in_bounds(sx as int, sy as int, sprite.width as int, sprite.height as int);
                    lemma_u32_product(sy as u32, sprite.width);
                    assert(sy * sprite.width as int + sx < slen);
                }
                let p = sprite.pixels[(sy * sprite.width as u64 + sx) as usize];
                if !(skip_clear && p.3 == 0) {
                    target.pixels.set(k, p);
                }
            }
        }
        k = k + 1;
    }
    assert(target.pixels@ =~= drawn(t0.width as int, t0.pixels@, *sprite, x as int, y as int, skip_clear));
}

/// A `size` square with a filled disc of `color` (opaque) at its centre,
/// radius `size / 2.5`, on a transparent ground.
pub fn create_fallback_icon(size: u32, color: (u8, u8, u8)) -> (r: Sprite)
    ensures
        is_fallback_icon(r, size, color),
{
    let mut pixels: Vec<Rgba> = Vec::new();
    let s = size as i128;
    let mut y: u32 = 0;
    while y < size
        invariant
            y <= size,
            s == size,
            pixels@.len() == y as int * size as int,
            forall|px: int, py: int|
                0 <= px < size && 0 <= py < y ==> #[trigger] pixels@[py * size as int + px] == if in_disc(
                    size as int,
                    px,
                    py,
                ) {
                    (color.0, color.1, color.2, 255u8)
                } else {
                    (0u8, 0u8, 0u8, 0u8)
                },
        decreases size - y,
    {
        let mut x: u32 = 0;
        while x < size
            invariant
                x <= size,
                y < size,
                s == size,
                pixels@.len() == y as int * size as int + x,
                forall|px: int, py: int|
                    (0 <= px < size && 0 <= py < y) || (0 <= px < x && py == y)
                        ==> #[trigger] pixels@[py * size as int + px] == if in_disc(
                        size as int,
                        px,
                        py,
                    ) {
                        (color.0, color.1, color.2, 255u8)
                    } else {
                        (0u8, 0u8, 0u8, 0u8)
                    },
            decreases size - x,
        {
            let dx = 2 * (x as i128) - s;
            let dy = 2 * (y as i128) - s;
            assert(-0x1_0000_0000 <= dx <= 0x1_0000_0000 && -0x1_0000_0000 <= dy <= 0x1_0000_0000);
            assert(dx * dx <= 0x1_0000_0000 * 0x1_0000_0000 && dy * dy <= 0x1_0000_0000 * 0x1_0000_0000
                && s * s <= 0x1_0000_0000 * 0x1_0000_0000 && 0 <= dx * dx && 0 <= dy * dy) by (nonlinear_arith)
                requires -0x1_0000_0000 <= dx <= 0x1_0000_0000, -0x1_0000_0000 <= dy <= 0x1_0000_0000,
                    0 <= s <= 0x1_0000_0000;
            assert(25 * (dx * dx + dy * dy) <= 25 * 2 * 0x1_0000_0000 * 0x1_0000_0000);
            assert(16 * s * s <= 16 * 0x1_0000_0000 * 0x1_0000_0000) by (nonlinear_arith)
                requires 0 <= s <= 0x1_0000_0000;
            let inside = 25 * (dx * dx + dy * dy) <= 16 * s * s;
            let p = if inside {
                (color.0, color.1, color.2, 255u8)
            } else {
                (0u8, 0u8, 0u8, 0u8)
            };
            proof {
                assert(pixels@.push(p).len() == y as int * size as int + x + 1);
                assert forall|px: int, py: int|
                    (0 <= px < size && 0 <= py < y) || (0 <= px < x + 1 && py == y)
                        implies #[trigger] pixels@.push(p)[py * size as int + px] == if in_disc(
                        size as int,
                        px,
                        py,
                    ) {
                        (color.0, color.1, color.2, 255u8)
                    } else {
                        (0u8, 0u8, 0u8, 0u8)
                    } by {
                    if py < y {
                        lemma_index_in_bounds(px, py, size as int, y as int);
                        assert(size as int * y as int == y as int * size as int) by (nonlinear_arith);
                    } else if px < x {
                    } else {
                    }
                }
            }
            pixels.push(p);
            x = x + 1;
        }
        proof {
            assert((y + 1) as int * size as int == y as int * size as int + size) by (nonlinear_arith);
        }
        y = y + 1;
    }
    Sprite { width: size, height: size, pixels }
}

} // verus!
