//! Theme colours: the foreground colour and the dark-mode flag, read from
//! the text of the desktop's theme files.

use vstd::prelude::*;
use vstd::string::StringSliceAdditionalSpecFns;
use crate::text::{
    all_digits, ascii_upper, bytes_equal, contains, find, find_from, has_substring, lit,
    to_ascii_upper, trim, trimmed,
};

verus! {

/// Colours for the sprites.
#[derive(Debug, Clone, Copy, PartialEq, Eq)]
pub struct ThemeColors {
    /// Foreground colour of the sprites.
    pub foreground: (u8, u8, u8),
    /// Whether the theme is dark.
    pub is_dark: bool,
}

pub open spec fn default_colors() -> ThemeColors {
    ThemeColors { foreground: (200, 200, 200), is_dark: true }
}

impl Default for ThemeColors {
    fn default() -> (r: Self)
        ensures
            r == default_colors(),
    {
        ThemeColors { foreground: (200, 200, 200), is_dark: true }
    }
}

/// The text after the first `key`, up to its next occurrence or the end.
pub open spec fn after_key(s: Seq<u8>, key: Seq<u8>) -> Option<Seq<u8>> {
    match find_from(s, key, 0) {
        Some(i) => {
            let a = i + key.len();
            let b = match find_from(s, key, a) {
                Some(j) => j,
                None => s.len() as int,
            };
            Some(s.subrange(a, b))
        },
        None => None,
    }
}

/// The text between the first `(` (byte 40) and the next `)` (byte 41).
pub open spec fn paren_block(s: Seq<u8>) -> Option<Seq<u8>> {
    match find_from(s, seq![40u8], 0) {
        Some(a) => match find_from(s, seq![41u8], a) {
            Some(b) => Some(s.subrange(a + 1, b)),
            None => None,
        },
        None => None,
    }
}

/// The text up to the first comma (byte 44).
pub open spec fn up_to_comma(s: Seq<u8>) -> Seq<u8> {
    match find_from(s, seq![44u8], 0) {
        Some(c) => s.subrange(0, c),
        None => s,
    }
}

/// Fraction digits read to nine places, as an integer over 10^9.
pub open spec fn frac_scaled(f: Seq<u8>, k: int) -> nat
    decreases k,
{
    if k <= 0 {
        0
    } else {
        frac_scaled(f, k - 1) * 10 + if k - 1 < f.len() {
            (f[k - 1] - 48) as nat
        } else {
            0nat
        }
    }
}

pub open spec fn has_nonzero(s: Seq<u8>) -> bool {
    exists|i: int| 0 <= i < s.len() && s[i] != 48u8
}

/// A colour channel from a decimal in `[0, 1]` written with an optional
/// sign, digits and an optional fraction: `floor(255 * v)` with `v` clamped
/// to `[0, 1]` and read to nine decimal places (the point is byte 46).
/// `None` for other text. This is integer arithmetic on the decimal text,
/// not a float parse: exponent forms (`1e-1`) and special values (`inf`,
/// `NaN`) are not accepted.
pub open spec fn channel_text(t: Seq<u8>) -> Option<u8> {
    let (ip, fp) = number_parts(t);
    if !(all_digits(ip) && all_digits(fp) && ip.len() + fp.len() > 0) {
        None
    } else if t[0] == 45u8 {
        Some(0u8)
    } else if has_nonzero(ip) {
        Some(255u8)
    } else {
        Some((255 * frac_scaled(fp, 9) / 1_000_000_000) as u8)
    }
}

/// The integer and fraction digits of a decimal, after its sign.
pub open spec fn number_parts(t: Seq<u8>) -> (Seq<u8>, Seq<u8>) {
    let signed = t.len() > 0 && (t[0] == 45u8 || t[0] == 43u8);
    let body = if signed {
        t.drop_first()
    } else {
        t
    };
    match find_from(body, seq![46u8], 0) {
        Some(d) => (body.subrange(0, d), body.subrange(d + 1, body.len() as int)),
        None => (body, Seq::<u8>::empty()),
    }
}

/// The channel written after `name:` (`:` is byte 58) in a colour block.
pub open spec fn field_channel(block: Seq<u8>, name: Seq<u8>) -> Option<u8> {
    match after_key(block, name.push(58u8)) {
        Some(v) => channel_text(trimmed(up_to_comma(v))),
        None => None,
    }
}

/// The colour written as `name: (red: R, green: G, blue: B, ...)`.
pub open spec fn ron_color(content: Seq<u8>, name: Seq<u8>) -> Option<(u8, u8, u8)> {
    match after_key(content, name.push(58u8)) {
        Some(rest) => match paren_block(rest) {
            Some(block) => match (
                field_channel(block, lit("red")),
                field_channel(block, lit("green")),
                field_channel(block, lit("blue")),
            ) {
                (Some(r), Some(g), Some(b)) => Some((r, g, b)),
                _ => None,
            },
            None => None,
        },
        None => None,
    }
}

/// Whether the text of the theme's mode file says dark.
pub open spec fn dark_text(t: Seq<u8>) -> bool {
    trimmed(t) == lit("true")
}

/// The colours from the mode file and the background file of the chosen
/// mode; the defaults when either is missing or the colour cannot be read.
pub open spec fn theme_colors_spec(mode: Option<Seq<u8>>, background: Option<Seq<u8>>) -> ThemeColors {
    match (mode, background) {
        (Some(m), Some(b)) => match ron_color(b, lit("on")) {
            Some(c) => ThemeColors { foreground: c, is_dark: dark_text(m) },
            None => default_colors(),
        },
        _ => default_colors(),
    }
}

fn after_key_exec(s: &[u8], key: &[u8]) -> (r: Option<(usize, usize)>)
    ensures
        r matches Some(p) ==> p.0 <= p.1 <= s@.len() && after_key(s@, key@) == Some(
            s@.subrange(p.0 as int, p.1 as int),
        ),
        r is None ==> after_key(s@, key@) is None,
{
    let n = s.len();
    match find(s, key, 0) {
        Some(i) => {
            proof {
                lemma_find_bounds(s@, key@, 0);
            }
            assert(i + key@.len() <= n);
            let a = i + key.len();
            let b = match find(s, key, a) {
                Some(j) => {
                    proof {
                        lemma_find_bounds(s@, key@, a as int);
                    }
                    j
                },
                None => s.len(),
            };
            Some((a, b))
        },
        None => None,
    }
}

proof fn lemma_find_bounds(s: Seq<u8>, p: Seq<u8>, from: int)
    requires
        from >= 0,
    ensures
        find_from(s, p, from) matches Some(i) ==> from <= i && i + p.len() <= s.len()
            && crate::text::matches_at(s, p, i),
    decreases s.len() + 1 - from,
{
    if from + p.len() <= s.len() && !crate::text::matches_at(s, p, from) {
        lemma_find_bounds(s, p, from + 1);
    }
}

fn channel_exec(t: &[u8]) -> (r: Option<u8>)
    ensures
        r == channel_text(t@),
{
    let n = t.len();
    let signed = n > 0 && (t[0] == 45u8 || t[0] == 43u8);
    let start: usize = if signed {
        1
    } else {
        0
    };
    let body = vstd::slice::slice_subrange(t, start, n);
    assert(body@ =~= (if signed {
        t@.drop_first()
    } else {
        t@
    }));
    let dot: Vec<u8> = vec![46u8];
    assert(dot@ =~= seq![46u8]);
    let (ip_end, fp_start) = match find(body, dot.as_slice(), 0) {
        Some(d) => {
            proof {
                lemma_find_bounds(body@, seq![46u8], 0);
            }
            (d, d + 1)
        },
        None => (body.len(), body.len()),
    };
    let ip = vstd::slice::slice_subrange(body, 0, ip_end);
    let fp = vstd::slice::slice_subrange(body, fp_start, body.len());
    let ghost sp = number_parts(t@);
    assert(ip@ =~= sp.0);
    assert(fp@ =~= sp.1);
    if ip.len() == 0 && fp.len() == 0 {
        return None;
    }
    let mut nonzero = false;
    let mut i: usize = 0;
    while i < ip.len()
        invariant
            i <= ip@.len(),
            ip@ == sp.0,
            sp == number_parts(t@),
            forall|j: int| 0 <= j < i ==> crate::text::is_digit(#[trigger] ip@[j]),
            nonzero <==> exists|j: int| 0 <= j < i && ip@[j] != 48u8,
        decreases ip@.len() - i,
    {
        if ip[i] < 48 || ip[i] > 57 {
            assert(!crate::text::is_digit(ip@[i as int]));
            assert(!all_digits(sp.0));
            return None;
        }
        if ip[i] != 48 {
            nonzero = true;
        }
        i = i + 1;
    }
    let mut k: usize = 0;
    while k < fp.len()
        invariant
            k <= fp@.len(),
            fp@ == sp.1,
            sp == number_parts(t@),
            forall|j: int| 0 <= j < k ==> crate::text::is_digit(#[trigger] fp@[j]),
        decreases fp@.len() - k,
    {
        if fp[k] < 48 || fp[k] > 57 {
            assert(!crate::text::is_digit(fp@[k as int]));
            assert(!all_digits(sp.1));
            return None;
        }
        k = k + 1;
    }
    assert(all_digits(ip@));
    assert(all_digits(fp@));
    if t[0] == 45u8 {
        return Some(0);
    }
    if nonzero {
        return Some(255);
    }
    let mut acc: u64 = 0;
    let mut j: usize = 0;
    proof {
        lemma_pow10_mono(8, 9);
        reveal_with_fuel(pow10, 10);
    }
    while j < 9
        invariant
            j <= 9,
            acc == frac_scaled(fp@, j as int),
            acc < pow10(j as nat),
            pow10(8) == 100_000_000,
            forall|q: int| 0 <= q < fp@.len() ==> crate::text::is_digit(#[trigger] fp@[q]),
        decreases 9 - j,
    {
        let d: u64 = if j < fp.len() {
            (fp[j] - 48) as u64
        } else {
            0
        };
        proof {
            lemma_pow10_mono(j as nat, 8);
        }
        assert(acc * 10 + d < pow10((j + 1) as nat)) by (nonlinear_arith)
            requires acc < pow10(j as nat), d <= 9, pow10((j + 1) as nat) == pow10(j as nat) * 10;
        acc = acc * 10 + d;
        j = j + 1;
    }
    assert(pow10(9) == 1_000_000_000) by {
        reveal_with_fuel(pow10, 10);
    }
    assert(255 * acc / 1_000_000_000 <= 255) by (nonlinear_arith)
        requires acc < 1_000_000_000;
    Some((255 * acc / 1_000_000_000) as u8)
}

proof fn lemma_pow10_mono(a: nat, b: nat)
    requires
        a <= b,
    ensures
        pow10(a) <= pow10(b),
    decreases b,
{
    if a < b {
        lemma_pow10_mono(a, (b - 1) as nat);
    }
}

pub open spec fn pow10(k: nat) -> nat
    decreases k,
{
    if k == 0 {
        1
    } else {
        10 * pow10((k - 1) as nat)
    }
}

/// The foreground colour written as `name: (red: R, green: G, blue: B, ..)`
/// in a theme file, each channel a decimal in `[0, 1]` scaled to 255 and
/// rounded down; `None` when the entry, its parentheses or a channel is
/// missing or unreadable.
pub fn ron_color_bytes(content: &[u8], name: &[u8]) -> (r: Option<(u8, u8, u8)>)
    ensures
        r == ron_color(content@, name@),
{
    let key = with_colon(name);
    let (a, b) = match after_key_exec(content, key.as_slice()) {
        Some(p) => p,
        None => return None,
    };
    let rest = vstd::slice::slice_subrange(content, a, b);
    let open: Vec<u8> = vec![40u8];
    let close: Vec<u8> = vec![41u8];
    assert(open@ =~= seq![40u8]);
    assert(close@ =~= seq![41u8]);
    let st = match find(rest, open.as_slice(), 0) {
        Some(x) => x,
        None => return None,
    };
    proof {
        lemma_find_bounds(rest@, seq![40u8], 0);
    }
    let en = match find(rest, close.as_slice(), st) {
        Some(x) => x,
        None => return None,
    };
    proof {
        lemma_find_bounds(rest@, seq![41u8], st as int);
        assert(rest@.subrange(st as int, st + 1)[0] == 40u8);
        assert(rest@.subrange(en as int, en + 1)[0] == 41u8);
    }
    let block = vstd::slice::slice_subrange(rest, st + 1, en);
    let r = match field_exec(block, with_colon("red".as_bytes()).as_slice()) {
        Some(v) => v,
        None => return None,
    };
    let g = match field_exec(block, with_colon("green".as_bytes()).as_slice()) {
        Some(v) => v,
        None => return None,
    };
    let bl = match field_exec(block, with_colon("blue".as_bytes()).as_slice()) {
        Some(v) => v,
        None => return None,
    };
    Some((r, g, bl))
}

fn field_exec(block: &[u8], key: &[u8]) -> (r: Option<u8>)
    ensures
        r == (match after_key(block@, key@) {
            Some(v) => channel_text(trimmed(up_to_comma(v))),
            None => None,
        }),
{
    let (a, b) = match after_key_exec(block, key) {
        Some(p) => p,
        None => return None,
    };
    let v = vstd::slice::slice_subrange(block, a, b);
    let comma: Vec<u8> = vec![44u8];
    assert(comma@ =~= seq![44u8]);
    let upto = match find(v, comma.as_slice(), 0) {
        Some(c) => {
            proof {
                lemma_find_bounds(v@, seq![44u8], 0);
            }
            vstd::slice::slice_subrange(v, 0, c)
        },
        None => v,
    };
    channel_exec(trim(upto))
}

/// The colour written as `color_name: (red: R, green: G, blue: B, ..)` in
/// the text of a theme file; see [`ron_color_bytes`].
pub fn parse_color_from_ron(content: &str, color_name: &str) -> (r: Option<(u8, u8, u8)>)
    ensures
        r == ron_color(content.spec_bytes(), color_name.spec_bytes()),
{
    ron_color_bytes(content.as_bytes(), color_name.as_bytes())
}

/// Whether the text of the theme's mode file says `true`, surrounding
/// whitespace aside.
pub fn is_dark_text(content: &[u8]) -> (r: bool)
    ensures
        r == dark_text(content@),
{
    bytes_equal(trim(content), "true".as_bytes())
}

/// The name of the theme directory for a mode.
pub fn theme_variant(is_dark: bool) -> (r: &'static str)
    ensures
        r@ == (if is_dark {
            "Dark"@
        } else {
            "Light"@
        }),
{
    if is_dark {
        "Dark"
    } else {
        "Light"
    }
}

/// The theme colours from the text of the mode file and of the chosen
/// mode's background file (`None`: unreadable): the `on` colour and the
/// mode, or the defaults when a file is missing or holds no such colour.
pub fn get_cosmic_theme_colors(mode: &Option<Vec<u8>>, background: &Option<Vec<u8>>) -> (r:
    ThemeColors)
    ensures
        r == theme_colors_spec(crate::sysinfo::opt_bytes(*mode), crate::sysinfo::opt_bytes(*background)),
{
    match (mode, background) {
        (Some(m), Some(b)) => match ron_color_bytes(b.as_slice(), "on".as_bytes()) {
            Some(c) => ThemeColors { foreground: c, is_dark: is_dark_text(m.as_slice()) },
            None => ThemeColors::default(),
        },
        _ => ThemeColors::default(),
    }
}

/// Whether the text of the panel-size file names a panel of medium size or
/// larger (`M`, `L` or `XL`, any case, surrounding whitespace aside); an
/// unreadable file counts as large.
pub open spec fn panel_large_spec(size: Option<Seq<u8>>) -> bool {
    match size {
        Some(t) => {
            let u = ascii_upper(trimmed(t));
            u == lit("M") || u == lit("L") || u == lit("XL")
        },
        None => true,
    }
}

/// Whether the panel is medium-sized or larger, from the text of its size
/// file (`None`: unreadable).
pub fn is_panel_medium_or_larger(size: &Option<Vec<u8>>) -> (r: bool)
    ensures
        r == panel_large_spec(crate::sysinfo::opt_bytes(*size)),
{
    match size {
        Some(t) => {
            let u = to_ascii_upper(trim(t.as_slice()));
            let us = u.as_slice();
            bytes_equal(us, "M".as_bytes()) || bytes_equal(us, "L".as_bytes()) || bytes_equal(
                us,
                "XL".as_bytes(),
            )
        },
        None => true,
    }
}

/// The desktop portal's colour-scheme answer: `uint32 1` prefers dark,
/// `uint32 2` prefers light, anything else says nothing.
pub fn portal_prefers_dark(reply: &[u8]) -> (r: Option<bool>)
    ensures
        contains(reply@, lit("uint32 1")) ==> r == Some(true),
        !contains(reply@, lit("uint32 1")) && contains(reply@, lit("uint32 2")) ==> r == Some(false),
        !contains(reply@, lit("uint32 1")) && !contains(reply@, lit("uint32 2")) ==> r is None,
{
    if has_substring(reply, "uint32 1".as_bytes()) {
        Some(true)
    } else if has_substring(reply, "uint32 2".as_bytes()) {
        Some(false)
    } else {
        None
    }
}

/// `name` followed by a colon.
fn with_colon(name: &[u8]) -> (r: Vec<u8>)
    ensures
        r@ == name@.push(58u8),
{
    let mut key: Vec<u8> = Vec::new();
    let mut i: usize = 0;
    while i < name.len()
        invariant
            i <= name@.len(),
            key@ == name@.subrange(0, i as int),
        decreases name@.len() - i,
    {
        key.push(name[i]);
        i = i + 1;
    }
    key.push(58u8);
    assert(key@ =~= name@.push(58u8));
    key
}

} // verus!
