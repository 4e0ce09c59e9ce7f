//! Colours and the palettes of the themes.

use vstd::prelude::*;

use crate::profile::Theme;
use crate::single::Single;

verus! {

/// A colour.
#[derive(Clone, Copy, Debug, PartialEq, Eq, Structural)]
pub struct Color {
    pub r: u8,
    pub g: u8,
    pub b: u8,
}

/// An upper-case hexadecimal digit.
pub open spec fn hex_upper(d: int) -> char {
    seq!['0', '1', '2', '3', '4', '5', '6', '7', '8', '9', 'A', 'B', 'C', 'D', 'E', 'F'][d]
}

fn hex_upper_char(d: u8) -> (c: char)
    requires
        d < 16,
    ensures
        c == hex_upper(d as int),
{
    match d {
        0 => '0',
        1 => '1',
        2 => '2',
        3 => '3',
        4 => '4',
        5 => '5',
        6 => '6',
        7 => '7',
        8 => '8',
        9 => '9',
        10 => 'A',
        11 => 'B',
        12 => 'C',
        13 => 'D',
        14 => 'E',
        _ => 'F',
    }
}

/// A byte as two digits.
pub open spec fn hex_pair(b: u8) -> Seq<char> {
    seq![hex_upper(b as int / 16), hex_upper(b as int % 16)]
}

impl Color {
    pub fn rgb(r: u8, g: u8, b: u8) -> (c: Color)
        ensures
            c == (Color { r, g, b }),
    {
        Color { r, g, b }
    }

    /// The colour as text, such as `#2D6CDF`.
    pub fn hex(&self) -> (s: String)
        ensures
            s@ == seq!['#'] + hex_pair(self.r) + hex_pair(self.g) + hex_pair(self.b),
    {
        let mut s: String = String::new();
        s.push('#');
        s.push(hex_upper_char(self.r / 16));
        s.push(hex_upper_char(self.r % 16));
        s.push(hex_upper_char(self.g / 16));
        s.push(hex_upper_char(self.g % 16));
        s.push(hex_upper_char(self.b / 16));
        s.push(hex_upper_char(self.b % 16));
        proof {
            assert(s@ =~= seq!['#'] + hex_pair(self.r) + hex_pair(self.g) + hex_pair(self.b));
        }
        s
    }
}

/// Two colours with the same text are the same colour.
pub proof fn hex_names_one_color(a: Color, b: Color)
    requires
        hex_pair(a.r) + hex_pair(a.g) + hex_pair(a.b) == hex_pair(b.r) + hex_pair(b.g) + hex_pair(
            b.b,
        ),
    ensures
        a == b,
{
    let x = hex_pair(a.r) + hex_pair(a.g) + hex_pair(a.b);
    let y = hex_pair(b.r) + hex_pair(b.g) + hex_pair(b.b);
    assert(x[0] == y[0] && x[1] == y[1] && x[2] == y[2] && x[3] == y[3] && x[4] == y[4] && x[5]
        == y[5]);
}

/// The colours of a theme by their use.
#[derive(Clone, Copy, Debug, PartialEq, Eq, Structural)]
pub struct Tokens {
    pub bg_base: Color,
    pub bg_surface: Color,
    pub bg_elevated: Color,
    pub text_primary: Color,
    pub text_secondary: Color,
    pub border: Color,
    pub accent: Color,
    pub success: Color,
    pub warning: Color,
    pub danger: Color,
}

/// The themes that have a palette of their own.
pub const CONCRETE_THEMES: [Theme; 4] = [
    Theme::Daylight,
    Theme::Midnight,
    Theme::Aurora,
    Theme::HighContrast,
];

/// The light palette.
pub open spec fn daylight() -> Tokens {
    Tokens {
        bg_base: Color { r: 0xfa, g: 0xf8, b: 0xf5 },
        bg_surface: Color { r: 0xff, g: 0xff, b: 0xff },
        bg_elevated: Color { r: 0xff, g: 0xff, b: 0xff },
        text_primary: Color { r: 0x1b, g: 0x1b, b: 0x1f },
        text_secondary: Color { r: 0x55, g: 0x55, b: 0x5c },
        border: Color { r: 0xe2, g: 0xde, b: 0xd8 },
        accent: Color { r: 0x2d, g: 0x6c, b: 0xdf },
        success: Color { r: 0x1e, g: 0x87, b: 0x4b },
        warning: Color { r: 0x8a, g: 0x63, b: 0x00 },
        danger: Color { r: 0xc2, g: 0x39, b: 0x34 },
    }
}

/// The dark palette.
pub open spec fn midnight() -> Tokens {
    Tokens {
        bg_base: Color { r: 0x0a, g: 0x0a, b: 0x0c },
        bg_surface: Color { r: 0x13, g: 0x13, b: 0x17 },
        bg_elevated: Color { r: 0x1c, g: 0x1c, b: 0x22 },
        text_primary: Color { r: 0xec, g: 0xec, b: 0xef },
        text_secondary: Color { r: 0xa0, g: 0xa0, b: 0xa8 },
        border: Color { r: 0x26, g: 0x26, b: 0x2e },
        accent: Color { r: 0x4c, g: 0x8d, b: 0xff },
        success: Color { r: 0x35, g: 0xc4, b: 0x6b },
        warning: Color { r: 0xe0, g: 0xa9, b: 0x3b },
        danger: Color { r: 0xf0, g: 0x6a, b: 0x6a },
    }
}

/// The dark palette with a green accent.
pub open spec fn aurora() -> Tokens {
    Tokens {
        bg_base: Color { r: 0x0e, g: 0x11, b: 0x16 },
        bg_surface: Color { r: 0x16, g: 0x1b, b: 0x22 },
        bg_elevated: Color { r: 0x1d, g: 0x24, b: 0x2d },
        text_primary: Color { r: 0xe8, g: 0xed, b: 0xf2 },
        text_secondary: Color { r: 0x9a, g: 0xa6, b: 0xb2 },
        border: Color { r: 0x23, g: 0x2c, b: 0x36 },
        accent: Color { r: 0x45, g: 0xc4, b: 0xb4 },
        success: Color { r: 0x35, g: 0xc4, b: 0x6b },
        warning: Color { r: 0xe0, g: 0xa9, b: 0x3b },
        danger: Color { r: 0xf0, g: 0x6a, b: 0x6a },
    }
}

/// The palette with the strongest contrast.
pub open spec fn high_contrast() -> Tokens {
    Tokens {
        bg_base: Color { r: 0x00, g: 0x00, b: 0x00 },
        bg_surface: Color { r: 0x00, g: 0x00, b: 0x00 },
        bg_elevated: Color { r: 0x0a, g: 0x0a, b: 0x0a },
        text_primary: Color { r: 0xff, g: 0xff, b: 0xff },
        text_secondary: Color { r: 0xff, g: 0xff, b: 0xff },
        border: Color { r: 0xff, g: 0xff, b: 0xff },
        accent: Color { r: 0xff, g: 0xd6, b: 0x00 },
        success: Color { r: 0x00, g: 0xe6, b: 0x76 },
        warning: Color { r: 0xff, g: 0xd6, b: 0x00 },
        danger: Color { r: 0xff, g: 0x52, b: 0x52 },
    }
}

/// The palette of a theme. The theme of the system has none of its own: it is the
/// dark or the light one.
pub open spec fn palette(theme: Theme, system_prefers_dark: bool) -> Tokens {
    match theme {
        Theme::System => if system_prefers_dark {
            midnight()
        } else {
            daylight()
        },
        Theme::Daylight => daylight(),
        Theme::Midnight => midnight(),
        Theme::Aurora => aurora(),
        Theme::HighContrast => high_contrast(),
    }
}

/// The palette of a theme.
pub fn tokens_for(theme: Theme, system_prefers_dark: bool) -> (t: Tokens)
    ensures
        t == palette(theme, system_prefers_dark),
{
    let concrete: Theme = match theme {
        Theme::System => if system_prefers_dark {
            Theme::Midnight
        } else {
            Theme::Daylight
        },
        other => other,
    };
    match concrete {
        Theme::Daylight => Tokens {
            bg_base: Color { r: 0xfa, g: 0xf8, b: 0xf5 },
            bg_surface: Color { r: 0xff, g: 0xff, b: 0xff },
            bg_elevated: Color { r: 0xff, g: 0xff, b: 0xff },
            text_primary: Color { r: 0x1b, g: 0x1b, b: 0x1f },
            text_secondary: Color { r: 0x55, g: 0x55, b: 0x5c },
            border: Color { r: 0xe2, g: 0xde, b: 0xd8 },
            accent: Color { r: 0x2d, g: 0x6c, b: 0xdf },
            success: Color { r: 0x1e, g: 0x87, b: 0x4b },
            warning: Color { r: 0x8a, g: 0x63, b: 0x00 },
            danger: Color { r: 0xc2, g: 0x39, b: 0x34 },
        },
        Theme::Aurora => Tokens {
            bg_base: Color { r: 0x0e, g: 0x11, b: 0x16 },
            bg_surface: Color { r: 0x16, g: 0x1b, b: 0x22 },
            bg_elevated: Color { r: 0x1d, g: 0x24, b: 0x2d },
            text_primary: Color { r: 0xe8, g: 0xed, b: 0xf2 },
            text_secondary: Color { r: 0x9a, g: 0xa6, b: 0xb2 },
            border: Color { r: 0x23, g: 0x2c, b: 0x36 },
            accent: Color { r: 0x45, g: 0xc4, b: 0xb4 },
            success: Color { r: 0x35, g: 0xc4, b: 0x6b },
            warning: Color { r: 0xe0, g: 0xa9, b: 0x3b },
            danger: Color { r: 0xf0, g: 0x6a, b: 0x6a },
        },
        Theme::HighContrast => Tokens {
            bg_base: Color { r: 0x00, g: 0x00, b: 0x00 },
            bg_surface: Color { r: 0x00, g: 0x00, b: 0x00 },
            bg_elevated: Color { r: 0x0a, g: 0x0a, b: 0x0a },
            text_primary: Color { r: 0xff, g: 0xff, b: 0xff },
            text_secondary: Color { r: 0xff, g: 0xff, b: 0xff },
            border: Color { r: 0xff, g: 0xff, b: 0xff },
            accent: Color { r: 0xff, g: 0xd6, b: 0x00 },
            success: Color { r: 0x00, g: 0xe6, b: 0x76 },
            warning: Color { r: 0xff, g: 0xd6, b: 0x00 },
            danger: Color { r: 0xff, g: 0x52, b: 0x52 },
        },
        _ => Tokens {
            bg_base: Color { r: 0x0a, g: 0x0a, b: 0x0c },
            bg_surface: Color { r: 0x13, g: 0x13, b: 0x17 },
            bg_elevated: Color { r: 0x1c, g: 0x1c, b: 0x22 },
            text_primary: Color { r: 0xec, g: 0xec, b: 0xef },
            text_secondary: Color { r: 0xa0, g: 0xa0, b: 0xa8 },
            border: Color { r: 0x26, g: 0x26, b: 0x2e },
            accent: Color { r: 0x4c, g: 0x8d, b: 0xff },
            success: Color { r: 0x35, g: 0xc4, b: 0x6b },
            warning: Color { r: 0xe0, g: 0xa9, b: 0x3b },
            danger: Color { r: 0xf0, g: 0x6a, b: 0x6a },
        },
    }
}

/// The theme of the system is the dark or the light palette, and only it depends
/// on what the system prefers.
pub proof fn system_theme_follows(theme: Theme)
    ensures
        palette(Theme::System, true) == palette(Theme::Midnight, false),
        palette(Theme::System, false) == palette(Theme::Daylight, false),
        theme != Theme::System ==> palette(theme, true) == palette(theme, false),
{
}

/// Whether a background counts as dark: its three parts add up to less than half
/// of the brightest.
pub fn is_dark(base: Color) -> (r: bool)
    ensures
        r == (base.r + base.g + base.b < 384),
{
    (base.r as u32 + base.g as u32 + base.b as u32) < 384
}

/// Encoding of the contrast that normal text needs, `4.5`.
pub const AA_CONTRAST: u32 = 0x4090_0000;

/// Encoding of the contrast that the strictest level asks for, `7.0`.
pub const AAA_CONTRAST: u32 = 0x40e0_0000;

/// The verdict on a contrast ratio.
pub fn contrast_verdict(ratio: Single) -> (s: &'static str)
    ensures
        s@ == if (Single { bits: AAA_CONTRAST }).at_most(ratio) {
            "AA + AAA"@
        } else if (Single { bits: AA_CONTRAST }).at_most(ratio) {
            "AA"@
        } else {
            "FAILS AA"@
        },
{
    if (Single { bits: AAA_CONTRAST }).le(ratio) {
        "AA + AAA"
    } else if (Single { bits: AA_CONTRAST }).le(ratio) {
        "AA"
    } else {
        "FAILS AA"
    }
}

/// A channel as a fraction of [`FULL`], raised as sRGB raises it before its power
/// curve.
pub open spec fn raised(channel: u8) -> int {
    1000 * channel + 14025
}

/// The whole of [`raised`].
pub const FULL: u64 = 269025;

/// `x` to the power `n`.
pub open spec fn power(x: int, n: nat) -> int
    decreases n,
{
    if n == 0 {
        1
    } else {
        power(x, (n - 1) as nat) * x
    }
}

/// `light` is the curve of sRGB: it gives the light of a channel in parts of
/// `FULL * FULL * FULL`, rounded down. A channel up to 10 gives its share of 255
/// divided by 12.92, and a brighter one its raised share to the power of 2.4, that is the
/// number whose fifth power is the share's twelfth.
pub open spec fn srgb(light: spec_fn(u8) -> int) -> bool {
    &&& forall|c: u8|
        c <= 10 ==> #[trigger] light(c) == FULL * FULL * FULL * c * 100 / 329460
    &&& forall|c: u8|
        c > 10 ==> 0 <= #[trigger] light(c) && power(light(c), 5) <= power(FULL as int, 3) * power(
            raised(c),
            12,
        ) < power(light(c) + 1, 5)
}

/// `light` lies between the square and, but for the darkest channels, the cube of
/// the raised channel.
pub open spec fn like_srgb(light: spec_fn(u8) -> int) -> bool {
    &&& forall|c: u8| 0 <= #[trigger] light(c) <= raised(c) * raised(c) * FULL
    &&& forall|c: u8| c > 10 ==> raised(c) * raised(c) * raised(c) <= #[trigger] light(c)
}

proof fn powers_multiply(x: int, y: int, n: nat)
    ensures
        power(x * y, n) == power(x, n) * power(y, n),
    decreases n,
{
    if n > 0 {
        let m = (n - 1) as nat;
        powers_multiply(x, y, m);
        let (p, q) = (power(x, m), power(y, m));
        assert((p * q) * (x * y) == (p * x) * (q * y)) by (nonlinear_arith);
    }
}

proof fn powers_add(x: int, m: nat, n: nat)
    ensures
        power(x, m + n) == power(x, m) * power(x, n),
    decreases n,
{
    if n > 0 {
        let k = (n - 1) as nat;
        powers_add(x, m, k);
        assert(power(x, m + n) == power(x, m + k) * x);
        let (p, q) = (power(x, m), power(x, k));
        assert((p * q) * x == p * (q * x)) by (nonlinear_arith);
    } else {
        assert(power(x, 0) == 1);
    }
}

proof fn powers_grow(x: int, y: int, n: nat)
    requires
        0 <= x <= y,
    ensures
        0 <= power(x, n) <= power(y, n),
        x < y && n > 0 ==> power(x, n) < power(y, n),
        x > 0 ==> power(x, n) > 0,
    decreases n,
{
    if n > 0 {
        let m = (n - 1) as nat;
        powers_grow(x, y, m);
        powers_grow(y, y, m);
        let (p, q) = (power(x, m), power(y, m));
        assert(0 <= p * x <= q * y) by (nonlinear_arith)
            requires
                0 <= p <= q,
                0 <= x <= y,
        ;
        if x < y {
            assert(p * x < q * y) by (nonlinear_arith)
                requires
                    0 <= p <= q,
                    0 < q,
                    0 <= x < y,
            ;
        }
        if x > 0 {
            assert(p * x > 0) by (nonlinear_arith)
                requires
                    p > 0,
                    x > 0,
            ;
        }
    }
}

/// The power of 2.4 of a fraction lies between its cube and its square.
proof fn srgb_lies_between(light: spec_fn(u8) -> int)
    requires
        srgb(light),
    ensures
        like_srgb(light),
{
    assert forall|c: u8| c > 10 implies {
        &&& raised(c) * raised(c) * raised(c) <= #[trigger] light(c)
        &&& light(c) <= raised(c) * raised(c) * FULL
    } by {
        let (r, full, l) = (raised(c), FULL as int, light(c));
        let square = r * r * full;
        let cube = r * r * r;
        fifth_powers(r, full);
        let exact = power(full, 3) * power(r, 12);
        if l > square {
            powers_grow(square, l, 5);
        }
        if cube > l {
            powers_grow(l + 1, cube, 5);
        }
    }
    assert forall|c: u8| c <= 10 implies 0 <= #[trigger] light(c) <= raised(c) * raised(c)
        * FULL by {
        dark_channels(c);
    }
}

/// The fifth powers of square and cube, around the exact one.
proof fn fifth_powers(r: int, full: int)
    requires
        0 < r <= full,
    ensures
        0 <= r * r * full,
        power(full, 3) * power(r, 12) <= power(r * r * full, 5),
        power(r * r * r, 5) <= power(full, 3) * power(r, 12),
{
    assert(0 <= r * r * full) by (nonlinear_arith)
        requires
            0 < r <= full,
    ;
    powers_multiply(r * r, full, 5);
    powers_multiply(r, r, 5);
    powers_multiply(r * r, r, 5);
    powers_add(r, 5, 5);
    powers_add(r, 10, 2);
    powers_add(r, 10, 5);
    powers_add(r, 12, 3);
    powers_add(full, 3, 2);
    powers_grow(r, full, 2);
    powers_grow(r, full, 3);
    powers_grow(r, full, 10);
    powers_grow(r, full, 12);
    let (r2, r3, r10, r12) = (power(r, 2), power(r, 3), power(r, 10), power(r, 12));
    let (f2, f3) = (power(full, 2), power(full, 3));
    powers_grow(full, full, 3);
    assert(f3 * (r10 * r2) <= r10 * (f3 * f2)) by (nonlinear_arith)
        requires
            0 <= r2 <= f2,
            0 <= r10,
            0 <= f3,
    ;
    assert(r12 * r3 <= f3 * r12) by (nonlinear_arith)
        requires
            0 <= r3 <= f3,
            0 <= r12,
    ;
}

proof fn dark_channels(c: u8)
    requires
        c <= 10,
    ensures
        0 <= FULL * FULL * FULL * c * 100 / 329460 <= raised(c) * raised(c) * FULL,
{
    let (r, n) = (raised(c), c as int);
    let whole = FULL * FULL * FULL * c * 100;
    assert(r * r >= 28050000 * n) by (nonlinear_arith)
        requires
            r == 1000 * n + 14025,
            n >= 0,
    ;
    assert(FULL * FULL == 72374450625) by (nonlinear_arith)
        requires
            FULL == 269025,
    ;
    let square = r * r;
    assert(whole == 7237445062500 * n * FULL) by (nonlinear_arith)
        requires
            whole == FULL * FULL * FULL * n * 100,
            FULL * FULL == 72374450625,
    ;
    assert(7237445062500 * n * FULL <= 329460 * (square * FULL)) by (nonlinear_arith)
        requires
            7237445062500 * n <= 329460 * square,
            FULL == 269025,
    ;
    assert(whole >= 0) by (nonlinear_arith)
        requires
            whole == 7237445062500 * n * FULL,
            n >= 0,
            FULL == 269025,
    ;
}

/// How light a colour is, in ten-thousandths of the light of a channel.
pub open spec fn luminance(light: spec_fn(u8) -> int, c: Color) -> int {
    2126 * light(c.r) + 7152 * light(c.g) + 722 * light(c.b)
}

/// The contrast of two colours is at least `num` to `den`: the lighter, with a
/// twentieth of full light added, is so many times the darker.
pub open spec fn contrasts(light: spec_fn(u8) -> int, a: Color, b: Color, num: int, den: int) -> bool {
    let glare = 500 * FULL * FULL * FULL;
    let (x, y) = (luminance(light, a), luminance(light, b));
    let (hi, lo) = if x >= y {
        (x, y)
    } else {
        (y, x)
    };
    den * (hi + glare) >= num * (lo + glare)
}

proof fn channel_bounds(light: spec_fn(u8) -> int, low: u8, high: u8, c: u8)
    requires
        like_srgb(light),
        low <= c <= high,
    ensures
        light(c) <= raised(high) * raised(high) * FULL,
        low > 10 ==> raised(low) * raised(low) * raised(low) <= light(c),
{
    let (x, y, z) = (raised(low), raised(c), raised(high));
    assert(y * y * FULL <= z * z * FULL) by (nonlinear_arith)
        requires
            0 <= y <= z,
    ;
    assert(x * x * x <= y * y * y) by (nonlinear_arith)
        requires
            0 <= x <= y,
    ;
}

/// The cube of one raised channel and the square of another contrast.
spec fn apart(low: int, high: int, num: int, den: int) -> bool {
    den * (10000 * (low * low * low) + 500 * FULL * FULL * FULL) >= num * (10000 * (high * high
        * FULL) + 500 * FULL * FULL * FULL)
}

/// Colours whose channels lie far enough apart contrast: those of the light one
/// at `low` or above, those of the dark one at `high` or below.
proof fn far_channels_contrast(
    light: spec_fn(u8) -> int,
    bright: Color,
    dark: Color,
    low: u8,
    high: u8,
    num: int,
    den: int,
)
    requires
        like_srgb(light),
        10 < low <= bright.r && low <= bright.g && low <= bright.b,
        dark.r <= high && dark.g <= high && dark.b <= high,
        0 < den <= num,
        apart(raised(low), raised(high), num, den),
    ensures
        contrasts(light, bright, dark, num, den),
        contrasts(light, dark, bright, num, den),
{
    channel_bounds(light, low, 255, bright.r);
    channel_bounds(light, low, 255, bright.g);
    channel_bounds(light, low, 255, bright.b);
    channel_bounds(light, 0, high, dark.r);
    channel_bounds(light, 0, high, dark.g);
    channel_bounds(light, 0, high, dark.b);
    let glare = 500 * FULL * FULL * FULL;
    let least = 10000 * (raised(low) * raised(low) * raised(low));
    let most = 10000 * (raised(high) * raised(high) * FULL);
    let (x, y) = (luminance(light, bright), luminance(light, dark));
    assert(x >= least && 0 <= y <= most);
    assert(den * (x + glare) >= num * (y + glare)) by (nonlinear_arith)
        requires
            x >= least,
            y <= most,
            0 < den <= num,
            den * (least + glare) >= num * (most + glare),
    ;
    assert(x >= y) by (nonlinear_arith)
        requires
            den * (x + glare) >= num * (y + glare),
            0 < den <= num,
            0 <= y,
            glare >= 0,
    ;
}

/// Every theme can be read: text stands out of the background by at least 4.5 to
/// 1, in the theme with the strongest contrast by 7 to 1, and secondary text by 3
/// to 1. Light is that of the exact curve of sRGB.
pub proof fn every_theme_is_readable(light: spec_fn(u8) -> int, theme: Theme, dark: bool)
    requires
        srgb(light),
    ensures
        contrasts(light, palette(theme, dark).text_primary, palette(theme, dark).bg_base, 9, 2),
        theme == Theme::HighContrast ==> contrasts(
            light,
            palette(theme, dark).text_primary,
            palette(theme, dark).bg_base,
            7,
            1,
        ),
        contrasts(light, palette(theme, dark).text_secondary, palette(theme, dark).bg_base, 3, 1),
{
    srgb_lies_between(light);
    let (day, night, north, strong) = (daylight(), midnight(), aurora(), high_contrast());
    assert(apart(259025, 45025, 9, 2)) by (nonlinear_arith);
    far_channels_contrast(light, day.bg_base, day.text_primary, 0xf5, 0x1f, 9, 2);
    assert(apart(259025, 106025, 3, 1)) by (nonlinear_arith);
    far_channels_contrast(light, day.bg_base, day.text_secondary, 0xf5, 0x5c, 3, 1);
    assert(apart(250025, 26025, 9, 2)) by (nonlinear_arith);
    far_channels_contrast(light, night.text_primary, night.bg_base, 0xec, 0x0c, 9, 2);
    assert(apart(174025, 26025, 3, 1)) by (nonlinear_arith);
    far_channels_contrast(light, night.text_secondary, night.bg_base, 0xa0, 0x0c, 3, 1);
    assert(apart(246025, 36025, 9, 2)) by (nonlinear_arith);
    far_channels_contrast(light, north.text_primary, north.bg_base, 0xe8, 0x16, 9, 2);
    assert(apart(168025, 36025, 3, 1)) by (nonlinear_arith);
    far_channels_contrast(light, north.text_secondary, north.bg_base, 0x9a, 0x16, 3, 1);
    assert(apart(269025, 14025, 9, 2)) by (nonlinear_arith);
    far_channels_contrast(light, strong.text_primary, strong.bg_base, 0xff, 0x00, 9, 2);
    assert(apart(269025, 14025, 7, 1)) by (nonlinear_arith);
    far_channels_contrast(light, strong.text_primary, strong.bg_base, 0xff, 0x00, 7, 1);
    assert(apart(269025, 14025, 3, 1)) by (nonlinear_arith);
    far_channels_contrast(light, strong.text_secondary, strong.bg_base, 0xff, 0x00, 3, 1);
}

/// Colours mean the same in every theme: green for what went well, red for danger,
/// yellow for a warning, each of them another colour. Only the light theme has a
/// light background, and text is lighter than a dark background and darker than a
/// light one.
pub proof fn colours_keep_their_meaning(theme: Theme, dark: bool, t: Tokens, background_dark: bool)
    requires
        call_ensures(tokens_for, (theme, dark), t),
        call_ensures(is_dark, (t.bg_base,), background_dark),
    ensures
        t.success.g > t.success.r && t.success.g > t.success.b,
        t.danger.r > t.danger.g && t.danger.r > t.danger.b,
        t.warning.r > t.warning.b && t.warning.g > t.warning.b && t.warning.r > t.warning.g,
        t.success != t.warning && t.warning != t.danger && t.success != t.danger,
        background_dark <==> theme is Midnight || theme is Aurora || theme is HighContrast || (
        theme is System && dark),
        background_dark ==> t.text_primary.r > 0x80 && t.text_primary.g > 0x80
            && t.text_primary.b > 0x80,
        !background_dark ==> t.text_primary.r < 0x80 && t.text_primary.g < 0x80
            && t.text_primary.b < 0x80,
{
}

/// No two themes look alike.
pub proof fn themes_differ(a: Theme, b: Theme, dark: bool)
    requires
        !(a is System),
        !(b is System),
        palette(a, dark) == palette(b, dark),
    ensures
        a == b,
{
}

/// A colour as text: after the sign two digits each for red, green and blue, the
/// upper half of the byte first.
pub proof fn colours_are_written_byte_by_byte(c: &Color, s: String, d: int)
    requires
        call_ensures(Color::hex, (c,), s),
        0 <= d < 16,
    ensures
        s@.len() == 7,
        s@[0] == '#',
        d < 10 ==> hex_upper(d) as int == '0' as int + d,
        d >= 10 ==> hex_upper(d) as int == 'A' as int + d - 10,
        s@[1] == hex_upper(c.r as int / 16) && s@[2] == hex_upper(c.r as int % 16),
        s@[3] == hex_upper(c.g as int / 16) && s@[4] == hex_upper(c.g as int % 16),
        s@[5] == hex_upper(c.b as int / 16) && s@[6] == hex_upper(c.b as int % 16),
{
}

} // verus!
