//! Colours for pawns: HSL to RGB on bytes, in exact integer arithmetic.
//!
//! With hue, saturation and lightness `h, s, l` read as fractions of 255,
//! `q = l (1 + s)` when `l < 1/2` and `q = l + s - l s` otherwise, and
//! `p = 2 l - q`. Each channel takes the hue shifted by `+1/3`, `0` or `-1/3`
//! (85 in byte units), wrapped into `[0, 1]`, and is `p + (q - p) 6 t` below
//! `1/6`, `q` below `1/2`, `p + (q - p) (2/3 - t) 6` below `2/3`, and `p`
//! beyond; the byte is that fraction of 255, rounded half up. Below, `q` and
//! `p` are kept in units of `1/255^2` and each channel in units of `1/255^3`.

use vstd::prelude::*;

verus! {

/// `q` of the conversion, in units of `1/255^2`.
pub open spec fn hsl_q(s: int, l: int) -> int {
    if l <= 127 { l * (255 + s) } else { 255 * l + 255 * s - l * s }
}

/// `p` of the conversion, in units of `1/255^2`.
pub open spec fn hsl_p(s: int, l: int) -> int {
    510 * l - hsl_q(s, l)
}

/// A shifted hue brought back into `[0, 255]`.
pub open spec fn wrap_hue(t: int) -> int {
    if t < 0 { t + 255 } else if t > 255 { t - 255 } else { t }
}

/// One channel at hue `t`, in units of `1/255^3`.
pub open spec fn channel_scaled(p: int, q: int, t: int) -> int {
    if 6 * t < 255 {
        255 * p + 6 * (q - p) * t
    } else if 2 * t < 255 {
        255 * q
    } else if t < 170 {
        255 * p + 6 * (q - p) * (170 - t)
    } else {
        255 * p
    }
}

/// A channel in units of `1/255^3` as a byte, rounded half up.
pub open spec fn scaled_to_byte(n: int) -> int {
    (2 * n + 65025) / 130050
}

/// The channel whose hue is `h + shift`.
pub open spec fn hsl_channel(h: int, s: int, l: int, shift: int) -> int {
    scaled_to_byte(channel_scaled(hsl_p(s, l), hsl_q(s, l), wrap_hue(h + shift)))
}

/// The colour `(r, g, b)` of hue `h`, saturation `s` and lightness `l`.
pub open spec fn rgb_of(h: u8, s: u8, l: u8) -> (int, int, int) {
    if s == 0 {
        (l as int, l as int, l as int)
    } else {
        (hsl_channel(h as int, s as int, l as int, 85), hsl_channel(h as int, s as int, l as int, 0),
            hsl_channel(h as int, s as int, l as int, -85))
    }
}

proof fn lemma_pq_bounds(s: int, l: int)
    requires
        0 <= s <= 255,
        0 <= l <= 255,
    ensures
        0 <= hsl_p(s, l) <= hsl_q(s, l) <= 65025,
{
    let ls = l * s;
    assert(0 <= ls <= 255 * s && ls <= 255 * l) by (nonlinear_arith)
        requires 0 <= s <= 255, 0 <= l <= 255, ls == l * s;
    assert(l * (255 + s) == 255 * l + ls) by (nonlinear_arith)
        requires ls == l * s;
    assert((255 - l) * (255 - s) == 65025 - 255 * l - 255 * s + ls) by (nonlinear_arith)
        requires ls == l * s;
    assert((255 - l) * (255 - s) >= 0) by (nonlinear_arith)
        requires 0 <= s <= 255, 0 <= l <= 255;
    if l >= 128 {
        assert(ls >= 128 * s) by (nonlinear_arith)
            requires 0 <= s <= 255, 128 <= l, ls == l * s;
    }
}

/// One channel as a byte, for `p <= q` in units of `1/255^2`.
fn channel(p: u32, q: u32, h: u8, shift: i16) -> (r: u8)
    requires
        p <= q <= 65025,
        -85 <= shift <= 85,
    ensures
        r == scaled_to_byte(channel_scaled(p as int, q as int, wrap_hue(h + shift))),
{
    let raw: i16 = h as i16 + shift;
    let t: u32 = if raw < 0 { (raw + 255) as u32 } else if raw > 255 { (raw - 255) as u32 } else { raw as u32 };
    assert(t <= 255);
    let d: u32 = q - p;
    let n: u32 = if 6 * t < 255 {
        assert(6 * d * t <= 255 * d) by (nonlinear_arith)
            requires 6 * t < 255;
        assert(255 * d <= 255 * 65025) by (nonlinear_arith)
            requires d <= 65025;
        255 * p + 6 * d * t
    } else if 2 * t < 255 {
        255 * q
    } else if t < 170 {
        assert(6 * d * (170 - t) <= 255 * d) by (nonlinear_arith)
            requires 128 <= t < 170;
        assert(255 * d <= 255 * 65025) by (nonlinear_arith)
            requires d <= 65025;
        255 * p + 6 * d * (170 - t)
    } else {
        255 * p
    };
    assert(n <= 255 * 65025);
    ((2 * n + 65025) / 130050) as u8
}

/// Converts hue, saturation and lightness, each on `0..=255`, to RGB bytes.
pub fn to_rgb(h: u8, s: u8, l: u8) -> (r: (u8, u8, u8))
    ensures
        (r.0 as int, r.1 as int, r.2 as int) == rgb_of(h, s, l),
{
    if s == 0 {
        return (l, l, l);
    }
    proof { lemma_pq_bounds(s as int, l as int); }
    let su: u32 = s as u32;
    let lu: u32 = l as u32;
    let q: u32 = if lu <= 127 {
        assert(lu * (255 + su) == hsl_q(s as int, l as int));
        lu * (255 + su)
    } else {
        assert(lu * su <= 65025) by (nonlinear_arith)
            requires lu <= 255, su <= 255;
        assert(255 * lu + 255 * su - lu * su == hsl_q(s as int, l as int));
        255 * lu + 255 * su - lu * su
    };
    let p: u32 = 510 * lu - q;
    (channel(p, q, h, 85), channel(p, q, h, 0), channel(p, q, h, -85))
}

/// The hue of pawn `i` of `count`: the colour wheel split evenly.
pub open spec fn spec_pawn_hue(i: u8, count: u8) -> u8 {
    if count == 1 { 0 } else { ((256int / (count as int)) * i) as u8 }
}

/// The hue of pawn `i` of `count`: the colour wheel split evenly.
pub fn pawn_hue(i: u8, count: u8) -> (r: u8)
    requires
        0 < count,
        i < count,
    ensures
        r == spec_pawn_hue(i, count),
{
    if count == 1 {
        return 0;
    }
    let step: u16 = 256 / (count as u16);
    assert(step == 256int / (count as int));
    assert(step * i < 256) by (nonlinear_arith)
        requires step == 256int / (count as int), 2 <= count, i < count;
    (step * i as u16) as u8
}

/// The colour of pawn `i` of `count`: full saturation, half lightness.
pub fn pawn_color(i: u8, count: u8) -> (r: (u8, u8, u8))
    requires
        0 < count,
        i < count,
    ensures
        (r.0 as int, r.1 as int, r.2 as int) == rgb_of(
            spec_pawn_hue(i, count),
            255,
            128,
        ),
{
    to_rgb(pawn_hue(i, count), 255, 128)
}

} // verus!
