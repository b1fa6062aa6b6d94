//! Hue, saturation and value to red, green and blue.
//!
//! The conversion is laid out here: which inputs it takes, which sixth of
//! the colour wheel a hue falls in, and which channel gets which
//! component. The real arithmetic on the components is the caller's, on
//! binary32 encodings.

use vstd::prelude::*;
use crate::colorscheme::RgbColor;
use crate::encoding::BINARY32_HUNDRED;

verus! {

/// The binary32 encoding of negative zero: the sign bit alone.
pub const BINARY32_NEGATIVE_ZERO: u32 = 0x8000_0000;

/// The binary32 encoding of 60.
pub const BINARY32_60: u32 = 0x4270_0000;

/// The binary32 encoding of 120.
pub const BINARY32_120: u32 = 0x42f0_0000;

/// The binary32 encoding of 180.
pub const BINARY32_180: u32 = 0x4334_0000;

/// The binary32 encoding of 240.
pub const BINARY32_240: u32 = 0x4370_0000;

/// The binary32 encoding of 300.
pub const BINARY32_300: u32 = 0x4396_0000;

/// The binary32 encoding of 360.
pub const BINARY32_360: u32 = 0x43b4_0000;

/// The components of a colour before they are spread over the channels:
/// the chroma `c`, the second-largest component `x`, and the amount `m`
/// that is added to every channel, each as a binary32 encoding.
#[derive(Clone, Copy, Debug, PartialEq, Eq, Structural)]
pub struct Chroma {
    pub c: u32,
    pub x: u32,
    pub m: u32,
}

/// Whether `bits` encodes zero, of either sign.
pub open spec fn is_zero(bits: u32) -> bool {
    bits == 0 || bits == BINARY32_NEGATIVE_ZERO
}

/// Whether `bits` encodes a number from zero to the number that `top`
/// encodes, both included.
pub open spec fn within(bits: u32, top: u32) -> bool {
    bits <= top || bits == BINARY32_NEGATIVE_ZERO
}

/// The inputs that the conversion takes: a hue from 0 to 360 degrees, and
/// saturation and value from 0 to 100.
pub open spec fn convertible(h: u32, s: u32, v: u32) -> bool {
    within(h, BINARY32_360) && within(s, BINARY32_HUNDRED) && within(v, BINARY32_HUNDRED)
}

/// The sixth of the colour wheel, counted from 0, that a hue from 0 to 360
/// degrees falls in; 360 itself counts to the last.
pub open spec fn sector_of(h: u32) -> int {
    if h == BINARY32_NEGATIVE_ZERO || h < BINARY32_60 {
        0
    } else if h < BINARY32_120 {
        1
    } else if h < BINARY32_180 {
        2
    } else if h < BINARY32_240 {
        3
    } else if h < BINARY32_300 {
        4
    } else {
        5
    }
}

/// The components of red, green and blue, in this order, for a hue in
/// `sector`: the chroma goes to the dominant channel, `x` to its
/// neighbour, and zero to the third.
pub open spec fn arranged(sector: int, k: Chroma) -> (u32, u32, u32) {
    if sector == 0 {
        (k.c, k.x, 0)
    } else if sector == 1 {
        (k.x, k.c, 0)
    } else if sector == 2 {
        (0, k.c, k.x)
    } else if sector == 3 {
        (0, k.x, k.c)
    } else if sector == 4 {
        (k.x, 0, k.c)
    } else {
        (k.c, 0, k.x)
    }
}

/// `out` is a result of the conversion of `(h, s, v)`. Without
/// saturation all three channels are one level, that of zero chroma; with
/// saturation each channel is the level of its component.
pub open spec fn converts<K: Fn(u32, u32, u32) -> Chroma, L: Fn(u32, u32) -> u8>(
    h: u32,
    s: u32,
    v: u32,
    chroma: &K,
    level: &L,
    out: RgbColor,
) -> bool {
    exists|k: Chroma|
        {
            &&& #[trigger] call_ensures(chroma, (h, s, v), k)
            &&& if is_zero(s) {
                &&& call_ensures(level, (0u32, k.m), out.r)
                &&& out.g == out.r
                &&& out.b == out.r
            } else {
                &&& call_ensures(level, (arranged(sector_of(h), k).0, k.m), out.r)
                &&& call_ensures(level, (arranged(sector_of(h), k).1, k.m), out.g)
                &&& call_ensures(level, (arranged(sector_of(h), k).2, k.m), out.b)
            }
        }
}

/// The sixth of the colour wheel that a hue falls in.
pub fn sector(h: u32) -> (out: u8)
    ensures
        out == sector_of(h),
        out <= 5,
{
    if h == BINARY32_NEGATIVE_ZERO || h < BINARY32_60 {
        0
    } else if h < BINARY32_120 {
        1
    } else if h < BINARY32_180 {
        2
    } else if h < BINARY32_240 {
        3
    } else if h < BINARY32_300 {
        4
    } else {
        5
    }
}

/// Converts hue, saturation and value to red, green and blue. `chroma`
/// computes the components of the colour and `level` turns a component
/// plus the common amount into a channel byte.
pub fn hsv_to_rgb<K: Fn(u32, u32, u32) -> Chroma, L: Fn(u32, u32) -> u8>(
    h: u32,
    s: u32,
    v: u32,
    chroma: &K,
    level: &L,
) -> (out: RgbColor)
    requires
        convertible(h, s, v),
        call_requires(chroma, (h, s, v)),
        forall|component: u32, m: u32| call_requires(level, (component, m)),
    ensures
        converts(h, s, v, chroma, level, out),
{
    let k: Chroma = chroma(h, s, v);
    if s == 0 || s == BINARY32_NEGATIVE_ZERO {
        let gray: u8 = level(0u32, k.m);
        return RgbColor { r: gray, g: gray, b: gray };
    }
    let (r, g, b): (u32, u32, u32) = match sector(h) {
        0 => (k.c, k.x, 0),
        1 => (k.x, k.c, 0),
        2 => (0, k.c, k.x),
        3 => (0, k.x, k.c),
        4 => (k.x, 0, k.c),
        _ => (k.c, 0, k.x),
    };
    RgbColor { r: level(r, k.m), g: level(g, k.m), b: level(b, k.m) }
}

/// Without saturation the result is a gray: its three channels are equal,
/// whatever the hue and the value.
pub proof fn law_no_saturation_is_gray<K: Fn(u32, u32, u32) -> Chroma, L: Fn(u32, u32) -> u8>(
    h: u32,
    s: u32,
    v: u32,
    chroma: &K,
    level: &L,
    out: RgbColor,
)
    requires
        is_zero(s),
        converts(h, s, v, chroma, level, out),
    ensures
        out.r == out.g,
        out.g == out.b,
{
}

} // verus!
