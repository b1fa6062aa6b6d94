//! The colour mapper: which pixels get the background, and with which
//! hue, saturation and value the others are coloured.
//!
//! Real numbers are carried as IEEE-754 encodings: `hue_modifier` as
//! binary64, `saturation`, `value` and hues as binary32. The arithmetic
//! that derives a hue from escape data is the caller's.

use vstd::prelude::*;
use crate::colorscheme::RgbColor;
use crate::encoding::{
    at_least, binary64_of_count, clamp_percent, clamped_percent, encode_count,
    lemma_count_reaches_itself, reaches, BINARY32_HUNDRED,
};
use crate::field::Orbit;
use crate::math::{converts, hsv_to_rgb, is_zero, Chroma, BINARY32_360};

verus! {

/// How escape data is turned into colours. A plain value: two parameter
/// sets are the same when their fields are.
#[derive(Clone, Copy, Debug, PartialEq, Eq, Structural)]
pub struct ColorParameters {
    pub hue_modifier: u64,
    pub saturation: u32,
    pub value: u32,
    pub grayscale: bool,
}

/// The colour of every pixel whose orbit stayed bounded: black.
pub open spec fn background() -> RgbColor {
    RgbColor { r: 0, g: 0, b: 0 }
}

/// Whether an orbit counts as bounded under the iteration limit: its
/// escape count is at least the limit.
pub open spec fn is_interior(orbit: Orbit, max_iterations: u32) -> bool {
    at_least(orbit.escape, max_iterations)
}

impl ColorParameters {
    /// Saturation and value lie between 0 and 100, and grayscale comes
    /// with no saturation.
    pub open spec fn in_range(self) -> bool {
        &&& self.saturation <= BINARY32_HUNDRED
        &&& self.value <= BINARY32_HUNDRED
        &&& self.grayscale ==> self.saturation == 0
    }

    /// The parameters that are shaded with: saturation and value clamped
    /// to the range from 0 to 100, and no saturation at all in grayscale.
    pub open spec fn effective(self) -> ColorParameters {
        ColorParameters {
            hue_modifier: self.hue_modifier,
            saturation: if self.grayscale {
                0
            } else {
                clamped_percent(self.saturation)
            },
            value: clamped_percent(self.value),
            grayscale: self.grayscale,
        }
    }

    /// Brings the parameters into range.
    pub fn normalized(&self) -> (out: ColorParameters)
        ensures
            out == self.effective(),
            out.in_range(),
    {
        let saturation: u32 = if self.grayscale {
            0
        } else {
            clamp_percent(self.saturation)
        };
        ColorParameters {
            hue_modifier: self.hue_modifier,
            saturation,
            value: clamp_percent(self.value),
            grayscale: self.grayscale,
        }
    }
}

/// The hue that is converted when the hue function returned `raw`: a hue
/// from 0 up to, but not including, 360 degrees is taken as it is, and
/// anything else counts as 0.
pub open spec fn wrapped(raw: u32) -> u32 {
    if raw < BINARY32_360 {
        raw
    } else {
        0
    }
}

/// `color` is a colour of the pixel that holds `cell`: the background
/// where the pixel holds nothing or a bounded orbit, and otherwise the
/// conversion of a hue that `hue` can return for the orbit and the hue
/// modifier, with the effective saturation and value.
pub open spec fn colors<
    H: Fn(Orbit, u64) -> u32,
    K: Fn(u32, u32, u32) -> Chroma,
    L: Fn(u32, u32) -> u8,
>(
    cell: Option<Orbit>,
    max_iterations: u32,
    params: ColorParameters,
    hue: &H,
    chroma: &K,
    level: &L,
    color: RgbColor,
) -> bool {
    match cell {
        None => color == background(),
        Some(orbit) => if is_interior(orbit, max_iterations) {
            color == background()
        } else {
            exists|raw: u32|
                {
                    &&& #[trigger] call_ensures(hue, (orbit, params.hue_modifier), raw)
                    &&& converts(
                        wrapped(raw),
                        params.effective().saturation,
                        params.effective().value,
                        chroma,
                        level,
                        color,
                    )
                }
        },
    }
}

/// The orbit of a point that did not escape within `max_iterations`
/// steps and ended at the iterate `(z_re, z_im)`: its escape count is the
/// limit itself, which marks it as bounded.
pub fn bounded_orbit(max_iterations: u32, z_re: u64, z_im: u64) -> (out: Orbit)
    ensures
        out == (Orbit { escape: binary64_of_count(max_iterations as nat) as u64, z_re, z_im }),
        is_interior(out, max_iterations),
{
    proof {
        lemma_count_reaches_itself(max_iterations);
    }
    Orbit { escape: encode_count(max_iterations), z_re, z_im }
}

/// Whether an orbit counts as bounded under the iteration limit.
pub fn interior(orbit: &Orbit, max_iterations: u32) -> (out: bool)
    ensures
        out == is_interior(*orbit, max_iterations),
{
    reaches(orbit.escape, max_iterations)
}

/// The background colour.
pub fn background_color() -> (out: RgbColor)
    ensures
        out == background(),
{
    RgbColor { r: 0, g: 0, b: 0 }
}

/// Maps escape data to a colour. A bounded orbit gets the background and
/// no function is asked; any other gets the conversion of its hue, with
/// saturation and value brought into range and no saturation in
/// grayscale.
pub fn map_color<H: Fn(Orbit, u64) -> u32, K: Fn(u32, u32, u32) -> Chroma, L: Fn(u32, u32) -> u8>(
    orbit: Orbit,
    max_iterations: u32,
    params: ColorParameters,
    hue: &H,
    chroma: &K,
    level: &L,
) -> (out: RgbColor)
    requires
        call_requires(hue, (orbit, params.hue_modifier)),
        forall|h: u32, s: u32, v: u32| call_requires(chroma, (h, s, v)),
        forall|component: u32, m: u32| call_requires(level, (component, m)),
    ensures
        colors(Some(orbit), max_iterations, params, hue, chroma, level, out),
{
    if interior(&orbit, max_iterations) {
        return background_color();
    }
    let raw: u32 = hue(orbit, params.hue_modifier);
    let h: u32 = if raw < BINARY32_360 {
        raw
    } else {
        0
    };
    let effective: ColorParameters = params.normalized();
    hsv_to_rgb(h, effective.saturation, effective.value, chroma, level)
}

/// A bounded orbit is coloured with the background whatever the
/// parameters are.
pub proof fn law_interior_ignores_parameters<
    H: Fn(Orbit, u64) -> u32,
    K: Fn(u32, u32, u32) -> Chroma,
    L: Fn(u32, u32) -> u8,
>(
    orbit: Orbit,
    max_iterations: u32,
    params: ColorParameters,
    hue: &H,
    chroma: &K,
    level: &L,
    color: RgbColor,
)
    requires
        is_interior(orbit, max_iterations),
        colors(Some(orbit), max_iterations, params, hue, chroma, level, color),
    ensures
        color == background(),
{
}

/// In grayscale every pixel is a gray, whatever saturation was asked
/// for: its three channels are equal.
pub proof fn law_grayscale_is_gray<
    H: Fn(Orbit, u64) -> u32,
    K: Fn(u32, u32, u32) -> Chroma,
    L: Fn(u32, u32) -> u8,
>(
    cell: Option<Orbit>,
    max_iterations: u32,
    params: ColorParameters,
    hue: &H,
    chroma: &K,
    level: &L,
    color: RgbColor,
)
    requires
        params.grayscale,
        colors(cell, max_iterations, params, hue, chroma, level, color),
    ensures
        params.effective().saturation == 0,
        color.r == color.g,
        color.g == color.b,
{
}

} // verus!
