//! Colours of the control overlay.

use vstd::prelude::*;

verus! {

/// An opaque colour in red, green and blue.
#[derive(Clone, Copy, Debug, PartialEq, Eq, Structural)]
pub struct RgbColor {
    pub r: u8,
    pub g: u8,
    pub b: u8,
}

/// A colour with its opacity, one byte per channel, as a renderer takes it.
#[derive(Clone, Copy, Debug, PartialEq, Eq, Structural)]
pub struct Rgba {
    pub r: u8,
    pub g: u8,
    pub b: u8,
    pub a: u8,
}

/// The roles a colour can play in the overlay.
#[derive(Clone, Copy, Debug, PartialEq, Eq, Structural)]
pub enum ColorSchemeNames {
    Outline,
    Fill,
    Text,
    Hover,
    Selected,
}

/// One colour per role, and the opacity all of them are drawn with.
#[derive(Clone, Copy, Debug, PartialEq, Eq, Structural)]
pub struct Colorscheme {
    pub outline: RgbColor,
    pub fill: RgbColor,
    pub text: RgbColor,
    pub hover: RgbColor,
    pub selected: RgbColor,
    pub opaqueness: u8,
}

impl RgbColor {
    /// Builds a colour; the arguments come in the order red, blue, green.
    pub fn new(r: u8, b: u8, g: u8) -> (color: Self)
        ensures
            color == (RgbColor { r, g, b }),
    {
        RgbColor { r, g, b }
    }

    /// The same colour drawn with opacity `a`.
    pub fn with_alpha(self, a: u8) -> (out: Rgba)
        ensures
            out == (Rgba { r: self.r, g: self.g, b: self.b, a }),
    {
        Rgba { r: self.r, g: self.g, b: self.b, a }
    }
}

impl Colorscheme {
    /// The colours of the built-in scheme.
    pub open spec fn builtin(opaqueness: u8) -> Colorscheme {
        Colorscheme {
            outline: RgbColor { r: 33, g: 32, b: 31 },
            fill: RgbColor { r: 79, g: 77, b: 75 },
            text: RgbColor { r: 255, g: 255, b: 255 },
            hover: RgbColor { r: 28, g: 20, b: 13 },
            selected: RgbColor { r: 12, g: 9, b: 5 },
            opaqueness,
        }
    }

    /// The colour that plays the role `name`.
    pub open spec fn color_of(self, name: ColorSchemeNames) -> RgbColor {
        match name {
            ColorSchemeNames::Outline => self.outline,
            ColorSchemeNames::Fill => self.fill,
            ColorSchemeNames::Text => self.text,
            ColorSchemeNames::Hover => self.hover,
            ColorSchemeNames::Selected => self.selected,
        }
    }

    /// Every scheme name selects the built-in colours; only the opacity
    /// is the caller's.
    pub fn new(scheme: &str, opaqueness: u8) -> (out: Self)
        ensures
            out == Self::builtin(opaqueness),
    {
        let outline = RgbColor::new(33, 31, 32);
        let fill = RgbColor::new(79, 75, 77);
        let text = RgbColor::new(255, 255, 255);
        let hover = RgbColor::new(28, 13, 20);
        let selected = RgbColor::new(12, 5, 9);
        Colorscheme { outline, fill, text, hover, selected, opaqueness }
    }

    /// The colour of a role with the scheme's opacity, ready for drawing.
    pub fn sfml_color(&self, color: ColorSchemeNames) -> (out: Rgba)
        ensures
            out == (Rgba {
                r: self.color_of(color).r,
                g: self.color_of(color).g,
                b: self.color_of(color).b,
                a: self.opaqueness,
            }),
    {
        match color {
            ColorSchemeNames::Outline => self.outline.with_alpha(self.opaqueness),
            ColorSchemeNames::Fill => self.fill.with_alpha(self.opaqueness),
            ColorSchemeNames::Text => self.text.with_alpha(self.opaqueness),
            ColorSchemeNames::Hover => self.hover.with_alpha(self.opaqueness),
            ColorSchemeNames::Selected => self.selected.with_alpha(self.opaqueness),
        }
    }
}

} // verus!
