//! The RGBA buffer that is shown, and the rendering of a field into one.

use vstd::prelude::*;
use crate::color::{background_color, colors, is_interior, map_color, wrapped, ColorParameters};
use crate::colorscheme::{Rgba, RgbColor};
use crate::field::{cell_index, in_grid, lemma_cell_index, FieldView, FractalField, Orbit};
use crate::math::{arranged, converts, is_zero, sector_of, Chroma};

verus! {

/// The colour that `bytes`, a row-major RGBA buffer `width` wide, holds
/// for pixel `(x, y)`.
pub open spec fn pixel_of(bytes: Seq<u8>, width: int, x: int, y: int) -> Rgba {
    quad(bytes, cell_index(width, x, y))
}

/// The colour that the four bytes of place `i` of an RGBA buffer make.
pub open spec fn quad(bytes: Seq<u8>, i: int) -> Rgba {
    Rgba { r: bytes[4 * i], g: bytes[4 * i + 1], b: bytes[4 * i + 2], a: bytes[4 * i + 3] }
}

/// The red, green and blue of a colour, without its opacity.
pub open spec fn opaque_part(c: Rgba) -> RgbColor {
    RgbColor { r: c.r, g: c.g, b: c.b }
}

/// `bytes` is a rendering of `field`: four bytes per pixel, row by row,
/// every pixel opaque and in a colour that the colour mapper can give it.
pub open spec fn painted_by<
    H: Fn(Orbit, u64) -> u32,
    K: Fn(u32, u32, u32) -> Chroma,
    L: Fn(u32, u32) -> u8,
>(
    bytes: Seq<u8>,
    field: FieldView,
    max_iterations: u32,
    params: ColorParameters,
    hue: &H,
    chroma: &K,
    level: &L,
) -> bool {
    &&& bytes.len() == 4 * (field.width * field.height)
    &&& forall|x: int, y: int|
        in_grid(field.width, field.height, x, y) ==> {
            let c = #[trigger] pixel_of(bytes, field.width, x, y);
            &&& c.a == 255
            &&& colors(field.at(x, y), max_iterations, params, hue, chroma, level, opaque_part(c))
        }
}

/// Renders a field into a fresh RGBA buffer. Returns `None` when a buffer
/// of that size cannot be addressed on this machine.
pub fn render<H: Fn(Orbit, u64) -> u32, K: Fn(u32, u32, u32) -> Chroma, L: Fn(u32, u32) -> u8>(
    field: &FractalField,
    max_iterations: u32,
    params: ColorParameters,
    hue: &H,
    chroma: &K,
    level: &L,
) -> (out: Option<Vec<u8>>)
    requires
        forall|orbit: Orbit| call_requires(hue, (orbit, params.hue_modifier)),
        forall|h: u32, s: u32, v: u32| call_requires(chroma, (h, s, v)),
        forall|component: u32, m: u32| call_requires(level, (component, m)),
    ensures
        out is Some <==> 4 * (field@.width * field@.height) <= usize::MAX,
        out is Some ==> painted_by(
            out->Some_0@,
            field@,
            max_iterations,
            params,
            hue,
            chroma,
            level,
        ),
{
    let width: u32 = field.width();
    let height: u32 = field.height();
    proof {
        field.lemma_cells_in_grid();
        assert(width * height <= 0xffff_ffff * 0xffff_ffff) by (nonlinear_arith)
            requires
                0 <= width <= 0xffff_ffff,
                0 <= height <= 0xffff_ffff,
        ;
    }
    let total: u64 = (width as u64) * (height as u64);
    if total > (usize::MAX / 4) as u64 {
        return None;
    }
    let n: usize = total as usize;
    let mut out: Vec<u8> = Vec::new();
    let mut i: usize = 0;
    while i < n
        invariant
            i <= n,
            n == width * height,
            field@.width == width,
            field@.height == height,
            forall|orbit: Orbit| call_requires(hue, (orbit, params.hue_modifier)),
            forall|h: u32, s: u32, v: u32| call_requires(chroma, (h, s, v)),
            forall|component: u32, m: u32| call_requires(level, (component, m)),
            out@.len() == 4 * i,
            forall|j: int|
                0 <= j < i ==> {
                    let c = #[trigger] quad(out@, j);
                    &&& c.a == 255
                    &&& colors(
                        field@.at(j % (width as int), j / (width as int)),
                        max_iterations,
                        params,
                        hue,
                        chroma,
                        level,
                        opaque_part(c),
                    )
                },
        decreases n - i,
    {
        let cell: Option<Orbit> = field.cell(i);
        let color: RgbColor = match cell {
            Some(orbit) => map_color(orbit, max_iterations, params, hue, chroma, level),
            None => background_color(),
        };
        assert(colors(cell, max_iterations, params, hue, chroma, level, color));
        let ghost before = out@;
        out.push(color.r);
        out.push(color.g);
        out.push(color.b);
        out.push(255);
        proof {
            assert(opaque_part(quad(out@, i as int)) == color);
            assert forall|j: int| 0 <= j < i implies #[trigger] quad(out@, j) == quad(
                before,
                j,
            ) by {
                assert(out@[4 * j] == before[4 * j]);
                assert(out@[4 * j + 1] == before[4 * j + 1]);
                assert(out@[4 * j + 2] == before[4 * j + 2]);
                assert(out@[4 * j + 3] == before[4 * j + 3]);
            }
        }
        i = i + 1;
    }
    proof {
        assert forall|x: int, y: int| in_grid(field@.width, field@.height, x, y) implies {
            let c = #[trigger] pixel_of(out@, field@.width, x, y);
            &&& c.a == 255
            &&& colors(field@.at(x, y), max_iterations, params, hue, chroma, level, opaque_part(c))
        } by {
            lemma_cell_index(width as int, height as int, x, y);
            assert(pixel_of(out@, field@.width, x, y) == quad(
                out@,
                cell_index(width as int, x, y),
            ));
        }
    }
    Some(out)
}

/// Each of the three functions returns one value for each input:
/// whatever it can return, it returns every time.
pub open spec fn shades_alike<
    H: Fn(Orbit, u64) -> u32,
    K: Fn(u32, u32, u32) -> Chroma,
    L: Fn(u32, u32) -> u8,
>(hue: &H, chroma: &K, level: &L) -> bool {
    &&& forall|orbit: Orbit, modifier: u64, h1: u32, h2: u32|
        #![trigger call_ensures(hue, (orbit, modifier), h1), call_ensures(hue, (orbit, modifier), h2)]
        call_ensures(hue, (orbit, modifier), h1) && call_ensures(hue, (orbit, modifier), h2) ==> h1
            == h2
    &&& forall|h: u32, s: u32, v: u32, k1: Chroma, k2: Chroma|
        #![trigger call_ensures(chroma, (h, s, v), k1), call_ensures(chroma, (h, s, v), k2)]
        call_ensures(chroma, (h, s, v), k1) && call_ensures(chroma, (h, s, v), k2) ==> k1 == k2
    &&& forall|component: u32, m: u32, l1: u8, l2: u8|
        #![trigger call_ensures(level, (component, m), l1), call_ensures(level, (component, m), l2)]
        call_ensures(level, (component, m), l1) && call_ensures(level, (component, m), l2) ==> l1
            == l2
}

/// With functions that return one value per input, a pixel has one
/// colour.
pub proof fn lemma_one_color<
    H: Fn(Orbit, u64) -> u32,
    K: Fn(u32, u32, u32) -> Chroma,
    L: Fn(u32, u32) -> u8,
>(
    cell: Option<Orbit>,
    max_iterations: u32,
    params: ColorParameters,
    hue: &H,
    chroma: &K,
    level: &L,
    c1: RgbColor,
    c2: RgbColor,
)
    requires
        shades_alike(hue, chroma, level),
        colors(cell, max_iterations, params, hue, chroma, level, c1),
        colors(cell, max_iterations, params, hue, chroma, level, c2),
    ensures
        c1 == c2,
{
    if cell is Some && !is_interior(cell->Some_0, max_iterations) {
        let orbit = cell->Some_0;
        let s = params.effective().saturation;
        let v = params.effective().value;
        let raw1 = choose|raw: u32| #[trigger]
            call_ensures(hue, (orbit, params.hue_modifier), raw) && converts(
                wrapped(raw),
                s,
                v,
                chroma,
                level,
                c1,
            );
        let raw2 = choose|raw: u32| #[trigger]
            call_ensures(hue, (orbit, params.hue_modifier), raw) && converts(
                wrapped(raw),
                s,
                v,
                chroma,
                level,
                c2,
            );
        assert(raw1 == raw2);
        let h = wrapped(raw1);
        let k1 = choose|k: Chroma| #[trigger]
            call_ensures(chroma, (h, s, v), k) && if is_zero(s) {
                &&& call_ensures(level, (0u32, k.m), c1.r)
                &&& c1.g == c1.r
                &&& c1.b == c1.r
            } else {
                &&& call_ensures(level, (arranged(sector_of(h), k).0, k.m), c1.r)
                &&& call_ensures(level, (arranged(sector_of(h), k).1, k.m), c1.g)
                &&& call_ensures(level, (arranged(sector_of(h), k).2, k.m), c1.b)
            };
        let k2 = choose|k: Chroma| #[trigger]
            call_ensures(chroma, (h, s, v), k) && if is_zero(s) {
                &&& call_ensures(level, (0u32, k.m), c2.r)
                &&& c2.g == c2.r
                &&& c2.b == c2.r
            } else {
                &&& call_ensures(level, (arranged(sector_of(h), k).0, k.m), c2.r)
                &&& call_ensures(level, (arranged(sector_of(h), k).1, k.m), c2.g)
                &&& call_ensures(level, (arranged(sector_of(h), k).2, k.m), c2.b)
            };
        assert(k1 == k2);
    }
}

/// Recolouring is a function of the field and the parameters alone: two
/// renderings of one field with the same parameters, by functions that
/// return one value per input, are the same buffer, whatever was rendered
/// in between.
pub proof fn law_recolor_reproduces<
    H: Fn(Orbit, u64) -> u32,
    K: Fn(u32, u32, u32) -> Chroma,
    L: Fn(u32, u32) -> u8,
>(
    field: FieldView,
    max_iterations: u32,
    params: ColorParameters,
    hue: &H,
    chroma: &K,
    level: &L,
    first: Seq<u8>,
    again: Seq<u8>,
)
    requires
        0 <= field.width,
        0 <= field.height,
        shades_alike(hue, chroma, level),
        painted_by(first, field, max_iterations, params, hue, chroma, level),
        painted_by(again, field, max_iterations, params, hue, chroma, level),
    ensures
        first == again,
{
    let w = field.width;
    let h = field.height;
    assert forall|i: int| 0 <= i < first.len() implies first[i] == again[i] by {
        let j = i / 4;
        assert(0 <= j < w * h && 0 <= i - 4 * j < 4) by (nonlinear_arith)
            requires
                0 <= i < 4 * (w * h),
                j == i / 4,
        ;
        assert(w > 0) by (nonlinear_arith)
            requires
                0 <= w,
                0 <= j < w * h,
        ;
        let x = j % w;
        let y = j / w;
        vstd::arithmetic::div_mod::lemma_fundamental_div_mod(j, w);
        vstd::arithmetic::div_mod::lemma_mod_bound(j, w);
        assert(0 <= y < h) by (nonlinear_arith)
            requires
                0 <= j < w * h,
                w > 0,
                j == w * y + x,
                0 <= x < w,
        ;
        assert(cell_index(w, x, y) == j) by (nonlinear_arith)
            requires
                j == w * y + x,
                cell_index(w, x, y) == y * w + x,
        ;
        let a = pixel_of(first, w, x, y);
        let b = pixel_of(again, w, x, y);
        lemma_one_color(
            field.at(x, y),
            max_iterations,
            params,
            hue,
            chroma,
            level,
            opaque_part(a),
            opaque_part(b),
        );
        assert(a == b);
    }
    assert(first =~= again);
}

/// The mathematical content of an image: its size and its bytes, four
/// per pixel in the order red, green, blue, opacity, row by row.
pub struct ImageView {
    pub width: int,
    pub height: int,
    pub bytes: Seq<u8>,
}

impl ImageView {
    /// The image after a finished buffer was handed over: a buffer of the
    /// image's size replaces the bytes, any other is refused.
    pub open spec fn overwritten(self, buffer: Seq<u8>) -> ImageView {
        if buffer.len() == self.bytes.len() {
            ImageView { bytes: buffer, ..self }
        } else {
            self
        }
    }
}

/// The RGBA buffer that the display shows.
#[derive(Debug, PartialEq, Eq)]
pub struct PixelImage {
    width: u32,
    height: u32,
    bytes: Vec<u8>,
}

impl View for PixelImage {
    type V = ImageView;

    closed spec fn view(&self) -> ImageView {
        ImageView { width: self.width as int, height: self.height as int, bytes: self.bytes@ }
    }
}

impl PixelImage {
    /// The buffer holds four bytes for each pixel.
    #[verifier::type_invariant]
    spec fn wf(&self) -> bool {
        self.bytes@.len() == 4 * (self.width * self.height)
    }

    /// An image of the given size, every pixel opaque black, or `None`
    /// when a buffer of that size cannot be addressed on this machine.
    pub fn new(width: u32, height: u32) -> (out: Option<PixelImage>)
        ensures
            out is Some <==> 4 * (width * height) <= usize::MAX,
            out is Some ==> {
                &&& out->Some_0@.width == width
                &&& out->Some_0@.height == height
                &&& forall|i: int|
                    0 <= i < width * height ==> #[trigger] quad(out->Some_0@.bytes, i) == (Rgba {
                        r: 0,
                        g: 0,
                        b: 0,
                        a: 255,
                    })
            },
    {
        assert(width * height <= 0xffff_ffff * 0xffff_ffff) by (nonlinear_arith)
            requires
                0 <= width <= 0xffff_ffff,
                0 <= height <= 0xffff_ffff,
        ;
        let total: u64 = (width as u64) * (height as u64);
        if total > (usize::MAX / 4) as u64 {
            return None;
        }
        let n: usize = total as usize;
        let mut bytes: Vec<u8> = Vec::new();
        let mut i: usize = 0;
        while i < n
            invariant
                i <= n,
                bytes@.len() == 4 * i,
                forall|j: int|
                    0 <= j < i ==> #[trigger] quad(bytes@, j) == (Rgba { r: 0, g: 0, b: 0, a: 255 }),
            decreases n - i,
        {
            let ghost before = bytes@;
            bytes.push(0);
            bytes.push(0);
            bytes.push(0);
            bytes.push(255);
            proof {
                assert forall|j: int| 0 <= j < i implies #[trigger] quad(bytes@, j) == quad(
                    before,
                    j,
                ) by {
                    assert(bytes@[4 * j] == before[4 * j]);
                    assert(bytes@[4 * j + 1] == before[4 * j + 1]);
                    assert(bytes@[4 * j + 2] == before[4 * j + 2]);
                    assert(bytes@[4 * j + 3] == before[4 * j + 3]);
                }
            }
            i = i + 1;
        }
        Some(PixelImage { width, height, bytes })
    }

    /// The number of columns.
    pub fn width(&self) -> (w: u32)
        ensures
            w == self@.width,
    {
        self.width
    }

    /// The number of rows.
    pub fn height(&self) -> (h: u32)
        ensures
            h == self@.height,
    {
        self.height
    }

    /// The bytes, for upload to the display: four for each pixel.
    pub fn as_bytes(&self) -> (out: &Vec<u8>)
        ensures
            out@ == self@.bytes,
            out@.len() == 4 * (self@.width * self@.height),
    {
        proof {
            use_type_invariant(self);
        }
        &self.bytes
    }

    /// Hands over the buffer of a finished recolour job. A buffer of the
    /// image's size replaces every pixel; any other is refused and the
    /// image stays as it was. Returns whether the buffer was taken.
    pub fn overwrite(&mut self, buffer: Vec<u8>) -> (taken: bool)
        ensures
            final(self)@ == old(self)@.overwritten(buffer@),
            taken == (buffer@.len() == old(self)@.bytes.len()),
    {
        proof {
            use_type_invariant(&*self);
        }
        if buffer.len() == self.bytes.len() {
            self.bytes = buffer;
            true
        } else {
            false
        }
    }

    /// The colour of pixel `(x, y)`, or `None` outside the image.
    pub fn pixel(&self, x: u32, y: u32) -> (out: Option<Rgba>)
        ensures
            out is Some <==> in_grid(self@.width, self@.height, x as int, y as int),
            out is Some ==> out->Some_0 == pixel_of(self@.bytes, self@.width, x as int, y as int),
    {
        if x < self.width && y < self.height {
            let n: usize = self.bytes.len();
            proof {
                use_type_invariant(self);
                lemma_cell_index(self.width as int, self.height as int, x as int, y as int);
                assert(0 <= y * self.width <= y * self.width + x) by (nonlinear_arith)
                    requires
                        0 <= y,
                        0 <= self.width,
                        0 <= x,
                ;
            }
            let i: usize = 4 * ((y as usize) * (self.width as usize) + (x as usize));
            Some(
                Rgba {
                    r: self.bytes[i],
                    g: self.bytes[i + 1],
                    b: self.bytes[i + 2],
                    a: self.bytes[i + 3],
                },
            )
        } else {
            None
        }
    }
}

/// Recolouring with one set of parameters, then another, then the first
/// again shows what the first pass showed: each finished buffer replaces
/// the whole image, and equal passes make equal buffers.
pub proof fn law_recolor_round_trip<
    H: Fn(Orbit, u64) -> u32,
    K: Fn(u32, u32, u32) -> Chroma,
    L: Fn(u32, u32) -> u8,
>(
    image: ImageView,
    field: FieldView,
    max_iterations: u32,
    warm: ColorParameters,
    cool: ColorParameters,
    hue: &H,
    chroma: &K,
    level: &L,
    first: Seq<u8>,
    second: Seq<u8>,
    third: Seq<u8>,
)
    requires
        0 <= field.width,
        0 <= field.height,
        image.bytes.len() == 4 * (field.width * field.height),
        shades_alike(hue, chroma, level),
        painted_by(first, field, max_iterations, warm, hue, chroma, level),
        painted_by(second, field, max_iterations, cool, hue, chroma, level),
        painted_by(third, field, max_iterations, warm, hue, chroma, level),
    ensures
        image.overwritten(first).overwritten(second).overwritten(third) == image.overwritten(
            first,
        ),
{
    law_recolor_reproduces(field, max_iterations, warm, hue, chroma, level, first, third);
}

} // verus!
