use mandelbrot::color::{bounded_orbit, interior, map_color, ColorParameters};
use mandelbrot::colorscheme::{Rgba, RgbColor};
use mandelbrot::compute::{compute, compute_partition, merge};
use mandelbrot::field::{EscapePoint, FractalField, Orbit};
use mandelbrot::image::{render, PixelImage};
use mandelbrot::math::{
    hsv_to_rgb, sector, Chroma, BINARY32_120, BINARY32_180, BINARY32_240, BINARY32_300,
    BINARY32_360, BINARY32_60, BINARY32_NEGATIVE_ZERO,
};
use mandelbrot::partition::split_columns;
use mandelbrot::solver::{run_mandelbrot, ComplexBits};
use num::Complex;

fn decode(z: ComplexBits) -> Complex<f64> {
    Complex::new(f64::from_bits(z.re), f64::from_bits(z.im))
}

fn encode(z: Complex<f64>) -> ComplexBits {
    ComplexBits { re: z.re.to_bits(), im: z.im.to_bits() }
}

fn step(z: ComplexBits, c: ComplexBits) -> ComplexBits {
    let z = decode(z);
    encode(z * z + decode(c))
}

fn escaped(z: ComplexBits) -> bool {
    decode(z).norm() > 2.0
}

fn smooth(steps: u32, z: ComplexBits) -> u64 {
    let n = steps.saturating_sub(1) as f64;
    (n + 1.0 - decode(z).norm().ln().ln() / 2.0f64.ln()).to_bits()
}

fn viewport(x: u32, y: u32, width: u32, height: u32) -> ComplexBits {
    encode(Complex::new(
        -2.0 + (x as f64 / width as f64) * 3.0,
        -1.0 + (y as f64 / height as f64) * 2.0,
    ))
}

fn solve(x: u32, y: u32, width: u32, height: u32, max_iterations: u32) -> Orbit {
    run_mandelbrot(max_iterations, viewport(x, y, width, height), &step, &escaped, &smooth)
}

fn chroma(h: u32, s: u32, v: u32) -> Chroma {
    let (h, s, v) = (f32::from_bits(h), f32::from_bits(s) / 100.0, f32::from_bits(v) / 100.0);
    let c = s * v;
    let x = c * (1.0 - f32::abs((h / 60.0 % 2.0) - 1.0));
    let m = v - c;
    Chroma { c: c.to_bits(), x: x.to_bits(), m: m.to_bits() }
}

fn level(component: u32, m: u32) -> u8 {
    ((f32::from_bits(component) + f32::from_bits(m)) * 255.0) as i32 as u8
}

fn hue(orbit: Orbit, hue_modifier: u64) -> u32 {
    let hue = 0.95 + f64::from_bits(hue_modifier) * f64::from_bits(orbit.escape);
    let hue = if hue.is_finite() { hue.rem_euclid(360.0) } else { 0.0 };
    (hue as f32).to_bits()
}

fn reference_hsv(h: f32, s: f32, v: f32) -> RgbColor {
    let s = s / 100.0;
    let v = v / 100.0;
    let c = s * v;
    let x = c * (1.0 - f32::abs((h / 60.0 % 2.0) - 1.0));
    let m = v - c;
    let (r, g, b) = if h >= 0.0 && h < 60.0 {
        (c, x, 0.0)
    } else if h >= 60.0 && h < 120.0 {
        (x, c, 0.0)
    } else if h >= 120.0 && h < 180.0 {
        (0.0, c, x)
    } else if h >= 180.0 && h < 240.0 {
        (0.0, x, c)
    } else if h >= 240.0 && h < 300.0 {
        (x, 0.0, c)
    } else {
        (c, 0.0, x)
    };
    RgbColor {
        r: ((r + m) * 255.0) as i32 as u8,
        g: ((g + m) * 255.0) as i32 as u8,
        b: ((b + m) * 255.0) as i32 as u8,
    }
}

fn shade(orbit: Orbit, p: ColorParameters) -> RgbColor {
    map_color(orbit, u32::MAX, p, &hue, &chroma, &level)
}

fn params(hue_modifier: f64, saturation: f32, value: f32, grayscale: bool) -> ColorParameters {
    ColorParameters {
        hue_modifier: hue_modifier.to_bits(),
        saturation: saturation.to_bits(),
        value: value.to_bits(),
        grayscale,
    }
}

fn escaping(escape: f64) -> Orbit {
    Orbit { escape: escape.to_bits(), z_re: 3.0f64.to_bits(), z_im: 0.0f64.to_bits() }
}

#[test]
fn corner_pixel_escapes_at_once() {
    let field = compute(4, 4, 8, &|x, y| solve(x, y, 4, 4, 50)).unwrap();
    let corner = field.get(0, 0).unwrap();
    assert_eq!(f64::from_bits(corner.z_re), -2.0);
    assert_eq!(f64::from_bits(corner.z_im), -1.0);
    let escape = f64::from_bits(corner.escape);
    assert!((escape - 1.0).abs() <= 0.5, "escape was {}", escape);
    assert!(!interior(&corner, 50));
}

#[test]
fn center_pixel_is_bounded() {
    let field = compute(4, 4, 8, &|x, y| solve(x, y, 4, 4, 50)).unwrap();
    assert_eq!(decode(viewport(2, 2, 4, 4)), Complex::new(-0.5, 0.0));
    let center = field.get(2, 2).unwrap();
    assert_eq!(f64::from_bits(center.escape), 50.0);
    assert!(interior(&center, 50));
}

#[test]
fn origin_is_interior_for_every_limit() {
    let zero = encode(Complex::new(0.0, 0.0));
    for max_iterations in [1u32, 2, 3, 50, 80, 1000] {
        let orbit = run_mandelbrot(max_iterations, zero, &step, &escaped, &smooth);
        assert!(f64::from_bits(orbit.escape) >= max_iterations as f64);
        assert!(interior(&orbit, max_iterations));
        assert_eq!(orbit, bounded_orbit(max_iterations, 0, 0));
        for p in [params(10.0, 90.0, 70.0, false), params(-3.5, 0.0, 100.0, true)] {
            assert_eq!(map_color(orbit, max_iterations, p, &hue, &chroma, &level), RgbColor { r: 0, g: 0, b: 0 });
        }
    }
}

#[test]
fn run_mandelbrot_stops_at_the_limit() {
    let c = encode(Complex::new(-0.5, 0.0));
    let calls = std::cell::Cell::new(0u32);
    let counting = |z: ComplexBits, c: ComplexBits| {
        calls.set(calls.get() + 1);
        step(z, c)
    };
    let orbit = run_mandelbrot(7, c, &counting, &escaped, &smooth);
    assert_eq!(calls.get(), 7);
    assert_eq!(f64::from_bits(orbit.escape), 7.0);
    let none = run_mandelbrot(0, c, &counting, &escaped, &smooth);
    assert_eq!(calls.get(), 7);
    assert_eq!(none, Orbit { escape: 0, z_re: 0, z_im: 0 });
}

#[test]
fn two_passes_are_bit_identical() {
    let a = compute(24, 16, 8, &|x, y| solve(x, y, 24, 16, 80)).unwrap();
    let b = compute(24, 16, 8, &|x, y| solve(x, y, 24, 16, 80)).unwrap();
    assert!(a.is_complete());
    assert_eq!(a, b);
    let other = compute(24, 16, 8, &|x, y| solve(x, y, 24, 16, 81)).unwrap();
    assert_ne!(a, other);
}

#[test]
fn one_four_and_sixteen_partitions_agree() {
    let one = compute(32, 8, 1, &|x, y| solve(x, y, 32, 8, 80)).unwrap();
    for parts in [4u32, 16] {
        let lists: Vec<Vec<EscapePoint>> = split_columns(32, parts)
            .iter()
            .map(|r| compute_partition(*r, 8, &|x, y| solve(x, y, 32, 8, 80)))
            .collect();
        assert_eq!(lists.len(), parts as usize);
        let merged: FractalField = merge(32, 8, &lists).unwrap();
        assert!(merged.is_complete());
        for x in 0..32 {
            for y in 0..8 {
                assert_eq!(merged.get(x, y), one.get(x, y));
            }
        }
    }
}

#[test]
fn recolor_round_trip_reproduces_the_buffer() {
    let field = compute(12, 9, 4, &|x, y| solve(x, y, 12, 9, 50)).unwrap();
    let warm = params(10.0, 90.0, 70.0, false);
    let cool = params(2.5, 40.0, 100.0, true);
    let mut image = PixelImage::new(12, 9).unwrap();
    let first = render(&field, 50, warm, &hue, &chroma, &level).unwrap();
    assert!(image.overwrite(first.clone()));
    let shown = image.as_bytes().clone();
    let second = render(&field, 50, cool, &hue, &chroma, &level).unwrap();
    assert_ne!(first, second);
    assert!(image.overwrite(second));
    assert!(image.overwrite(render(&field, 50, warm, &hue, &chroma, &level).unwrap()));
    assert_eq!(image.as_bytes(), &shown);
    assert_eq!(shown, first);
}

#[test]
fn render_lays_pixels_out_row_by_row() {
    let lists = vec![vec![
        EscapePoint { x: 1, y: 0, orbit: escaping(3.0) },
        EscapePoint { x: 0, y: 1, orbit: bounded_orbit(50, 0, 0) },
        EscapePoint { x: 2, y: 1, orbit: escaping(7.25) },
        EscapePoint { x: 9, y: 9, orbit: escaping(1.0) },
    ]];
    let field = merge(3, 2, &lists).unwrap();
    assert!(!field.is_complete());
    let p = params(10.0, 90.0, 70.0, false);
    let bytes = render(&field, 50, p, &hue, &chroma, &level).unwrap();
    assert_eq!(bytes.len(), 3 * 2 * 4);
    let a = shade(escaping(3.0), p);
    let b = shade(escaping(7.25), p);
    assert_ne!(a, RgbColor { r: 0, g: 0, b: 0 });
    let expected: Vec<u8> = vec![
        0, 0, 0, 255, a.r, a.g, a.b, 255, 0, 0, 0, 255, //
        0, 0, 0, 255, 0, 0, 0, 255, b.r, b.g, b.b, 255,
    ];
    assert_eq!(bytes, expected);
    let mut image = PixelImage::new(3, 2).unwrap();
    assert_eq!(image.pixel(2, 1), Some(Rgba { r: 0, g: 0, b: 0, a: 255 }));
    assert!(!image.overwrite(vec![0; 5]));
    assert!(image.overwrite(bytes));
    assert_eq!(image.pixel(1, 0), Some(Rgba { r: a.r, g: a.g, b: a.b, a: 255 }));
    assert_eq!(image.pixel(2, 1), Some(Rgba { r: b.r, g: b.g, b: b.b, a: 255 }));
    assert_eq!(image.pixel(3, 0), None);
    assert_eq!(image.pixel(0, 2), None);
    assert_eq!((image.width(), image.height()), (3, 2));
}

#[test]
fn hsv_boundaries_give_valid_colors() {
    for h in [0.0f32, 359.999] {
        for s in [0.0f32, 100.0] {
            for v in [0.0f32, 100.0] {
                let c = hsv_to_rgb(h.to_bits(), s.to_bits(), v.to_bits(), &chroma, &level);
                assert_eq!(c, reference_hsv(h, s, v));
                let full = if v == 100.0 { 255 } else { 0 };
                let expected = if s == 0.0 {
                    RgbColor { r: full, g: full, b: full }
                } else {
                    RgbColor { r: full, g: 0, b: 0 }
                };
                assert_eq!(c, expected);
            }
        }
    }
}

#[test]
fn hsv_sectors_follow_the_wheel() {
    assert_eq!(
        [BINARY32_60, BINARY32_120, BINARY32_180, BINARY32_240, BINARY32_300, BINARY32_360],
        [60.0f32, 120.0, 180.0, 240.0, 300.0, 360.0].map(f32::to_bits)
    );
    assert_eq!(BINARY32_NEGATIVE_ZERO, (-0.0f32).to_bits());
    for (h, expected) in [
        (0.0f32, 0u8),
        (-0.0, 0),
        (59.999, 0),
        (60.0, 1),
        (119.99, 1),
        (120.0, 2),
        (180.0, 3),
        (239.9, 3),
        (240.0, 4),
        (300.0, 5),
        (359.999, 5),
        (360.0, 5),
    ] {
        assert_eq!(sector(h.to_bits()), expected, "hue {}", h);
    }
    let pure = |h: f32| hsv_to_rgb(h.to_bits(), 100.0f32.to_bits(), 100.0f32.to_bits(), &chroma, &level);
    assert_eq!(pure(0.0), RgbColor { r: 255, g: 0, b: 0 });
    assert_eq!(pure(60.0), RgbColor { r: 255, g: 255, b: 0 });
    assert_eq!(pure(120.0), RgbColor { r: 0, g: 255, b: 0 });
    assert_eq!(pure(180.0), RgbColor { r: 0, g: 255, b: 255 });
    assert_eq!(pure(240.0), RgbColor { r: 0, g: 0, b: 255 });
    assert_eq!(pure(300.0), RgbColor { r: 255, g: 0, b: 255 });
    assert_eq!(pure(360.0), RgbColor { r: 255, g: 0, b: 0 });
    for step in 0..=7200u32 {
        let h = step as f32 * 0.05;
        for (s, v) in [(90.0f32, 70.0f32), (100.0, 100.0), (33.3, 12.5), (0.0, 70.0), (-0.0, 40.0)] {
            let c = hsv_to_rgb(h.to_bits(), s.to_bits(), v.to_bits(), &chroma, &level);
            assert_eq!(c, reference_hsv(h, s, v), "h {} s {} v {}", h, s, v);
        }
    }
}

#[test]
fn grayscale_gives_equal_channels() {
    for escape in [0.5f64, 1.31, 7.25, 33.0, 49.9] {
        for (s, v) in [(0.0f32, 0.0f32), (100.0, 100.0), (55.5, 70.0), (250.0, 45.0)] {
            let c = map_color(escaping(escape), 50, params(10.0, s, v, true), &hue, &chroma, &level);
            assert_eq!((c.r, c.g), (c.g, c.b));
            let level = (v.clamp(0.0, 100.0) / 100.0 * 255.0) as u8;
            assert_eq!(c, RgbColor { r: level, g: level, b: level });
        }
    }
}

#[test]
fn map_color_wraps_and_clamps_what_is_converted() {
    let seen = std::cell::Cell::new(None);
    let spy = |h: u32, s: u32, v: u32| {
        seen.set(Some((f32::from_bits(h), f32::from_bits(s), f32::from_bits(v))));
        chroma(h, s, v)
    };
    // hue = 0.95 + 4 * 2
    map_color(escaping(2.0), 50, params(4.0, 250.0, -3.0, false), &hue, &spy, &level);
    assert_eq!(seen.get(), Some((8.95, 100.0, 0.0)));
    map_color(escaping(2.0), 50, params(4.0, 55.5, f32::NAN, true), &hue, &spy, &level);
    assert_eq!(seen.get(), Some((8.95, 0.0, 0.0)));
    // hue = 0.95 + 100 * 49 = 4900.95, which is 220.95 on the wheel
    map_color(escaping(49.0), 50, params(100.0, 10.0, 20.0, false), &hue, &spy, &level);
    let (h, s, v) = seen.get().unwrap();
    assert!((h - 220.95).abs() < 0.001 && s == 10.0 && v == 20.0);
    for raw in [360.0f32, 400.0, -1.0, f32::INFINITY, f32::NAN] {
        let unwrapped = |_: Orbit, _: u64| raw.to_bits();
        map_color(escaping(2.0), 50, params(4.0, 10.0, 20.0, false), &unwrapped, &spy, &level);
        assert_eq!(seen.get(), Some((0.0, 10.0, 20.0)));
    }
    seen.set(None);
    let out = map_color(escaping(50.0), 50, params(4.0, 55.5, 10.0, false), &hue, &spy, &level);
    assert_eq!(out, RgbColor { r: 0, g: 0, b: 0 });
    assert_eq!(seen.get(), None);
}
