use mandelbrot::color::ColorParameters;
use mandelbrot::compute::{compute_partition, merge};
use mandelbrot::field::{EscapePoint, FractalField, Orbit};
use mandelbrot::image::{render, PixelImage};
use mandelbrot::math::Chroma;
use mandelbrot::partition::split_columns;
use mandelbrot::recolor::RecolorJob;
use std::sync::Arc;

fn tagged(x: u32, y: u32) -> Orbit {
    Orbit { escape: (x as u64) << 32 | y as u64, z_re: x as u64 * 3, z_im: y as u64 * 5 }
}

fn hue(orbit: Orbit, hue_modifier: u64) -> u32 {
    (orbit.z_re + hue_modifier) as u32
}

fn chroma(h: u32, s: u32, v: u32) -> Chroma {
    Chroma { c: h, x: s, m: v }
}

fn level(component: u32, m: u32) -> u8 {
    (component + m) as u8
}

fn crosses_threads<T: Send + Sync + 'static>() {}

#[test]
fn engine_values_can_cross_threads() {
    crosses_threads::<FractalField>();
    crosses_threads::<PixelImage>();
    crosses_threads::<Vec<EscapePoint>>();
    crosses_threads::<RecolorJob>();
    crosses_threads::<ColorParameters>();
}

#[test]
fn a_shared_field_renders_like_an_owned_one() {
    let lists: Vec<Vec<EscapePoint>> =
        split_columns(6, 3).into_iter().map(|r| compute_partition(r, 4, &tagged)).collect();
    let field = Arc::new(merge(6, 4, &lists).unwrap());
    let params = ColorParameters { hue_modifier: 9, saturation: 2, value: 1, grayscale: false };
    let shared = Arc::clone(&field);
    let bytes = render(&shared, u32::MAX, params, &hue, &chroma, &level).unwrap();
    assert_eq!(bytes, render(&field, u32::MAX, params, &hue, &chroma, &level).unwrap());
    // pixel (5, 2): hue 5 * 3 + 9 = 24 in the first sixth, so (c, x, 0) + m
    assert_eq!(&bytes[4 * (2 * 6 + 5)..4 * (2 * 6 + 5) + 4], &[25, 3, 1, 255]);
}
