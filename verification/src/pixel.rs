//! Conversions of single samples to RGB.

use vstd::prelude::*;
use crate::blend::BlendMode;
use crate::image::Rgba;

verus! {

/// `255 - x`: the complement of a byte.
pub open spec fn inverted(x: u8) -> u8 {
    (255 - x) as u8
}

/// One channel of a CMYK colour as seen through black: `255 - min(255, ink + key)`.
pub open spec fn darkened(ink: u8, key: u8) -> u8 {
    if ink + key >= 255 {
        0u8
    } else {
        (255 - (ink + key)) as u8
    }
}

/// The RGB triple for the RGB sample `(r, g, b)`. Under `Darken` every
/// channel is complemented.
pub open spec fn rgb_rgb(r: u8, g: u8, b: u8, mode: BlendMode) -> (u8, u8, u8) {
    match mode {
        BlendMode::Overlay => (r, g, b),
        BlendMode::Darken => (inverted(r), inverted(g), inverted(b)),
    }
}

/// The pixel for the RGB sample `(r, g, b)` with alpha `a`.
pub open spec fn rgb_pixel(r: u8, g: u8, b: u8, a: u8, mode: BlendMode) -> Rgba {
    let (r, g, b) = rgb_rgb(r, g, b, mode);
    Rgba { r, g, b, a }
}

/// The RGB triple for the CMYK sample `(c, m, y, k)`.
///
/// Under `Darken` each channel is `255 - min(255, ink + k)`. Under `Overlay`
/// the four inks are complemented first.
pub open spec fn cmyk_rgb(c: u8, m: u8, y: u8, k: u8, mode: BlendMode) -> (u8, u8, u8) {
    match mode {
        BlendMode::Darken => (darkened(c, k), darkened(m, k), darkened(y, k)),
        BlendMode::Overlay => (
            darkened(inverted(c), inverted(k)),
            darkened(inverted(m), inverted(k)),
            darkened(inverted(y), inverted(k)),
        ),
    }
}

/// The pixel for the CMYK sample `(c, m, y, k)` with alpha `a`.
pub open spec fn cmyk_pixel(c: u8, m: u8, y: u8, k: u8, a: u8, mode: BlendMode) -> Rgba {
    let (r, g, b) = cmyk_rgb(c, m, y, k, mode);
    Rgba { r, g, b, a }
}

fn darken(ink: u8, key: u8) -> (r: u8)
    ensures
        r == darkened(ink, key),
{
    let sum: u16 = ink as u16 + key as u16;
    if sum >= 255 {
        0
    } else {
        (255 - sum) as u8
    }
}

/// Converts an RGB sample to a pixel.
pub fn rgb2rgba(c: [u8; 3], a: u8, mode: BlendMode) -> (p: Rgba)
    ensures
        p == rgb_pixel(c[0], c[1], c[2], a, mode),
{
    match mode {
        BlendMode::Overlay => Rgba { r: c[0], g: c[1], b: c[2], a },
        BlendMode::Darken => Rgba { r: 255 - c[0], g: 255 - c[1], b: 255 - c[2], a },
    }
}

/// Converts an RGB sample to the three bytes of a palette entry.
pub fn rgb2rgb(r: u8, g: u8, b: u8, mode: BlendMode) -> (c: [u8; 3])
    ensures
        (c[0], c[1], c[2]) == rgb_rgb(r, g, b, mode),
{
    match mode {
        BlendMode::Overlay => [r, g, b],
        BlendMode::Darken => [255 - r, 255 - g, 255 - b],
    }
}

/// Converts a CMYK sample to RGB.
pub fn cmyk2rgb(cmyk: [u8; 4], mode: BlendMode) -> (rgb: [u8; 3])
    ensures
        (rgb[0], rgb[1], rgb[2]) == cmyk_rgb(cmyk[0], cmyk[1], cmyk[2], cmyk[3], mode),
{
    let c: u8 = cmyk[0];
    let m: u8 = cmyk[1];
    let y: u8 = cmyk[2];
    let k: u8 = cmyk[3];
    match mode {
        BlendMode::Darken => [darken(c, k), darken(m, k), darken(y, k)],
        BlendMode::Overlay => {
            let ki: u8 = 255 - k;
            [darken(255 - c, ki), darken(255 - m, ki), darken(255 - y, ki)]
        },
    }
}

/// Converts a CMYK sample and an alpha value to a pixel.
pub fn cmyk2color(cmyk: [u8; 4], a: u8, mode: BlendMode) -> (p: Rgba)
    ensures
        p == cmyk_pixel(cmyk[0], cmyk[1], cmyk[2], cmyk[3], a, mode),
{
    let rgb: [u8; 3] = cmyk2rgb(cmyk, mode);
    Rgba { r: rgb[0], g: rgb[1], b: rgb[2], a }
}

/// White is the absence of ink and black is full key, whatever the other
/// inks are.
pub proof fn lemma_cmyk_extremes(c: u8, m: u8, y: u8)
    ensures
        cmyk_rgb(0, 0, 0, 0, BlendMode::Darken) == (255u8, 255u8, 255u8),
        cmyk_rgb(c, m, y, 255, BlendMode::Darken) == (0u8, 0u8, 0u8),
{
}

} // verus!
