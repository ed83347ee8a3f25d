use pdf_render::pixel::{cmyk2color, cmyk2rgb, rgb2rgb, rgb2rgba};
use pdf_render::{BlendMode, Rgba};

#[test]
fn cmyk_without_ink_is_white() {
    assert_eq!(cmyk2rgb([0, 0, 0, 0], BlendMode::Darken), [255, 255, 255]);
}

#[test]
fn cmyk_full_key_is_black() {
    assert_eq!(cmyk2rgb([0, 0, 0, 255], BlendMode::Darken), [0, 0, 0]);
    assert_eq!(cmyk2rgb([17, 200, 3, 255], BlendMode::Darken), [0, 0, 0]);
}

#[test]
fn cmyk_full_cyan_is_green_plus_blue() {
    assert_eq!(cmyk2rgb([255, 0, 0, 0], BlendMode::Darken), [0, 255, 255]);
}

#[test]
fn cmyk_sum_saturates() {
    assert_eq!(cmyk2rgb([200, 100, 10, 100], BlendMode::Darken), [0, 55, 145]);
}

#[test]
fn cmyk_overlay_complements_the_inks_first() {
    // inks (255, 255, 255, 255) complement to no ink at all
    assert_eq!(cmyk2rgb([255, 255, 255, 255], BlendMode::Overlay), [255, 255, 255]);
    // (0, 0, 0, 0) complements to full ink
    assert_eq!(cmyk2rgb([0, 0, 0, 0], BlendMode::Overlay), [0, 0, 0]);
    assert_eq!(cmyk2rgb([255, 200, 100, 250], BlendMode::Overlay), [250, 195, 95]);
}

#[test]
fn cmyk_color_carries_alpha() {
    assert_eq!(
        cmyk2color([255, 0, 0, 0], 77, BlendMode::Darken),
        Rgba { r: 0, g: 255, b: 255, a: 77 }
    );
}

#[test]
fn rgb_is_kept_or_complemented() {
    assert_eq!(rgb2rgba([1, 2, 3], 9, BlendMode::Overlay), Rgba { r: 1, g: 2, b: 3, a: 9 });
    assert_eq!(rgb2rgba([1, 2, 3], 9, BlendMode::Darken), Rgba { r: 254, g: 253, b: 252, a: 9 });
    assert_eq!(rgb2rgb(1, 2, 3, BlendMode::Overlay), [1, 2, 3]);
    assert_eq!(rgb2rgb(1, 2, 3, BlendMode::Darken), [254, 253, 252]);
}

#[test]
fn overprint_selects_darken() {
    assert_eq!(BlendMode::from_overprint(true), BlendMode::Darken);
    assert_eq!(BlendMode::from_overprint(false), BlendMode::Overlay);
}
