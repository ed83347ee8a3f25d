use pdf_render::colorspace::{ColorSpace, Resources};
use pdf_render::decode::{decode_pixels, load_image, mask_alpha, ImageSource, SoftMask};
use pdf_render::error::{ImageFault, RenderError, Unsupported};
use pdf_render::{BlendMode, Rgba};

fn no_resources() -> Resources {
    Resources::new()
}

fn image(width: u32, height: u32, cs: Option<ColorSpace>, data: Vec<u8>) -> ImageSource {
    ImageSource { width, height, color_space: cs, data, mask: None }
}

fn rgba(r: u8, g: u8, b: u8, a: u8) -> Rgba {
    Rgba { r, g, b, a }
}

#[test]
fn gray_eight_bits() {
    let img = load_image(
        &image(2, 1, Some(ColorSpace::DeviceGray), vec![10, 200]),
        &no_resources(),
        BlendMode::Overlay,
    )
    .unwrap();
    assert_eq!(img.data(), &vec![rgba(10, 10, 10, 255), rgba(200, 200, 200, 255)]);
    assert_eq!((img.width(), img.height()), (2, 1));
}

#[test]
fn missing_colour_space_is_read_as_gray() {
    let img = load_image(&image(1, 2, None, vec![7, 8]), &no_resources(), BlendMode::Darken).unwrap();
    assert_eq!(img.data(), &vec![rgba(7, 7, 7, 255), rgba(8, 8, 8, 255)]);
}

#[test]
fn one_bit_samples_come_low_bit_first() {
    // 8 pixels in one byte 0b0000_0101: samples 1,0,1,0,0,0,0,0
    let img = load_image(
        &image(8, 1, Some(ColorSpace::DeviceGray), vec![0b0000_0101]),
        &no_resources(),
        BlendMode::Overlay,
    )
    .unwrap();
    let levels: Vec<u8> = img.data().iter().map(|p| p.r).collect();
    assert_eq!(levels, vec![1, 0, 1, 0, 0, 0, 0, 0]);
}

#[test]
fn two_and_four_bit_samples() {
    let img = load_image(
        &image(4, 1, Some(ColorSpace::DeviceGray), vec![0b11_10_01_00]),
        &no_resources(),
        BlendMode::Overlay,
    )
    .unwrap();
    let levels: Vec<u8> = img.data().iter().map(|p| p.r).collect();
    assert_eq!(levels, vec![0, 1, 2, 3]);
    let img = load_image(
        &image(2, 1, Some(ColorSpace::DeviceGray), vec![0xA5]),
        &no_resources(),
        BlendMode::Overlay,
    )
    .unwrap();
    let levels: Vec<u8> = img.data().iter().map(|p| p.r).collect();
    assert_eq!(levels, vec![5, 10]);
}

#[test]
fn rgb_three_bytes_per_pixel() {
    let src = image(1, 2, Some(ColorSpace::DeviceRGB), vec![1, 2, 3, 4, 5, 6]);
    let img = load_image(&src, &no_resources(), BlendMode::Overlay).unwrap();
    assert_eq!(img.data(), &vec![rgba(1, 2, 3, 255), rgba(4, 5, 6, 255)]);
    let img = load_image(&src, &no_resources(), BlendMode::Darken).unwrap();
    assert_eq!(img.data(), &vec![rgba(254, 253, 252, 255), rgba(251, 250, 249, 255)]);
}

#[test]
fn cmyk_four_bytes_per_pixel() {
    let src = image(2, 1, Some(ColorSpace::DeviceCMYK), vec![255, 0, 0, 0, 0, 0, 0, 255]);
    let img = load_image(&src, &no_resources(), BlendMode::Darken).unwrap();
    assert_eq!(img.data(), &vec![rgba(0, 255, 255, 255), rgba(0, 0, 0, 255)]);
}

#[test]
fn indexed_rgb_palette() {
    let cs = ColorSpace::Indexed(Box::new(ColorSpace::DeviceRGB), 1, vec![255, 0, 0, 0, 0, 255]);
    let img =
        load_image(&image(2, 1, Some(cs), vec![1, 0]), &no_resources(), BlendMode::Overlay).unwrap();
    assert_eq!(img.data(), &vec![rgba(0, 0, 255, 255), rgba(255, 0, 0, 255)]);
}

#[test]
fn indexed_cmyk_palette_is_always_darkened() {
    let cs = ColorSpace::Indexed(Box::new(ColorSpace::DeviceCMYK), 0, vec![255, 0, 0, 0]);
    let img =
        load_image(&image(1, 1, Some(cs), vec![0]), &no_resources(), BlendMode::Overlay).unwrap();
    assert_eq!(img.data(), &vec![rgba(0, 255, 255, 255)]);
}

#[test]
fn indexed_through_icc_and_name() {
    let base = ColorSpace::Icc { components: 3, alternate: None };
    let cs = ColorSpace::Indexed(Box::new(base), 0, vec![9, 8, 7]);
    let resources = Resources { color_spaces: vec![("Cs1".to_string(), cs)], ..Resources::new() };
    let src = image(1, 1, Some(ColorSpace::Named("Cs1".to_string())), vec![0]);
    let img = load_image(&src, &resources, BlendMode::Overlay).unwrap();
    assert_eq!(img.data(), &vec![rgba(9, 8, 7, 255)]);
}

#[test]
fn sample_outside_the_palette() {
    let cs = ColorSpace::Indexed(Box::new(ColorSpace::DeviceRGB), 1, vec![255, 0, 0, 0, 0, 255]);
    let r = load_image(&image(2, 1, Some(cs), vec![0, 2]), &no_resources(), BlendMode::Overlay);
    assert_eq!(r, Err(RenderError::InvalidImageData(ImageFault::PaletteBounds)));
}

#[test]
fn separation_uses_the_sampled_tint() {
    let mut tint = vec![0u8; 768];
    tint[3 * 5] = 10;
    tint[3 * 5 + 1] = 20;
    tint[3 * 5 + 2] = 30;
    let cs = ColorSpace::Separation {
        name: "Spot".to_string(),
        alt: Box::new(ColorSpace::DeviceRGB),
        tint,
    };
    let img =
        load_image(&image(1, 1, Some(cs), vec![5]), &no_resources(), BlendMode::Darken).unwrap();
    assert_eq!(img.data(), &vec![rgba(245, 235, 225, 255)]);
}

#[test]
fn separation_over_cmyk() {
    let mut tint = vec![0u8; 1024];
    tint[4 * 2] = 255;
    let cs = ColorSpace::Separation {
        name: "Spot".to_string(),
        alt: Box::new(ColorSpace::DeviceCMYK),
        tint,
    };
    let img =
        load_image(&image(1, 1, Some(cs), vec![2]), &no_resources(), BlendMode::Darken).unwrap();
    assert_eq!(img.data(), &vec![rgba(0, 255, 255, 255)]);
}

#[test]
fn separation_with_a_short_tint_table() {
    let cs = ColorSpace::Separation {
        name: "Spot".to_string(),
        alt: Box::new(ColorSpace::DeviceRGB),
        tint: vec![0; 10],
    };
    let r = load_image(&image(1, 1, Some(cs), vec![2]), &no_resources(), BlendMode::Darken);
    assert_eq!(r, Err(RenderError::InvalidImageData(ImageFault::TintSamples)));
}

#[test]
fn unsupported_colour_space() {
    let r = load_image(
        &image(1, 1, Some(ColorSpace::Pattern), vec![2]),
        &no_resources(),
        BlendMode::Overlay,
    );
    assert_eq!(r, Err(RenderError::Unimplemented(Unsupported::ImageColorSpace)));
    let cs = ColorSpace::Indexed(Box::new(ColorSpace::DeviceGray), 0, vec![1]);
    let r = load_image(&image(1, 1, Some(cs), vec![0]), &no_resources(), BlendMode::Overlay);
    assert_eq!(r, Err(RenderError::Unimplemented(Unsupported::ImageColorSpace)));
}

#[test]
fn data_errors() {
    let gray = || Some(ColorSpace::DeviceGray);
    let none = no_resources();
    assert_eq!(
        load_image(&image(0, 5, gray(), vec![]), &none, BlendMode::Overlay),
        Err(RenderError::InvalidImageData(ImageFault::NoPixels))
    );
    assert_eq!(
        load_image(&image(3, 1, gray(), vec![1, 2, 3, 4]), &none, BlendMode::Overlay),
        Err(RenderError::InvalidImageData(ImageFault::PartialPixels))
    );
    // 16 bits per pixel
    assert_eq!(
        load_image(&image(1, 1, gray(), vec![1, 2]), &none, BlendMode::Overlay),
        Err(RenderError::InvalidImageData(ImageFault::DataRatio))
    );
    // no data at all: 0 bits per pixel
    assert_eq!(
        load_image(&image(1, 1, gray(), vec![]), &none, BlendMode::Overlay),
        Err(RenderError::InvalidImageData(ImageFault::DataRatio))
    );
}

#[test]
fn mask_of_the_same_size_gives_alpha() {
    let mut src = image(2, 1, Some(ColorSpace::DeviceGray), vec![10, 20]);
    src.mask =
        Some(SoftMask { width: 2, height: 1, bits_per_component: Some(8), data: vec![99, 100] });
    let img = load_image(&src, &no_resources(), BlendMode::Overlay).unwrap();
    assert_eq!(img.data(), &vec![rgba(10, 10, 10, 99), rgba(20, 20, 20, 100)]);
}

#[test]
fn mask_depths() {
    let m = |bits: i32, data: Vec<u8>, w: u32, h: u32| SoftMask {
        width: w,
        height: h,
        bits_per_component: Some(bits),
        data,
    };
    assert_eq!(mask_alpha(&m(1, vec![0b0000_0110], 4, 2), 4, 2), Ok(vec![0, 1, 1, 0, 0, 0, 0, 0]));
    assert_eq!(mask_alpha(&m(2, vec![0b00_01_10_11], 2, 2), 2, 2), Ok(vec![3, 2, 1, 0]));
    assert_eq!(mask_alpha(&m(4, vec![0x21], 2, 1), 2, 1), Ok(vec![1, 2]));
    assert_eq!(mask_alpha(&m(16, vec![7, 0, 9, 0], 2, 1), 2, 1), Ok(vec![7, 9]));
    assert_eq!(mask_alpha(&m(12, vec![0xAB, 0xCD, 0xEF], 2, 1), 2, 1), Ok(vec![0xAB, 0xDE]));
}

#[test]
fn mask_errors() {
    let m = |bits: Option<i32>, data: Vec<u8>| SoftMask {
        width: 2,
        height: 1,
        bits_per_component: bits,
        data,
    };
    assert_eq!(
        mask_alpha(&m(None, vec![1, 2]), 2, 1),
        Err(RenderError::InvalidImageData(ImageFault::MaskDepthMissing))
    );
    assert_eq!(
        mask_alpha(&m(Some(3), vec![1, 2]), 2, 1),
        Err(RenderError::InvalidImageData(ImageFault::MaskDepth))
    );
    assert_eq!(
        mask_alpha(&m(Some(-8), vec![1, 2]), 2, 1),
        Err(RenderError::InvalidImageData(ImageFault::MaskDepth))
    );
    assert_eq!(
        mask_alpha(&m(Some(8), vec![1, 2, 3]), 2, 1),
        Err(RenderError::InvalidImageData(ImageFault::MaskLength))
    );
}

#[test]
fn mask_of_another_size_is_resampled() {
    let mask = SoftMask { width: 1, height: 1, bits_per_component: Some(8), data: vec![200] };
    let plane = mask_alpha(&mask, 2, 3).unwrap();
    assert_eq!(plane, vec![200; 6]);
    let mask =
        SoftMask { width: 2, height: 1, bits_per_component: Some(8), data: vec![0, 255] };
    let plane = mask_alpha(&mask, 4, 1).unwrap();
    assert_eq!(plane.len(), 4);
    assert!(plane[0] < plane[3]);
    assert_ne!(plane, vec![0, 255]);
}

#[test]
fn odd_twelve_bit_mask_cannot_be_resampled() {
    // one sample of 12 bits: two bytes, which hold no whole group of three
    let mask = SoftMask { width: 1, height: 1, bits_per_component: Some(12), data: vec![1, 2] };
    assert_eq!(
        mask_alpha(&mask, 2, 2),
        Err(RenderError::InvalidImageData(ImageFault::MaskResample))
    );
}

#[test]
fn short_alpha_plane_leaves_the_rest_opaque() {
    let src = image(3, 1, Some(ColorSpace::DeviceGray), vec![1, 2, 3]);
    let img = decode_pixels(&src, &no_resources(), BlendMode::Overlay, &vec![5]).unwrap();
    assert_eq!(img.data(), &vec![rgba(1, 1, 1, 5), rgba(2, 2, 2, 255), rgba(3, 3, 3, 255)]);
}
