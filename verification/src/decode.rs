//! Decoding the sample data of an image to RGBA pixels.

use vstd::prelude::*;
use crate::blend::BlendMode;
use crate::colorspace::{resolve_cs, resolved, ColorSpace, Resources};
use crate::error::{ImageFault, RenderError, Unsupported};
use crate::image::{ImageData, Rgba};
use crate::pixel::{cmyk2color, cmyk_pixel, rgb2rgba, rgb_pixel};

verus! {

/// A soft mask: a grey image whose samples are the alpha of another image.
#[derive(Debug, PartialEq, Eq)]
pub struct SoftMask {
    pub width: u32,
    pub height: u32,
    pub bits_per_component: Option<i32>,
    pub data: Vec<u8>,
}

/// An image as the page holds it: its size, its colour space, its sample
/// data after all stream filters, and its soft mask.
#[derive(Debug, PartialEq, Eq)]
pub struct ImageSource {
    pub width: u32,
    pub height: u32,
    pub color_space: Option<ColorSpace>,
    pub data: Vec<u8>,
    pub mask: Option<SoftMask>,
}

/// The bits of `byte` from bit `shift` upwards that `mask` selects.
pub open spec fn bit_field(byte: u8, shift: u8, mask: u8) -> u8 {
    (byte >> shift) & mask
}

/// How many samples of `bits` bits (1, 2, 4 or 8) one byte holds.
pub open spec fn samples_per_byte(bits: int) -> int {
    if bits == 1 {
        8
    } else if bits == 2 {
        4
    } else if bits == 4 {
        2
    } else {
        1
    }
}

/// Sample `k` of `data`, which packs samples of `bits` bits (1, 2, 4 or 8),
/// the first sample in the lowest bits of each byte.
pub open spec fn packed_sample(data: Seq<u8>, bits: int, k: int) -> u8 {
    if bits == 1 {
        bit_field(data[k / 8], (k % 8) as u8, 1)
    } else if bits == 2 {
        bit_field(data[k / 4], (2 * (k % 4)) as u8, 3)
    } else if bits == 4 {
        bit_field(data[k / 2], (4 * (k % 2)) as u8, 15)
    } else {
        data[k]
    }
}

/// The high byte of sample `k` of `data`, which packs samples of 12 bits,
/// two to every three bytes.
pub open spec fn twelve_bit_sample(data: Seq<u8>, k: int) -> u8 {
    if k % 2 == 0 {
        data[3 * (k / 2)]
    } else {
        (data[3 * (k / 2) + 1] << 4u8) | (data[3 * (k / 2) + 2] >> 4u8)
    }
}

/// Whether a soft mask may have `bits` bits per component.
pub open spec fn mask_depth(bits: i32) -> bool {
    bits == 1 || bits == 2 || bits == 4 || bits == 8 || bits == 12 || bits == 16
}

/// The alpha samples that mask data of the given depth holds, one byte each.
pub open spec fn mask_samples(data: Seq<u8>, bits: i32) -> Seq<u8> {
    if bits == 1 || bits == 2 || bits == 4 {
        Seq::new(
            (samples_per_byte(bits as int) * data.len()) as nat,
            |k: int| packed_sample(data, bits as int, k),
        )
    } else if bits == 8 {
        data
    } else if bits == 12 {
        Seq::new(2 * (data.len() / 3), |k: int| twelve_bit_sample(data, k))
    } else {
        Seq::new(data.len() / 2, |k: int| data[2 * k])
    }
}

/// A plane of `src_width` by `src_height` alpha samples scaled to `width` by
/// `height` with the Catmull-Rom filter.
pub uninterp spec fn resampled(
    samples: Seq<u8>,
    src_width: u32,
    src_height: u32,
    width: u32,
    height: u32,
) -> Seq<u8>;

/// Whether the buffers that scaling a plane needs can be addressed.
pub open spec fn can_resample(src_width: u32, dest_width: u32, dest_height: u32) -> bool {
    &&& 16 * src_width * dest_height <= isize::MAX
    &&& dest_width * dest_height <= isize::MAX
}

/// Calls `image::imageops::resize` with `FilterType::CatmullRom` on a
/// one-channel, eight-bit image built from `data` by
/// `ImageBuffer::from_raw`. `from_raw` refuses exactly a buffer that is
/// shorter than the image; `resize` gives an image of the new size, whose
/// samples are what is named [`resampled`]. Its intermediate buffer holds
/// four 32-bit channels for every pixel of `src_width` by `dest_height`.
#[verifier::external_body]
fn resize_alpha(
    data: &Vec<u8>,
    src_width: u32,
    src_height: u32,
    dest_width: u32,
    dest_height: u32,
) -> (r: Option<Vec<u8>>)
    requires
        can_resample(src_width, dest_width, dest_height),
    ensures
        r is Some <==> data@.len() >= src_width * src_height,
        r is Some ==> r->0@ == resampled(data@, src_width, src_height, dest_width, dest_height),
        r is Some ==> r->0@.len() == dest_width * dest_height,
{
    let src: image::ImageBuffer<image::Luma<u8>, &[u8]> = image::ImageBuffer::from_raw(
        src_width,
        src_height,
        data.as_slice(),
    )?;
    let dest = image::imageops::resize(
        &src,
        dest_width,
        dest_height,
        image::imageops::FilterType::CatmullRom,
    );
    Some(dest.into_raw())
}

/// The alpha plane that `mask` gives an image of `width` by `height` pixels.
///
/// The mask must state a depth of 1, 2, 4, 8, 12 or 16 bits and hold
/// `ceil(width * height * depth / 8)` bytes. A mask of another size than
/// the image is scaled to it.
pub open spec fn mask_plane(mask: SoftMask, width: u32, height: u32) -> Result<
    Seq<u8>,
    RenderError,
> {
    match mask.bits_per_component {
        None => Err(RenderError::InvalidImageData(ImageFault::MaskDepthMissing)),
        Some(bits) => {
            let samples = mask_samples(mask.data@, bits);
            if !mask_depth(bits) {
                Err(RenderError::InvalidImageData(ImageFault::MaskDepth))
            } else if mask.data@.len() != (mask.width * mask.height * bits + 7) / 8 {
                Err(RenderError::InvalidImageData(ImageFault::MaskLength))
            } else if mask.width == width && mask.height == height {
                Ok(samples)
            } else if !can_resample(mask.width, width, height) || samples.len() < mask.width
                * mask.height {
                Err(RenderError::InvalidImageData(ImageFault::MaskResample))
            } else {
                Ok(resampled(samples, mask.width, mask.height, width, height))
            }
        },
    }
}

fn packed_at(data: &Vec<u8>, bits: u8, k: u128) -> (s: u8)
    requires
        bits == 1 || bits == 2 || bits == 4 || bits == 8,
        k < samples_per_byte(bits as int) * data@.len(),
    ensures
        s == packed_sample(data@, bits as int, k as int),
{
    let n: usize = data.len();
    if bits == 1 {
        let byte: u8 = data[(k / 8) as usize];
        (byte >> ((k % 8) as u8)) & 1
    } else if bits == 2 {
        let byte: u8 = data[(k / 4) as usize];
        (byte >> ((2 * (k % 4)) as u8)) & 3
    } else if bits == 4 {
        let byte: u8 = data[(k / 2) as usize];
        (byte >> ((4 * (k % 2)) as u8)) & 15
    } else {
        data[k as usize]
    }
}

fn unpack_mask(data: &Vec<u8>, bits: i32) -> (samples: Vec<u8>)
    requires
        mask_depth(bits),
    ensures
        samples@ == mask_samples(data@, bits),
{
    let mut samples: Vec<u8> = Vec::new();
    let n: usize = data.len();
    if bits == 1 || bits == 2 || bits == 4 {
        let per: u128 = if bits == 1 {
            8
        } else if bits == 2 {
            4
        } else {
            2
        };
        let depth: u8 = bits as u8;
        let total: u128 = per * (n as u128);
        let mut k: u128 = 0;
        while k < total
            invariant
                k <= total,
                bits == 1 || bits == 2 || bits == 4,
                depth == bits,
                total == samples_per_byte(bits as int) * data@.len(),
                samples@.len() == k,
                forall|j: int|
                    0 <= j < samples@.len() ==> samples@[j] == packed_sample(
                        data@,
                        bits as int,
                        j,
                    ),
            decreases total - k,
        {
            samples.push(packed_at(data, depth, k));
            k += 1;
        }
        assert(samples@ =~= mask_samples(data@, bits));
    } else if bits == 8 {
        let mut i: usize = 0;
        while i < n
            invariant
                i <= n,
                n == data@.len(),
                samples@ == data@.subrange(0, i as int),
            decreases n - i,
        {
            samples.push(data[i]);
            assert(data@.subrange(0, i + 1) =~= data@.subrange(0, i as int).push(data@[i as int]));
            i += 1;
        }
        assert(data@.subrange(0, data@.len() as int) =~= data@);
    } else if bits == 12 {
        let groups: usize = n / 3;
        let mut g: usize = 0;
        while g < groups
            invariant
                g <= groups,
                n == data@.len(),
                groups == n / 3,
                samples@.len() == 2 * g,
                forall|k: int|
                    0 <= k < samples@.len() ==> samples@[k] == twelve_bit_sample(data@, k),
            decreases groups - g,
        {
            let c0: u8 = data[3 * g];
            let c1: u8 = data[3 * g + 1];
            let c2: u8 = data[3 * g + 2];
            samples.push(c0);
            samples.push((c1 << 4u8) | (c2 >> 4u8));
            g += 1;
        }
        assert(samples@ =~= mask_samples(data@, bits));
    } else {
        let pairs: usize = n / 2;
        let mut p: usize = 0;
        while p < pairs
            invariant
                p <= pairs,
                n == data@.len(),
                pairs == n / 2,
                samples@.len() == p,
                forall|k: int| 0 <= k < samples@.len() ==> samples@[k] == data@[2 * k],
            decreases pairs - p,
        {
            samples.push(data[2 * p]);
            p += 1;
        }
        assert(samples@ =~= mask_samples(data@, bits));
    }
    samples
}

/// Decodes a soft mask to the alpha plane of an image of `width` by
/// `height` pixels; see [`mask_plane`].
pub fn mask_alpha(mask: &SoftMask, width: u32, height: u32) -> (r: Result<Vec<u8>, RenderError>)
    ensures
        match r {
            Ok(plane) => mask_plane(*mask, width, height) == Ok::<Seq<u8>, RenderError>(plane@),
            Err(e) => mask_plane(*mask, width, height) == Err::<Seq<u8>, RenderError>(e),
        },
{
    let bits: i32 = match mask.bits_per_component {
        None => {
            return Err(RenderError::InvalidImageData(ImageFault::MaskDepthMissing));
        },
        Some(bits) => bits,
    };
    if !(bits == 1 || bits == 2 || bits == 4 || bits == 8 || bits == 12 || bits == 16) {
        return Err(RenderError::InvalidImageData(ImageFault::MaskDepth));
    }
    assert(mask.width * mask.height * bits <= 0xffff_ffff * 0xffff_ffff * 16) by (nonlinear_arith)
        requires
            mask.width <= 0xffff_ffff,
            mask.height <= 0xffff_ffff,
            0 <= bits <= 16,
    ;
    assert(mask.width * mask.height <= 0xffff_ffff * 0xffff_ffff) by (nonlinear_arith)
        requires
            mask.width <= 0xffff_ffff,
            mask.height <= 0xffff_ffff,
    ;
    let area: u128 = mask.width as u128 * mask.height as u128;
    let total: u128 = area * (bits as u128);
    if mask.data.len() as u128 != (total + 7) / 8 {
        return Err(RenderError::InvalidImageData(ImageFault::MaskLength));
    }
    let samples: Vec<u8> = unpack_mask(&mask.data, bits);
    if mask.width == width && mask.height == height {
        return Ok(samples);
    }
    assert(16 * mask.width * height <= 16 * 0xffff_ffff * 0xffff_ffff) by (nonlinear_arith)
        requires
            mask.width <= 0xffff_ffff,
            height <= 0xffff_ffff,
    ;
    assert(width * height <= 0xffff_ffff * 0xffff_ffff) by (nonlinear_arith)
        requires
            width <= 0xffff_ffff,
            height <= 0xffff_ffff,
    ;
    let scratch: u128 = 16 * (mask.width as u128) * (height as u128);
    let target: u128 = (width as u128) * (height as u128);
    if scratch > isize::MAX as u128 || target > isize::MAX as u128 {
        return Err(RenderError::InvalidImageData(ImageFault::MaskResample));
    }
    match resize_alpha(&samples, mask.width, mask.height, width, height) {
        Some(plane) => Ok(plane),
        None => Err(RenderError::InvalidImageData(ImageFault::MaskResample)),
    }
}

/// How the samples of an image become pixels.
#[derive(Debug, Copy, Clone, Hash, PartialEq, Eq, Structural)]
pub enum PixelRule {
    /// One sample is the grey level.
    Gray,
    /// One sample selects three palette bytes, read as RGB.
    PaletteRgb,
    /// One sample selects four palette bytes, read as CMYK.
    PaletteCmyk,
    /// One sample selects three bytes of a sampled tint function, read as RGB.
    TintRgb,
    /// One sample selects four bytes of a sampled tint function, read as CMYK.
    TintCmyk,
    /// Three bytes are red, green and blue.
    Rgb,
    /// Four bytes are cyan, magenta, yellow and key.
    Cmyk,
}

/// The value of `alpha` for pixel `k`: opaque where the plane has ended.
pub open spec fn alpha_at(alpha: Seq<u8>, k: int) -> u8 {
    if 0 <= k < alpha.len() {
        alpha[k]
    } else {
        255
    }
}

/// The colour space the samples of `image` are in, after one level of ICC or
/// name indirection, if it states a usable one.
pub open spec fn image_space(image: ImageSource, resources: Resources) -> Option<ColorSpace> {
    match image.color_space {
        Some(cs) => resolved(cs, resources),
        None => None,
    }
}

/// The rule and table for samples of at most eight bits in `space`.
pub open spec fn sample_rule(space: Option<ColorSpace>, resources: Resources) -> Result<
    (PixelRule, Seq<u8>),
    RenderError,
> {
    match space {
        None => Ok((PixelRule::Gray, Seq::<u8>::empty())),
        Some(ColorSpace::DeviceGray) => Ok((PixelRule::Gray, Seq::<u8>::empty())),
        Some(ColorSpace::Indexed(base, hival, lookup)) => match resolved(*base, resources) {
            Some(ColorSpace::DeviceRGB) => Ok((PixelRule::PaletteRgb, lookup@)),
            Some(ColorSpace::DeviceCMYK) => Ok((PixelRule::PaletteCmyk, lookup@)),
            _ => Err(RenderError::Unimplemented(Unsupported::ImageColorSpace)),
        },
        Some(ColorSpace::Separation { name, alt, tint }) => match resolved(*alt, resources) {
            Some(ColorSpace::DeviceRGB) => if tint@.len() == 768 {
                Ok((PixelRule::TintRgb, tint@))
            } else {
                Err(RenderError::InvalidImageData(ImageFault::TintSamples))
            },
            Some(ColorSpace::DeviceCMYK) => if tint@.len() == 1024 {
                Ok((PixelRule::TintCmyk, tint@))
            } else {
                Err(RenderError::InvalidImageData(ImageFault::TintSamples))
            },
            _ => Err(RenderError::Unimplemented(Unsupported::ImageColorSpace)),
        },
        _ => Err(RenderError::Unimplemented(Unsupported::ImageColorSpace)),
    }
}

/// The rule and table for an image with `ratio` bits per pixel.
pub open spec fn pixel_rule(ratio: int, space: Option<ColorSpace>, resources: Resources) -> Result<
    (PixelRule, Seq<u8>),
    RenderError,
> {
    if ratio == 1 || ratio == 2 || ratio == 4 || ratio == 8 {
        sample_rule(space, resources)
    } else if ratio == 24 {
        Ok((PixelRule::Rgb, Seq::<u8>::empty()))
    } else if ratio == 32 {
        Ok((PixelRule::Cmyk, Seq::<u8>::empty()))
    } else {
        Err(RenderError::InvalidImageData(ImageFault::DataRatio))
    }
}

/// Pixel `k` of an image under `rule`, or `None` where its sample points
/// outside the palette. Palette entries in CMYK are always darkened.
pub open spec fn decoded_pixel(
    rule: PixelRule,
    table: Seq<u8>,
    data: Seq<u8>,
    ratio: int,
    k: int,
    a: u8,
    mode: BlendMode,
) -> Option<Rgba> {
    let s = packed_sample(data, ratio, k) as int;
    match rule {
        PixelRule::Gray => Some(Rgba { r: s as u8, g: s as u8, b: s as u8, a }),
        PixelRule::PaletteRgb => if 3 * s + 3 <= table.len() {
            Some(rgb_pixel(table[3 * s], table[3 * s + 1], table[3 * s + 2], a, mode))
        } else {
            None
        },
        PixelRule::PaletteCmyk => if 4 * s + 4 <= table.len() {
            Some(
                cmyk_pixel(
                    table[4 * s],
                    table[4 * s + 1],
                    table[4 * s + 2],
                    table[4 * s + 3],
                    a,
                    BlendMode::Darken,
                ),
            )
        } else {
            None
        },
        PixelRule::TintRgb => Some(
            rgb_pixel(table[3 * s], table[3 * s + 1], table[3 * s + 2], a, mode),
        ),
        PixelRule::TintCmyk => Some(
            cmyk_pixel(table[4 * s], table[4 * s + 1], table[4 * s + 2], table[4 * s + 3], a, mode),
        ),
        PixelRule::Rgb => Some(rgb_pixel(data[3 * k], data[3 * k + 1], data[3 * k + 2], a, mode)),
        PixelRule::Cmyk => Some(
            cmyk_pixel(data[4 * k], data[4 * k + 1], data[4 * k + 2], data[4 * k + 3], a, mode),
        ),
    }
}

/// The pixels of `image` with the alpha plane `alpha`.
///
/// The data must hold the same whole number of bits for each of the
/// `width * height` pixels, and that number must be 1, 2, 4, 8, 24 or 32.
/// With up to eight bits the image's colour space decides: grey (also
/// where none is given), a palette over RGB or CMYK, or a Separation over
/// RGB or CMYK. 24 bits are read as RGB and 32 as CMYK.
pub open spec fn decoded(
    image: ImageSource,
    resources: Resources,
    mode: BlendMode,
    alpha: Seq<u8>,
) -> Result<Seq<Rgba>, RenderError> {
    let count = image.width as int * image.height as int;
    let bits = 8 * (image.data@.len() as int);
    if count == 0 {
        Err(RenderError::InvalidImageData(ImageFault::NoPixels))
    } else if bits % count != 0 {
        Err(RenderError::InvalidImageData(ImageFault::PartialPixels))
    } else {
        match pixel_rule(bits / count, image_space(image, resources), resources) {
            Err(e) => Err(e),
            Ok((rule, table)) => if exists|k: int|
                0 <= k < count && (#[trigger] decoded_pixel(
                    rule,
                    table,
                    image.data@,
                    bits / count,
                    k,
                    alpha_at(alpha, k),
                    mode,
                )) is None {
                Err(RenderError::InvalidImageData(ImageFault::PaletteBounds))
            } else {
                Ok(
                    Seq::new(
                        count as nat,
                        |k: int|
                            decoded_pixel(
                                rule,
                                table,
                                image.data@,
                                bits / count,
                                k,
                                alpha_at(alpha, k),
                                mode,
                            )->0,
                    ),
                )
            },
        }
    }
}

/// Everything [`load_image`] does: [`mask_plane`] for the alpha plane of an
/// image with a soft mask, then [`decoded`].
pub open spec fn loaded(image: ImageSource, resources: Resources, mode: BlendMode) -> Result<
    Seq<Rgba>,
    RenderError,
> {
    match image.mask {
        None => decoded(image, resources, mode, Seq::<u8>::empty()),
        Some(mask) => match mask_plane(mask, image.width, image.height) {
            Err(e) => Err(e),
            Ok(alpha) => decoded(image, resources, mode, alpha),
        },
    }
}

fn choose_sample_rule<'a>(
    space: Option<&'a ColorSpace>,
    resources: &'a Resources,
    empty: &'a Vec<u8>,
) -> (r: Result<(PixelRule, &'a Vec<u8>), RenderError>)
    requires
        empty@.len() == 0,
    ensures
        match r {
            Ok((rule, table)) => sample_rule(
                match space {
                    Some(cs) => Some(*cs),
                    None => None,
                },
                *resources,
            ) == Ok::<(PixelRule, Seq<u8>), RenderError>((rule, table@)),
            Err(e) => sample_rule(
                match space {
                    Some(cs) => Some(*cs),
                    None => None,
                },
                *resources,
            ) == Err::<(PixelRule, Seq<u8>), RenderError>(e),
        },
{
    assert(empty@ =~= Seq::<u8>::empty());
    match space {
        None => Ok((PixelRule::Gray, empty)),
        Some(ColorSpace::DeviceGray) => Ok((PixelRule::Gray, empty)),
        Some(ColorSpace::Indexed(base, hival, lookup)) => match resolve_cs(&**base, resources) {
            Some(ColorSpace::DeviceRGB) => Ok((PixelRule::PaletteRgb, lookup)),
            Some(ColorSpace::DeviceCMYK) => Ok((PixelRule::PaletteCmyk, lookup)),
            _ => Err(RenderError::Unimplemented(Unsupported::ImageColorSpace)),
        },
        Some(ColorSpace::Separation { name, alt, tint }) => match resolve_cs(&**alt, resources) {
            Some(ColorSpace::DeviceRGB) => if tint.len() == 768 {
                Ok((PixelRule::TintRgb, tint))
            } else {
                Err(RenderError::InvalidImageData(ImageFault::TintSamples))
            },
            Some(ColorSpace::DeviceCMYK) => if tint.len() == 1024 {
                Ok((PixelRule::TintCmyk, tint))
            } else {
                Err(RenderError::InvalidImageData(ImageFault::TintSamples))
            },
            _ => Err(RenderError::Unimplemented(Unsupported::ImageColorSpace)),
        },
        _ => Err(RenderError::Unimplemented(Unsupported::ImageColorSpace)),
    }
}

fn pixel_at(
    rule: PixelRule,
    table: &Vec<u8>,
    data: &Vec<u8>,
    ratio: u8,
    k: u128,
    a: u8,
    mode: BlendMode,
) -> (p: Option<Rgba>)
    requires
        ratio == 1 || ratio == 2 || ratio == 4 || ratio == 8 || ratio == 24 || ratio == 32,
        ratio <= 8 ==> k < samples_per_byte(ratio as int) * data@.len(),
        ratio <= 8 <==> rule != PixelRule::Rgb && rule != PixelRule::Cmyk,
        ratio == 24 <==> rule == PixelRule::Rgb,
        ratio == 24 ==> 3 * k + 3 <= data@.len(),
        ratio == 32 ==> 4 * k + 4 <= data@.len(),
        rule == PixelRule::TintRgb ==> table@.len() == 768,
        rule == PixelRule::TintCmyk ==> table@.len() == 1024,
    ensures
        p == decoded_pixel(rule, table@, data@, ratio as int, k as int, a, mode),
{
    let n: usize = data.len();
    match rule {
        PixelRule::Rgb => {
            let at: usize = (3 * k) as usize;
            Some(rgb2rgba([data[at], data[at + 1], data[at + 2]], a, mode))
        },
        PixelRule::Cmyk => {
            let at: usize = (4 * k) as usize;
            Some(cmyk2color([data[at], data[at + 1], data[at + 2], data[at + 3]], a, mode))
        },
        PixelRule::Gray => {
            let s: u8 = packed_at(data, ratio, k);
            Some(Rgba { r: s, g: s, b: s, a })
        },
        PixelRule::PaletteRgb => {
            let s: usize = packed_at(data, ratio, k) as usize;
            if 3 * s + 3 <= table.len() {
                Some(rgb2rgba([table[3 * s], table[3 * s + 1], table[3 * s + 2]], a, mode))
            } else {
                None
            }
        },
        PixelRule::PaletteCmyk => {
            let s: usize = packed_at(data, ratio, k) as usize;
            if 4 * s + 4 <= table.len() {
                Some(
                    cmyk2color(
                        [table[4 * s], table[4 * s + 1], table[4 * s + 2], table[4 * s + 3]],
                        a,
                        BlendMode::Darken,
                    ),
                )
            } else {
                None
            }
        },
        PixelRule::TintRgb => {
            let s: usize = packed_at(data, ratio, k) as usize;
            Some(rgb2rgba([table[3 * s], table[3 * s + 1], table[3 * s + 2]], a, mode))
        },
        PixelRule::TintCmyk => {
            let s: usize = packed_at(data, ratio, k) as usize;
            Some(
                cmyk2color(
                    [table[4 * s], table[4 * s + 1], table[4 * s + 2], table[4 * s + 3]],
                    a,
                    mode,
                ),
            )
        },
    }
}

/// Decodes the samples of `image` to pixels, with `alpha` as the alpha
/// plane; see [`decoded`]. A pixel beyond the end of `alpha` is opaque.
pub fn decode_pixels(
    image: &ImageSource,
    resources: &Resources,
    mode: BlendMode,
    alpha: &Vec<u8>,
) -> (r: Result<ImageData, RenderError>)
    ensures
        match r {
            Ok(img) => {
                &&& decoded(*image, *resources, mode, alpha@) == Ok::<Seq<Rgba>, RenderError>(
                    img.pixels(),
                )
                &&& img.spec_width() == image.width
                &&& img.spec_height() == image.height
            },
            Err(e) => decoded(*image, *resources, mode, alpha@) == Err::<Seq<Rgba>, RenderError>(e),
        },
{
    assert(image.width * image.height <= 0xffff_ffff * 0xffff_ffff) by (nonlinear_arith)
        requires
            image.width <= 0xffff_ffff,
            image.height <= 0xffff_ffff,
    ;
    let count: u128 = image.width as u128 * image.height as u128;
    let n: usize = image.data.len();
    let bits: u128 = 8 * (n as u128);
    if count == 0 {
        return Err(RenderError::InvalidImageData(ImageFault::NoPixels));
    }
    if bits % count != 0 {
        return Err(RenderError::InvalidImageData(ImageFault::PartialPixels));
    }
    let wide: u128 = bits / count;
    proof {
        vstd::arithmetic::div_mod::lemma_fundamental_div_mod(bits as int, count as int);
    }
    let empty: Vec<u8> = Vec::new();
    let space: Option<&ColorSpace> = match &image.color_space {
        Some(cs) => resolve_cs(cs, resources),
        None => None,
    };
    let (rule, table): (PixelRule, &Vec<u8>) = if wide == 1 || wide == 2 || wide == 4 || wide
        == 8 {
        match choose_sample_rule(space, resources, &empty) {
            Ok(chosen) => chosen,
            Err(e) => {
                return Err(e);
            },
        }
    } else if wide == 24 {
        (PixelRule::Rgb, &empty)
    } else if wide == 32 {
        (PixelRule::Cmyk, &empty)
    } else {
        return Err(RenderError::InvalidImageData(ImageFault::DataRatio));
    };
    assert(empty@ =~= Seq::<u8>::empty());
    let ratio: u8 = wide as u8;
    assert(bits == count * ratio) by (nonlinear_arith)
        requires
            bits == count * wide + 0,
            ratio == wide,
    ;
    let ghost spec_rule = pixel_rule(
        ratio as int,
        image_space(*image, *resources),
        *resources,
    );
    assert(spec_rule == Ok::<(PixelRule, Seq<u8>), RenderError>((rule, table@)));
    let mut pixels: Vec<Rgba> = Vec::new();
    let mut k: u128 = 0;
    while k < count
        invariant
            k <= count,
            n == image.data@.len(),
            bits == 8 * n,
            bits == count * ratio,
            count == image.width as int * image.height as int,
            count != 0,
            bits as int % count as int == 0,
            bits as int / count as int == ratio,
            pixel_rule(ratio as int, image_space(*image, *resources), *resources) == Ok::<
                (PixelRule, Seq<u8>),
                RenderError,
            >((rule, table@)),
            ratio == 1 || ratio == 2 || ratio == 4 || ratio == 8 || ratio == 24 || ratio == 32,
            ratio <= 8 <==> rule != PixelRule::Rgb && rule != PixelRule::Cmyk,
            ratio == 24 <==> rule == PixelRule::Rgb,
            rule == PixelRule::TintRgb ==> table@.len() == 768,
            rule == PixelRule::TintCmyk ==> table@.len() == 1024,
            pixels@.len() == k,
            forall|j: int|
                0 <= j < k ==> (#[trigger] decoded_pixel(
                    rule,
                    table@,
                    image.data@,
                    ratio as int,
                    j,
                    alpha_at(alpha@, j),
                    mode,
                )) == Some(pixels@[j]),
        decreases count - k,
    {
        let a: u8 = if k < alpha.len() as u128 {
            alpha[k as usize]
        } else {
            255
        };
        assert(k * ratio < count * ratio) by (nonlinear_arith)
            requires
                k < count,
                ratio > 0,
        ;
        assert((k + 1) * ratio <= count * ratio) by (nonlinear_arith)
            requires
                k < count,
                ratio > 0,
        ;
        assert((k + 1) * ratio == k * ratio + ratio) by (nonlinear_arith);
        match pixel_at(rule, table, &image.data, ratio, k, a, mode) {
            Some(p) => {
                pixels.push(p);
            },
            None => {
                assert(decoded_pixel(
                    rule,
                    table@,
                    image.data@,
                    ratio as int,
                    k as int,
                    alpha_at(alpha@, k as int),
                    mode,
                ) is None);
                return Err(RenderError::InvalidImageData(ImageFault::PaletteBounds));
            },
        }
        k += 1;
    }
    assert(pixels@ =~= decoded(*image, *resources, mode, alpha@)->Ok_0);
    Ok(ImageData::assemble(pixels, image.width, image.height))
}

/// Decodes `image` to RGBA pixels: the alpha plane from its soft mask, if it
/// has one, and the colours from its samples; see [`loaded`].
pub fn load_image(image: &ImageSource, resources: &Resources, mode: BlendMode) -> (r: Result<
    ImageData,
    RenderError,
>)
    ensures
        match r {
            Ok(img) => {
                &&& loaded(*image, *resources, mode) == Ok::<Seq<Rgba>, RenderError>(img.pixels())
                &&& img.spec_width() == image.width
                &&& img.spec_height() == image.height
            },
            Err(e) => loaded(*image, *resources, mode) == Err::<Seq<Rgba>, RenderError>(e),
        },
{
    match &image.mask {
        None => {
            let alpha: Vec<u8> = Vec::new();
            assert(alpha@ =~= Seq::<u8>::empty());
            decode_pixels(image, resources, mode, &alpha)
        },
        Some(mask) => match mask_alpha(mask, image.width, image.height) {
            Err(e) => Err(e),
            Ok(alpha) => decode_pixels(image, resources, mode, &alpha),
        },
    }
}

} // verus!
