//! What can go wrong while a page is interpreted.

use vstd::prelude::*;

verus! {

/// The kinds of named resource an operator can ask for.
#[derive(Debug, Copy, Clone, Hash, PartialEq, Eq, Structural)]
pub enum ResourceKind {
    Font,
    ExtGState,
    XObject,
    ColorSpace,
    Pattern,
}

/// Constructs that are recognised but not supported.
#[derive(Debug, Copy, Clone, Hash, PartialEq, Eq, Structural)]
pub enum Unsupported {
    /// A DeviceN space whose alternate is not a device space.
    DeviceNAlternate,
    /// A Separation space whose alternate is not a device space.
    SeparationAlternate,
    /// An Indexed space over a base other than RGB or CMYK.
    IndexedBase,
    /// A colour space given as an unparsed object.
    OtherColorSpace,
    /// A named colour space that names another one.
    NestedNamed,
    /// An image whose colour space cannot be used at its sample depth.
    ImageColorSpace,
}

/// Why the sample data of an image cannot be decoded.
#[derive(Debug, Copy, Clone, Hash, PartialEq, Eq, Structural)]
pub enum ImageFault {
    /// The image has no pixels.
    NoPixels,
    /// The data does not hold a whole number of bits for every pixel.
    PartialPixels,
    /// The number of bits per pixel is none of 1, 2, 4, 8, 24, 32.
    DataRatio,
    /// The soft mask does not state its bits per component.
    MaskDepthMissing,
    /// The soft mask's bits per component is none of 1, 2, 4, 8, 12, 16.
    MaskDepth,
    /// The soft mask's data has the wrong length for its size and depth.
    MaskLength,
    /// The soft mask cannot be scaled to the size of the image.
    MaskResample,
    /// A sample points outside the palette.
    PaletteBounds,
    /// The table of tint samples does not have 256 entries.
    TintSamples,
}

/// Why no usable entry could be made for a font.
#[derive(Debug, Copy, Clone, Hash, PartialEq, Eq, Structural)]
pub enum FontFault {
    /// The font dictionary has no name.
    NoName,
}

/// Everything else.
#[derive(Debug, Copy, Clone, Hash, PartialEq, Eq, Structural)]
pub enum Fault {
    /// The number of colour operands does not fit the colour space.
    ColorArity,
    /// An ICC space without alternate, and the operand count decides nothing.
    IccWithoutAlternate,
    /// An ICC space whose alternate is again an ICC space.
    NestedIcc,
    /// An operand has the wrong type.
    OperandType,
    /// A palette index outside the palette.
    PaletteIndex,
}

/// The errors of the rendering core.
#[derive(Debug, Clone, PartialEq, Eq)]
pub enum RenderError {
    MissingResource { kind: ResourceKind, name: String },
    Unimplemented(Unsupported),
    GraphicsStackUnderflow,
    InvalidImageData(ImageFault),
    FontBuildFailure(FontFault),
    Other(Fault),
}

} // verus!
