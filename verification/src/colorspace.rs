//! Colour spaces and how a colour operator's operands are read in them.

use vstd::prelude::*;
use crate::error::{Fault, RenderError, ResourceKind, Unsupported};
use crate::names::{find, position};

verus! {

/// A reference to an indirect object: its number and generation.
#[derive(Debug, Copy, Clone, Hash, PartialEq, Eq, Structural)]
pub struct ObjectRef {
    pub id: u64,
    pub gen: u64,
}

/// A colour space as the page describes it.
///
/// A tint function is not held as a function: `tint` holds it sampled at
/// `i / 255` for `i` from 0 to 255, each output component scaled to a byte,
/// and `inputs` and `outputs` hold its dimensions.
#[derive(Debug, PartialEq, Eq)]
pub enum ColorSpace {
    DeviceGray,
    DeviceRGB,
    DeviceCMYK,
    DeviceN { inputs: usize, outputs: usize, alt: Box<ColorSpace> },
    CalGray,
    CalRGB,
    CalCMYK,
    Indexed(Box<ColorSpace>, u8, Vec<u8>),
    Separation { name: String, alt: Box<ColorSpace>, tint: Vec<u8> },
    Icc { components: u32, alternate: Option<Box<ColorSpace>> },
    Pattern,
    Named(String),
    Other,
}

/// The three device colour spaces, in which a colour is finally expressed.
#[derive(Debug, Copy, Clone, Hash, PartialEq, Eq, Structural)]
pub enum DeviceSpace {
    Gray,
    Rgb,
    Cmyk,
}

impl DeviceSpace {
    /// How many components a colour of this space has.
    pub open spec fn spec_components(self) -> usize {
        match self {
            DeviceSpace::Gray => 1,
            DeviceSpace::Rgb => 3,
            DeviceSpace::Cmyk => 4,
        }
    }

    /// How many components a colour of this space has.
    #[verifier::when_used_as_spec(spec_components)]
    pub fn components(self) -> (n: usize)
        ensures
            n == self.spec_components(),
    {
        match self {
            DeviceSpace::Gray => 1,
            DeviceSpace::Rgb => 3,
            DeviceSpace::Cmyk => 4,
        }
    }
}

/// The entries of an extended graphics state that are no numbers: the
/// overprint settings and the font.
#[derive(Debug, Copy, Clone, Hash, PartialEq, Eq, Structural)]
pub struct ExtGState {
    pub overprint: Option<bool>,
    pub overprint_fill: Option<bool>,
    pub overprint_mode: Option<i32>,
    pub font: Option<ObjectRef>,
}

/// What kind of object an external object is.
#[derive(Debug, Copy, Clone, Hash, PartialEq, Eq, Structural)]
pub enum XObjectKind {
    Image,
    Form,
    Postscript,
}

/// The named resources of a page or form. In each table the first entry
/// with a name counts.
#[derive(Debug, PartialEq, Eq)]
pub struct Resources {
    pub color_spaces: Vec<(String, ColorSpace)>,
    pub patterns: Vec<(String, ObjectRef)>,
    pub graphics_states: Vec<(String, ExtGState)>,
    pub fonts: Vec<(String, ObjectRef)>,
    pub xobjects: Vec<(String, (ObjectRef, XObjectKind))>,
}

impl Resources {
    /// Resources without any entry.
    pub fn new() -> (r: Resources)
        ensures
            r.color_spaces@.len() == 0,
            r.patterns@.len() == 0,
            r.graphics_states@.len() == 0,
            r.fonts@.len() == 0,
            r.xobjects@.len() == 0,
    {
        Resources {
            color_spaces: Vec::new(),
            patterns: Vec::new(),
            graphics_states: Vec::new(),
            fonts: Vec::new(),
            xobjects: Vec::new(),
        }
    }
}

/// One operand of a colour operator. The value of a real number is of no
/// concern here, only that it is one.
#[derive(Debug, Clone, PartialEq, Eq)]
pub enum Operand {
    Integer(i32),
    Number,
    Name(String),
    Other,
}

impl Operand {
    /// Whether the operand can be read as a number.
    pub open spec fn spec_is_number(&self) -> bool {
        self is Integer || self is Number
    }

    /// Whether the operand can be read as a number.
    #[verifier::when_used_as_spec(spec_is_number)]
    pub fn is_number(&self) -> (b: bool)
        ensures
            b == self.spec_is_number(),
    {
        match self {
            Operand::Integer(_) => true,
            Operand::Number => true,
            _ => false,
        }
    }
}

/// The colour given to a colour operator: in a device space by the
/// operator's own name, or as a list of operands for the current space.
#[derive(Debug, Clone, PartialEq, Eq)]
pub enum Color {
    Gray,
    Rgb,
    Cmyk,
    Other(Vec<Operand>),
}

/// How the operands of a colour operator become a paint.
#[derive(Debug, Copy, Clone, Hash, PartialEq, Eq, Structural)]
pub enum ColorPlan {
    /// The operands are the components of a colour in `space`.
    Device { space: DeviceSpace },
    /// The operands go through the tint function of the current space; what
    /// comes out are the components of a colour in `alt`.
    Tint { alt: DeviceSpace },
    /// A palette entry with the components `c0..c3` in `space`, of which the
    /// first `space.components()` count.
    Palette { space: DeviceSpace, c0: u8, c1: u8, c2: u8, c3: u8 },
    /// The pattern object to paint with.
    Pattern { pattern: ObjectRef },
    /// Solid black, in place of a colour that could not be converted.
    Black,
}

/// The outcome of reading a colour: how to compute the paint, and the device
/// space that becomes current where the operator names one.
#[derive(Debug, Copy, Clone, Hash, PartialEq, Eq, Structural)]
pub struct Converted {
    pub plan: ColorPlan,
    pub rebind: Option<DeviceSpace>,
}

/// Whether the first `n` of `args` are all numbers.
pub open spec fn first_non_number(args: Seq<Operand>, n: int) -> bool {
    exists|i: int| 0 <= i < n && i < args.len() && !(#[trigger] args[i]).is_number()
}

/// The space an image's or a base's colour space stands for: the alternate of
/// an ICC space (or the device space with its number of components), the
/// resource a name refers to, and any other space itself.
pub open spec fn resolved(cs: ColorSpace, resources: Resources) -> Option<ColorSpace> {
    match cs {
        ColorSpace::Icc { components, alternate } => match alternate {
            Some(b) => Some(*b),
            None => if components == 1 {
                Some(ColorSpace::DeviceGray)
            } else if components == 3 {
                Some(ColorSpace::DeviceRGB)
            } else if components == 4 {
                Some(ColorSpace::DeviceCMYK)
            } else {
                None
            },
        },
        ColorSpace::Named(name) => match position(resources.color_spaces@, name@) {
            Some(i) => Some(resources.color_spaces@[i].1),
            None => None,
        },
        _ => Some(cs),
    }
}

/// Resolves one level of indirection of a colour space; see [`resolved`].
pub fn resolve_cs<'a>(cs: &'a ColorSpace, resources: &'a Resources) -> (r: Option<&'a ColorSpace>)
    ensures
        match r {
            Some(s) => resolved(*cs, *resources) == Some(*s),
            None => resolved(*cs, *resources) is None,
        },
{
    match cs {
        ColorSpace::Icc { components, alternate } => match alternate {
            Some(b) => Some(&**b),
            None => {
                if *components == 1 {
                    Some(&ColorSpace::DeviceGray)
                } else if *components == 3 {
                    Some(&ColorSpace::DeviceRGB)
                } else if *components == 4 {
                    Some(&ColorSpace::DeviceCMYK)
                } else {
                    None
                }
            },
        },
        ColorSpace::Named(name) => match find(&resources.color_spaces, name) {
            Some(i) => Some(&resources.color_spaces[i].1),
            None => None,
        },
        _ => Some(cs),
    }
}

/// The space in which a list of operands is read: as [`resolved`], except
/// that an ICC space without alternate goes by the number of operands (one
/// for grey, three for RGB, four for CMYK), and that a missing name is an
/// error.
pub open spec fn effective(cs: ColorSpace, count: nat, resources: Resources) -> Result<
    ColorSpace,
    RenderError,
> {
    match cs {
        ColorSpace::Icc { components, alternate } => match alternate {
            Some(b) => Ok(*b),
            None => if count == 1 {
                Ok(ColorSpace::DeviceGray)
            } else if count == 3 {
                Ok(ColorSpace::DeviceRGB)
            } else if count == 4 {
                Ok(ColorSpace::DeviceCMYK)
            } else {
                Err(RenderError::Other(Fault::IccWithoutAlternate))
            },
        },
        ColorSpace::Named(name) => match position(resources.color_spaces@, name@) {
            Some(i) => Ok(resources.color_spaces@[i].1),
            None => Err(
                RenderError::MissingResource { kind: ResourceKind::ColorSpace, name: name },
            ),
        },
        _ => Ok(cs),
    }
}

/// Reading `count` numeric operands as a colour of `space`.
pub open spec fn device_plan(space: DeviceSpace, args: Seq<Operand>) -> Result<
    Converted,
    RenderError,
> {
    if args.len() != space.components() {
        Err(RenderError::Other(Fault::ColorArity))
    } else if first_non_number(args, args.len() as int) {
        Err(RenderError::Other(Fault::OperandType))
    } else {
        Ok(Converted { plan: ColorPlan::Device { space }, rebind: None })
    }
}

/// The device space that a device or calibrated space is read as.
pub open spec fn device_like(cs: ColorSpace) -> Option<DeviceSpace> {
    match cs {
        ColorSpace::DeviceGray | ColorSpace::CalGray => Some(DeviceSpace::Gray),
        ColorSpace::DeviceRGB | ColorSpace::CalRGB => Some(DeviceSpace::Rgb),
        ColorSpace::DeviceCMYK | ColorSpace::CalCMYK => Some(DeviceSpace::Cmyk),
        _ => None,
    }
}

/// The device space in which the colours of an alternate or base space
/// are read, if it is read as one: a device or calibrated space as
/// itself, and an ICC space as its alternate or, without one, by the
/// number of its components.
pub open spec fn tint_target(alt: ColorSpace) -> Option<DeviceSpace> {
    match alt {
        ColorSpace::Icc { components, alternate } => match alternate {
            Some(b) => device_like(*b),
            None => if components == 1 {
                Some(DeviceSpace::Gray)
            } else if components == 3 {
                Some(DeviceSpace::Rgb)
            } else if components == 4 {
                Some(DeviceSpace::Cmyk)
            } else {
                None
            },
        },
        _ => device_like(alt),
    }
}

/// Reading a palette index.
pub open spec fn palette_plan(base: ColorSpace, lookup: Seq<u8>, args: Seq<Operand>) -> Result<
    Converted,
    RenderError,
> {
    if args.len() != 1 {
        Err(RenderError::Other(Fault::ColorArity))
    } else {
        match args[0] {
            Operand::Integer(i) => {
                let space = match tint_target(base) {
                    Some(DeviceSpace::Rgb) => Some(DeviceSpace::Rgb),
                    Some(DeviceSpace::Cmyk) => Some(DeviceSpace::Cmyk),
                    _ => None,
                };
                match space {
                    None => Err(RenderError::Unimplemented(Unsupported::IndexedBase)),
                    Some(space) => {
                        let k = space.components() as int;
                        if i < 0 || k * i + k > lookup.len() {
                            Err(RenderError::Other(Fault::PaletteIndex))
                        } else {
                            Ok(
                                Converted {
                                    plan: ColorPlan::Palette {
                                        space,
                                        c0: lookup[k * i],
                                        c1: lookup[k * i + 1],
                                        c2: lookup[k * i + 2],
                                        c3: if k == 4 {
                                            lookup[k * i + 3]
                                        } else {
                                            0
                                        },
                                    },
                                    rebind: None,
                                },
                            )
                        }
                    },
                }
            },
            _ => Err(RenderError::Other(Fault::OperandType)),
        }
    }
}

/// How a colour given by `color` is read while `cs` is the current space.
///
/// A colour that names its device space is read there, and that space
/// becomes current. A list of operands is read in the current space, after
/// one level of ICC or name indirection:
/// - device and calibrated spaces take 1, 3 or 4 numbers;
/// - Separation takes one number and DeviceN as many as its tint function
///   has inputs, and both need a device space as alternate;
/// - Indexed takes one integer that selects 3 or 4 bytes of the palette,
///   by its base space;
/// - Pattern takes the name of a pattern resource.
pub open spec fn color_plan(cs: ColorSpace, color: Color, resources: Resources) -> Result<
    Converted,
    RenderError,
> {
    match color {
        Color::Gray => Ok(
            Converted {
                plan: ColorPlan::Device { space: DeviceSpace::Gray },
                rebind: Some(DeviceSpace::Gray),
            },
        ),
        Color::Rgb => Ok(
            Converted {
                plan: ColorPlan::Device { space: DeviceSpace::Rgb },
                rebind: Some(DeviceSpace::Rgb),
            },
        ),
        Color::Cmyk => Ok(
            Converted {
                plan: ColorPlan::Device { space: DeviceSpace::Cmyk },
                rebind: Some(DeviceSpace::Cmyk),
            },
        ),
        Color::Other(args) => match effective(cs, args@.len(), resources) {
            Err(e) => Err(e),
            Ok(space) => operand_plan(space, args@, resources),
        },
    }
}

/// How a list of operands is read in the space `cs`, which is taken as it is.
pub open spec fn operand_plan(cs: ColorSpace, args: Seq<Operand>, resources: Resources) -> Result<
    Converted,
    RenderError,
> {
    match cs {
        ColorSpace::Icc { .. } => Err(RenderError::Other(Fault::NestedIcc)),
        ColorSpace::DeviceGray | ColorSpace::CalGray => device_plan(DeviceSpace::Gray, args),
        ColorSpace::DeviceRGB | ColorSpace::CalRGB => device_plan(DeviceSpace::Rgb, args),
        ColorSpace::DeviceCMYK | ColorSpace::CalCMYK => device_plan(DeviceSpace::Cmyk, args),
        ColorSpace::DeviceN { inputs, outputs, alt } => {
            if args.len() != inputs {
                Err(RenderError::Other(Fault::ColorArity))
            } else if first_non_number(args, args.len() as int) {
                Err(RenderError::Other(Fault::OperandType))
            } else {
                match tint_target(*alt) {
                    None => Err(RenderError::Unimplemented(Unsupported::DeviceNAlternate)),
                    Some(space) => if outputs < space.components() {
                        Err(RenderError::Other(Fault::ColorArity))
                    } else {
                        Ok(Converted { plan: ColorPlan::Tint { alt: space }, rebind: None })
                    },
                }
            }
        },
        ColorSpace::Separation { name, alt, tint } => {
            if args.len() != 1 {
                Err(RenderError::Other(Fault::ColorArity))
            } else if !args[0].is_number() {
                Err(RenderError::Other(Fault::OperandType))
            } else {
                match tint_target(*alt) {
                    None => Err(RenderError::Unimplemented(Unsupported::SeparationAlternate)),
                    Some(space) => Ok(
                        Converted { plan: ColorPlan::Tint { alt: space }, rebind: None },
                    ),
                }
            }
        },
        ColorSpace::Indexed(base, hival, lookup) => palette_plan(*base, lookup@, args),
        ColorSpace::Pattern => {
            if args.len() == 0 {
                Err(RenderError::Other(Fault::ColorArity))
            } else {
                match args[0] {
                    Operand::Name(name) => match position(resources.patterns@, name@) {
                        Some(i) => Ok(
                            Converted {
                                plan: ColorPlan::Pattern { pattern: resources.patterns@[i].1 },
                                rebind: None,
                            },
                        ),
                        None => Err(
                            RenderError::MissingResource {
                                kind: ResourceKind::Pattern,
                                name: name,
                            },
                        ),
                    },
                    _ => Err(RenderError::Other(Fault::OperandType)),
                }
            }
        },
        ColorSpace::Other => Err(RenderError::Unimplemented(Unsupported::OtherColorSpace)),
        ColorSpace::Named(_) => Err(RenderError::Unimplemented(Unsupported::NestedNamed)),
    }
}

/// Whether every operand is a number.
fn all_numbers(args: &Vec<Operand>) -> (b: bool)
    ensures
        b == !first_non_number(args@, args@.len() as int),
{
    let mut i: usize = 0;
    while i < args.len()
        invariant
            i <= args.len(),
            forall|j: int| 0 <= j < i ==> (#[trigger] args@[j]).is_number(),
        decreases args.len() - i,
    {
        if !args[i].is_number() {
            return false;
        }
        i += 1;
    }
    true
}

fn device_operands(space: DeviceSpace, args: &Vec<Operand>) -> (r: Result<Converted, RenderError>)
    ensures
        r == device_plan(space, args@),
{
    if args.len() != space.components() {
        Err(RenderError::Other(Fault::ColorArity))
    } else if !all_numbers(args) {
        Err(RenderError::Other(Fault::OperandType))
    } else {
        Ok(Converted { plan: ColorPlan::Device { space }, rebind: None })
    }
}

fn like_device(cs: &ColorSpace) -> (r: Option<DeviceSpace>)
    ensures
        r == device_like(*cs),
{
    match cs {
        ColorSpace::DeviceGray | ColorSpace::CalGray => Some(DeviceSpace::Gray),
        ColorSpace::DeviceRGB | ColorSpace::CalRGB => Some(DeviceSpace::Rgb),
        ColorSpace::DeviceCMYK | ColorSpace::CalCMYK => Some(DeviceSpace::Cmyk),
        _ => None,
    }
}

fn tint_alternate(alt: &ColorSpace) -> (r: Option<DeviceSpace>)
    ensures
        r == tint_target(*alt),
{
    match alt {
        ColorSpace::Icc { components, alternate } => match alternate {
            Some(b) => like_device(&**b),
            None => {
                if *components == 1 {
                    Some(DeviceSpace::Gray)
                } else if *components == 3 {
                    Some(DeviceSpace::Rgb)
                } else if *components == 4 {
                    Some(DeviceSpace::Cmyk)
                } else {
                    None
                }
            },
        },
        _ => like_device(alt),
    }
}

fn palette_operands(base: &ColorSpace, lookup: &Vec<u8>, args: &Vec<Operand>) -> (r: Result<
    Converted,
    RenderError,
>)
    ensures
        r == palette_plan(*base, lookup@, args@),
{
    if args.len() != 1 {
        return Err(RenderError::Other(Fault::ColorArity));
    }
    let i: i32 = match &args[0] {
        Operand::Integer(i) => *i,
        _ => {
            return Err(RenderError::Other(Fault::OperandType));
        },
    };
    let space: DeviceSpace = match tint_alternate(base) {
        Some(DeviceSpace::Rgb) => DeviceSpace::Rgb,
        Some(DeviceSpace::Cmyk) => DeviceSpace::Cmyk,
        _ => {
            return Err(RenderError::Unimplemented(Unsupported::IndexedBase));
        },
    };
    let k: u64 = space.components() as u64;
    if i < 0 {
        return Err(RenderError::Other(Fault::PaletteIndex));
    }
    let index: u64 = i as u64;
    assert(k * index <= 4 * 0x7fff_ffff) by (nonlinear_arith)
        requires
            k <= 4,
            index <= 0x7fff_ffff,
    ;
    if k * index + k > lookup.len() as u64 {
        return Err(RenderError::Other(Fault::PaletteIndex));
    }
    let at: usize = (k * index) as usize;
    Ok(
        Converted {
            plan: ColorPlan::Palette {
                space,
                c0: lookup[at],
                c1: lookup[at + 1],
                c2: lookup[at + 2],
                c3: if k == 4 {
                    lookup[at + 3]
                } else {
                    0
                },
            },
            rebind: None,
        },
    )
}

fn operand_color(cs: &ColorSpace, args: &Vec<Operand>, resources: &Resources) -> (r: Result<
    Converted,
    RenderError,
>)
    ensures
        r == operand_plan(*cs, args@, *resources),
{
    match cs {
        ColorSpace::Icc { .. } => Err(RenderError::Other(Fault::NestedIcc)),
        ColorSpace::DeviceGray | ColorSpace::CalGray => device_operands(DeviceSpace::Gray, args),
        ColorSpace::DeviceRGB | ColorSpace::CalRGB => device_operands(DeviceSpace::Rgb, args),
        ColorSpace::DeviceCMYK | ColorSpace::CalCMYK => device_operands(DeviceSpace::Cmyk, args),
        ColorSpace::DeviceN { inputs, outputs, alt } => {
            if args.len() != *inputs {
                Err(RenderError::Other(Fault::ColorArity))
            } else if !all_numbers(args) {
                Err(RenderError::Other(Fault::OperandType))
            } else {
                match tint_alternate(&**alt) {
                    None => Err(RenderError::Unimplemented(Unsupported::DeviceNAlternate)),
                    Some(space) => if *outputs < space.components() {
                        Err(RenderError::Other(Fault::ColorArity))
                    } else {
                        Ok(Converted { plan: ColorPlan::Tint { alt: space }, rebind: None })
                    },
                }
            }
        },
        ColorSpace::Separation { name, alt, tint } => {
            if args.len() != 1 {
                return Err(RenderError::Other(Fault::ColorArity));
            }
            if !args[0].is_number() {
                return Err(RenderError::Other(Fault::OperandType));
            }
            match tint_alternate(&**alt) {
                None => Err(RenderError::Unimplemented(Unsupported::SeparationAlternate)),
                Some(space) => Ok(
                    Converted { plan: ColorPlan::Tint { alt: space }, rebind: None },
                ),
            }
        },
        ColorSpace::Indexed(base, hival, lookup) => palette_operands(&**base, lookup, args),
        ColorSpace::Pattern => {
            if args.len() == 0 {
                return Err(RenderError::Other(Fault::ColorArity));
            }
            match &args[0] {
                Operand::Name(name) => match find(&resources.patterns, name) {
                    Some(i) => Ok(
                        Converted {
                            plan: ColorPlan::Pattern { pattern: resources.patterns[i].1 },
                            rebind: None,
                        },
                    ),
                    None => Err(
                        RenderError::MissingResource {
                            kind: ResourceKind::Pattern,
                            name: name.clone(),
                        },
                    ),
                },
                _ => Err(RenderError::Other(Fault::OperandType)),
            }
        },
        ColorSpace::Other => Err(RenderError::Unimplemented(Unsupported::OtherColorSpace)),
        ColorSpace::Named(_) => Err(RenderError::Unimplemented(Unsupported::NestedNamed)),
    }
}

/// Decides how the colour `color` is read while `cs` is the current colour
/// space; see [`color_plan`] for the rules.
pub fn convert_color2(cs: &ColorSpace, color: &Color, resources: &Resources) -> (r: Result<
    Converted,
    RenderError,
>)
    ensures
        r == color_plan(*cs, *color, *resources),
{
    match color {
        Color::Gray => Ok(
            Converted {
                plan: ColorPlan::Device { space: DeviceSpace::Gray },
                rebind: Some(DeviceSpace::Gray),
            },
        ),
        Color::Rgb => Ok(
            Converted {
                plan: ColorPlan::Device { space: DeviceSpace::Rgb },
                rebind: Some(DeviceSpace::Rgb),
            },
        ),
        Color::Cmyk => Ok(
            Converted {
                plan: ColorPlan::Device { space: DeviceSpace::Cmyk },
                rebind: Some(DeviceSpace::Cmyk),
            },
        ),
        Color::Other(args) => {
            let space: &ColorSpace = match cs {
                ColorSpace::Icc { components, alternate } => match alternate {
                    Some(b) => &**b,
                    None => {
                        if args.len() == 1 {
                            &ColorSpace::DeviceGray
                        } else if args.len() == 3 {
                            &ColorSpace::DeviceRGB
                        } else if args.len() == 4 {
                            &ColorSpace::DeviceCMYK
                        } else {
                            return Err(RenderError::Other(Fault::IccWithoutAlternate));
                        }
                    },
                },
                ColorSpace::Named(name) => match find(&resources.color_spaces, name) {
                    Some(i) => &resources.color_spaces[i].1,
                    None => {
                        return Err(
                            RenderError::MissingResource {
                                kind: ResourceKind::ColorSpace,
                                name: name.clone(),
                            },
                        );
                    },
                },
                _ => cs,
            };
            operand_color(space, args, resources)
        },
    }
}

/// What [`convert_color`] makes of the outcome of [`convert_color2`]: with
/// `allow_error` a failure becomes solid black.
pub open spec fn tolerant(outcome: Result<Converted, RenderError>, allow_error: bool) -> Result<
    Converted,
    RenderError,
> {
    match outcome {
        Ok(c) => Ok(c),
        Err(e) => if allow_error {
            Ok(Converted { plan: ColorPlan::Black, rebind: None })
        } else {
            Err(e)
        },
    }
}

/// As [`convert_color2`], but with `allow_error` set a colour that cannot
/// be converted is painted solid black instead of failing the page.
pub fn convert_color(
    cs: &ColorSpace,
    color: &Color,
    resources: &Resources,
    allow_error: bool,
) -> (r: Result<Converted, RenderError>)
    ensures
        r == tolerant(color_plan(*cs, *color, *resources), allow_error),
        allow_error ==> r is Ok,
{
    match convert_color2(cs, color, resources) {
        Ok(c) => Ok(c),
        Err(e) => if allow_error {
            Ok(Converted { plan: ColorPlan::Black, rebind: None })
        } else {
            Err(e)
        },
    }
}

} // verus!
