use pdf_render::colorspace::{
    convert_color, convert_color2, resolve_cs, Color, ColorPlan, ColorSpace, Converted,
    DeviceSpace, ObjectRef, Operand, Resources,
};
use pdf_render::error::{Fault, RenderError, ResourceKind, Unsupported};

fn no_resources() -> Resources {
    Resources::new()
}

fn plan(plan: ColorPlan) -> Result<Converted, RenderError> {
    Ok(Converted { plan, rebind: None })
}

fn numbers(n: usize) -> Color {
    Color::Other(vec![Operand::Number; n])
}

#[test]
fn device_operators_rebind_the_space() {
    let r = convert_color2(&ColorSpace::Pattern, &Color::Cmyk, &no_resources());
    assert_eq!(
        r,
        Ok(Converted {
            plan: ColorPlan::Device { space: DeviceSpace::Cmyk },
            rebind: Some(DeviceSpace::Cmyk)
        })
    );
    let r = convert_color2(&ColorSpace::DeviceRGB, &Color::Gray, &no_resources());
    assert_eq!(
        r,
        Ok(Converted {
            plan: ColorPlan::Device { space: DeviceSpace::Gray },
            rebind: Some(DeviceSpace::Gray)
        })
    );
}

#[test]
fn device_spaces_check_the_operand_count() {
    let none = no_resources();
    assert_eq!(
        convert_color2(&ColorSpace::DeviceRGB, &numbers(3), &none),
        plan(ColorPlan::Device { space: DeviceSpace::Rgb })
    );
    assert_eq!(
        convert_color2(&ColorSpace::CalGray, &numbers(1), &none),
        plan(ColorPlan::Device { space: DeviceSpace::Gray })
    );
    assert_eq!(
        convert_color2(&ColorSpace::DeviceCMYK, &numbers(3), &none),
        Err(RenderError::Other(Fault::ColorArity))
    );
    let mixed = Color::Other(vec![Operand::Integer(1), Operand::Number, Operand::Other]);
    assert_eq!(
        convert_color2(&ColorSpace::DeviceRGB, &mixed, &none),
        Err(RenderError::Other(Fault::OperandType))
    );
}

#[test]
fn indexed_rgb_selects_a_palette_entry() {
    let cs = ColorSpace::Indexed(Box::new(ColorSpace::DeviceRGB), 1, vec![255, 0, 0, 0, 0, 255]);
    let one = Color::Other(vec![Operand::Integer(1)]);
    assert_eq!(
        convert_color2(&cs, &one, &no_resources()),
        plan(ColorPlan::Palette { space: DeviceSpace::Rgb, c0: 0, c1: 0, c2: 255, c3: 0 })
    );
    let two = Color::Other(vec![Operand::Integer(2)]);
    assert_eq!(
        convert_color2(&cs, &two, &no_resources()),
        Err(RenderError::Other(Fault::PaletteIndex))
    );
    let minus = Color::Other(vec![Operand::Integer(-1)]);
    assert_eq!(
        convert_color2(&cs, &minus, &no_resources()),
        Err(RenderError::Other(Fault::PaletteIndex))
    );
    assert_eq!(
        convert_color2(&cs, &numbers(1), &no_resources()),
        Err(RenderError::Other(Fault::OperandType))
    );
}

#[test]
fn indexed_cmyk_and_other_bases() {
    let cs = ColorSpace::Indexed(Box::new(ColorSpace::DeviceCMYK), 0, vec![1, 2, 3, 4]);
    let zero = Color::Other(vec![Operand::Integer(0)]);
    assert_eq!(
        convert_color2(&cs, &zero, &no_resources()),
        plan(ColorPlan::Palette { space: DeviceSpace::Cmyk, c0: 1, c1: 2, c2: 3, c3: 4 })
    );
    let cs = ColorSpace::Indexed(Box::new(ColorSpace::DeviceGray), 0, vec![1, 2, 3, 4]);
    assert_eq!(
        convert_color2(&cs, &zero, &no_resources()),
        Err(RenderError::Unimplemented(Unsupported::IndexedBase))
    );
    let icc = ColorSpace::Icc { components: 3, alternate: None };
    let cs = ColorSpace::Indexed(Box::new(icc), 0, vec![1, 2, 3, 4]);
    assert_eq!(
        convert_color2(&cs, &zero, &no_resources()),
        plan(ColorPlan::Palette { space: DeviceSpace::Rgb, c0: 1, c1: 2, c2: 3, c3: 0 })
    );
}

#[test]
fn icc_goes_by_alternate_or_operand_count() {
    let none = no_resources();
    let with = ColorSpace::Icc { components: 3, alternate: Some(Box::new(ColorSpace::DeviceGray)) };
    assert_eq!(
        convert_color2(&with, &numbers(1), &none),
        plan(ColorPlan::Device { space: DeviceSpace::Gray })
    );
    let without = ColorSpace::Icc { components: 1, alternate: None };
    assert_eq!(
        convert_color2(&without, &numbers(4), &none),
        plan(ColorPlan::Device { space: DeviceSpace::Cmyk })
    );
    assert_eq!(
        convert_color2(&without, &numbers(1), &none),
        plan(ColorPlan::Device { space: DeviceSpace::Gray })
    );
    assert_eq!(
        convert_color2(&without, &numbers(2), &none),
        Err(RenderError::Other(Fault::IccWithoutAlternate))
    );
    let nested = ColorSpace::Icc {
        components: 3,
        alternate: Some(Box::new(ColorSpace::Icc { components: 3, alternate: None })),
    };
    assert_eq!(
        convert_color2(&nested, &numbers(3), &none),
        Err(RenderError::Other(Fault::NestedIcc))
    );
}

#[test]
fn named_spaces_are_looked_up_once() {
    let resources = Resources {
        color_spaces: vec![
            ("A".to_string(), ColorSpace::DeviceCMYK),
            ("B".to_string(), ColorSpace::Named("A".to_string())),
        ],
        ..Resources::new()
    };
    assert_eq!(
        convert_color2(&ColorSpace::Named("A".to_string()), &numbers(4), &resources),
        plan(ColorPlan::Device { space: DeviceSpace::Cmyk })
    );
    assert_eq!(
        convert_color2(&ColorSpace::Named("B".to_string()), &numbers(4), &resources),
        Err(RenderError::Unimplemented(Unsupported::NestedNamed))
    );
    assert_eq!(
        convert_color2(&ColorSpace::Named("C".to_string()), &numbers(4), &resources),
        Err(RenderError::MissingResource { kind: ResourceKind::ColorSpace, name: "C".to_string() })
    );
}

#[test]
fn separation_and_device_n() {
    let none = no_resources();
    let sep = |alt: ColorSpace| ColorSpace::Separation {
        name: "Spot".to_string(),
        alt: Box::new(alt),
        tint: vec![],
    };
    assert_eq!(
        convert_color2(&sep(ColorSpace::DeviceCMYK), &numbers(1), &none),
        plan(ColorPlan::Tint { alt: DeviceSpace::Cmyk })
    );
    assert_eq!(
        convert_color2(&sep(ColorSpace::DeviceCMYK), &numbers(2), &none),
        Err(RenderError::Other(Fault::ColorArity))
    );
    assert_eq!(
        convert_color2(&sep(ColorSpace::Pattern), &numbers(1), &none),
        Err(RenderError::Unimplemented(Unsupported::SeparationAlternate))
    );
    assert_eq!(
        convert_color2(
            &sep(ColorSpace::Icc { components: 3, alternate: None }),
            &numbers(1),
            &none
        ),
        plan(ColorPlan::Tint { alt: DeviceSpace::Rgb })
    );
    assert_eq!(
        convert_color2(&sep(ColorSpace::CalGray), &numbers(1), &none),
        plan(ColorPlan::Tint { alt: DeviceSpace::Gray })
    );
    assert_eq!(
        convert_color2(
            &sep(ColorSpace::Icc { components: 2, alternate: None }),
            &numbers(1),
            &none
        ),
        Err(RenderError::Unimplemented(Unsupported::SeparationAlternate))
    );
    let n = |alt: ColorSpace, outputs: usize| ColorSpace::DeviceN {
        inputs: 2,
        outputs,
        alt: Box::new(alt),
    };
    assert_eq!(
        convert_color2(&n(ColorSpace::DeviceRGB, 3), &numbers(2), &none),
        plan(ColorPlan::Tint { alt: DeviceSpace::Rgb })
    );
    assert_eq!(
        convert_color2(&n(ColorSpace::DeviceRGB, 3), &numbers(3), &none),
        Err(RenderError::Other(Fault::ColorArity))
    );
    assert_eq!(
        convert_color2(&n(ColorSpace::DeviceRGB, 2), &numbers(2), &none),
        Err(RenderError::Other(Fault::ColorArity))
    );
    assert_eq!(
        convert_color2(&n(ColorSpace::CalRGB, 3), &numbers(2), &none),
        plan(ColorPlan::Tint { alt: DeviceSpace::Rgb })
    );
    assert_eq!(
        convert_color2(&n(ColorSpace::Pattern, 3), &numbers(2), &none),
        Err(RenderError::Unimplemented(Unsupported::DeviceNAlternate))
    );
}

#[test]
fn pattern_names_a_resource() {
    let resources = Resources {
        patterns: vec![("Pat1".to_string(), ObjectRef { id: 12, gen: 0 })],
        ..Resources::new()
    };
    let named = |n: &str| Color::Other(vec![Operand::Name(n.to_string())]);
    assert_eq!(
        convert_color2(&ColorSpace::Pattern, &named("Pat1"), &resources),
        plan(ColorPlan::Pattern { pattern: ObjectRef { id: 12, gen: 0 } })
    );
    assert_eq!(
        convert_color2(&ColorSpace::Pattern, &named("Pat2"), &resources),
        Err(RenderError::MissingResource { kind: ResourceKind::Pattern, name: "Pat2".to_string() })
    );
    assert_eq!(
        convert_color2(&ColorSpace::Pattern, &numbers(0), &resources),
        Err(RenderError::Other(Fault::ColorArity))
    );
    assert_eq!(
        convert_color2(&ColorSpace::Pattern, &numbers(1), &resources),
        Err(RenderError::Other(Fault::OperandType))
    );
    assert_eq!(
        convert_color2(&ColorSpace::Other, &numbers(1), &resources),
        Err(RenderError::Unimplemented(Unsupported::OtherColorSpace))
    );
}

#[test]
fn tolerant_conversion_paints_black() {
    let none = no_resources();
    assert_eq!(
        convert_color(&ColorSpace::DeviceRGB, &numbers(1), &none, true),
        plan(ColorPlan::Black)
    );
    assert_eq!(
        convert_color(&ColorSpace::DeviceRGB, &numbers(1), &none, false),
        Err(RenderError::Other(Fault::ColorArity))
    );
    assert_eq!(
        convert_color(&ColorSpace::DeviceRGB, &numbers(3), &none, true),
        plan(ColorPlan::Device { space: DeviceSpace::Rgb })
    );
}

#[test]
fn resolve_one_level() {
    let resources = Resources {
        color_spaces: vec![("A".to_string(), ColorSpace::DeviceCMYK)],
        ..Resources::new()
    };
    let icc = |n: u32| ColorSpace::Icc { components: n, alternate: None };
    assert_eq!(resolve_cs(&icc(1), &resources), Some(&ColorSpace::DeviceGray));
    assert_eq!(resolve_cs(&icc(3), &resources), Some(&ColorSpace::DeviceRGB));
    assert_eq!(resolve_cs(&icc(4), &resources), Some(&ColorSpace::DeviceCMYK));
    assert_eq!(resolve_cs(&icc(2), &resources), None);
    assert_eq!(
        resolve_cs(&ColorSpace::Named("A".to_string()), &resources),
        Some(&ColorSpace::DeviceCMYK)
    );
    assert_eq!(resolve_cs(&ColorSpace::Named("Z".to_string()), &resources), None);
    assert_eq!(resolve_cs(&ColorSpace::Pattern, &resources), Some(&ColorSpace::Pattern));
    assert_eq!(DeviceSpace::Cmyk.components(), 4);
}
