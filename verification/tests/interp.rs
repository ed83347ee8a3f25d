use pdf_render::clip::{ClipPlan, FillRule, Winding};
use pdf_render::colorspace::{ColorSpace, ExtGState, ObjectRef, Resources, XObjectKind};
use pdf_render::error::{RenderError, ResourceKind};
use pdf_render::fontentry::FontEntry;
use pdf_render::interp::{color_space, Action, Op, Segment, SpaceBinding};
use pdf_render::text::{DrawKind, TextMode};
use pdf_render::{BlendMode, RenderState};
use std::sync::Arc;

// the numbers of the state in these tests: a transform as six numbers
type Matrix = [f32; 6];
const IDENTITY: Matrix = [1., 0., 0., 1., 0., 0.];

fn state() -> RenderState<Matrix, usize> {
    RenderState::new(IDENTITY)
}

fn run(s: &mut RenderState<Matrix, usize>, op: Op) -> Action<usize> {
    s.draw_op(&op, &Resources::new(), false).unwrap()
}

fn font() -> Arc<FontEntry> {
    Arc::new(FontEntry { cmap: Default::default(), is_cid: false, name: "F".to_string() })
}

#[test]
fn new_state_is_blank() {
    let s = state();
    assert_eq!(s.current.graphics_state.clip_path_id, None);
    assert!(!s.current.graphics_state.overprint_fill);
    assert_eq!(s.current.text_state.mode, TextMode::Fill);
    assert!(s.current.text_state.font_entry.is_none());
    assert!(s.stack.is_empty());
    assert!(!s.contour_open);
    assert_eq!(s.blend_mode_fill(), BlendMode::Overlay);
    assert_eq!(s.blend_mode_stroke(), BlendMode::Overlay);
}

#[test]
fn move_to_flushes_an_open_contour() {
    let mut s = state();
    assert_eq!(run(&mut s, Op::MoveTo), Action::Append { flush: false, segment: Segment::MoveTo });
    assert_eq!(run(&mut s, Op::LineTo), Action::Append { flush: false, segment: Segment::LineTo });
    assert_eq!(run(&mut s, Op::Close), Action::Append { flush: false, segment: Segment::Close });
    assert_eq!(run(&mut s, Op::MoveTo), Action::Append { flush: true, segment: Segment::MoveTo });
    assert_eq!(run(&mut s, Op::Rect), Action::Append { flush: true, segment: Segment::Rect });
    assert_eq!(run(&mut s, Op::Rect), Action::Append { flush: false, segment: Segment::Rect });
    assert_eq!(run(&mut s, Op::CurveTo), Action::Append { flush: false, segment: Segment::CurveTo });
    assert_eq!(run(&mut s, Op::EndPath), Action::EndPath { flush: true, clip_after: None });
    assert!(!s.contour_open);
    assert_eq!(run(&mut s, Op::EndPath), Action::EndPath { flush: false, clip_after: None });
}

#[test]
fn painting_flushes_and_clears() {
    let mut s = state();
    run(&mut s, Op::MoveTo);
    run(&mut s, Op::LineTo);
    assert_eq!(
        run(&mut s, Op::Stroke),
        Action::Draw {
            flush: true,
            kind: DrawKind::Stroke,
            fill_rule: FillRule::Winding,
            fill: BlendMode::Overlay,
            stroke: BlendMode::Overlay,
            clip: None,
            clip_after: None
        }
    );
    assert_eq!(
        run(&mut s, Op::Fill { winding: Winding::EvenOdd }),
        Action::Draw {
            flush: false,
            kind: DrawKind::Fill,
            fill_rule: FillRule::EvenOdd,
            fill: BlendMode::Overlay,
            stroke: BlendMode::Overlay,
            clip: None,
            clip_after: None
        }
    );
    assert_eq!(
        run(&mut s, Op::FillAndStroke { winding: Winding::NonZero }),
        Action::Draw {
            flush: false,
            kind: DrawKind::FillStroke,
            fill_rule: FillRule::Winding,
            fill: BlendMode::Overlay,
            stroke: BlendMode::Overlay,
            clip: None,
            clip_after: None
        }
    );
}

#[test]
fn save_restore_gives_back_the_transform() {
    // q 10 0 0 10 0 0 cm Q 100 100 m 200 200 l S
    let mut s = state();
    assert_eq!(run(&mut s, Op::Save), Action::Nothing);
    assert_eq!(run(&mut s, Op::Transform), Action::Numbers);
    s.current.numbers = [10., 0., 0., 10., 0., 0.];
    assert_eq!(run(&mut s, Op::Restore), Action::Nothing);
    assert_eq!(s.current.numbers, IDENTITY);
    run(&mut s, Op::MoveTo);
    run(&mut s, Op::LineTo);
    assert!(matches!(run(&mut s, Op::Stroke), Action::Draw { kind: DrawKind::Stroke, .. }));
    assert_eq!(s.current.numbers, IDENTITY);
    assert!(s.stack.is_empty());
}

#[test]
fn balanced_save_restore_restores_everything() {
    let mut s = state();
    s.set_font(Some(font()));
    s.set_clip(4, ClipPlan::Rect);
    let before = s.current.clone();
    run(&mut s, Op::Save);
    run(&mut s, Op::TextRenderMode { mode: TextMode::Invisible });
    run(&mut s, Op::Save);
    s.set_font(None);
    s.set_clip(9, ClipPlan::Plain);
    s.current.numbers = [2., 0., 0., 2., 5., 5.];
    run(&mut s, Op::Restore);
    assert_eq!(s.current.text_state.mode, TextMode::Invisible);
    run(&mut s, Op::Restore);
    assert_eq!(s.current, before);
    assert!(s.stack.is_empty());
}

#[test]
fn restore_on_an_empty_stack_fails() {
    let mut s = state();
    assert_eq!(
        s.draw_op(&Op::Restore, &Resources::new(), true),
        Err(RenderError::GraphicsStackUnderflow)
    );
    run(&mut s, Op::Save);
    run(&mut s, Op::Restore);
    assert_eq!(
        s.draw_op(&Op::Restore, &Resources::new(), false),
        Err(RenderError::GraphicsStackUnderflow)
    );
}

#[test]
fn operators_without_effect() {
    let mut s = state();
    for op in [
        Op::BeginMarkedContent,
        Op::EndMarkedContent,
        Op::MarkedContentPoint,
        Op::Shade,
        Op::RenderingIntent,
        Op::EndText,
    ] {
        assert_eq!(run(&mut s, op), Action::Nothing);
    }
    for op in [
        Op::Transform,
        Op::LineWidth,
        Op::Dash,
        Op::LineJoin,
        Op::LineCap,
        Op::MiterLimit,
        Op::Flatness,
        Op::BeginText,
        Op::CharSpacing,
        Op::WordSpacing,
        Op::TextScaling,
        Op::Leading,
        Op::TextRise,
        Op::MoveTextPosition,
        Op::SetTextMatrix,
        Op::TextNewline,
    ] {
        assert_eq!(run(&mut s, op), Action::Numbers);
    }
    assert!(s.stack.is_empty());
}

fn resources() -> Resources {
    Resources {
        color_spaces: vec![("Cs1".to_string(), ColorSpace::DeviceCMYK)],
        graphics_states: vec![
            (
                "Over".to_string(),
                ExtGState {
                    overprint: Some(true),
                    overprint_fill: Some(false),
                    overprint_mode: Some(1),
                    font: Some(ObjectRef { id: 3, gen: 0 }),
                },
            ),
            (
                "Both".to_string(),
                ExtGState {
                    overprint: Some(true),
                    overprint_fill: None,
                    overprint_mode: None,
                    font: None,
                },
            ),
        ],
        fonts: vec![("F1".to_string(), ObjectRef { id: 7, gen: 0 })],
        xobjects: vec![
            ("Im".to_string(), (ObjectRef { id: 20, gen: 0 }, XObjectKind::Image)),
            ("Fm".to_string(), (ObjectRef { id: 21, gen: 0 }, XObjectKind::Form)),
            ("Ps".to_string(), (ObjectRef { id: 22, gen: 0 }, XObjectKind::Postscript)),
        ],
        ..Resources::new()
    }
}

#[test]
fn ext_gstate_sets_overprint() {
    let mut s = state();
    let r = resources();
    let a = s.draw_op(&Op::GraphicsState { name: "Over".to_string() }, &r, false).unwrap();
    assert_eq!(a, Action::ExtGState { index: 0, font: Some(ObjectRef { id: 3, gen: 0 }) });
    assert!(!s.current.graphics_state.overprint_fill);
    assert!(s.current.graphics_state.overprint_stroke);
    assert_eq!(s.current.graphics_state.overprint_mode, 1);
    assert_eq!(s.blend_mode_stroke(), BlendMode::Darken);
    assert_eq!(s.blend_mode_fill(), BlendMode::Overlay);
    let a = s.draw_op(&Op::GraphicsState { name: "Both".to_string() }, &r, false).unwrap();
    assert_eq!(a, Action::ExtGState { index: 1, font: None });
    assert!(s.current.graphics_state.overprint_fill);
    assert_eq!(s.current.graphics_state.overprint_mode, 1);
    assert_eq!(
        s.draw_op(&Op::FillColor, &r, false),
        Ok(Action::Color { stroke: false, mode: BlendMode::Darken })
    );
    assert_eq!(
        s.draw_op(&Op::StrokeColor, &r, false),
        Ok(Action::Color { stroke: true, mode: BlendMode::Darken })
    );
}

#[test]
fn missing_resources_fail_or_are_skipped() {
    let r = resources();
    let cases = [
        (Op::GraphicsState { name: "X".to_string() }, ResourceKind::ExtGState),
        (Op::FillColorSpace { name: "X".to_string() }, ResourceKind::ColorSpace),
        (Op::StrokeColorSpace { name: "X".to_string() }, ResourceKind::ColorSpace),
        (Op::TextFont { name: "X".to_string() }, ResourceKind::Font),
        (Op::XObject { name: "X".to_string() }, ResourceKind::XObject),
    ];
    for (op, kind) in cases {
        let mut s = state();
        s.set_font(Some(font()));
        assert_eq!(
            s.draw_op(&op, &r, false),
            Err(RenderError::MissingResource { kind, name: "X".to_string() })
        );
        assert!(s.current.text_state.font_entry.is_some());
        assert_eq!(s.draw_op(&op, &r, true), Ok(Action::Skipped { kind }));
        // a missing font leaves the text state without font
        assert_eq!(s.current.text_state.font_entry.is_none(), kind == ResourceKind::Font);
    }
}

#[test]
fn colour_spaces_by_name() {
    let r = resources();
    assert_eq!(color_space(&"DeviceGray".to_string(), &r), Some(SpaceBinding::DeviceGray));
    assert_eq!(color_space(&"DeviceRGB".to_string(), &r), Some(SpaceBinding::DeviceRGB));
    assert_eq!(color_space(&"DeviceCMYK".to_string(), &r), Some(SpaceBinding::DeviceCMYK));
    assert_eq!(color_space(&"Pattern".to_string(), &r), Some(SpaceBinding::Pattern));
    assert_eq!(color_space(&"Cs1".to_string(), &r), Some(SpaceBinding::Resource(0)));
    assert_eq!(color_space(&"Cs2".to_string(), &r), None);
    let mut s = state();
    assert_eq!(
        s.draw_op(&Op::StrokeColorSpace { name: "Cs1".to_string() }, &r, false),
        Ok(Action::ColorSpace { stroke: true, space: SpaceBinding::Resource(0) })
    );
    assert_eq!(
        s.draw_op(&Op::FillColorSpace { name: "Pattern".to_string() }, &r, false),
        Ok(Action::ColorSpace { stroke: false, space: SpaceBinding::Pattern })
    );
}

#[test]
fn fonts_text_and_xobjects() {
    let r = resources();
    let mut s = state();
    assert_eq!(
        s.draw_op(&Op::TextFont { name: "F1".to_string() }, &r, false),
        Ok(Action::Font { font: ObjectRef { id: 7, gen: 0 } })
    );
    s.set_font(Some(font()));
    s.set_clip(2, ClipPlan::Plain);
    assert_eq!(
        s.draw_op(&Op::TextDraw, &r, false),
        Ok(Action::Text {
            kind: Some(DrawKind::Fill),
            fill: BlendMode::Overlay,
            stroke: BlendMode::Overlay,
            clip: Some(2)
        })
    );
    s.draw_op(&Op::TextRenderMode { mode: TextMode::Invisible }, &r, false).unwrap();
    assert_eq!(
        s.draw_op(&Op::TextDrawAdjusted, &r, false),
        Ok(Action::Text {
            kind: None,
            fill: BlendMode::Overlay,
            stroke: BlendMode::Overlay,
            clip: Some(2)
        })
    );
    assert_eq!(
        s.draw_op(&Op::XObject { name: "Im".to_string() }, &r, false),
        Ok(Action::Image {
            xobject: ObjectRef { id: 20, gen: 0 },
            mode: BlendMode::Overlay,
            clip: Some(2)
        })
    );
    assert_eq!(
        s.draw_op(&Op::XObject { name: "Fm".to_string() }, &r, false),
        Ok(Action::Form { xobject: ObjectRef { id: 21, gen: 0 } })
    );
    assert_eq!(
        s.draw_op(&Op::XObject { name: "Ps".to_string() }, &r, false),
        Ok(Action::Postscript { xobject: ObjectRef { id: 22, gen: 0 } })
    );
    assert_eq!(
        s.draw_op(&Op::InlineImage, &r, false),
        Ok(Action::InlineImage { mode: BlendMode::Overlay, clip: Some(2) })
    );
}

#[test]
fn nested_rectangular_clips_intersect() {
    // q W n Q wrapped clips [0,0,100,100] and [50,50,100,100]
    let mut s = state();
    run(&mut s, Op::Rect);
    assert_eq!(run(&mut s, Op::Clip { winding: Winding::NonZero }), Action::Nothing);
    assert_eq!(
        run(&mut s, Op::EndPath),
        Action::EndPath { flush: false, clip_after: Some(FillRule::Winding) }
    );
    let plan = s.plan_clip(true);
    assert_eq!(plan, ClipPlan::Rect);
    s.set_clip(0, plan);
    run(&mut s, Op::Rect);
    run(&mut s, Op::Clip { winding: Winding::NonZero });
    assert_eq!(
        run(&mut s, Op::EndPath),
        Action::EndPath { flush: false, clip_after: Some(FillRule::Winding) }
    );
    let plan = s.plan_clip(true);
    assert_eq!(plan, ClipPlan::IntersectRects);
    s.set_clip(1, plan);
    assert!(s.current.graphics_state.clip_is_rect);
    assert_eq!(s.current.graphics_state.clip_path_id, Some(1));
    // a full-page fill afterwards is painted within the second clip
    run(&mut s, Op::Rect);
    assert!(matches!(
        run(&mut s, Op::Fill { winding: Winding::NonZero }),
        Action::Draw { clip: Some(1), clip_after: None, .. }
    ));
}

#[test]
fn clip_takes_effect_after_the_painting_operator() {
    let mut s = state();
    s.set_clip(3, ClipPlan::Plain);
    run(&mut s, Op::MoveTo);
    run(&mut s, Op::LineTo);
    run(&mut s, Op::Clip { winding: Winding::NonZero });
    run(&mut s, Op::Clip { winding: Winding::EvenOdd });
    // the stroke is painted within the clip in force, then the path clips
    assert_eq!(
        run(&mut s, Op::Stroke),
        Action::Draw {
            flush: true,
            kind: DrawKind::Stroke,
            fill_rule: FillRule::Winding,
            fill: BlendMode::Overlay,
            stroke: BlendMode::Overlay,
            clip: Some(3),
            clip_after: Some(FillRule::EvenOdd)
        }
    );
    assert_eq!(s.pending_clip, None);
    // saving and restoring leaves a clip that waits alone
    run(&mut s, Op::Clip { winding: Winding::NonZero });
    run(&mut s, Op::Save);
    run(&mut s, Op::Restore);
    assert_eq!(s.pending_clip, Some(FillRule::Winding));
    assert_eq!(run(&mut s, Op::Unknown), Action::Unknown);
}

#[test]
fn clip_plans() {
    let mut s = state();
    assert_eq!(s.plan_clip(false), ClipPlan::Plain);
    s.set_clip(5, ClipPlan::Plain);
    assert_eq!(s.plan_clip(false), ClipPlan::Within { parent: 5 });
    assert_eq!(s.plan_clip(true), ClipPlan::CutCurrentByRect);
    s.set_clip(6, ClipPlan::Rect);
    assert_eq!(s.plan_clip(false), ClipPlan::CutNewByRect);
    assert_eq!(s.plan_clip(true), ClipPlan::IntersectRects);
    s.set_clip(7, ClipPlan::CutNewByRect);
    assert!(!s.current.graphics_state.clip_is_rect);
    assert!(ClipPlan::<usize>::IntersectRects.gives_rect());
    assert!(!ClipPlan::Within { parent: 1usize }.gives_rect());
}

#[test]
fn form_state_starts_afresh() {
    let mut s = state();
    s.set_font(Some(font()));
    s.set_clip(3, ClipPlan::Plain);
    run(&mut s, Op::Save);
    run(&mut s, Op::MoveTo);
    let f = s.form_state();
    assert_eq!(f.current, s.current);
    assert!(f.stack.is_empty());
    assert!(!f.contour_open);
    assert_eq!(s.stack.len(), 1);
}
