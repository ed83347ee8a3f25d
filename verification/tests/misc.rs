use pdf_render::backend::{DrawMode, FillMode, OutlineBuilder};
use pdf_render::clip::{ClipPathId, ClipPaths, FillRule, Winding};
use pdf_render::error::RenderError;
use pdf_render::graphics::Stack;
use pdf_render::scroll::{next_page, prev_page, ContinuousScroll, CurrentPageReplacement};
use pdf_render::span::{Size, TextChar, TextSpan};
use pdf_render::standard::{
    load_font, strip_subset_prefix, Dump, FontSource, StandardFonts,
};
use pdf_render::text::DrawKind;
use pdf_render::tracer::{DrawItem, Tracer, VectorPath};
use pdf_render::{BlendMode, ScrollDirection};

#[test]
fn stack_saves_and_restores_in_order() {
    let mut s: Stack<u32> = Stack::new();
    assert_eq!(s.depth(), 0);
    assert_eq!(s.restore(), Err(RenderError::GraphicsStackUnderflow));
    s.save(1);
    s.save(2);
    assert_eq!(s.depth(), 2);
    assert_eq!(s.restore(), Ok(2));
    assert_eq!(s.restore(), Ok(1));
    assert_eq!(s.restore(), Err(RenderError::GraphicsStackUnderflow));
}

#[test]
fn clip_paths_get_consecutive_identifiers() {
    let mut paths: ClipPaths<&str> = ClipPaths::new();
    let a = paths.create_clip_path("a", FillRule::Winding, None);
    let b = paths.create_clip_path("b", FillRule::EvenOdd, Some(a));
    let c = paths.create_clip_path("c", FillRule::Winding, Some(ClipPathId(17)));
    assert_eq!((a, b, c), (ClipPathId(0), ClipPathId(1), ClipPathId(2)));
    assert_eq!(paths.len(), 3);
    assert_eq!(paths.get(b).unwrap().parent, Some(a));
    assert_eq!(paths.get(b).unwrap().path, "b");
    // a parent that is not registered is dropped
    assert_eq!(paths.get(c).unwrap().parent, None);
    assert!(paths.get(ClipPathId(3)).is_none());
    assert_eq!(Winding::NonZero.cvt(), FillRule::Winding);
    assert_eq!(Winding::EvenOdd.cvt(), FillRule::EvenOdd);
}

#[test]
fn draw_mode_parts() {
    let fill = FillMode { color: (0.0f32, 1.0f32, 1.0f32), alpha: 1.0f32, mode: BlendMode::Darken };
    let stroke = FillMode { color: (0.0f32, 0.0f32, 0.0f32), alpha: 0.5f32, mode: BlendMode::Overlay };
    let m: DrawMode<_, u8> = DrawMode::Fill { fill };
    assert_eq!(m.fill(), Some(&fill));
    assert_eq!(m.stroke(), None);
    assert_eq!(m.kind(), DrawKind::Fill);
    let m = DrawMode::Stroke { stroke, stroke_mode: 3u8 };
    assert_eq!(m.fill(), None);
    assert_eq!(m.stroke(), Some((&stroke, &3)));
    let m = DrawMode::FillStroke { fill, stroke, stroke_mode: 3u8 };
    assert_eq!(m.fill(), Some(&fill));
    assert_eq!(m.stroke(), Some((&stroke, &3)));
    assert_eq!(m.kind(), DrawKind::FillStroke);
    assert_eq!(DrawMode::of_kind(DrawKind::Stroke, fill, stroke, 3u8), DrawMode::Stroke {
        stroke,
        stroke_mode: 3
    });
    assert_eq!(OutlineBuilder::default(), OutlineBuilder {});
}

#[test]
fn tracer_records_in_order() {
    type Item = DrawItem<VectorPath<&'static str, u8, u8, u8>, u8, u8, &'static str>;
    let mut t: Tracer<Item, &str, (i32, i32)> = Tracer::new((0, 0));
    t.set_view_box((3, 4));
    assert_eq!(t.view_box(), (3, 4));
    let clip = t.create_clip_path("clip", FillRule::Winding, None);
    t.bug_op(7);
    t.draw("outline", DrawMode::FillStroke { fill: 1, stroke: 2, stroke_mode: 3 }, 9, Some(clip));
    t.bug_op(8);
    t.add_text("span", None);
    t.add(DrawItem::Image(5));
    let items = t.finish();
    assert_eq!(items.len(), 3);
    match &items[0] {
        DrawItem::Vector(v) => {
            assert_eq!(v.outline, "outline");
            assert_eq!(v.fill, Some(1));
            assert_eq!(v.stroke, Some((2, 3)));
            assert_eq!(v.op_nr, 7);
            assert_eq!(v.clip, Some(ClipPathId(0)));
        }
        _ => panic!("not a vector path"),
    }
    assert!(matches!(items[1], DrawItem::Text("span", None)));
    assert!(matches!(items[2], DrawItem::Image(5)));
}

#[test]
fn dump_settings() {
    assert_eq!(Dump::from_setting(None), Dump::Never);
    assert_eq!(Dump::from_setting(Some(&"always".to_string())), Dump::Always);
    assert_eq!(Dump::from_setting(Some(&"error".to_string())), Dump::OnError);
    assert_eq!(Dump::from_setting(Some(&"never".to_string())), Dump::Never);
    assert_eq!(Dump::from_setting(Some(&"Always".to_string())), Dump::Never);
    assert!(Dump::Always.applies(false));
    assert!(Dump::OnError.applies(true));
    assert!(!Dump::OnError.applies(false));
    assert!(!Dump::Never.applies(true));
    assert_eq!(pdf_render::standard::dump_file_name(Some(&"Abc".to_string())), "font_Abc");
    assert_eq!(pdf_render::standard::dump_file_name(None), "font_unnamed");
}

#[test]
fn standard_fonts_from_json() {
    let json = br#"{"Helvetica": "MyriadPro-Regular.otf", "Arial": "Arial.ttf",
        "Times-Roman": "MinionPro-Regular.otf"}"#;
    let table = StandardFonts::parse(&json.to_vec()).unwrap();
    assert_eq!(table.fonts.len(), 3);
    assert_eq!(
        table.file_for(&"Helvetica".to_string()),
        Some(&"MyriadPro-Regular.otf".to_string())
    );
    assert_eq!(table.file_for(&"Courier".to_string()), Some(&"Arial.ttf".to_string()));
    assert!(StandardFonts::parse(&b"[1, 2]".to_vec()).is_none());
    assert!(StandardFonts::parse(&b"{\"a\": 1}".to_vec()).is_none());
    assert!(StandardFonts::parse(&b"{".to_vec()).is_none());
    let empty = StandardFonts::parse(&b"{}".to_vec()).unwrap();
    assert_eq!(empty.file_for(&"Helvetica".to_string()), None);
}

#[test]
fn font_sources() {
    let table = StandardFonts { fonts: vec![("Helvetica".to_string(), "h.otf".to_string())] };
    let name = "Helvetica".to_string();
    assert_eq!(load_font(true, Some(&name), &table), FontSource::Embedded);
    assert_eq!(load_font(true, None, &table), FontSource::Embedded);
    assert_eq!(load_font(false, Some(&name), &table), FontSource::Standard("h.otf".to_string()));
    assert_eq!(load_font(false, Some(&"Symbol".to_string()), &table), FontSource::Missing);
    assert_eq!(load_font(false, None, &table), FontSource::Missing);
}

#[test]
fn subset_prefixes() {
    assert_eq!(strip_subset_prefix(&"ABCDEF+Times-Roman".to_string()), "Times-Roman");
    assert_eq!(strip_subset_prefix(&"Times-Roman".to_string()), "Times-Roman");
    assert_eq!(strip_subset_prefix(&"A+B+C".to_string()), "B");
    assert_eq!(strip_subset_prefix(&"A+".to_string()), "");
    assert_eq!(strip_subset_prefix(&"+x".to_string()), "x");
    assert_eq!(strip_subset_prefix(&"".to_string()), "");
}

#[test]
fn pages_before_and_after() {
    assert_eq!(next_page(3, 10), Some(4));
    assert_eq!(next_page(9, 10), Some(10));
    assert_eq!(next_page(10, 10), None);
    assert_eq!(next_page(u32::MAX, u32::MAX), None);
    assert_eq!(prev_page(0), None);
    assert_eq!(prev_page(5), Some(4));
}

#[test]
fn scroll_window_keeps_six_pages() {
    let mut w: ContinuousScroll<f32> = ContinuousScroll::new();
    assert!(!w.go_to_page(5, 5, 0.0));
    assert_eq!(w.head(), None);
    assert!(w.go_to_page(3, 20, 30.0));
    for p in 4..10 {
        w.push_next(p, p as f32);
    }
    assert_eq!(w.iter().len(), 6);
    assert_eq!((w.head(), w.tail()), (Some(4), Some(9)));
    w.push_prev(3, 3.0);
    assert_eq!(w.iter().len(), 6);
    assert_eq!((w.head(), w.tail()), (Some(3), Some(8)));
    assert_eq!(w.iter()[1], (4, 4.0));
    let _ = ScrollDirection::Up;
}

#[test]
fn current_page() {
    let c = CurrentPageReplacement::new(10, 9, 12.5f32);
    assert!(c.is_last_page());
    assert!(!c.is_first_page());
    assert_eq!(c.get_current_page_nr(), 9);
    assert_eq!(c.get_top_y_offset(), 12.5);
    let c = CurrentPageReplacement::new(0, 0, 0.0f32);
    assert!(!c.is_last_page());
    assert!(c.is_first_page());
}

#[test]
fn span_parts() {
    let span = TextSpan {
        width: 30.0f32,
        text: "a\u{e9}b".to_string(),
        chars: vec![
            TextChar { offset: 0, pos: 0.0f32, width: 10.0f32 },
            TextChar { offset: 1, pos: 10.0, width: 10.0 },
            TextChar { offset: 3, pos: 20.0, width: 10.0 },
        ],
        span: (),
    };
    let parts = span.parts();
    let texts: Vec<&str> = parts.iter().map(|p| p.text).collect();
    assert_eq!(texts, vec!["a", "\u{e9}", "b"]);
    assert_eq!(parts[1].pos, 10.0);
    assert_eq!(parts[1].offset, 1);
    let rparts = span.rparts();
    let texts: Vec<&str> = rparts.iter().map(|p| p.text).collect();
    assert_eq!(texts, vec!["b", "\u{e9}", "a"]);
    assert_eq!(Size::new(3u32, 4u32), Size { width: 3, height: 4 });
}
