use pdf_render::font::{CidToGidMap, FontKind, FontProgram, PdfFont};
use pdf_render::fontentry::FontEntry;
use pdf_render::span::{span_chars, TextSpan};
use pdf_render::text::{decode_codes, draw_text, DrawKind, ShownGlyph, TextMode};
use pdf_render::TextState;

fn latin(is_cid: bool) -> FontEntry {
    let mut cmap = std::collections::HashMap::new();
    for c in b'A'..=b'z' {
        cmap.insert(c as u16, (c as u32 - 60, Some((c as char).to_string())));
    }
    cmap.insert(0x20, (3, Some(" ".to_string())));
    cmap.insert(0x2A, (4, None));
    cmap.insert(0x100, (5, Some("\u{e9}t\u{e9}".to_string())));
    FontEntry { cmap, is_cid, name: "Helvetica".to_string() }
}

#[test]
fn codes_of_single_bytes() {
    assert_eq!(decode_codes(&vec![0x41, 0xff, 0x00], false), vec![0x41, 0xff, 0]);
    assert_eq!(decode_codes(&vec![], false), Vec::<u16>::new());
}

#[test]
fn codes_of_two_bytes_high_byte_first() {
    assert_eq!(decode_codes(&vec![0x01, 0x02, 0xff, 0xfe], true), vec![0x0102, 0xfffe]);
    // a last odd byte is left over
    assert_eq!(decode_codes(&vec![0x01, 0x02, 0x03], true), vec![0x0102]);
}

#[test]
fn one_glyph_a() {
    let mut text = String::new();
    let glyphs = draw_text(&latin(false), &vec![b'A'], &mut text);
    assert_eq!(text, "A");
    assert_eq!(
        glyphs,
        vec![ShownGlyph {
            cid: 0x41,
            gid: 5,
            unicode: Some("A".to_string()),
            is_space: false,
            offset: Some(0)
        }]
    );
}

#[test]
fn adjusted_text_is_one_span() {
    let font = latin(false);
    let mut text = String::new();
    let hello = draw_text(&font, &b"Hello".to_vec(), &mut text);
    let world = draw_text(&font, &b"World".to_vec(), &mut text);
    assert_eq!(text, "HelloWorld");
    assert_eq!(hello.len(), 5);
    assert_eq!(hello[4].offset, Some(4));
    assert_eq!(world[0].offset, Some(5));
    assert_eq!(world[0].unicode.as_deref(), Some("W"));
}

#[test]
fn spaces_and_codes_without_text() {
    let mut text = String::from("ab");
    let glyphs = draw_text(&latin(false), &vec![b'H', b' ', 0x2A, 0x01, b'i'], &mut text);
    assert_eq!(text, "abH i");
    let flags: Vec<(u32, bool, Option<usize>)> =
        glyphs.iter().map(|g| (g.gid, g.is_space, g.offset)).collect();
    assert_eq!(
        flags,
        vec![
            (12, false, Some(2)),
            (3, true, Some(3)),
            (4, false, None),
            (0, false, None),
            (45, false, Some(4)),
        ]
    );
}

#[test]
fn unmapped_space_is_still_a_space() {
    let mut font = latin(false);
    font.cmap.remove(&0x20);
    let mut text = String::new();
    let glyphs = draw_text(&font, &vec![0x20], &mut text);
    assert_eq!(text, " ");
    assert_eq!((glyphs[0].gid, glyphs[0].is_space, glyphs[0].offset), (0, true, Some(0)));
}

#[test]
fn cid_fonts_have_no_word_space() {
    let mut text = String::new();
    let glyphs = draw_text(&latin(true), &vec![0x00, 0x20, 0x01, 0x00, 0x00, 0x41], &mut text);
    assert_eq!(text, " \u{e9}t\u{e9}A");
    assert!(!glyphs[0].is_space);
    // offsets count bytes: the accented letters take two each
    assert_eq!(glyphs[1].offset, Some(1));
    assert_eq!(glyphs[2].offset, Some(6));
}

#[test]
fn text_modes_choose_how_glyphs_are_painted() {
    assert_eq!(TextMode::Fill.draw_kind(), Some(DrawKind::Fill));
    assert_eq!(TextMode::FillAndClip.draw_kind(), Some(DrawKind::Fill));
    assert_eq!(TextMode::FillThenStroke.draw_kind(), Some(DrawKind::FillStroke));
    assert_eq!(TextMode::Stroke.draw_kind(), Some(DrawKind::Stroke));
    assert_eq!(TextMode::StrokeAndClip.draw_kind(), Some(DrawKind::Stroke));
    assert_eq!(TextMode::Invisible.draw_kind(), None);
}

#[test]
fn built_entry_shows_text() {
    let font = PdfFont {
        name: Some("F".to_string()),
        is_cid: true,
        encoding: None,
        to_unicode: Some(vec![(1, "fi".to_string())]),
        cid_to_gid_map: Some(CidToGidMap::Identity),
    };
    let program = FontProgram {
        kind: FontKind::Other,
        num_glyphs: 4,
        encoding: None,
        codepoint_gids: vec![],
        unicode_gids: vec![],
        name_gids: vec![],
        cmap: None,
        type1_codepoints: vec![],
        unicode_names: vec![],
        cff_sid_map: vec![],
        cff_codepoint_map: vec![],
        cff_unicode_map: vec![],
        cff_cid: false,
        empty_glyphs: vec![],
    };
    let entry = FontEntry::build(&program, &font, None, false).unwrap();
    let mut text = String::new();
    let glyphs = draw_text(&entry, &vec![0, 1, 0, 2], &mut text);
    assert_eq!(text, "fi");
    assert_eq!(glyphs.iter().map(|g| g.gid).collect::<Vec<_>>(), vec![1, 2]);
}

#[test]
fn text_state_without_font_shows_nothing() {
    let state = TextState::new();
    assert_eq!(state.mode, TextMode::Fill);
    let mut text = String::from("x");
    assert!(state.draw_text(&vec![b'A'], &mut text).is_empty());
    assert_eq!(text, "x");
    let state = TextState { font_entry: Some(std::sync::Arc::new(latin(false))), mode: TextMode::Fill };
    let glyphs = state.draw_text(&vec![b'A', b'B'], &mut text);
    assert_eq!(glyphs.len(), 2);
    assert_eq!(text, "xAB");
    assert_eq!(state.copy(), state);
}

#[test]
fn shown_glyphs_make_a_span_that_can_be_taken_apart() {
    let font = latin(true);
    let mut text = String::new();
    // two runs into one span, as an adjusted text operator makes them
    let mut glyphs = draw_text(&font, &vec![0x01, 0x00, 0x00, 0x2A, 0x00, 0x41], &mut text);
    glyphs.extend(draw_text(&font, &vec![0x00, 0x42, 0x01, 0x00], &mut text));
    assert_eq!(text, "\u{e9}t\u{e9}AB\u{e9}t\u{e9}");
    let placed: Vec<(Option<usize>, f32, f32)> =
        glyphs.iter().enumerate().map(|(i, g)| (g.offset, i as f32 * 10.0, 10.0)).collect();
    let chars = span_chars(&placed);
    assert_eq!(chars.iter().map(|c| c.offset).collect::<Vec<_>>(), vec![0, 5, 6, 7]);
    assert_eq!(chars[1].pos, 20.0);
    let span = TextSpan { width: 50.0f32, text, chars, span: () };
    let parts: Vec<&str> = span.parts().iter().map(|p| p.text).collect();
    assert_eq!(parts, vec!["\u{e9}t\u{e9}", "A", "B", "\u{e9}t\u{e9}"]);
}
