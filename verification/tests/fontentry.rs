use pdf_render::encoding::Encoding;
use pdf_render::error::{FontFault, RenderError};
use pdf_render::font::{
    BaseEncoding, CidToGidMap, FontEncoding, FontKind, FontProgram, PdfFont,
};
use pdf_render::fontentry::FontEntry;

fn program(kind: FontKind, num_glyphs: u32) -> FontProgram {
    FontProgram {
        kind,
        num_glyphs,
        encoding: None,
        codepoint_gids: vec![],
        unicode_gids: vec![],
        name_gids: vec![],
        cmap: None,
        type1_codepoints: vec![],
        unicode_names: vec![],
        cff_sid_map: vec![],
        cff_codepoint_map: vec![],
        cff_unicode_map: vec![],
        cff_cid: false,
        empty_glyphs: vec![],
    }
}

fn font(name: &str) -> PdfFont {
    PdfFont {
        name: Some(name.to_string()),
        is_cid: false,
        encoding: None,
        to_unicode: None,
        cid_to_gid_map: None,
    }
}

fn entry(e: &FontEntry, code: u16) -> Option<(u32, Option<&str>)> {
    e.cmap.get(&code).map(|(gid, text)| (*gid, text.as_deref()))
}

#[test]
fn font_without_name_has_no_entry() {
    let mut f = font("x");
    f.name = None;
    assert_eq!(
        FontEntry::build(&program(FontKind::Other, 3), &f, None, false),
        Err(RenderError::FontBuildFailure(FontFault::NoName))
    );
}

#[test]
fn identity_map_with_to_unicode() {
    let mut f = font("F1");
    f.cid_to_gid_map = Some(CidToGidMap::Identity);
    f.to_unicode = Some(vec![(1, "a".to_string()), (7, "z".to_string()), (1, "b".to_string())]);
    let e = FontEntry::build(&program(FontKind::TrueType, 3), &f, None, false).unwrap();
    assert!(e.is_cid);
    assert_eq!(e.name, "F1");
    assert_eq!(e.cmap.len(), 3);
    assert_eq!(entry(&e, 0), Some((0, None)));
    assert_eq!(entry(&e, 1), Some((1, Some("b"))));
    assert_eq!(entry(&e, 2), Some((2, None)));
    assert_eq!(entry(&e, 7), None);
}

#[test]
fn table_map_takes_text_from_to_unicode_or_the_font() {
    let mut f = font("F1");
    f.cid_to_gid_map = Some(CidToGidMap::Table(vec![5, 6]));
    f.to_unicode = Some(vec![(1, "q".to_string())]);
    let mut p = program(FontKind::TrueType, 10);
    p.cmap = Some(vec![(0x41, 5), (0x42, 6)]);
    let e = FontEntry::build(&p, &f, None, false).unwrap();
    assert!(e.is_cid);
    assert_eq!(entry(&e, 0), Some((5, None)));
    assert_eq!(entry(&e, 1), Some((6, Some("q"))));

    f.to_unicode = None;
    let e = FontEntry::build(&p, &f, None, false).unwrap();
    assert_eq!(entry(&e, 0), Some((5, Some("A"))));
    assert_eq!(entry(&e, 1), Some((6, Some("B"))));
}

#[test]
fn identity_h_uses_to_unicode_and_known_codes() {
    let mut f = font("F1");
    f.encoding = Some(FontEncoding { base: BaseEncoding::IdentityH, differences: vec![] });
    f.to_unicode = Some(vec![(3, "x".to_string()), (4, "y".to_string())]);
    let mut p = program(FontKind::TrueType, 10);
    p.codepoint_gids = vec![(3, 8)];
    let e = FontEntry::build(&p, &f, None, false).unwrap();
    assert!(e.is_cid);
    assert_eq!(entry(&e, 3), Some((8, Some("x"))));
    assert_eq!(entry(&e, 4), Some((4, Some("y"))));
}

#[test]
fn cff_prefers_string_identifiers_when_they_hit_more() {
    let mut f = font("F1");
    f.encoding = Some(FontEncoding { base: BaseEncoding::IdentityH, differences: vec![] });
    f.to_unicode = Some(vec![(3, "x".to_string()), (4, "y".to_string())]);
    let mut p = program(FontKind::Cff, 10);
    p.codepoint_gids = vec![(3, 8)];
    p.cff_sid_map = vec![(3, 1), (4, 2)];
    let e = FontEntry::build(&p, &f, None, false).unwrap();
    assert_eq!(entry(&e, 3), Some((1, Some("x"))));
    assert_eq!(entry(&e, 4), Some((2, Some("y"))));
    // with as many hits by code, the codes win
    p.codepoint_gids = vec![(3, 8), (4, 9)];
    let e = FontEntry::build(&p, &f, None, false).unwrap();
    assert_eq!(entry(&e, 3), Some((8, Some("x"))));
}

#[test]
fn identity_h_without_to_unicode_uses_the_font_tables() {
    let mut f = font("F1");
    f.encoding = Some(FontEncoding { base: BaseEncoding::IdentityH, differences: vec![] });
    let mut p = program(FontKind::OpenType, 10);
    p.cmap = Some(vec![(0x41, 5), (0x1_0042, 6)]);
    let e = FontEntry::build(&p, &f, None, false).unwrap();
    assert_eq!(entry(&e, 0x41), Some((5, None)));
    assert_eq!(entry(&e, 0x42), Some((6, None)));

    let mut p = program(FontKind::Cff, 10);
    p.cff_cid = true;
    p.cff_sid_map = vec![(9, 1)];
    p.cff_codepoint_map = vec![0, 4];
    let e = FontEntry::build(&p, &f, None, false).unwrap();
    assert_eq!(entry(&e, 9), Some((1, None)));
    assert_eq!(e.cmap.len(), 1);
    p.cff_cid = false;
    let e = FontEntry::build(&p, &f, None, false).unwrap();
    assert_eq!(entry(&e, 1), Some((4, None)));
    assert_eq!(e.cmap.len(), 1);
}

#[test]
fn base_encoding_is_transcoded_to_the_fonts_encoding() {
    let mut f = font("F1");
    f.encoding = Some(FontEncoding { base: BaseEncoding::WinAnsiEncoding, differences: vec![] });
    let mut p = program(FontKind::Type1, 300);
    p.encoding = Some(Encoding::AdobeStandard);
    // WinAnsi 0x41 is "A", which is 0x41 in the standard encoding;
    // WinAnsi 0x97 is the em dash, which is 0xD0 in the standard encoding
    p.codepoint_gids = vec![(0x41, 10), (0xD0, 20)];
    let e = FontEntry::build(&p, &f, None, false).unwrap();
    assert!(!e.is_cid);
    assert_eq!(entry(&e, 0x41), Some((10, Some("A"))));
    assert_eq!(entry(&e, 0x97), Some((20, Some("\u{2014}"))));
    assert_eq!(e.cmap.len(), 2);
}

#[test]
fn base_encoding_alone_is_looked_up_by_unicode() {
    let mut f = font("F1");
    f.encoding = Some(FontEncoding { base: BaseEncoding::StandardEncoding, differences: vec![] });
    let mut p = program(FontKind::TrueType, 300);
    p.unicode_gids = vec![(0x2014, 33), (0x41, 34)];
    let e = FontEntry::build(&p, &f, None, false).unwrap();
    assert_eq!(entry(&e, 0xD0), Some((33, Some("\u{2014}"))));
    assert_eq!(entry(&e, 0x41), Some((34, Some("A"))));
    assert_eq!(e.cmap.len(), 2);
}

#[test]
fn differences_resolve_names_in_turn() {
    let mut f = font("F1");
    f.encoding = Some(FontEncoding {
        base: BaseEncoding::Absent,
        differences: vec![
            (1, "Alpha".to_string()),
            (2, "gamma".to_string()),
            (3, "a.sc".to_string()),
            (4, "nosuchglyph".to_string()),
            (5, "unknown".to_string()),
        ],
    });
    let mut p = program(FontKind::Type1, 300);
    p.name_gids = vec![("Alpha".to_string(), 11), ("unknown".to_string(), 15)];
    p.unicode_gids = vec![(0x3b3, 12), (0x61, 13)];
    p.codepoint_gids = vec![(4, 14)];
    let e = FontEntry::build(&p, &f, None, false).unwrap();
    // by name
    assert_eq!(entry(&e, 1), Some((11, Some("\u{391}"))));
    // by the text of the name
    assert_eq!(entry(&e, 2), Some((12, Some("\u{3b3}"))));
    // the suffix does not count for the text
    assert_eq!(entry(&e, 3), Some((13, Some("a"))));
    // by code, with a private-use character at 0xF000 + glyph
    assert_eq!(entry(&e, 4), Some((14, Some("\u{F00E}"))));
    assert_eq!(entry(&e, 5), Some((15, Some("\u{F00F}"))));
}

#[test]
fn differences_fall_back_on_the_code() {
    let mut f = font("F1");
    f.encoding = Some(FontEncoding {
        base: BaseEncoding::Absent,
        differences: vec![(200, "nosuchglyph".to_string())],
    });
    let e = FontEntry::build(&program(FontKind::Type1, 100), &f, None, false).unwrap();
    assert_eq!(entry(&e, 200), Some((200, Some("\u{F0C8}"))));
}

#[test]
fn font_without_encoding_entry() {
    // with a ToUnicode map: its codes are looked up as Unicode
    let mut f = font("F1");
    f.to_unicode = Some(vec![(0x41, "A".to_string()), (0x42, "B".to_string())]);
    let mut p = program(FontKind::TrueType, 50);
    p.unicode_gids = vec![(0x41, 7)];
    let e = FontEntry::build(&p, &f, None, false).unwrap();
    assert_eq!(entry(&e, 0x41), Some((7, Some("A"))));
    assert_eq!(entry(&e, 0x42), None);

    // a Type 1 font: its built-in encoding, with the text of the glyph names
    let f = font("F1");
    let mut p = program(FontKind::Type1, 50);
    p.type1_codepoints = vec![(65, 3), (66, 4)];
    p.unicode_names = vec![(3, "A".to_string())];
    let e = FontEntry::build(&p, &f, None, false).unwrap();
    assert_eq!(entry(&e, 65), Some((3, Some("A"))));
    assert_eq!(entry(&e, 66), Some((4, None)));

    // any other font: the text of each glyph is its code
    let mut p = program(FontKind::TrueType, 50);
    p.cmap = Some(vec![(0x263A, 9)]);
    let e = FontEntry::build(&p, &f, None, false).unwrap();
    assert_eq!(entry(&e, 0x263A), Some((9, Some("\u{263A}"))));
    assert!(!e.is_cid);
}

#[test]
fn nothing_found_falls_back_on_character_identifiers() {
    let mut f = font("F1");
    f.encoding = Some(FontEncoding { base: BaseEncoding::Other, differences: vec![] });
    f.to_unicode = Some(vec![(5, "e".to_string()), (9, "x".to_string())]);
    let mut p = program(FontKind::TrueType, 8);
    p.cmap = Some(vec![]);
    let e = FontEntry::build(&p, &f, None, false).unwrap();
    assert!(e.is_cid);
    // every glyph by its number, as under an identity map
    assert_eq!(e.cmap.len(), 8);
    assert_eq!(entry(&e, 4), Some((4, None)));
    assert_eq!(entry(&e, 5), Some((5, Some("e"))));
    assert_eq!(entry(&e, 9), None);
}

#[test]
fn cff_built_in_encoding_is_the_last_resort_of_the_base_encoding() {
    let mut f = font("F1");
    f.encoding = Some(FontEncoding { base: BaseEncoding::Other, differences: vec![] });
    let mut p = program(FontKind::Cff, 50);
    p.cff_codepoint_map = vec![0, 7];
    p.cff_unicode_map = vec![("seven".to_string(), 7)];
    let e = FontEntry::build(&p, &f, None, false).unwrap();
    assert_eq!(entry(&e, 0), Some((0, None)));
    assert_eq!(entry(&e, 1), Some((7, Some("seven"))));
}

#[test]
fn matched_glyphs_override_the_text() {
    let mut f = font("F1");
    f.cid_to_gid_map = Some(CidToGidMap::Table(vec![5, 6, 7]));
    f.to_unicode = Some(vec![(0, "a".to_string()), (1, "b".to_string())]);
    let matched = vec![(5, "A".to_string()), (7, "C".to_string())];
    let e = FontEntry::build(&program(FontKind::Other, 10), &f, Some(&matched), false).unwrap();
    assert_eq!(entry(&e, 0), Some((5, Some("A"))));
    assert_eq!(entry(&e, 1), Some((6, Some("b"))));
    assert_eq!(entry(&e, 2), Some((7, Some("C"))));
}

#[test]
fn unique_unicode_drops_duplicates_and_fills_gaps() {
    let mut f = font("F1");
    f.cid_to_gid_map = Some(CidToGidMap::Table(vec![9, 3, 3, 4, 0]));
    f.to_unicode = Some(vec![
        (0, "x".to_string()),
        (1, "x".to_string()),
        (2, "y".to_string()),
    ]);
    let mut p = program(FontKind::Other, 10);
    p.empty_glyphs = vec![0];
    let e = FontEntry::build(&p, &f, None, true).unwrap();
    // glyph order: code 4 (glyph 0), 1 (3), 2 (3), 3 (4), 0 (9)
    assert_eq!(entry(&e, 4), Some((0, None)));
    assert_eq!(entry(&e, 1), Some((3, Some("x"))));
    assert_eq!(entry(&e, 2), Some((3, Some("y"))));
    assert_eq!(entry(&e, 3), Some((4, Some("\u{E000}"))));
    assert_eq!(entry(&e, 0), Some((9, Some("\u{E001}"))));
}

#[test]
fn unique_unicode_leaves_out_codes_that_are_glyph_numbers() {
    let mut f = font("F1");
    f.cid_to_gid_map = Some(CidToGidMap::Table(vec![0xE000, 0xE001, 1, 2]));
    f.to_unicode = Some(vec![]);
    let e = FontEntry::build(&program(FontKind::Other, 0xF000), &f, None, true).unwrap();
    assert_eq!(entry(&e, 2), Some((1, Some("\u{E002}"))));
    assert_eq!(entry(&e, 3), Some((2, Some("\u{E003}"))));
    assert_eq!(entry(&e, 0), Some((0xE000, Some("\u{E004}"))));
    assert_eq!(entry(&e, 1), Some((0xE001, Some("\u{E005}"))));
}

#[test]
fn unique_unicode_texts_are_pairwise_distinct() {
    let mut f = font("F1");
    f.cid_to_gid_map = Some(CidToGidMap::Identity);
    f.to_unicode = Some((0..40u16).map(|c| (c, ((c % 7) as u8 + b'a').to_string())).collect());
    let e = FontEntry::build(&program(FontKind::Other, 60), &f, None, true).unwrap();
    let mut seen = std::collections::HashSet::new();
    for (_, text) in e.cmap.values() {
        let text = text.as_ref().unwrap();
        assert!(seen.insert(text.clone()));
    }
    assert_eq!(seen.len(), 60);
}

#[test]
fn entries_name_glyphs_of_the_font_and_text_that_is_not_empty() {
    // a font whose tables hold glyphs of the font only, with a ToUnicode map
    // without empty text and codes that the font knows
    let mut f = font("F1");
    f.encoding = Some(FontEncoding {
        base: BaseEncoding::WinAnsiEncoding,
        differences: vec![(65, "Alpha".to_string()), (66, "b.alt".to_string())],
    });
    let mut p = program(FontKind::Type1, 100);
    p.encoding = Some(Encoding::AdobeStandard);
    p.codepoint_gids = (0x20..0x7f).map(|c| (c, c - 0x20)).collect();
    p.unicode_gids = vec![(0x62, 33)];
    p.name_gids = vec![("Alpha".to_string(), 39)];
    for unique in [false, true] {
        let e = FontEntry::build(&p, &f, None, unique).unwrap();
        assert!(!e.cmap.is_empty());
        for (gid, text) in e.cmap.values() {
            assert!(*gid < 100);
            if let Some(text) = text {
                assert!(!text.is_empty());
            }
        }
        assert_eq!(entry(&e, 65), Some((39, Some("\u{391}"))));
        assert_eq!(entry(&e, 66), Some((33, Some("b"))));
    }
}

#[test]
fn a_code_that_falls_back_on_its_own_number_may_name_no_glyph() {
    let mut f = font("F1");
    f.cid_to_gid_map = None;
    f.encoding = Some(FontEncoding { base: BaseEncoding::IdentityH, differences: vec![] });
    f.to_unicode = Some(vec![(500, "x".to_string())]);
    let e = FontEntry::build(&program(FontKind::Other, 10), &f, None, false).unwrap();
    assert_eq!(entry(&e, 500), Some((500, Some("x"))));
}

#[test]
fn a_private_use_text_may_be_handed_out_again() {
    // code 0 has the text U+E000 already; code 1 has none and gets the first
    // private-use character, which is the same
    let mut f = font("F1");
    f.cid_to_gid_map = Some(CidToGidMap::Table(vec![1, 2]));
    f.to_unicode = Some(vec![(0, "\u{E000}".to_string())]);
    let e = FontEntry::build(&program(FontKind::Other, 10), &f, None, true).unwrap();
    assert_eq!(entry(&e, 0), Some((1, Some("\u{E000}"))));
    assert_eq!(entry(&e, 1), Some((2, Some("\u{E000}"))));
}

#[test]
fn unique_unicode_tells_texts_with_the_same_first_character_apart() {
    let mut f = font("F1");
    f.cid_to_gid_map = Some(CidToGidMap::Table(vec![0, 1, 2, 3, 4, 5, 6]));
    f.to_unicode = Some(vec![
        (0, "ab".to_string()),
        (1, "ac".to_string()),
        (2, "ab".to_string()),
        (3, "".to_string()),
        (4, "a".to_string()),
        (5, "".to_string()),
        (6, "ac".to_string()),
    ]);
    let mut p = program(FontKind::Other, 0);
    p.empty_glyphs = vec![5];
    let e = FontEntry::build(&p, &f, None, true).unwrap();
    assert_eq!(entry(&e, 0), Some((0, Some("ab"))));
    assert_eq!(entry(&e, 1), Some((1, Some("ac"))));
    assert_eq!(entry(&e, 2), Some((2, Some("\u{E000}"))));
    assert_eq!(entry(&e, 3), Some((3, Some(""))));
    assert_eq!(entry(&e, 4), Some((4, Some("a"))));
    // an empty glyph gets no character
    assert_eq!(entry(&e, 5), Some((5, None)));
    assert_eq!(entry(&e, 6), Some((6, Some("\u{E001}"))));
}

#[test]
fn unique_unicode_on_a_large_font() {
    let mut f = font("F1");
    f.cid_to_gid_map = Some(CidToGidMap::Identity);
    f.to_unicode = Some((0..60000u32).map(|c| (c as u16, "x".to_string())).collect());
    let e = FontEntry::build(&program(FontKind::Other, 60000), &f, None, true).unwrap();
    assert_eq!(e.cmap.len(), 60000);
    assert_eq!(entry(&e, 0), Some((0, Some("x"))));
    // the glyph numbers up to 59999 hold the codes up to U+EA5F
    assert_eq!(entry(&e, 1), Some((1, Some("\u{EA60}"))));
    // the private-use characters run out at U+F800
    assert_eq!(entry(&e, 0xDA0), Some((0xDA0, Some("\u{F7FF}"))));
    assert_eq!(entry(&e, 0xDA1), Some((0xDA1, None)));
}
