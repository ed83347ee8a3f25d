//! The entry made for each font of a document: which glyph and which text
//! every character code stands for.

use vstd::prelude::*;
use vstd::string::StrSliceExecFns;
use std::collections::HashMap;
use crate::charmap::{
    assumed_step, base_encoding, built_is_cid, final_map, matched_texts, named_map, cff_code_steps,
    cff_text_step, cmap_steps, cmap_view, count_hits, difference_step, direct_step, encoded_map,
    encoded_steps, entry_view, generic_map, generic_steps, identity_map, identity_steps, map_get,
    matched_map, prefers_sids, refining_steps, sid_steps, simple_map, source_encoding, stem,
    stem_end, table_map, table_steps, text_of, to_unicode_text, transcoded_step, type1_step,
    unicode_lookup_step, unicode_steps, Mapping,
};
use crate::encoding::{
    char_from_u32, forward_char, glyphname_to_unicode, string_from_char, transcode, Encoding,
};
use crate::error::{FontFault, RenderError};
use crate::font::{low16, scalar_text, BaseEncoding, CidToGidMap, FontKind, FontProgram, PdfFont};
use crate::names::find;
use crate::unique::{collides, distinct_texts, glyph_order, make_unique};
use crate::validity::{
    all_valid, dictionary_sound, lemma_entries_valid, matched_sound, tables_sound,
};
use crate::tables::{index_u32, insert_some, lemma_insert_some_step, lookup_u32, map_of};

verus! {

broadcast use vstd::std_specs::hash::group_hash_axioms;

/// A character map as it is stored: for every character code a glyph
/// number and, where known, the text it stands for.
pub type CharMap = HashMap<u16, (u32, Option<String>)>;

/// The mathematical value of a map from glyphs to text.
pub open spec fn text_view(m: Map<u32, String>) -> Map<u32, Seq<char>> {
    Map::new(|k: u32| m.contains_key(k), |k: u32| m[k]@)
}

proof fn lemma_put(m: Map<u16, (u32, Option<String>)>, k: u16, v: (u32, Option<String>))
    ensures
        cmap_view(m.insert(k, v)) == cmap_view(m).insert(k, entry_view(v)),
{
    assert(cmap_view(m.insert(k, v)) =~= cmap_view(m).insert(k, entry_view(v)));
}

proof fn lemma_put_text(m: Map<u32, String>, k: u32, v: String)
    ensures
        text_view(m.insert(k, v)) == text_view(m).insert(k, v@),
{
    assert(text_view(m.insert(k, v)) =~= text_view(m).insert(k, v@));
}

/// Sets the entry of `key`.
pub(crate) fn put(cmap: &mut CharMap, key: u16, gid: u32, unicode: Option<String>)
    ensures
        cmap_view(final(cmap)@) == cmap_view(old(cmap)@).insert(key, (gid, text_of(unicode))),
{
    proof {
        lemma_put(cmap@, key, (gid, unicode));
    }
    cmap.insert(key, (gid, unicode));
}

/// A copy of an optional string.
pub(crate) fn copy_text(text: &Option<String>) -> (r: Option<String>)
    ensures
        r == *text,
{
    match text {
        Some(s) => Some(s.clone()),
        None => None,
    }
}

/// The text of the character with the code `code`, if there is one.
fn text_from_code(code: u64) -> (r: Option<String>)
    ensures
        text_of(r) == scalar_text(code as int),
{
    if code > u32::MAX as u64 {
        None
    } else {
        match char_from_u32(code as u32) {
            Some(c) => Some(string_from_char(c)),
            None => None,
        }
    }
}

/// The cmap table of a TrueType or OpenType font.
fn font_cmap(program: &FontProgram) -> (r: Option<&Vec<(u32, u32)>>)
    ensures
        match r {
            Some(items) => program.font_cmap() == Some(items@),
            None => program.font_cmap() is None,
        },
{
    match program.kind {
        FontKind::TrueType | FontKind::OpenType => match &program.cmap {
            Some(items) => Some(items),
            None => None,
        },
        _ => None,
    }
}

/// How many pairs (glyph, text) the font program gives.
fn glyph_steps_len(program: &FontProgram) -> (n: usize)
    ensures
        n == program.glyph_unicode_steps().len(),
{
    match program.kind {
        FontKind::Type1 => program.unicode_names.len(),
        _ => match font_cmap(program) {
            Some(items) => items.len(),
            None => match program.kind {
                FontKind::Cff => program.cff_unicode_map.len(),
                _ => program.num_glyphs as usize,
            },
        },
    }
}

/// The glyph of pair `i` of the pairs (glyph, text) of the font program,
/// with its text.
fn glyph_step(program: &FontProgram, i: usize) -> (r: Option<(u32, String)>)
    requires
        i < program.glyph_unicode_steps().len(),
    ensures
        match r {
            Some((gid, text)) => program.glyph_unicode_steps()[i as int] == Some((gid, text@)),
            None => program.glyph_unicode_steps()[i as int] is None,
        },
{
    match program.kind {
        FontKind::Type1 => {
            Some((program.unicode_names[i].0, program.unicode_names[i].1.clone()))
        },
        _ => match font_cmap(program) {
            Some(items) => {
                let (code, gid): (u32, u32) = items[i];
                match text_from_code(code as u64) {
                    Some(text) => Some((gid, text)),
                    None => None,
                }
            },
            None => match program.kind {
                FontKind::Cff => {
                    Some(
                        (
                            program.cff_unicode_map[i].1 as u32,
                            program.cff_unicode_map[i].0.clone(),
                        ),
                    )
                },
                _ => match text_from_code(i as u64) {
                    Some(text) => Some((i as u32, text)),
                    None => None,
                },
            },
        },
    }
}

/// The text of each glyph, as the font program tells it.
fn glyph_texts(program: &FontProgram) -> (texts: HashMap<u32, String>)
    ensures
        text_view(texts@) == program.glyph_unicode(),
{
    let mut texts: HashMap<u32, String> = HashMap::new();
    let n: usize = glyph_steps_len(program);
    let ghost steps = program.glyph_unicode_steps();
    assert(steps.take(0) =~= Seq::empty());
    assert(text_view(texts@) =~= Map::empty());
    let mut i: usize = 0;
    while i < n
        invariant
            i <= n,
            n == steps.len(),
            steps == program.glyph_unicode_steps(),
            text_view(texts@) == insert_some(Map::empty(), steps.take(i as int)),
        decreases n - i,
    {
        proof {
            lemma_insert_some_step(Map::<u32, Seq<char>>::empty(), steps, i as int);
        }
        match glyph_step(program, i) {
            Some((gid, text)) => {
                proof {
                    lemma_put_text(texts@, gid, text);
                }
                texts.insert(gid, text);
            },
            None => {},
        }
        i += 1;
    }
    assert(steps.take(n as int) =~= steps);
    texts
}

/// The tables of a font program, indexed for lookup.
pub struct GlyphIndex {
    codepoints: HashMap<u32, u32>,
    unicodes: HashMap<u32, u32>,
    sids: HashMap<u16, u16>,
    texts: HashMap<u32, String>,
}

impl GlyphIndex {
    /// Whether this is the index of the tables of `program`.
    pub closed spec fn wf(&self, program: FontProgram) -> bool {
        &&& self.codepoints@ == map_of(program.codepoint_gids@)
        &&& self.unicodes@ == map_of(program.unicode_gids@)
        &&& self.sids@ == map_of(program.cff_sid_map@)
        &&& text_view(self.texts@) == program.glyph_unicode()
    }

    /// Indexes the tables of `program`.
    pub fn new(program: &FontProgram) -> (tables: GlyphIndex)
        ensures
            tables.wf(*program),
    {
        let mut sids: HashMap<u16, u16> = HashMap::new();
        let ghost steps = program.cff_sid_map@.map_values(|e: (u16, u16)| Some(e));
        assert(steps.take(0) =~= Seq::empty());
        let mut i: usize = 0;
        while i < program.cff_sid_map.len()
            invariant
                i <= program.cff_sid_map.len(),
                steps == program.cff_sid_map@.map_values(|e: (u16, u16)| Some(e)),
                sids@ == insert_some(Map::<u16, u16>::empty(), steps.take(i as int)),
            decreases program.cff_sid_map.len() - i,
        {
            proof {
                lemma_insert_some_step(Map::<u16, u16>::empty(), steps, i as int);
            }
            let (sid, gid): (u16, u16) = program.cff_sid_map[i];
            sids.insert(sid, gid);
            i += 1;
        }
        assert(steps.take(program.cff_sid_map@.len() as int) =~= steps);
        GlyphIndex {
            codepoints: index_u32(&program.codepoint_gids),
            unicodes: index_u32(&program.unicode_gids),
            sids,
            texts: glyph_texts(program),
        }
    }

    /// The glyph that a code of the font's own encoding selects.
    pub fn gid_for_codepoint(&self, code: u32, program: &FontProgram) -> (r: Option<u32>)
        requires
            self.wf(*program),
        ensures
            r == program.gid_for_codepoint(code),
    {
        lookup_u32(&self.codepoints, code)
    }

    /// The glyph that a Unicode code point selects.
    pub fn gid_for_unicode_codepoint(&self, code: u32, program: &FontProgram) -> (r: Option<u32>)
        requires
            self.wf(*program),
        ensures
            r == program.gid_for_unicode_codepoint(code),
    {
        lookup_u32(&self.unicodes, code)
    }

    /// The glyph that a CFF string identifier selects.
    pub fn gid_for_sid(&self, sid: u16, program: &FontProgram) -> (r: Option<u32>)
        requires
            self.wf(*program),
        ensures
            r == program.gid_for_sid(sid),
    {
        match self.sids.get(&sid) {
            Some(gid) => Some(*gid as u32),
            None => None,
        }
    }

    /// The text that the font program gives a glyph.
    pub fn glyph_text(&self, gid: u32, program: &FontProgram) -> (r: Option<String>)
        requires
            self.wf(*program),
        ensures
            text_of(r) == map_get(program.glyph_unicode(), gid),
    {
        assert(text_view(self.texts@).contains_key(gid) == self.texts@.contains_key(gid));
        match self.texts.get(&gid) {
            Some(text) => Some(text.clone()),
            None => None,
        }
    }
}

/// The glyph with the name `name`.
fn gid_for_name(program: &FontProgram, name: &String) -> (r: Option<u32>)
    ensures
        r == program.gid_for_name(name@),
{
    match find(&program.name_gids, name) {
        Some(i) => Some(program.name_gids[i].1),
        None => None,
    }
}

/// Whether a CFF font knows more codes of the ToUnicode map as string
/// identifiers than as codes of its encoding.
fn sids_preferred(pairs: &Vec<(u16, String)>, program: &FontProgram, tables: &GlyphIndex) -> (r: bool)
    requires
        tables.wf(*program),
    ensures
        r == prefers_sids(pairs@, *program),
{
    match program.kind {
        FontKind::Cff => {},
        _ => {
            return false;
        },
    }
    let mut by_code: usize = 0;
    let mut by_sid: usize = 0;
    let mut i: usize = 0;
    while i < pairs.len()
        invariant
            i <= pairs.len(),
            tables.wf(*program),
            by_code == count_hits(pairs@, *program, false, i as int),
            by_sid == count_hits(pairs@, *program, true, i as int),
            by_code <= i,
            by_sid <= i,
        decreases pairs.len() - i,
    {
        let code: u16 = pairs[i].0;
        if tables.gid_for_codepoint(code as u32, program).is_some() {
            by_code += 1;
        }
        if tables.gid_for_sid(code, program).is_some() {
            by_sid += 1;
        }
        i += 1;
    }
    by_sid > by_code
}

/// Builds [`generic_map`].
fn generic(font: &PdfFont, program: &FontProgram, tables: &GlyphIndex) -> (cmap: CharMap)
    requires
        tables.wf(*program),
    ensures
        cmap_view(cmap@) == generic_map(*font, *program),
{
    let mut cmap: CharMap = HashMap::new();
    let ghost steps = generic_steps(*font, *program);
    assert(steps.take(0) =~= Seq::empty());
    assert(cmap_view(cmap@) =~= Map::empty());
    match &font.to_unicode {
        Some(pairs) => {
            let by_sid: bool = sids_preferred(pairs, program, tables);
            let mut i: usize = 0;
            while i < pairs.len()
                invariant
                    i <= pairs.len(),
                    tables.wf(*program),
                    by_sid == prefers_sids(pairs@, *program),
                    steps == unicode_steps(pairs@, *program),
                    cmap_view(cmap@) == insert_some(Map::empty(), steps.take(i as int)),
                decreases pairs.len() - i,
            {
                proof {
                    lemma_insert_some_step(Map::<u16, Mapping>::empty(), steps, i as int);
                }
                let code: u16 = pairs[i].0;
                let found: Option<u32> = if by_sid {
                    tables.gid_for_sid(code, program)
                } else {
                    tables.gid_for_codepoint(code as u32, program)
                };
                let gid: u32 = match found {
                    Some(gid) => gid,
                    None => code as u32,
                };
                put(&mut cmap, code, gid, Some(pairs[i].1.clone()));
                i += 1;
            }
            assert(steps.take(pairs@.len() as int) =~= steps);
        },
        None => match font_cmap(program) {
            Some(items) => {
                let mut i: usize = 0;
                while i < items.len()
                    invariant
                        i <= items.len(),
                        steps == cmap_steps(items@),
                        cmap_view(cmap@) == insert_some(Map::empty(), steps.take(i as int)),
                    decreases items.len() - i,
                {
                    proof {
                        lemma_insert_some_step(Map::<u16, Mapping>::empty(), steps, i as int);
                    }
                    let (code, gid): (u32, u32) = items[i];
                    put(&mut cmap, code as u16, gid, None);
                    i += 1;
                }
                assert(steps.take(items@.len() as int) =~= steps);
            },
            None => match program.kind {
                FontKind::Cff => {
                    if program.cff_cid {
                        let mut i: usize = 0;
                        while i < program.cff_sid_map.len()
                            invariant
                                i <= program.cff_sid_map.len(),
                                steps == sid_steps(*program),
                                cmap_view(cmap@) == insert_some(
                                    Map::empty(),
                                    steps.take(i as int),
                                ),
                            decreases program.cff_sid_map.len() - i,
                        {
                            proof {
                                lemma_insert_some_step(
                                    Map::<u16, Mapping>::empty(),
                                    steps,
                                    i as int,
                                );
                            }
                            let (sid, gid): (u16, u16) = program.cff_sid_map[i];
                            put(&mut cmap, sid, gid as u32, None);
                            i += 1;
                        }
                        assert(steps.take(program.cff_sid_map@.len() as int) =~= steps);
                    } else {
                        let mut i: usize = 0;
                        while i < program.cff_codepoint_map.len()
                            invariant
                                i <= program.cff_codepoint_map.len(),
                                steps == cff_code_steps(*program),
                                cmap_view(cmap@) == insert_some(
                                    Map::empty(),
                                    steps.take(i as int),
                                ),
                            decreases program.cff_codepoint_map.len() - i,
                        {
                            proof {
                                lemma_insert_some_step(
                                    Map::<u16, Mapping>::empty(),
                                    steps,
                                    i as int,
                                );
                            }
                            let gid: u16 = program.cff_codepoint_map[i];
                            if gid != 0 {
                                put(&mut cmap, i as u16, gid as u32, None);
                            }
                            i += 1;
                        }
                        assert(steps.take(program.cff_codepoint_map@.len() as int) =~= steps);
                    }
                },
                _ => {},
            },
        },
    }
    cmap
}

/// The pairs of a ToUnicode map, indexed by code.
fn index_text(pairs: &Vec<(u16, String)>) -> (index: HashMap<u16, String>)
    ensures
        index@ == map_of(pairs@),
{
    let mut index: HashMap<u16, String> = HashMap::new();
    let ghost steps = pairs@.map_values(|e: (u16, String)| Some(e));
    assert(steps.take(0) =~= Seq::empty());
    let mut i: usize = 0;
    while i < pairs.len()
        invariant
            i <= pairs.len(),
            steps == pairs@.map_values(|e: (u16, String)| Some(e)),
            index@ == insert_some(Map::<u16, String>::empty(), steps.take(i as int)),
        decreases pairs.len() - i,
    {
        proof {
            lemma_insert_some_step(Map::<u16, String>::empty(), steps, i as int);
        }
        index.insert(pairs[i].0, pairs[i].1.clone());
        i += 1;
    }
    assert(steps.take(pairs@.len() as int) =~= steps);
    index
}

/// The text an indexed ToUnicode map gives a code.
fn text_for_code(index: &HashMap<u16, String>, code: u16, Ghost(pairs): Ghost<Seq<(u16, String)>>) -> (r:
    Option<String>)
    requires
        index@ == map_of(pairs),
    ensures
        text_of(r) == to_unicode_text(pairs, code),
{
    match index.get(&code) {
        Some(text) => Some(text.clone()),
        None => None,
    }
}

/// Builds [`identity_map`].
fn identity(font: &PdfFont, program: &FontProgram) -> (cmap: CharMap)
    ensures
        cmap_view(cmap@) == identity_map(*font, *program),
{
    let mut cmap: CharMap = HashMap::new();
    let ghost steps = identity_steps(*program);
    assert(steps.take(0) =~= Seq::empty());
    assert(cmap_view(cmap@) =~= Map::empty());
    let mut n: u32 = 0;
    while n < program.num_glyphs
        invariant
            n <= program.num_glyphs,
            steps == identity_steps(*program),
            cmap_view(cmap@) == insert_some(Map::empty(), steps.take(n as int)),
        decreases program.num_glyphs - n,
    {
        proof {
            lemma_insert_some_step(Map::<u16, Mapping>::empty(), steps, n as int);
        }
        put(&mut cmap, n as u16, n, None);
        n += 1;
    }
    assert(steps.take(program.num_glyphs as int) =~= steps);
    match &font.to_unicode {
        None => cmap,
        Some(pairs) => {
            let index: HashMap<u16, String> = index_text(pairs);
            let ghost plain = cmap_view(cmap@);
            let mut labelled: CharMap = HashMap::new();
            let mut code: u32 = 0;
            assert(cmap_view(labelled@) =~= Map::new(
                |k: u16| k < 0 && plain.contains_key(k),
                |k: u16| identity_map(*font, *program)[k],
            ));
            while code <= 0xffff
                invariant
                    code <= 0x1_0000,
                    plain == cmap_view(cmap@),
                    plain == insert_some(Map::empty(), identity_steps(*program)),
                    font.to_unicode == Some(*pairs),
                    index@ == map_of(pairs@),
                    cmap_view(labelled@) == Map::new(
                        |k: u16| k < code && plain.contains_key(k),
                        |k: u16| identity_map(*font, *program)[k],
                    ),
                decreases 0x1_0000 - code,
            {
                let key: u16 = code as u16;
                let ghost before = cmap_view(labelled@);
                match cmap.get(&key) {
                    Some(entry) => {
                        let gid: u32 = entry.0;
                        let unicode: Option<String> = match text_for_code(
                            &index,
                            key,
                            Ghost(pairs@),
                        ) {
                            Some(text) => Some(text),
                            None => copy_text(&entry.1),
                        };
                        assert(plain[key] == entry_view(*entry));
                        put(&mut labelled, key, gid, unicode);
                    },
                    None => {},
                }
                code += 1;
                assert(cmap_view(labelled@) =~= Map::new(
                    |k: u16| k < code && plain.contains_key(k),
                    |k: u16| identity_map(*font, *program)[k],
                ));
            }
            assert(cmap_view(labelled@) =~= identity_map(*font, *program));
            labelled
        },
    }
}

/// Builds [`table_map`].
fn table(font: &PdfFont, program: &FontProgram, tables: &GlyphIndex, gids: &Vec<u16>) -> (cmap: CharMap)
    requires
        tables.wf(*program),
    ensures
        cmap_view(cmap@) == table_map(*font, *program, gids@),
{
    let mut cmap: CharMap = HashMap::new();
    let ghost steps = table_steps(*font, *program, gids@);
    assert(steps.take(0) =~= Seq::empty());
    assert(cmap_view(cmap@) =~= Map::empty());
    let index: Option<HashMap<u16, String>> = match &font.to_unicode {
        Some(pairs) => Some(index_text(pairs)),
        None => None,
    };
    let mut i: usize = 0;
    while i < gids.len()
        invariant
            i <= gids.len(),
            tables.wf(*program),
            steps == table_steps(*font, *program, gids@),
            match font.to_unicode {
                Some(pairs) => index is Some && index->0@ == map_of(pairs@),
                None => index is None,
            },
            cmap_view(cmap@) == insert_some(Map::empty(), steps.take(i as int)),
        decreases gids.len() - i,
    {
        proof {
            lemma_insert_some_step(Map::<u16, Mapping>::empty(), steps, i as int);
        }
        let gid: u32 = gids[i] as u32;
        let unicode: Option<String> = match &index {
            Some(index) => text_for_code(index, i as u16, Ghost(font.to_unicode->0@)),
            None => tables.glyph_text(gid, program),
        };
        put(&mut cmap, i as u16, gid, unicode);
        i += 1;
    }
    assert(steps.take(gids@.len() as int) =~= steps);
    cmap
}

/// The table that stands for the base encoding of a font.
fn source_of(font: &PdfFont) -> (r: Option<Encoding>)
    ensures
        r == source_encoding(base_encoding(*font)),
{
    match &font.encoding {
        None => None,
        Some(encoding) => match encoding.base {
            BaseEncoding::StandardEncoding => Some(Encoding::AdobeStandard),
            BaseEncoding::SymbolEncoding => Some(Encoding::AdobeSymbol),
            BaseEncoding::WinAnsiEncoding => Some(Encoding::WinAnsiEncoding),
            BaseEncoding::MacRomanEncoding => Some(Encoding::MacRomanEncoding),
            BaseEncoding::MacExpertEncoding => Some(Encoding::AdobeExpert),
            _ => None,
        },
    }
}

/// Builds [`encoded_map`].
fn encoded(font: &PdfFont, program: &FontProgram, tables: &GlyphIndex) -> (cmap: CharMap)
    requires
        tables.wf(*program),
    ensures
        cmap_view(cmap@) == encoded_map(*font, *program),
{
    let mut cmap: CharMap = HashMap::new();
    let ghost steps = encoded_steps(*font, *program);
    assert(steps.take(0) =~= Seq::empty());
    assert(cmap_view(cmap@) =~= Map::empty());
    match source_of(font) {
        Some(source) => {
            let mut b: u32 = 0;
            while b < 256
                invariant
                    b <= 256,
                    tables.wf(*program),
                    steps == encoded_steps(*font, *program),
                    steps.len() == 256,
                    source_encoding(base_encoding(*font)) == Some(source),
                    cmap_view(cmap@) == insert_some(Map::empty(), steps.take(b as int)),
                decreases 256 - b,
            {
                proof {
                    lemma_insert_some_step(Map::<u16, Mapping>::empty(), steps, b as int);
                }
                let entry: Option<(u16, (u32, Option<String>))> = match program.encoding {
                    Some(dest) => {
                        assert(steps[b as int] == transcoded_step(*program, source, dest, b as int));
                        transcoded_entry(
                            tables,
                            program,
                            b as u8,
                            transcode(source, dest, b),
                            forward_char(source, b as u8),
                        )
                    },
                    None => {
                        assert(steps[b as int] == unicode_lookup_step(*program, source, b as int));
                        unicode_entry(
                            tables,
                            program,
                            b as u8,
                            transcode(source, Encoding::Unicode, b),
                        )
                    },
                };
                match entry {
                    Some((key, (gid, unicode))) => put(&mut cmap, key, gid, unicode),
                    None => {},
                }
                b += 1;
            }
            assert(steps.take(256) =~= steps);
        },
        None => match program.kind {
            FontKind::Cff => {
                let mut i: usize = 0;
                while i < program.cff_codepoint_map.len()
                    invariant
                        i <= program.cff_codepoint_map.len(),
                        tables.wf(*program),
                        steps == encoded_steps(*font, *program),
                        steps.len() == program.cff_codepoint_map@.len(),
                        source_encoding(base_encoding(*font)) is None,
                        program.kind == FontKind::Cff,
                        cmap_view(cmap@) == insert_some(Map::empty(), steps.take(i as int)),
                    decreases program.cff_codepoint_map.len() - i,
                {
                    proof {
                        lemma_insert_some_step(Map::<u16, Mapping>::empty(), steps, i as int);
                    }
                    assert(steps[i as int] == cff_text_step(*program, i as int));
                    let gid: u32 = program.cff_codepoint_map[i] as u32;
                    put(&mut cmap, i as u16, gid, tables.glyph_text(gid, program));
                    i += 1;
                }
                assert(steps.take(program.cff_codepoint_map@.len() as int) =~= steps);
            },
            _ => {},
        },
    }
    cmap
}

/// The part of a glyph name before its first full stop.
fn stem_of(name: &String) -> (r: &str)
    ensures
        r@ == stem(name@),
{
    let s: &str = name.as_str();
    let n: usize = s.unicode_len();
    let mut i: usize = 0;
    while i < n && s.get_char(i) != '.'
        invariant
            i <= n,
            n == name@.len(),
            s@ == name@,
            stem_end(name@, 0) == stem_end(name@, i as int),
        decreases n - i,
    {
        i += 1;
    }
    s.substring_char(0, i)
}

/// The first character of a text.
pub(crate) fn first_char(text: &String) -> (r: Option<char>)
    ensures
        r == (if text@.len() > 0 {
            Some(text@[0])
        } else {
            None
        }),
{
    let s: &str = text.as_str();
    if s.unicode_len() == 0 {
        None
    } else {
        Some(s.get_char(0))
    }
}

/// The entry of byte `b`, given the code `code` that the byte has in the
/// font's own encoding and the character `text` that it stands for; see
/// [`transcoded_entry`](crate::charmap::transcoded_entry).
pub fn transcoded_entry(
    tables: &GlyphIndex,
    program: &FontProgram,
    b: u8,
    code: Option<u32>,
    text: Option<char>,
) -> (r: Option<(u16, (u32, Option<String>))>)
    requires
        tables.wf(*program),
    ensures
        match r {
            Some((key, entry)) => crate::charmap::transcoded_entry(*program, b as int, code, text)
                == Some((key, entry_view(entry))),
            None => crate::charmap::transcoded_entry(*program, b as int, code, text) is None,
        },
{
    match code {
        Some(code) => match tables.gid_for_codepoint(code, program) {
            Some(gid) => {
                let unicode: Option<String> = match text {
                    Some(c) => Some(string_from_char(c)),
                    None => None,
                };
                Some((b as u16, (gid, unicode)))
            },
            None => None,
        },
        None => None,
    }
}

/// The entry of byte `b`, given the Unicode code point `code` that the
/// byte stands for; see [`unicode_entry`](crate::charmap::unicode_entry).
pub fn unicode_entry(tables: &GlyphIndex, program: &FontProgram, b: u8, code: Option<u32>) -> (r:
    Option<(u16, (u32, Option<String>))>)
    requires
        tables.wf(*program),
    ensures
        match r {
            Some((key, entry)) => crate::charmap::unicode_entry(*program, b as int, code) == Some(
                (key, entry_view(entry)),
            ),
            None => crate::charmap::unicode_entry(*program, b as int, code) is None,
        },
{
    match code {
        Some(code) => match tables.gid_for_unicode_codepoint(code, program) {
            Some(gid) => Some((b as u16, (gid, text_from_code(code as u64)))),
            None => None,
        },
        None => None,
    }
}

/// The entry of the code `code` with the glyph name `name`, given what the
/// glyph list says of the name without its suffix; see
/// [`difference_entry`](crate::charmap::difference_entry).
pub fn difference_entry(
    tables: &GlyphIndex,
    program: &FontProgram,
    code: u32,
    name: &String,
    listed: Option<String>,
) -> (r: (u16, (u32, Option<String>)))
    requires
        tables.wf(*program),
    ensures
        (r.0, entry_view(r.1)) == crate::charmap::difference_entry(
            *program,
            code,
            name@,
            text_of(listed),
        ),
{
    let first: Option<char> = match &listed {
        Some(t) => first_char(t),
        None => None,
    };
    let text: Option<String> = match first {
        Some(_) => listed,
        None => None,
    };
    let gid: u32 = match gid_for_name(program, name) {
        Some(gid) => gid,
        None => {
            let by_text: Option<u32> = match first {
                Some(c) => tables.gid_for_unicode_codepoint(c as u32, program),
                None => None,
            };
            match by_text {
                Some(gid) => gid,
                None => match tables.gid_for_codepoint(code, program) {
                    Some(gid) => gid,
                    None => code,
                },
            }
        },
    };
    let unicode: Option<String> = match text {
        Some(t) => Some(t),
        None => text_from_code(0xF000u64 + gid as u64),
    };
    (code as u16, (gid, unicode))
}

/// Builds [`simple_map`].
fn simple(font: &PdfFont, program: &FontProgram, tables: &GlyphIndex) -> (cmap: CharMap)
    requires
        tables.wf(*program),
    ensures
        cmap_view(cmap@) == simple_map(*font, *program),
{
    let mut cmap: CharMap = encoded(font, program, tables);
    let ghost base = encoded_map(*font, *program);
    let ghost steps = refining_steps(*font, *program);
    assert(steps.take(0) =~= Seq::empty());
    match &font.encoding {
        Some(encoding) => {
            let mut i: usize = 0;
            while i < encoding.differences.len()
                invariant
                    i <= encoding.differences.len(),
                    tables.wf(*program),
                    font.encoding == Some(*encoding),
                    steps == refining_steps(*font, *program),
                    steps.len() == encoding.differences@.len(),
                    cmap_view(cmap@) == insert_some(base, steps.take(i as int)),
                decreases encoding.differences.len() - i,
            {
                proof {
                    lemma_insert_some_step(base, steps, i as int);
                }
                assert(steps[i as int] == difference_step(*program, encoding.differences@[i as int]));
                let name: &String = &encoding.differences[i].1;
                let (key, (gid, unicode)): (u16, (u32, Option<String>)) = difference_entry(
                    tables,
                    program,
                    encoding.differences[i].0,
                    name,
                    glyphname_to_unicode(stem_of(name)),
                );
                put(&mut cmap, key, gid, unicode);
                i += 1;
            }
            assert(steps.take(encoding.differences@.len() as int) =~= steps);
        },
        None => match &font.to_unicode {
            Some(pairs) => {
                let mut i: usize = 0;
                while i < pairs.len()
                    invariant
                        i <= pairs.len(),
                        tables.wf(*program),
                        font.encoding is None,
                        font.to_unicode == Some(*pairs),
                        steps == refining_steps(*font, *program),
                        steps.len() == pairs@.len(),
                        cmap_view(cmap@) == insert_some(base, steps.take(i as int)),
                    decreases pairs.len() - i,
                {
                    proof {
                        lemma_insert_some_step(base, steps, i as int);
                    }
                    assert(steps[i as int] == direct_step(*program, pairs@[i as int]));
                    let code: u16 = pairs[i].0;
                    match tables.gid_for_unicode_codepoint(code as u32, program) {
                        Some(gid) => {
                            put(&mut cmap, code, gid, Some(pairs[i].1.clone()));
                        },
                        None => {},
                    }
                    i += 1;
                }
                assert(steps.take(pairs@.len() as int) =~= steps);
            },
            None => match program.kind {
                FontKind::Type1 => {
                    let mut i: usize = 0;
                    while i < program.type1_codepoints.len()
                        invariant
                            i <= program.type1_codepoints.len(),
                            tables.wf(*program),
                            font.encoding is None,
                            font.to_unicode is None,
                            program.kind == FontKind::Type1,
                            steps == refining_steps(*font, *program),
                            steps.len() == program.type1_codepoints@.len(),
                            cmap_view(cmap@) == insert_some(base, steps.take(i as int)),
                        decreases program.type1_codepoints.len() - i,
                    {
                        proof {
                            lemma_insert_some_step(base, steps, i as int);
                        }
                        assert(steps[i as int] == type1_step(
                            *program,
                            program.type1_codepoints@[i as int],
                        ));
                        let (code, gid): (u32, u32) = program.type1_codepoints[i];
                        put(&mut cmap, code as u16, gid, tables.glyph_text(gid, program));
                        i += 1;
                    }
                    assert(steps.take(program.type1_codepoints@.len() as int) =~= steps);
                },
                _ => {
                    let n: usize = glyph_steps_len(program);
                    let mut i: usize = 0;
                    while i < n
                        invariant
                            i <= n,
                            tables.wf(*program),
                            font.encoding is None,
                            font.to_unicode is None,
                            program.kind != FontKind::Type1,
                            n == program.glyph_unicode_steps().len(),
                            steps == refining_steps(*font, *program),
                            steps.len() == n,
                            cmap_view(cmap@) == insert_some(base, steps.take(i as int)),
                        decreases n - i,
                    {
                        proof {
                            lemma_insert_some_step(base, steps, i as int);
                        }
                        assert(steps[i as int] == assumed_step(
                            *program,
                            program.glyph_unicode_steps()[i as int],
                        ));
                        match glyph_step(program, i) {
                            Some((gid, _)) => match tables.glyph_text(gid, program) {
                                Some(text) => match first_char(&text) {
                                    Some(c) => {
                                        put(&mut cmap, (c as u32) as u16, gid, Some(text));
                                    },
                                    None => {},
                                },
                                None => {},
                            },
                            None => {},
                        }
                        i += 1;
                    }
                    assert(steps.take(n as int) =~= steps);
                },
            },
        },
    }
    cmap
}

/// Builds [`matched_map`].
fn overlay(cmap: &CharMap, matched: &Vec<(u32, String)>) -> (out: CharMap)
    ensures
        cmap_view(out@) == matched_map(cmap_view(cmap@), matched_texts(matched@)),
{
    let mut index: HashMap<u32, String> = HashMap::new();
    let ghost steps = Seq::new(
        matched@.len(),
        |i: int| Some((matched@[i].0, matched@[i].1@)),
    );
    assert(steps.take(0) =~= Seq::empty());
    assert(text_view(index@) =~= Map::empty());
    let mut i: usize = 0;
    while i < matched.len()
        invariant
            i <= matched.len(),
            steps == Seq::new(matched@.len(), |i: int| Some((matched@[i].0, matched@[i].1@))),
            text_view(index@) == insert_some(Map::empty(), steps.take(i as int)),
        decreases matched.len() - i,
    {
        proof {
            lemma_insert_some_step(Map::<u32, Seq<char>>::empty(), steps, i as int);
            lemma_put_text(index@, matched@[i as int].0, matched@[i as int].1);
        }
        index.insert(matched[i].0, matched[i].1.clone());
        i += 1;
    }
    assert(steps.take(matched@.len() as int) =~= steps);
    let ghost view = cmap_view(cmap@);
    let ghost good = matched_texts(matched@);
    let mut out: CharMap = HashMap::new();
    let mut code: u32 = 0;
    assert(cmap_view(out@) =~= Map::new(
        |k: u16| k < 0 && view.contains_key(k),
        |k: u16| matched_map(view, good)[k],
    ));
    while code <= 0xffff
        invariant
            code <= 0x1_0000,
            view == cmap_view(cmap@),
            good == matched_texts(matched@),
            text_view(index@) == good,
            cmap_view(out@) == Map::new(
                |k: u16| k < code && view.contains_key(k),
                |k: u16| matched_map(view, good)[k],
            ),
        decreases 0x1_0000 - code,
    {
        let key: u16 = code as u16;
        match cmap.get(&key) {
            Some(entry) => {
                let gid: u32 = entry.0;
                assert(view[key] == entry_view(*entry));
                assert(text_view(index@).contains_key(gid) == index@.contains_key(gid));
                let unicode: Option<String> = match index.get(&gid) {
                    Some(text) => Some(text.clone()),
                    None => copy_text(&entry.1),
                };
                put(&mut out, key, gid, unicode);
            },
            None => {},
        }
        code += 1;
        assert(cmap_view(out@) =~= Map::new(
            |k: u16| k < code && view.contains_key(k),
            |k: u16| matched_map(view, good)[k],
        ));
    }
    assert(cmap_view(out@) =~= matched_map(view, good));
    out
}

/// What is known of one font of a document: its character map, whether its
/// codes are character identifiers of two bytes, and its name.
#[derive(Debug, Clone, PartialEq, Eq)]
pub struct FontEntry {
    pub cmap: CharMap,
    pub is_cid: bool,
    pub name: String,
}

/// The pairs of an optional list.
pub open spec fn pairs_of(matched: Option<&Vec<(u32, String)>>) -> Option<Seq<(u32, String)>> {
    match matched {
        Some(pairs) => Some(pairs@),
        None => None,
    }
}

impl FontEntry {
    /// The character map as a mathematical map.
    pub open spec fn mappings(&self) -> Map<u16, Mapping> {
        cmap_view(self.cmap@)
    }

    /// Makes the entry of a font from its dictionary `pdf_font` and its
    /// font program `program`.
    ///
    /// `matched` holds the text that a glyph database knows for glyphs of
    /// this font, where one was asked and answered. With
    /// `require_unique_unicode` no two codes end up with the same text.
    /// A font without a name gets no entry.
    pub fn build(
        program: &FontProgram,
        pdf_font: &PdfFont,
        matched: Option<&Vec<(u32, String)>>,
        require_unique_unicode: bool,
    ) -> (r: Result<FontEntry, RenderError>)
        ensures
            r is Ok <==> pdf_font.name is Some,
            r is Err ==> r == Err::<FontEntry, RenderError>(
                RenderError::FontBuildFailure(FontFault::NoName),
            ),
            r is Ok ==> {
                &&& r->Ok_0.name@ == pdf_font.name->0@
                &&& r->Ok_0.is_cid == built_is_cid(*pdf_font, *program)
                &&& r->Ok_0.mappings() == final_map(
                    *pdf_font,
                    *program,
                    pairs_of(matched),
                    require_unique_unicode,
                )
            },
            r is Ok && require_unique_unicode && !collides(
                named_map(*pdf_font, *program, pairs_of(matched)),
                program.empty_glyphs@.to_set(),
            ) ==> distinct_texts(r->Ok_0.mappings()),
            r is Ok && tables_sound(*program) && dictionary_sound(*pdf_font, *program)
                && matched_sound(pairs_of(matched)) ==> all_valid(
                r->Ok_0.mappings(),
                program.num_glyphs,
            ),
    {
        let name: String = match &pdf_font.name {
            Some(name) => name.clone(),
            None => {
                return Err(RenderError::FontBuildFailure(FontFault::NoName));
            },
        };
        let tables: GlyphIndex = GlyphIndex::new(program);
        let identity_h: bool = match &pdf_font.encoding {
            Some(encoding) => encoding.base == BaseEncoding::IdentityH,
            None => false,
        };
        let (built, is_cid): (CharMap, bool) = match &pdf_font.cid_to_gid_map {
            Some(CidToGidMap::Identity) => (identity(pdf_font, program), true),
            Some(CidToGidMap::Table(gids)) => (table(pdf_font, program, &tables, gids), true),
            None => {
                if identity_h {
                    (generic(pdf_font, program, &tables), true)
                } else {
                    let plain: CharMap = simple(pdf_font, program, &tables);
                    assert(cmap_view(plain@).dom() =~= plain@.dom());
                    if plain.is_empty() {
                        (identity(pdf_font, program), true)
                    } else {
                        (plain, pdf_font.is_cid)
                    }
                }
            },
        };
        let named: CharMap = match matched {
            Some(pairs) => overlay(&built, pairs),
            None => built,
        };
        let cmap: CharMap = if require_unique_unicode {
            make_unique(&named, &program.empty_glyphs)
        } else {
            named
        };
        proof {
            if tables_sound(*program) && dictionary_sound(*pdf_font, *program) && matched_sound(
                pairs_of(matched),
            ) {
                lemma_entries_valid(
                    *pdf_font,
                    *program,
                    pairs_of(matched),
                    require_unique_unicode,
                    glyph_order(named_map(*pdf_font, *program, pairs_of(matched))),
                );
            }
        }
        Ok(FontEntry { cmap, is_cid, name })
    }
}

} // verus!
