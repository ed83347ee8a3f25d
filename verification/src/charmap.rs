//! The character map of a font, stated as mathematics: which glyph and
//! which text every character code stands for, given the font dictionary and
//! the tables of the font program.

use vstd::prelude::*;
use crate::encoding::{forward_mapped, glyph_list_unicode, transcoded, Encoding};
use crate::font::{
    low16, scalar_text, table_get, BaseEncoding, CidToGidMap, FontKind, FontProgram, PdfFont,
};
use crate::tables::insert_some;

verus! {

/// What a character code stands for: a glyph and, where known, text.
pub type Mapping = (u32, Option<Seq<char>>);

/// The mathematical value of a map entry.
pub open spec fn entry_view(e: (u32, Option<String>)) -> Mapping {
    (
        e.0,
        match e.1 {
            Some(s) => Some(s@),
            None => None,
        },
    )
}

/// The mathematical value of a character map.
pub open spec fn cmap_view(m: Map<u16, (u32, Option<String>)>) -> Map<u16, Mapping> {
    Map::new(|k: u16| m.contains_key(k), |k: u16| entry_view(m[k]))
}

/// The text of an optional string.
pub open spec fn text_of(s: Option<String>) -> Option<Seq<char>> {
    match s {
        Some(s) => Some(s@),
        None => None,
    }
}

/// The value of a key in a map, if it has one.
pub open spec fn map_get<K, V>(m: Map<K, V>, key: K) -> Option<V> {
    if m.contains_key(key) {
        Some(m[key])
    } else {
        None
    }
}

/// Among the first `n` pairs of a ToUnicode map, how many have a code that
/// the font knows: as a string identifier if `by_sid`, else as a code of
/// its encoding.
pub open spec fn count_hits(
    pairs: Seq<(u16, String)>,
    program: FontProgram,
    by_sid: bool,
    n: int,
) -> nat
    decreases n,
{
    if n <= 0 {
        0
    } else {
        let hit = if by_sid {
            program.gid_for_sid(pairs[n - 1].0) is Some
        } else {
            program.gid_for_codepoint(pairs[n - 1].0 as u32) is Some
        };
        count_hits(pairs, program, by_sid, n - 1) + if hit {
            1nat
        } else {
            0nat
        }
    }
}

/// A pair of a ToUnicode map as an entry: the glyph the font knows for the
/// code, or the glyph with the number of the code, and the text.
pub open spec fn unicode_step(program: FontProgram, by_sid: bool, e: (u16, String)) -> Option<
    (u16, Mapping),
> {
    let found = if by_sid {
        program.gid_for_sid(e.0)
    } else {
        program.gid_for_codepoint(e.0 as u32)
    };
    Some(
        (
            e.0,
            (
                match found {
                    Some(gid) => gid,
                    None => e.0 as u32,
                },
                Some(e.1@),
            ),
        ),
    )
}

/// Whether a CFF font knows more codes of the ToUnicode map as string
/// identifiers than as codes of its encoding.
pub open spec fn prefers_sids(pairs: Seq<(u16, String)>, program: FontProgram) -> bool {
    program.kind == FontKind::Cff && count_hits(pairs, program, true, pairs.len() as int)
        > count_hits(pairs, program, false, pairs.len() as int)
}

/// Entry `i` of the built-in encoding of a CFF font, which leaves out the
/// codes without a glyph.
pub open spec fn cff_code_step(program: FontProgram, i: int) -> Option<(u16, Mapping)> {
    if program.cff_codepoint_map@[i] != 0 {
        Some((i as u16, (program.cff_codepoint_map@[i] as u32, None::<Seq<char>>)))
    } else {
        None
    }
}

/// The character map of a font whose codes are character identifiers:
/// from the ToUnicode map where the font has one, else from the cmap table
/// of the font program, else from the tables of a CFF font; empty where the
/// font has none of these.
pub open spec fn generic_map(font: PdfFont, program: FontProgram) -> Map<u16, Mapping> {
    insert_some(Map::empty(), generic_steps(font, program))
}

/// The entries of [`generic_map`] in the order in which they are made.
pub open spec fn generic_steps(font: PdfFont, program: FontProgram) -> Seq<Option<(u16, Mapping)>> {
    match font.to_unicode {
        Some(pairs) => unicode_steps(pairs@, program),
        None => match program.font_cmap() {
            Some(items) => cmap_steps(items),
            None => if program.kind == FontKind::Cff {
                if program.cff_cid {
                    sid_steps(program)
                } else {
                    cff_code_steps(program)
                }
            } else {
                Seq::empty()
            },
        },
    }
}

/// The pairs of a ToUnicode map as entries.
pub open spec fn unicode_steps(pairs: Seq<(u16, String)>, program: FontProgram) -> Seq<
    Option<(u16, Mapping)>,
> {
    Seq::new(pairs.len(), |i: int| unicode_step(program, prefers_sids(pairs, program), pairs[i]))
}

/// The pairs of a cmap table as entries without text.
pub open spec fn cmap_steps(items: Seq<(u32, u32)>) -> Seq<Option<(u16, Mapping)>> {
    Seq::new(items.len(), |i: int| Some((low16(items[i].0), (items[i].1, None::<Seq<char>>))))
}

/// The string identifiers of a CFF font as entries without text.
pub open spec fn sid_steps(program: FontProgram) -> Seq<Option<(u16, Mapping)>> {
    Seq::new(
        program.cff_sid_map@.len(),
        |i: int|
            Some(
                (
                    program.cff_sid_map@[i].0,
                    (program.cff_sid_map@[i].1 as u32, None::<Seq<char>>),
                ),
            ),
    )
}

/// The built-in encoding of a CFF font as entries without text.
pub open spec fn cff_code_steps(program: FontProgram) -> Seq<Option<(u16, Mapping)>> {
    Seq::new(program.cff_codepoint_map@.len(), |i: int| cff_code_step(program, i))
}

/// The text the ToUnicode map gives a code.
pub open spec fn to_unicode_text(pairs: Seq<(u16, String)>, code: u16) -> Option<Seq<char>> {
    text_of(table_get(pairs, code))
}

/// Every glyph number as the entry of the code with its low sixteen bits.
pub open spec fn identity_steps(program: FontProgram) -> Seq<Option<(u16, Mapping)>> {
    Seq::new(
        program.num_glyphs as nat,
        |n: int| Some((low16(n as u32), (n as u32, None::<Seq<char>>))),
    )
}

/// The character map under an identity map from character to glyph
/// identifiers: every glyph number stands for its glyph, with the text the
/// ToUnicode map gives it.
pub open spec fn identity_map(font: PdfFont, program: FontProgram) -> Map<u16, Mapping> {
    let plain = insert_some(Map::empty(), identity_steps(program));
    match font.to_unicode {
        None => plain,
        Some(pairs) => Map::new(
            |k: u16| plain.contains_key(k),
            |k: u16|
                (
                    plain[k].0,
                    match to_unicode_text(pairs@, k) {
                        Some(text) => Some(text),
                        None => plain[k].1,
                    },
                ),
        ),
    }
}

/// The character map under a table from character to glyph identifiers:
/// code `i` stands for glyph `table[i]`, with the text the ToUnicode map
/// gives the code or, without such a map, the text the font program gives
/// the glyph.
pub open spec fn table_map(font: PdfFont, program: FontProgram, table: Seq<u16>) -> Map<
    u16,
    Mapping,
> {
    insert_some(Map::empty(), table_steps(font, program, table))
}

/// The entries of [`table_map`], one for every index of the table.
pub open spec fn table_steps(font: PdfFont, program: FontProgram, table: Seq<u16>) -> Seq<
    Option<(u16, Mapping)>,
> {
    Seq::new(
        table.len(),
        |i: int|
            Some(
                (
                    i as u16,
                    (
                        table[i] as u32,
                        match font.to_unicode {
                            Some(pairs) => to_unicode_text(pairs@, i as u16),
                            None => map_get(program.glyph_unicode(), table[i] as u32),
                        },
                    ),
                ),
            ),
    )
}

/// The table that stands for a base encoding.
pub open spec fn source_encoding(base: Option<BaseEncoding>) -> Option<Encoding> {
    match base {
        Some(BaseEncoding::StandardEncoding) => Some(Encoding::AdobeStandard),
        Some(BaseEncoding::SymbolEncoding) => Some(Encoding::AdobeSymbol),
        Some(BaseEncoding::WinAnsiEncoding) => Some(Encoding::WinAnsiEncoding),
        Some(BaseEncoding::MacRomanEncoding) => Some(Encoding::MacRomanEncoding),
        Some(BaseEncoding::MacExpertEncoding) => Some(Encoding::AdobeExpert),
        _ => None,
    }
}

/// The base encoding of a font, if its dictionary has an encoding.
pub open spec fn base_encoding(font: PdfFont) -> Option<BaseEncoding> {
    match font.encoding {
        Some(e) => Some(e.base),
        None => None,
    }
}

/// The text of one character.
pub open spec fn char_text(c: Option<char>) -> Option<Seq<char>> {
    match c {
        Some(c) => Some(seq![c]),
        None => None,
    }
}

/// The entry of byte `b`, given the code `code` that the byte has in the
/// font's own encoding and the character `text` that it stands for: the
/// glyph the font has for the code, if the byte has a code and the font a
/// glyph for it.
pub open spec fn transcoded_entry(
    program: FontProgram,
    b: int,
    code: Option<u32>,
    text: Option<char>,
) -> Option<(u16, Mapping)> {
    match code {
        Some(code) => match program.gid_for_codepoint(code) {
            Some(gid) => Some((b as u16, (gid, char_text(text)))),
            None => None,
        },
        None => None,
    }
}

/// Byte `b` of a text in `source`, for a font whose codes are in `dest`.
pub open spec fn transcoded_step(program: FontProgram, source: Encoding, dest: Encoding, b: int) -> Option<
    (u16, Mapping),
> {
    transcoded_entry(
        program,
        b,
        transcoded(source, dest, b as u32),
        forward_mapped(source, b as u8),
    )
}

/// The entry of byte `b`, given the Unicode code point `code` that the
/// byte stands for: the glyph the font has for the code point, with the
/// character as text.
pub open spec fn unicode_entry(program: FontProgram, b: int, code: Option<u32>) -> Option<
    (u16, Mapping),
> {
    match code {
        Some(code) => match program.gid_for_unicode_codepoint(code) {
            Some(gid) => Some((b as u16, (gid, scalar_text(code as int)))),
            None => None,
        },
        None => None,
    }
}

/// Byte `b` of a text in `source`, for a font that is looked up by Unicode.
pub open spec fn unicode_lookup_step(program: FontProgram, source: Encoding, b: int) -> Option<
    (u16, Mapping),
> {
    unicode_entry(program, b, transcoded(source, Encoding::Unicode, b as u32))
}

/// Code `i` of the built-in encoding of a CFF font, with the text of its glyph.
pub open spec fn cff_text_step(program: FontProgram, i: int) -> Option<(u16, Mapping)> {
    Some(
        (
            i as u16,
            (
                program.cff_codepoint_map@[i] as u32,
                map_get(program.glyph_unicode(), program.cff_codepoint_map@[i] as u32),
            ),
        ),
    )
}

/// What the base encoding alone makes of the 256 byte values.
pub open spec fn encoded_map(font: PdfFont, program: FontProgram) -> Map<u16, Mapping> {
    insert_some(Map::empty(), encoded_steps(font, program))
}

/// The entries of [`encoded_map`]: through the table from the base encoding
/// to the font's own where the font program names its encoding, by
/// Unicode where it names none, and for another base encoding the
/// built-in encoding of a CFF font.
pub open spec fn encoded_steps(font: PdfFont, program: FontProgram) -> Seq<Option<(u16, Mapping)>> {
    match source_encoding(base_encoding(font)) {
        Some(source) => match program.encoding {
            Some(dest) => Seq::new(256, |b: int| transcoded_step(program, source, dest, b)),
            None => Seq::new(256, |b: int| unicode_lookup_step(program, source, b)),
        },
        None => if program.kind == FontKind::Cff {
            Seq::new(program.cff_codepoint_map@.len(), |i: int| cff_text_step(program, i))
        } else {
            Seq::empty()
        },
    }
}

/// The length of a glyph name up to its first full stop.
pub open spec fn stem_len(name: Seq<char>) -> int {
    stem_end(name, 0)
}

/// The index of the first full stop of `name` at or after `from`, or the
/// length of `name` where there is none.
pub open spec fn stem_end(name: Seq<char>, from: int) -> int
    decreases name.len() - from,
{
    if from < 0 || from >= name.len() || name[from] == '.' {
        from
    } else {
        stem_end(name, from + 1)
    }
}

/// A glyph name without its suffix: what stands before the first full stop.
pub open spec fn stem(name: Seq<char>) -> Seq<char> {
    name.subrange(0, stem_len(name))
}

/// The text a glyph name stands for by the glyph list, its suffix aside.
pub open spec fn name_text(name: Seq<char>) -> Option<Seq<char>> {
    listed_text(glyph_list_unicode(stem(name)))
}

/// What the glyph list says of a name as text: nothing where it says
/// nothing or gives an empty text.
pub open spec fn listed_text(listed: Option<Seq<char>>) -> Option<Seq<char>> {
    match listed {
        Some(text) => if text.len() > 0 {
            Some(text)
        } else {
            None
        },
        None => None,
    }
}

/// The glyph for the code `code` that the differences give the name `name`;
/// see [`named_gid`].
pub open spec fn difference_gid(program: FontProgram, code: u32, name: Seq<char>) -> u32 {
    named_gid(program, code, name, name_text(name))
}

/// The glyph for the code `code` with the glyph name `name`, whose text by
/// the glyph list is `text`: the glyph of that name; else the glyph for
/// the first character of the text; else the glyph for the code; else the
/// glyph with the number of the code.
pub open spec fn named_gid(
    program: FontProgram,
    code: u32,
    name: Seq<char>,
    text: Option<Seq<char>>,
) -> u32 {
    let by_text = match text {
        Some(text) => if text.len() > 0 {
            program.gid_for_unicode_codepoint(text[0] as u32)
        } else {
            None
        },
        None => None,
    };
    match program.gid_for_name(name) {
        Some(gid) => gid,
        None => match by_text {
            Some(gid) => gid,
            None => match program.gid_for_codepoint(code) {
                Some(gid) => gid,
                None => code,
            },
        },
    }
}

/// The start of the range of private-use codes that stand in for glyphs
/// without text in the differences.
pub open spec fn private_base() -> int {
    0xF000
}

/// The entry of the code `code` with the glyph name `name`, given what the
/// glyph list says of the name without its suffix: the glyph is
/// [`named_gid`], the text is that of the glyph list, else the private-use
/// character of the glyph.
pub open spec fn difference_entry(
    program: FontProgram,
    code: u32,
    name: Seq<char>,
    listed: Option<Seq<char>>,
) -> (u16, Mapping) {
    let text = listed_text(listed);
    let gid = named_gid(program, code, name, text);
    (
        low16(code),
        (
            gid,
            match text {
                Some(text) => Some(text),
                None => scalar_text(private_base() + gid),
            },
        ),
    )
}

/// The entry that one pair of the differences makes.
pub open spec fn difference_step(program: FontProgram, e: (u32, String)) -> Option<(u16, Mapping)> {
    Some(difference_entry(program, e.0, e.1@, glyph_list_unicode(stem(e.1@))))
}

/// The entry that one pair of the ToUnicode map makes in a font that is
/// looked up by Unicode and has no encoding entry.
pub open spec fn direct_step(program: FontProgram, e: (u16, String)) -> Option<(u16, Mapping)> {
    match program.gid_for_unicode_codepoint(e.0 as u32) {
        Some(gid) => Some((e.0, (gid, Some(e.1@)))),
        None => None,
    }
}

/// The entry that one pair of the built-in encoding of a Type 1 font makes.
pub open spec fn type1_step(program: FontProgram, e: (u32, u32)) -> Option<(u16, Mapping)> {
    Some((low16(e.0), (e.1, map_get(program.glyph_unicode(), e.1))))
}

/// The entry that a glyph with text makes where the codes of the text are
/// taken to be Unicode: the first character of the glyph's text is its code.
pub open spec fn assumed_step(program: FontProgram, s: Option<(u32, Seq<char>)>) -> Option<
    (u16, Mapping),
> {
    match s {
        Some((gid, _)) => match map_get(program.glyph_unicode(), gid) {
            Some(text) => if text.len() > 0 {
                Some((low16(text[0] as u32), (gid, Some(text))))
            } else {
                None
            },
            None => None,
        },
        None => None,
    }
}

/// The character map of a font with single-byte codes: what the base
/// encoding gives, and over it the differences; or, for a font without an
/// encoding entry, the ToUnicode map, else the built-in encoding of a
/// Type 1 font, else the font program's own text for each glyph.
pub open spec fn simple_map(font: PdfFont, program: FontProgram) -> Map<u16, Mapping> {
    insert_some(encoded_map(font, program), refining_steps(font, program))
}

/// The entries that [`simple_map`] lays over what the base encoding gives.
pub open spec fn refining_steps(font: PdfFont, program: FontProgram) -> Seq<Option<(u16, Mapping)>> {
    match font.encoding {
        Some(encoding) => Seq::new(
            encoding.differences@.len(),
            |i: int| difference_step(program, encoding.differences@[i]),
        ),
        None => match font.to_unicode {
            Some(pairs) => Seq::new(pairs@.len(), |i: int| direct_step(program, pairs@[i])),
            None => if program.kind == FontKind::Type1 {
                Seq::new(
                    program.type1_codepoints@.len(),
                    |i: int| type1_step(program, program.type1_codepoints@[i]),
                )
            } else {
                Seq::new(
                    program.glyph_unicode_steps().len(),
                    |i: int| assumed_step(program, program.glyph_unicode_steps()[i]),
                )
            },
        },
    }
}

/// Whether the codes of the font are character identifiers of two bytes:
/// with a map from character to glyph identifiers, with the Identity-H
/// encoding, where the single-byte rules give nothing, and else as the
/// font dictionary says.
pub open spec fn built_is_cid(font: PdfFont, program: FontProgram) -> bool {
    if font.cid_to_gid_map is Some || base_encoding(font) == Some(BaseEncoding::IdentityH) {
        true
    } else if simple_map(font, program).dom() =~= Set::<u16>::empty() {
        true
    } else {
        font.is_cid
    }
}

/// The character map of a font, before any later pass over it: by the map
/// from character to glyph identifiers where the font has one; else for
/// the Identity-H encoding the map of a font with character identifiers;
/// else what the rules for single-byte codes give, and where they give
/// nothing, the map under an identity map.
pub open spec fn built_map(font: PdfFont, program: FontProgram) -> Map<u16, Mapping> {
    match font.cid_to_gid_map {
        Some(CidToGidMap::Identity) => identity_map(font, program),
        Some(CidToGidMap::Table(table)) => table_map(font, program, table@),
        None => if base_encoding(font) == Some(BaseEncoding::IdentityH) {
            generic_map(font, program)
        } else if simple_map(font, program).dom() =~= Set::<u16>::empty() {
            identity_map(font, program)
        } else {
            simple_map(font, program)
        },
    }
}

/// A character map with the text of every glyph that `matched` knows
/// replaced by what `matched` says.
pub open spec fn matched_map(cmap: Map<u16, Mapping>, matched: Map<u32, Seq<char>>) -> Map<
    u16,
    Mapping,
> {
    Map::new(
        |k: u16| cmap.contains_key(k),
        |k: u16|
            (
                cmap[k].0,
                if matched.contains_key(cmap[k].0) {
                    Some(matched[cmap[k].0])
                } else {
                    cmap[k].1
                },
            ),
    )
}

/// The text that a glyph database gives the glyphs of a font, as a map; of
/// two pairs for one glyph the later counts.
pub open spec fn matched_texts(pairs: Seq<(u32, String)>) -> Map<u32, Seq<char>> {
    insert_some(Map::empty(), Seq::new(pairs.len(), |i: int| Some((pairs[i].0, pairs[i].1@))))
}

/// The character map built from the font dictionary and the font program,
/// corrected by the glyph database where one answered.
pub open spec fn named_map(
    font: PdfFont,
    program: FontProgram,
    matched: Option<Seq<(u32, String)>>,
) -> Map<u16, Mapping> {
    match matched {
        Some(pairs) => matched_map(built_map(font, program), matched_texts(pairs)),
        None => built_map(font, program),
    }
}

/// The character map of a font entry: [`named_map`], made unique where
/// that is asked for.
pub open spec fn final_map(
    font: PdfFont,
    program: FontProgram,
    matched: Option<Seq<(u32, String)>>,
    unique: bool,
) -> Map<u16, Mapping> {
    if unique {
        crate::unique::unique_map(
            named_map(font, program, matched),
            program.empty_glyphs@.to_set(),
        )
    } else {
        named_map(font, program, matched)
    }
}

} // verus!
