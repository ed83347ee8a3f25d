//! What a font is made of, as far as the encoding of text is concerned: the
//! entries of the font dictionary and the tables of the font program.

use vstd::prelude::*;
use crate::encoding::{is_scalar, Encoding};
use crate::names::position;
use crate::tables::{insert_some, map_of};

verus! {

/// The base encoding a font dictionary names.
#[derive(Debug, Copy, Clone, Hash, PartialEq, Eq, Structural)]
pub enum BaseEncoding {
    StandardEncoding,
    SymbolEncoding,
    MacRomanEncoding,
    WinAnsiEncoding,
    MacExpertEncoding,
    IdentityH,
    Absent,
    Other,
}

/// The encoding entry of a font dictionary: a base encoding and the codes
/// that differ from it, each with the name of its glyph. Where a code
/// occurs twice in `differences`, the later pair counts.
#[derive(Debug, Clone, PartialEq, Eq)]
pub struct FontEncoding {
    pub base: BaseEncoding,
    pub differences: Vec<(u32, String)>,
}

/// The map from character identifiers to glyph identifiers of a CID font.
#[derive(Debug, Clone, PartialEq, Eq)]
pub enum CidToGidMap {
    Identity,
    Table(Vec<u16>),
}

/// The entries of a font dictionary that decide how text is decoded.
///
/// `to_unicode` holds the pairs of the ToUnicode map; where a code occurs
/// twice, the later pair counts.
#[derive(Debug, Clone, PartialEq, Eq)]
pub struct PdfFont {
    pub name: Option<String>,
    pub is_cid: bool,
    pub encoding: Option<FontEncoding>,
    pub to_unicode: Option<Vec<(u16, String)>>,
    pub cid_to_gid_map: Option<CidToGidMap>,
}

/// The format of a font program.
#[derive(Debug, Copy, Clone, Hash, PartialEq, Eq, Structural)]
pub enum FontKind {
    Type1,
    TrueType,
    OpenType,
    Cff,
    Other,
}

/// The tables of a parsed font program.
///
/// The three `*_gids` tables answer which glyph a code of the font's own
/// encoding, a Unicode code point or a glyph name selects. The others are
/// the inventory of one font format each and are empty for the other
/// formats. In a table of pairs a later pair replaces an earlier one with
/// the same key, except in `name_gids`, where the first pair counts.
#[derive(Debug, Clone, PartialEq, Eq)]
pub struct FontProgram {
    pub kind: FontKind,
    pub num_glyphs: u32,
    /// The encoding the font program says its codes are in.
    pub encoding: Option<Encoding>,
    pub codepoint_gids: Vec<(u32, u32)>,
    pub unicode_gids: Vec<(u32, u32)>,
    pub name_gids: Vec<(String, u32)>,
    /// TrueType and OpenType: the pairs (code point, glyph) of the cmap table.
    pub cmap: Option<Vec<(u32, u32)>>,
    /// Type 1: the pairs (code, glyph) of the built-in encoding.
    pub type1_codepoints: Vec<(u32, u32)>,
    /// Type 1: the pairs (glyph, text) that the glyph names stand for.
    pub unicode_names: Vec<(u32, String)>,
    /// CFF: the pairs (string identifier, glyph).
    pub cff_sid_map: Vec<(u16, u16)>,
    /// CFF: the glyph of every code of the built-in encoding.
    pub cff_codepoint_map: Vec<u16>,
    /// CFF: the pairs (text, glyph).
    pub cff_unicode_map: Vec<(String, u16)>,
    /// CFF: whether the font is CID-keyed.
    pub cff_cid: bool,
    /// The glyphs without an outline.
    pub empty_glyphs: Vec<u32>,
}

/// What a key maps to in a table of pairs, if anything.
pub open spec fn table_get<K, V>(table: Seq<(K, V)>, key: K) -> Option<V> {
    if map_of(table).contains_key(key) {
        Some(map_of(table)[key])
    } else {
        None
    }
}

/// The low sixteen bits of a code.
pub open spec fn low16(code: u32) -> u16 {
    code as u16
}

/// The text of the single character with the code `code`, where there is one.
pub open spec fn scalar_text(code: int) -> Option<Seq<char>> {
    if 0 <= code <= u32::MAX && is_scalar(code as u32) {
        Some(seq![code as u32 as char])
    } else {
        None
    }
}

impl FontProgram {
    /// The glyph that a code of the font's own encoding selects.
    pub open spec fn gid_for_codepoint(&self, code: u32) -> Option<u32> {
        table_get(self.codepoint_gids@, code)
    }

    /// The glyph that a Unicode code point selects.
    pub open spec fn gid_for_unicode_codepoint(&self, code: u32) -> Option<u32> {
        table_get(self.unicode_gids@, code)
    }

    /// The glyph with the name `name`.
    pub open spec fn gid_for_name(&self, name: Seq<char>) -> Option<u32> {
        match position(self.name_gids@, name) {
            Some(i) => Some(self.name_gids@[i].1),
            None => None,
        }
    }

    /// The glyph that a CFF string identifier selects.
    pub open spec fn gid_for_sid(&self, sid: u16) -> Option<u32> {
        match table_get(self.cff_sid_map@, sid) {
            Some(gid) => Some(gid as u32),
            None => None,
        }
    }

    /// The cmap table of a TrueType or OpenType font.
    pub open spec fn font_cmap(&self) -> Option<Seq<(u32, u32)>> {
        if self.kind == FontKind::TrueType || self.kind == FontKind::OpenType {
            match self.cmap {
                Some(items) => Some(items@),
                None => None,
            }
        } else {
            None
        }
    }

    /// Whether the glyph `gid` has no outline.
    pub open spec fn is_empty_glyph(&self, gid: u32) -> bool {
        self.empty_glyphs@.contains(gid)
    }

    /// The pairs (glyph, text) that the font program gives, in its order:
    /// from the glyph names of a Type 1 font, else from the cmap table of a
    /// TrueType or OpenType font, else from the text table of a CFF font,
    /// and for any other font every glyph number that is the code of a
    /// character, with that character. A step is empty where a code of the
    /// cmap table is no character.
    pub open spec fn glyph_unicode_steps(&self) -> Seq<Option<(u32, Seq<char>)>> {
        if self.kind == FontKind::Type1 {
            self.unicode_names@.map_values(|e: (u32, String)| Some((e.0, e.1@)))
        } else if self.font_cmap() is Some {
            self.font_cmap()->0.map_values(
                |e: (u32, u32)|
                    match scalar_text(e.0 as int) {
                        Some(text) => Some((e.1, text)),
                        None => None,
                    },
            )
        } else if self.kind == FontKind::Cff {
            self.cff_unicode_map@.map_values(|e: (String, u16)| Some((e.1 as u32, e.0@)))
        } else {
            Seq::new(
                self.num_glyphs as nat,
                |gid: int|
                    match scalar_text(gid) {
                        Some(text) => Some((gid as u32, text)),
                        None => None,
                    },
            )
        }
    }

    /// The text of each glyph, as far as the font program tells; of two
    /// pairs for one glyph the later counts.
    pub open spec fn glyph_unicode(&self) -> Map<u32, Seq<char>> {
        insert_some(Map::empty(), self.glyph_unicode_steps())
    }
}

} // verus!
