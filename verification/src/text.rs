//! Showing text: from the bytes of a text operator to glyphs and to the
//! text they stand for.

use vstd::prelude::*;
use vstd::string::StringExecFns;
use vstd::utf8::encode_utf8;
use crate::charmap::{entry_view, map_get, Mapping};
use crate::fontentry::{copy_text, FontEntry};
use crate::span::{divides, lemma_divides_extends, lemma_divides_longer, placed_chars, TextChar};

verus! {

broadcast use vstd::std_specs::hash::group_hash_axioms;

/// The text rendering modes.
#[derive(Debug, Copy, Clone, Hash, PartialEq, Eq, Structural)]
pub enum TextMode {
    Fill,
    Stroke,
    FillThenStroke,
    Invisible,
    FillAndClip,
    StrokeAndClip,
}

/// The ways of painting an outline.
#[derive(Debug, Copy, Clone, Hash, PartialEq, Eq, Structural)]
pub enum DrawKind {
    Fill,
    Stroke,
    FillStroke,
}

/// How glyphs are painted in a text rendering mode; invisible text is not
/// painted at all.
pub open spec fn text_draw_kind(mode: TextMode) -> Option<DrawKind> {
    match mode {
        TextMode::Fill => Some(DrawKind::Fill),
        TextMode::FillAndClip => Some(DrawKind::Fill),
        TextMode::FillThenStroke => Some(DrawKind::FillStroke),
        TextMode::Invisible => None,
        TextMode::Stroke => Some(DrawKind::Stroke),
        TextMode::StrokeAndClip => Some(DrawKind::Stroke),
    }
}

impl TextMode {
    /// How glyphs are painted in this mode; see [`text_draw_kind`].
    pub fn draw_kind(self) -> (kind: Option<DrawKind>)
        ensures
            kind == text_draw_kind(self),
    {
        match self {
            TextMode::Fill => Some(DrawKind::Fill),
            TextMode::FillAndClip => Some(DrawKind::Fill),
            TextMode::FillThenStroke => Some(DrawKind::FillStroke),
            TextMode::Invisible => None,
            TextMode::Stroke => Some(DrawKind::Stroke),
            TextMode::StrokeAndClip => Some(DrawKind::Stroke),
        }
    }
}

/// The character codes in the bytes of a text operator: two bytes each, the
/// high byte first, for a font with character identifiers (a last odd
/// byte is left over), and one byte each otherwise.
pub open spec fn char_codes(data: Seq<u8>, is_cid: bool) -> Seq<u16> {
    if is_cid {
        Seq::new(data.len() / 2, |i: int| (data[2 * i] * 256 + data[2 * i + 1]) as u16)
    } else {
        Seq::new(data.len(), |i: int| data[i] as u16)
    }
}

/// Reads the character codes from the bytes of a text operator; see
/// [`char_codes`].
pub fn decode_codes(data: &Vec<u8>, is_cid: bool) -> (codes: Vec<u16>)
    ensures
        codes@ == char_codes(data@, is_cid),
{
    let mut codes: Vec<u16> = Vec::new();
    let n: usize = data.len();
    if is_cid {
        let pairs: usize = n / 2;
        let mut i: usize = 0;
        while i < pairs
            invariant
                i <= pairs,
                n == data@.len(),
                pairs == n / 2,
                codes@.len() == i,
                forall|j: int|
                    0 <= j < i ==> codes@[j] == (data@[2 * j] * 256 + data@[2 * j + 1]) as u16,
            decreases pairs - i,
        {
            let high: u16 = data[2 * i] as u16;
            let low: u16 = data[2 * i + 1] as u16;
            codes.push(high * 256 + low);
            i += 1;
        }
    } else {
        let mut i: usize = 0;
        while i < n
            invariant
                i <= n,
                n == data@.len(),
                codes@.len() == i,
                forall|j: int| 0 <= j < i ==> codes@[j] == data@[j] as u16,
            decreases n - i,
        {
            codes.push(data[i] as u16);
            i += 1;
        }
    }
    assert(codes@ =~= char_codes(data@, is_cid));
    codes
}

/// One character code of shown text: its glyph, the text it stands for,
/// whether it is a word space, and where its text begins in the text of
/// the span, counted in bytes, if it has text there.
#[derive(Debug, Clone, PartialEq, Eq)]
pub struct ShownGlyph {
    pub cid: u16,
    pub gid: u32,
    pub unicode: Option<String>,
    pub is_space: bool,
    pub offset: Option<usize>,
}

/// The text of a single space.
pub open spec fn space() -> Seq<char> {
    seq![' ']
}

/// The glyph of the code `cid`: that of the character map, and glyph 0 for
/// a code the map lacks.
pub open spec fn shown_gid(cmap: Map<u16, Mapping>, cid: u16) -> u32 {
    match map_get(cmap, cid) {
        Some(m) => m.0,
        None => 0,
    }
}

/// The text of the code `cid` according to the character map.
pub open spec fn shown_unicode(cmap: Map<u16, Mapping>, cid: u16) -> Option<Seq<char>> {
    match map_get(cmap, cid) {
        Some(m) => m.1,
        None => None,
    }
}

/// Whether the code `cid` is a word space: in a font with single-byte
/// codes a code whose text is one space, and a code 32 that the map lacks.
pub open spec fn shown_space(cmap: Map<u16, Mapping>, is_cid: bool, cid: u16) -> bool {
    match map_get(cmap, cid) {
        Some(m) => !is_cid && m.1 == Some(space()),
        None => cid == 0x20,
    }
}

/// The text that the code `cid` adds to the span: a space for a word
/// space, else its own text, if it has any.
pub open spec fn shown_text(cmap: Map<u16, Mapping>, is_cid: bool, cid: u16) -> Seq<char> {
    if shown_space(cmap, is_cid, cid) {
        space()
    } else {
        match shown_unicode(cmap, cid) {
            Some(text) => text,
            None => Seq::empty(),
        }
    }
}

/// Whether the code `cid` gets a place in the span's list of characters.
pub open spec fn shown_has_text(cmap: Map<u16, Mapping>, is_cid: bool, cid: u16) -> bool {
    shown_space(cmap, is_cid, cid) || shown_unicode(cmap, cid) is Some
}

/// The text that the first `n` of `codes` add to a span.
pub open spec fn run_text(cmap: Map<u16, Mapping>, is_cid: bool, codes: Seq<u16>, n: int) -> Seq<
    char,
>
    decreases n,
{
    if n <= 0 {
        Seq::empty()
    } else {
        run_text(cmap, is_cid, codes, n - 1) + shown_text(cmap, is_cid, codes[n - 1])
    }
}

/// Whether `glyph` is what code number `i` of `codes` shows when the text
/// of the span was `before` at the start of the run.
pub open spec fn is_shown(
    glyph: ShownGlyph,
    cmap: Map<u16, Mapping>,
    is_cid: bool,
    codes: Seq<u16>,
    before: Seq<char>,
    i: int,
) -> bool {
    &&& glyph.cid == codes[i]
    &&& glyph.gid == shown_gid(cmap, codes[i])
    &&& (match glyph.unicode {
        Some(s) => Some(s@),
        None => None,
    }) == shown_unicode(cmap, codes[i])
    &&& glyph.is_space == shown_space(cmap, is_cid, codes[i])
    &&& glyph.offset is Some == shown_has_text(cmap, is_cid, codes[i])
    &&& glyph.offset is Some ==> glyph.offset->0 == encode_utf8(
        before + run_text(cmap, is_cid, codes, i),
    ).len()
}

/// Whether `placed` gives every code of a run that has text its place in
/// the text of the span, and no other code a place.
pub open spec fn placed_as_shown<S>(
    placed: Seq<(Option<usize>, S, S)>,
    cmap: Map<u16, Mapping>,
    is_cid: bool,
    codes: Seq<u16>,
    before: Seq<char>,
) -> bool {
    &&& placed.len() == codes.len()
    &&& forall|i: int|
        0 <= i < placed.len() ==> {
            &&& (#[trigger] placed[i]).0 is Some == shown_has_text(cmap, is_cid, codes[i])
            &&& placed[i].0 is Some ==> placed[i].0->0 == encode_utf8(
                before + run_text(cmap, is_cid, codes, i),
            ).len()
        }
}

/// The characters that a run of shown glyphs adds to a span divide the
/// text of the span as the earlier ones did: each begins between two
/// characters of the text, and none before the one before it.
pub proof fn lemma_run_divides<S>(
    earlier: Seq<TextChar<S>>,
    placed: Seq<(Option<usize>, S, S)>,
    cmap: Map<u16, Mapping>,
    is_cid: bool,
    codes: Seq<u16>,
    before: Seq<char>,
    n: int,
)
    requires
        divides(earlier, before),
        placed_as_shown(placed, cmap, is_cid, codes, before),
        0 <= n <= codes.len(),
    ensures
        divides(
            earlier + placed_chars(placed.take(n)),
            before + run_text(cmap, is_cid, codes, n),
        ),
    decreases n,
{
    if n == 0 {
        assert(placed.take(0) =~= Seq::empty());
        assert(earlier + placed_chars(placed.take(0)) =~= earlier);
        assert(before + run_text(cmap, is_cid, codes, 0) =~= before);
    } else {
        lemma_run_divides(earlier, placed, cmap, is_cid, codes, before, n - 1);
        let chars = earlier + placed_chars(placed.take(n - 1));
        let text = before + run_text(cmap, is_cid, codes, n - 1);
        let addition = shown_text(cmap, is_cid, codes[n - 1]);
        assert(placed.take(n).drop_last() =~= placed.take(n - 1));
        assert(placed.take(n).last() == placed[n - 1]);
        assert(before + run_text(cmap, is_cid, codes, n) =~= text + addition);
        match placed[n - 1].0 {
            Some(offset) => {
                let next = TextChar { offset, pos: placed[n - 1].1, width: placed[n - 1].2 };
                lemma_divides_extends(chars, text, addition, next);
                assert(earlier + placed_chars(placed.take(n)) =~= chars.push(next));
            },
            None => {
                lemma_divides_longer(chars, text, addition);
                assert(earlier + placed_chars(placed.take(n)) =~= chars);
            },
        }
    }
}

/// Whether a text is a single space.
fn is_one_space(text: &Option<String>) -> (r: bool)
    ensures
        r == (match text {
            Some(s) => s@ == space(),
            None => false,
        }),
{
    match text {
        Some(s) => {
            let one: String = String::from_str(" ");
            proof {
                reveal_strlit(" ");
                assert(one@ =~= space());
            }
            *s == one
        },
        None => false,
    }
}

/// Shows the bytes `data` of a text operator in the font `entry`: decodes
/// the character codes, looks each up in the character map, and appends
/// the text they stand for to `text`, the text of the span.
///
/// The result holds one glyph for each code, in order. A word space adds
/// a space to the text and is not to be painted; any other code adds its
/// own text, if the map gives it any.
pub fn draw_text(entry: &FontEntry, data: &Vec<u8>, text: &mut String) -> (glyphs: Vec<ShownGlyph>)
    ensures
        glyphs@.len() == char_codes(data@, entry.is_cid).len(),
        final(text)@ == old(text)@ + run_text(
            entry.mappings(),
            entry.is_cid,
            char_codes(data@, entry.is_cid),
            glyphs@.len() as int,
        ),
        forall|i: int|
            0 <= i < glyphs@.len() ==> is_shown(
                #[trigger] glyphs@[i],
                entry.mappings(),
                entry.is_cid,
                char_codes(data@, entry.is_cid),
                old(text)@,
                i,
            ),
{
    let codes: Vec<u16> = decode_codes(data, entry.is_cid);
    let ghost cmap = entry.mappings();
    let ghost before = text@;
    let is_cid: bool = entry.is_cid;
    let mut glyphs: Vec<ShownGlyph> = Vec::new();
    let mut i: usize = 0;
    assert(before + run_text(cmap, is_cid, codes@, 0) =~= before);
    while i < codes.len()
        invariant
            i <= codes.len(),
            codes@ == char_codes(data@, entry.is_cid),
            cmap == entry.mappings(),
            is_cid == entry.is_cid,
            glyphs@.len() == i,
            text@ == before + run_text(cmap, is_cid, codes@, i as int),
            forall|j: int|
                0 <= j < i ==> is_shown(#[trigger] glyphs@[j], cmap, is_cid, codes@, before, j),
        decreases codes.len() - i,
    {
        let cid: u16 = codes[i];
        let (gid, unicode, is_space): (u32, Option<String>, bool) = match entry.cmap.get(&cid) {
            Some(found) => {
                assert(cmap[cid] == entry_view(*found));
                let unicode: Option<String> = copy_text(&found.1);
                let is_space: bool = !is_cid && is_one_space(&unicode);
                (found.0, unicode, is_space)
            },
            None => (0, None, cid == 0x20),
        };
        let at: usize = text.as_str().as_bytes().len();
        let ghost so_far = text@;
        let offset: Option<usize> = if is_space {
            proof {
                reveal_strlit(" ");
                assert(" "@ =~= space());
            }
            text.append(" ");
            Some(at)
        } else {
            match &unicode {
                Some(s) => {
                    text.append(s.as_str());
                    Some(at)
                },
                None => None,
            }
        };
        assert(text@ =~= before + run_text(cmap, is_cid, codes@, i + 1)) by {
            assert(text@ =~= so_far + shown_text(cmap, is_cid, cid));
        }
        let glyph = ShownGlyph { cid, gid, unicode, is_space, offset };
        assert(is_shown(glyph, cmap, is_cid, codes@, before, i as int));
        glyphs.push(glyph);
        i += 1;
    }
    glyphs
}

} // verus!
