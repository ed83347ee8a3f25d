//! When every entry of a character map names a glyph of the font and holds
//! text that is not empty.

use vstd::prelude::*;
use crate::charmap::{
    assumed_step, built_map, cff_code_step, cff_text_step, difference_gid, difference_step,
    direct_step, encoded_map, encoded_steps, final_map, generic_map, generic_steps, identity_map,
    identity_steps, matched_map, matched_texts, named_map, prefers_sids, refining_steps,
    simple_map, table_map, table_steps, to_unicode_text, transcoded_step, type1_step,
    unicode_lookup_step, unicode_step, Mapping,
};
use crate::font::{table_get, CidToGidMap, FontKind, FontProgram, PdfFont};
use crate::tables::{insert_some, lemma_insert_some_holds};
use crate::unique::{glyph_order, is_glyph_order, unique_steps};

verus! {

/// Whether an entry names one of the first `n` glyphs and its text, if it
/// has any, is not empty.
pub open spec fn valid_mapping(m: Mapping, n: u32) -> bool {
    m.0 < n && (m.1 is Some ==> m.1->0.len() > 0)
}

/// Whether every entry of `cmap` is valid for a font of `n` glyphs.
pub open spec fn all_valid(cmap: Map<u16, Mapping>, n: u32) -> bool {
    forall|k: u16| cmap.contains_key(k) ==> valid_mapping(#[trigger] cmap[k], n)
}

/// Whether every glyph that a table of pairs names is one of the first `n`.
pub open spec fn gids_below<K>(table: Seq<(K, u32)>, n: u32) -> bool {
    forall|i: int| 0 <= i < table.len() ==> (#[trigger] table[i]).1 < n
}

/// Whether the tables of the font program name glyphs of the font only and
/// give no glyph an empty text.
pub open spec fn tables_sound(program: FontProgram) -> bool {
    let n = program.num_glyphs;
    &&& gids_below(program.codepoint_gids@, n)
    &&& gids_below(program.unicode_gids@, n)
    &&& gids_below(program.name_gids@, n)
    &&& gids_below(program.type1_codepoints@, n)
    &&& (program.cmap is Some ==> gids_below(program.cmap->0@, n))
    &&& forall|i: int|
        0 <= i < program.cff_sid_map@.len() ==> (#[trigger] program.cff_sid_map@[i]).1 < n
    &&& forall|i: int|
        0 <= i < program.cff_codepoint_map@.len() ==> (#[trigger] program.cff_codepoint_map@[i])
            < n
    &&& forall|i: int|
        0 <= i < program.cff_unicode_map@.len() ==> {
            &&& (#[trigger] program.cff_unicode_map@[i]).1 < n
            &&& program.cff_unicode_map@[i].0@.len() > 0
        }
    &&& forall|i: int|
        0 <= i < program.unicode_names@.len() ==> (#[trigger] program.unicode_names@[i]).1@.len()
            > 0
}

/// Whether the font dictionary gives no code an empty text, names glyphs
/// of the font only, and holds no code that would stand for the glyph with
/// its own number without the font having such a glyph.
pub open spec fn dictionary_sound(font: PdfFont, program: FontProgram) -> bool {
    let n = program.num_glyphs;
    &&& match font.to_unicode {
        Some(pairs) => forall|i: int|
            0 <= i < pairs@.len() ==> {
                &&& (#[trigger] pairs@[i]).1@.len() > 0
                &&& (unicode_step(program, prefers_sids(pairs@, program), pairs@[i])->0).1.0 < n
            },
        None => true,
    }
    &&& match font.encoding {
        Some(encoding) => forall|i: int|
            0 <= i < encoding.differences@.len() ==> difference_gid(
                program,
                (#[trigger] encoding.differences@[i]).0,
                encoding.differences@[i].1@,
            ) < n,
        None => true,
    }
    &&& match font.cid_to_gid_map {
        Some(CidToGidMap::Table(table)) => forall|i: int|
            0 <= i < table@.len() ==> (#[trigger] table@[i]) < n,
        _ => true,
    }
}

/// Whether the glyph database names glyphs only with text that is not
/// empty.
pub open spec fn matched_sound(matched: Option<Seq<(u32, String)>>) -> bool {
    match matched {
        Some(pairs) => no_empty_text(pairs),
        None => true,
    }
}

/// Whether no pair of `pairs` holds an empty text.
pub open spec fn no_empty_text<K>(pairs: Seq<(K, String)>) -> bool {
    forall|i: int| 0 <= i < pairs.len() ==> (#[trigger] pairs[i]).1@.len() > 0
}

proof fn lemma_table_get<K>(table: Seq<(K, u32)>, n: u32, key: K)
    requires
        gids_below(table, n),
    ensures
        table_get(table, key) is Some ==> table_get(table, key)->0 < n,
{
    let steps = table.map_values(|e: (K, u32)| Some(e));
    lemma_insert_some_holds(Map::<K, u32>::empty(), steps, |v: u32| v < n);
}

proof fn lemma_glyph_texts(program: FontProgram, gid: u32)
    requires
        tables_sound(program),
    ensures
        program.glyph_unicode().contains_key(gid) ==> program.glyph_unicode()[gid].len() > 0,
{
    let steps = program.glyph_unicode_steps();
    lemma_insert_some_holds(
        Map::<u32, Seq<char>>::empty(),
        steps,
        |t: Seq<char>| t.len() > 0,
    );
}

proof fn lemma_to_unicode_text(pairs: Seq<(u16, String)>, code: u16)
    requires
        forall|i: int| 0 <= i < pairs.len() ==> (#[trigger] pairs[i]).1@.len() > 0,
    ensures
        to_unicode_text(pairs, code) is Some ==> to_unicode_text(pairs, code)->0.len() > 0,
{
    let steps = pairs.map_values(|e: (u16, String)| Some(e));
    lemma_insert_some_holds(Map::<u16, String>::empty(), steps, |s: String| s@.len() > 0);
}

proof fn lemma_steps_valid(base: Map<u16, Mapping>, steps: Seq<Option<(u16, Mapping)>>, n: u32)
    requires
        all_valid(base, n),
        forall|i: int|
            0 <= i < steps.len() && (#[trigger] steps[i]) is Some ==> valid_mapping(
                (steps[i]->0).1,
                n,
            ),
    ensures
        all_valid(insert_some(base, steps), n),
{
    lemma_insert_some_holds(base, steps, |m: Mapping| valid_mapping(m, n));
}

proof fn lemma_generic_valid(font: PdfFont, program: FontProgram)
    requires
        tables_sound(program),
        dictionary_sound(font, program),
    ensures
        all_valid(generic_map(font, program), program.num_glyphs),
{
    let n = program.num_glyphs;
    let steps = generic_steps(font, program);
    assert forall|i: int| 0 <= i < steps.len() && (#[trigger] steps[i]) is Some implies valid_mapping(
        (steps[i]->0).1,
        n,
    ) by {
        if font.to_unicode is Some {
            let pairs = font.to_unicode->0@;
            assert(steps[i] == unicode_step(program, prefers_sids(pairs, program), pairs[i]));
        } else if program.font_cmap() is Some {
            assert(program.cmap->0@[i].1 < n);
        } else if program.kind == FontKind::Cff {
            if program.cff_cid {
                assert(program.cff_sid_map@[i].1 < n);
            } else {
                assert(steps[i] == cff_code_step(program, i));
                assert(program.cff_codepoint_map@[i] < n);
            }
        }
    }
    lemma_steps_valid(Map::empty(), steps, n);
}

proof fn lemma_identity_valid(font: PdfFont, program: FontProgram)
    requires
        dictionary_sound(font, program),
    ensures
        all_valid(identity_map(font, program), program.num_glyphs),
{
    let n = program.num_glyphs;
    let steps = identity_steps(program);
    lemma_steps_valid(Map::empty(), steps, n);
    let plain = insert_some(Map::<u16, Mapping>::empty(), steps);
    if font.to_unicode is Some {
        let pairs = font.to_unicode->0@;
        assert forall|k: u16| identity_map(font, program).contains_key(k) implies valid_mapping(
            #[trigger] identity_map(font, program)[k],
            n,
        ) by {
            lemma_to_unicode_text(pairs, k);
            assert(valid_mapping(plain[k], n));
        }
    }
}

proof fn lemma_table_valid(font: PdfFont, program: FontProgram, table: Seq<u16>)
    requires
        tables_sound(program),
        dictionary_sound(font, program),
        font.cid_to_gid_map is Some,
        font.cid_to_gid_map->0 is Table,
        font.cid_to_gid_map->0->Table_0@ == table,
    ensures
        all_valid(table_map(font, program, table), program.num_glyphs),
{
    let n = program.num_glyphs;
    let steps = table_steps(font, program, table);
    assert forall|i: int| 0 <= i < steps.len() && (#[trigger] steps[i]) is Some implies valid_mapping(
        (steps[i]->0).1,
        n,
    ) by {
        assert(table[i] < n);
        if font.to_unicode is Some {
            lemma_to_unicode_text(font.to_unicode->0@, i as u16);
        } else {
            lemma_glyph_texts(program, table[i] as u32);
        }
    }
    lemma_steps_valid(Map::empty(), steps, n);
}

proof fn lemma_encoded_valid(font: PdfFont, program: FontProgram)
    requires
        tables_sound(program),
    ensures
        all_valid(encoded_map(font, program), program.num_glyphs),
{
    let n = program.num_glyphs;
    let steps = encoded_steps(font, program);
    assert forall|i: int| 0 <= i < steps.len() && (#[trigger] steps[i]) is Some implies valid_mapping(
        (steps[i]->0).1,
        n,
    ) by {
        let source = crate::charmap::source_encoding(crate::charmap::base_encoding(font));
        if source is Some {
            if program.encoding is Some {
                assert(steps[i] == transcoded_step(program, source->0, program.encoding->0, i));
                let code = crate::encoding::transcoded(source->0, program.encoding->0, i as u32);
                lemma_table_get(program.codepoint_gids@, n, code->0);
            } else {
                assert(steps[i] == unicode_lookup_step(program, source->0, i));
                let code = crate::encoding::transcoded(
                    source->0,
                    crate::encoding::Encoding::Unicode,
                    i as u32,
                );
                lemma_table_get(program.unicode_gids@, n, code->0);
            }
        } else if program.kind == FontKind::Cff {
            assert(steps[i] == cff_text_step(program, i));
            assert(program.cff_codepoint_map@[i] < n);
            lemma_glyph_texts(program, program.cff_codepoint_map@[i] as u32);
        }
    }
    lemma_steps_valid(Map::empty(), steps, n);
}

proof fn lemma_glyph_step_gid(program: FontProgram, i: int)
    requires
        tables_sound(program),
        program.kind != FontKind::Type1,
        0 <= i < program.glyph_unicode_steps().len(),
        program.glyph_unicode_steps()[i] is Some,
    ensures
        (program.glyph_unicode_steps()[i]->0).0 < program.num_glyphs,
{
    if program.font_cmap() is Some {
        assert(program.cmap->0@[i].1 < program.num_glyphs);
    } else if program.kind == FontKind::Cff {
        assert(program.cff_unicode_map@[i].1 < program.num_glyphs);
    }
}

proof fn lemma_simple_valid(font: PdfFont, program: FontProgram)
    requires
        tables_sound(program),
        dictionary_sound(font, program),
    ensures
        all_valid(simple_map(font, program), program.num_glyphs),
{
    let n = program.num_glyphs;
    lemma_encoded_valid(font, program);
    let steps = refining_steps(font, program);
    assert forall|i: int| 0 <= i < steps.len() && (#[trigger] steps[i]) is Some implies valid_mapping(
        (steps[i]->0).1,
        n,
    ) by {
        if font.encoding is Some {
            let e = font.encoding->0.differences@[i];
            assert(steps[i] == difference_step(program, e));
            assert(difference_gid(program, e.0, e.1@) < n);
        } else if font.to_unicode is Some {
            let e = font.to_unicode->0@[i];
            assert(steps[i] == direct_step(program, e));
            lemma_table_get(program.unicode_gids@, n, e.0 as u32);
        } else if program.kind == FontKind::Type1 {
            let e = program.type1_codepoints@[i];
            assert(steps[i] == type1_step(program, e));
            lemma_glyph_texts(program, e.1);
        } else {
            assert(steps[i] == assumed_step(program, program.glyph_unicode_steps()[i]));
            lemma_glyph_step_gid(program, i);
        }
    }
    lemma_steps_valid(encoded_map(font, program), steps, n);
}

proof fn lemma_built_valid(font: PdfFont, program: FontProgram)
    requires
        tables_sound(program),
        dictionary_sound(font, program),
    ensures
        all_valid(built_map(font, program), program.num_glyphs),
{
    lemma_generic_valid(font, program);
    lemma_simple_valid(font, program);
    lemma_identity_valid(font, program);
    match font.cid_to_gid_map {
        Some(CidToGidMap::Table(table)) => {
            lemma_table_valid(font, program, table@);
        },
        _ => {},
    }
}

proof fn lemma_matched_valid(cmap: Map<u16, Mapping>, pairs: Seq<(u32, String)>, n: u32)
    requires
        all_valid(cmap, n),
        matched_sound(Some(pairs)),
    ensures
        all_valid(matched_map(cmap, matched_texts(pairs)), n),
{
    let steps = Seq::new(pairs.len(), |i: int| Some((pairs[i].0, pairs[i].1@)));
    assert(no_empty_text(pairs));
    assert forall|i: int| 0 <= i < steps.len() && (#[trigger] steps[i]) is Some implies (steps[i]->0).1.len()
        > 0 by {
        assert(0 <= i < pairs.len());
        assert((#[trigger] pairs[i]).1@.len() > 0);
        assert(steps[i] == Some((pairs[i].0, pairs[i].1@)));
    }
    lemma_insert_some_holds(Map::<u32, Seq<char>>::empty(), steps, |t: Seq<char>| t.len() > 0);
    assert forall|k: u16| matched_map(cmap, matched_texts(pairs)).contains_key(k) implies valid_mapping(
        #[trigger] matched_map(cmap, matched_texts(pairs))[k],
        n,
    ) by {
        assert(valid_mapping(cmap[k], n));
    }
}

/// The pass that makes text unique keeps valid entries valid.
pub proof fn lemma_unique_valid(cmap: Map<u16, Mapping>, order: Seq<u16>, empty: Set<u32>, n: u32)
    requires
        all_valid(cmap, n),
        is_glyph_order(order, cmap),
    ensures
        all_valid(insert_some(Map::empty(), unique_steps(cmap, order, empty)), n),
{
    let steps = unique_steps(cmap, order, empty);
    assert forall|i: int| 0 <= i < steps.len() && (#[trigger] steps[i]) is Some implies valid_mapping(
        (steps[i]->0).1,
        n,
    ) by {
        assert(cmap.contains_key(order[i]));
        assert(valid_mapping(cmap[order[i]], n));
    }
    lemma_steps_valid(Map::empty(), steps, n);
}

/// Every entry of the character map names a glyph of the font and holds
/// text that is not empty, provided that the tables of the font program
/// and the font dictionary do, and that `order` is the glyph order of the
/// map that is made unique.
pub proof fn lemma_entries_valid(
    font: PdfFont,
    program: FontProgram,
    matched: Option<Seq<(u32, String)>>,
    unique: bool,
    order: Seq<u16>,
)
    requires
        tables_sound(program),
        dictionary_sound(font, program),
        matched_sound(matched),
        unique ==> is_glyph_order(order, named_map(font, program, matched)),
    ensures
        all_valid(final_map(font, program, matched, unique), program.num_glyphs),
{
    let n = program.num_glyphs;
    lemma_built_valid(font, program);
    if matched is Some {
        lemma_matched_valid(built_map(font, program), matched->0, n);
    }
    if unique {
        let named = named_map(font, program, matched);
        crate::unique::lemma_glyph_order_unique(glyph_order(named), order, named);
        lemma_unique_valid(named, order, program.empty_glyphs@.to_set(), n);
    }
}

} // verus!
