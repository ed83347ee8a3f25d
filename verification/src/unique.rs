//! Making the text of a character map unique: no two codes keep the same
//! text, and glyphs without text get a private-use character of their own.

use vstd::prelude::*;
use std::collections::HashMap;
use crate::charmap::{cmap_view, entry_view, text_of, Mapping};
use crate::encoding::{char_from_u32, string_from_char};
use crate::fontentry::{copy_text, first_char, put, CharMap};
use crate::tables::{insert_some, lemma_insert_some_step, lemma_insert_some_value};

verus! {

/// The first code of the private-use range that is handed out.
pub open spec fn private_start() -> int {
    0xE000
}

/// The end of the private-use range that is handed out: the first code
/// that is not.
pub open spec fn private_end() -> int {
    0xF800
}

/// Whether code `a` comes before code `b` when the codes of `cmap` are put
/// in the order of their glyphs, codes of one glyph in their own order.
pub open spec fn glyph_before(cmap: Map<u16, Mapping>, a: u16, b: u16) -> bool {
    cmap[a].0 < cmap[b].0 || (cmap[a].0 == cmap[b].0 && a < b)
}

/// Whether `order` lists every code of `cmap` once, in the order of
/// [`glyph_before`].
pub open spec fn is_glyph_order(order: Seq<u16>, cmap: Map<u16, Mapping>) -> bool {
    &&& forall|i: int| 0 <= i < order.len() ==> cmap.contains_key(#[trigger] order[i])
    &&& forall|k: u16| cmap.contains_key(k) ==> order.contains(k)
    &&& forall|i: int, j: int|
        0 <= i < j < order.len() ==> glyph_before(cmap, #[trigger] order[i], #[trigger] order[j])
}

/// The codes of `cmap` in the order of their glyphs.
pub open spec fn glyph_order(cmap: Map<u16, Mapping>) -> Seq<u16> {
    choose|order: Seq<u16>| is_glyph_order(order, cmap)
}

/// There is only one way to put the codes of a map in glyph order.
pub proof fn lemma_glyph_order_unique(a: Seq<u16>, b: Seq<u16>, cmap: Map<u16, Mapping>)
    requires
        is_glyph_order(a, cmap),
        is_glyph_order(b, cmap),
    ensures
        a == b,
    decreases a.len(),
{
    if a.len() == 0 {
        if b.len() > 0 {
            assert(cmap.contains_key(b[0]));
            assert(a.contains(b[0]));
        }
        assert(a =~= b);
    } else {
        assert(cmap.contains_key(a[0]));
        assert(b.contains(a[0]));
        let j = choose|j: int| 0 <= j < b.len() && b[j] == a[0];
        assert(cmap.contains_key(b[0]));
        assert(a.contains(b[0]));
        let i = choose|i: int| 0 <= i < a.len() && a[i] == b[0];
        if i > 0 && j > 0 {
            assert(glyph_before(cmap, a[0], a[i]));
            assert(glyph_before(cmap, b[0], b[j]));
        }
        if i > 0 && j == 0 {
            assert(glyph_before(cmap, a[0], a[i]));
        }
        if j > 0 && i == 0 {
            assert(glyph_before(cmap, b[0], b[j]));
        }
        assert(a[0] == b[0]);
        let rest = cmap.remove(a[0]);
        let ta = a.drop_first();
        let tb = b.drop_first();
        lemma_tail_order(a, cmap);
        lemma_tail_order(b, cmap);
        lemma_glyph_order_unique(ta, tb, rest);
        assert(a =~= seq![a[0]] + ta);
        assert(b =~= seq![b[0]] + tb);
    }
}

proof fn lemma_tail_order(a: Seq<u16>, cmap: Map<u16, Mapping>)
    requires
        is_glyph_order(a, cmap),
        a.len() > 0,
    ensures
        is_glyph_order(a.drop_first(), cmap.remove(a[0])),
{
    let rest = cmap.remove(a[0]);
    let t = a.drop_first();
    assert forall|i: int| 0 <= i < t.len() implies rest.contains_key(#[trigger] t[i]) by {
        assert(t[i] == a[i + 1]);
        assert(glyph_before(cmap, a[0], a[i + 1]));
    }
    assert forall|k: u16| rest.contains_key(k) implies t.contains(k) by {
        assert(a.contains(k));
        let i = choose|i: int| 0 <= i < a.len() && a[i] == k;
        assert(i > 0);
        assert(t[i - 1] == k);
    }
    assert forall|i: int, j: int| 0 <= i < j < t.len() implies glyph_before(
        rest,
        #[trigger] t[i],
        #[trigger] t[j],
    ) by {
        assert(t[i] == a[i + 1]);
        assert(t[j] == a[j + 1]);
        assert(glyph_before(cmap, a[i + 1], a[j + 1]));
        assert(glyph_before(cmap, a[0], a[i + 1]));
        assert(glyph_before(cmap, a[0], a[j + 1]));
    }
}

/// Whether no code before position `i` of `order` has the text of the code
/// at position `i`.
pub open spec fn first_use(cmap: Map<u16, Mapping>, order: Seq<u16>, i: int) -> bool {
    forall|j: int| 0 <= j < i ==> cmap[#[trigger] order[j]].1 != cmap[order[i]].1
}

/// The text that the code at position `i` keeps: its own, unless an earlier
/// code has the same.
pub open spec fn kept_text(cmap: Map<u16, Mapping>, order: Seq<u16>, i: int) -> Option<Seq<char>> {
    if first_use(cmap, order, i) {
        cmap[order[i]].1
    } else {
        None
    }
}

/// The private-use codes that are the number of some glyph of `cmap`.
pub open spec fn reserved(cmap: Map<u16, Mapping>) -> Set<u32> {
    Set::new(
        |g: u32|
            private_start() <= g < private_end() && exists|k: u16|
                cmap.contains_key(k) && (#[trigger] cmap[k]).0 == g,
    )
}

/// The first code from `code` on that is not reserved, or the end of the
/// range.
pub open spec fn next_free(code: int, reserved: Set<u32>) -> int
    decreases private_end() - code,
{
    if code >= private_end() {
        code
    } else if reserved.contains(code as u32) {
        next_free(code + 1, reserved)
    } else {
        code
    }
}

/// Whether the code at position `i` is due a private-use character: it
/// keeps no text and its glyph is not empty.
pub open spec fn wants_code(cmap: Map<u16, Mapping>, order: Seq<u16>, empty: Set<u32>, i: int) -> bool {
    kept_text(cmap, order, i) is None && !empty.contains(cmap[order[i]].0)
}

/// The next private-use code to hand out when the first `n` positions of
/// `order` have been served.
pub open spec fn cursor(cmap: Map<u16, Mapping>, order: Seq<u16>, empty: Set<u32>, n: int) -> int
    decreases n,
{
    if n <= 0 {
        next_free(private_start(), reserved(cmap))
    } else {
        let c = cursor(cmap, order, empty, n - 1);
        if wants_code(cmap, order, empty, n - 1) && c < private_end() {
            next_free(c + 1, reserved(cmap))
        } else {
            c
        }
    }
}

/// Whether the code at position `i` is handed a private-use character.
pub open spec fn is_served(cmap: Map<u16, Mapping>, order: Seq<u16>, empty: Set<u32>, i: int) -> bool {
    wants_code(cmap, order, empty, i) && cursor(cmap, order, empty, i) < private_end()
}

/// The text of the code at position `i` after the pass.
pub open spec fn unique_text(cmap: Map<u16, Mapping>, order: Seq<u16>, empty: Set<u32>, i: int) -> Option<
    Seq<char>,
> {
    if is_served(cmap, order, empty, i) {
        Some(seq![cursor(cmap, order, empty, i) as u32 as char])
    } else {
        kept_text(cmap, order, i)
    }
}

/// The entries of the map after the pass, in glyph order.
pub open spec fn unique_steps(cmap: Map<u16, Mapping>, order: Seq<u16>, empty: Set<u32>) -> Seq<
    Option<(u16, Mapping)>,
> {
    Seq::new(
        order.len(),
        |i: int| Some((order[i], (cmap[order[i]].0, unique_text(cmap, order, empty, i)))),
    )
}

/// The character map `cmap` with unique text.
///
/// The codes are taken in the order of their glyphs. A code whose text an
/// earlier code has already loses it. Then every code without text whose
/// glyph is not among the `empty` ones gets the next private-use character
/// from U+E000 on, leaving out the codes that are glyph numbers of the
/// map, until U+F800 is reached.
pub open spec fn unique_map(cmap: Map<u16, Mapping>, empty: Set<u32>) -> Map<u16, Mapping> {
    insert_some(Map::empty(), unique_steps(cmap, glyph_order(cmap), empty))
}

/// Whether the pass hands out a private-use character that a code of the
/// map already has as its text.
pub open spec fn collides(cmap: Map<u16, Mapping>, empty: Set<u32>) -> bool {
    let order = glyph_order(cmap);
    exists|i: int, j: int|
        0 <= i < order.len() && 0 <= j < order.len() && #[trigger] is_served(
            cmap,
            order,
            empty,
            i,
        ) && #[trigger] kept_text(cmap, order, j) == Some(
            seq![cursor(cmap, order, empty, i) as u32 as char],
        )
}

/// Whether no two codes of `cmap` have the same text.
pub open spec fn distinct_texts(cmap: Map<u16, Mapping>) -> bool {
    forall|a: u16, b: u16|
        a != b && cmap.contains_key(a) && cmap.contains_key(b) && (#[trigger] cmap[a]).1 is Some
            ==> cmap[a].1 != (#[trigger] cmap[b]).1
}

proof fn lemma_next_free(code: int, reserved: Set<u32>)
    ensures
        next_free(code, reserved) >= code,
        code <= private_end() ==> next_free(code, reserved) <= private_end(),
    decreases private_end() - code,
{
    if code < private_end() && reserved.contains(code as u32) {
        lemma_next_free(code + 1, reserved);
    }
}

proof fn lemma_cursor_grows(
    cmap: Map<u16, Mapping>,
    order: Seq<u16>,
    empty: Set<u32>,
    i: int,
    j: int,
)
    requires
        0 <= i <= j,
    ensures
        private_start() <= cursor(cmap, order, empty, i) <= cursor(cmap, order, empty, j),
        cursor(cmap, order, empty, j) <= private_end(),
        i < j && is_served(cmap, order, empty, i) ==> cursor(cmap, order, empty, i) < cursor(
            cmap,
            order,
            empty,
            j,
        ),
    decreases j,
{
    lemma_next_free(private_start(), reserved(cmap));
    if j > 0 {
        let c = cursor(cmap, order, empty, j - 1);
        lemma_next_free(c + 1, reserved(cmap));
        if i < j {
            lemma_cursor_grows(cmap, order, empty, i, j - 1);
        } else {
            lemma_cursor_grows(cmap, order, empty, 0, j - 1);
        }
    }
}

proof fn lemma_order_distinct(order: Seq<u16>, cmap: Map<u16, Mapping>, i: int, j: int)
    requires
        is_glyph_order(order, cmap),
        0 <= i < order.len(),
        0 <= j < order.len(),
        i != j,
    ensures
        order[i] != order[j],
{
    if i < j {
        assert(glyph_before(cmap, order[i], order[j]));
    } else {
        assert(glyph_before(cmap, order[j], order[i]));
    }
}

/// After the pass the code at position `i` of the order has its glyph of
/// before and the text that the pass gives it.
pub proof fn lemma_unique_entry(
    cmap: Map<u16, Mapping>,
    order: Seq<u16>,
    empty: Set<u32>,
    i: int,
)
    requires
        is_glyph_order(order, cmap),
        0 <= i < order.len(),
    ensures
        insert_some(Map::empty(), unique_steps(cmap, order, empty)).contains_key(order[i]),
        insert_some(Map::empty(), unique_steps(cmap, order, empty))[order[i]] == (
            cmap[order[i]].0,
            unique_text(cmap, order, empty, i),
        ),
{
    let steps = unique_steps(cmap, order, empty);
    assert forall|j: int| i < j < steps.len() implies !(steps[j] is Some && (steps[j]->0).0
        == order[i]) by {
        lemma_order_distinct(order, cmap, i, j);
    }
    lemma_insert_some_value(Map::<u16, Mapping>::empty(), steps, order[i]);
    assert(steps[i] is Some && (steps[i]->0).0 == order[i]);
}

/// The pass keeps the codes of the map.
pub proof fn lemma_unique_domain(cmap: Map<u16, Mapping>, order: Seq<u16>, empty: Set<u32>, k: u16)
    requires
        is_glyph_order(order, cmap),
    ensures
        insert_some(Map::empty(), unique_steps(cmap, order, empty)).contains_key(k)
            == cmap.contains_key(k),
{
    let steps = unique_steps(cmap, order, empty);
    if cmap.contains_key(k) {
        assert(order.contains(k));
        let i = choose|i: int| 0 <= i < order.len() && order[i] == k;
        lemma_unique_entry(cmap, order, empty, i);
    } else {
        assert forall|j: int| 0 <= j < steps.len() implies !(steps[j] is Some && (steps[j]->0).0
            == k) by {
            assert(cmap.contains_key(order[j]));
        }
        lemma_insert_some_value(Map::<u16, Mapping>::empty(), steps, k);
    }
}

/// Whether the pass over `order` hands out a private-use character that a
/// code keeps as its text.
pub open spec fn collides_in(cmap: Map<u16, Mapping>, order: Seq<u16>, empty: Set<u32>) -> bool {
    exists|i: int, j: int|
        0 <= i < order.len() && 0 <= j < order.len() && #[trigger] is_served(
            cmap,
            order,
            empty,
            i,
        ) && #[trigger] kept_text(cmap, order, j) == Some(
            seq![cursor(cmap, order, empty, i) as u32 as char],
        )
}

proof fn lemma_texts_differ(
    cmap: Map<u16, Mapping>,
    order: Seq<u16>,
    empty: Set<u32>,
    i: int,
    j: int,
)
    requires
        is_glyph_order(order, cmap),
        !collides_in(cmap, order, empty),
        0 <= i < order.len(),
        0 <= j < order.len(),
        i != j,
        unique_text(cmap, order, empty, i) is Some,
    ensures
        unique_text(cmap, order, empty, i) != unique_text(cmap, order, empty, j),
{
    let ci = cursor(cmap, order, empty, i);
    let cj = cursor(cmap, order, empty, j);
    lemma_cursor_grows(cmap, order, empty, 0, i);
    lemma_cursor_grows(cmap, order, empty, 0, j);
    if is_served(cmap, order, empty, i) && is_served(cmap, order, empty, j) {
        if i < j {
            lemma_cursor_grows(cmap, order, empty, i, j);
        } else {
            lemma_cursor_grows(cmap, order, empty, j, i);
        }
        assert((ci as u32 as char) as u32 == ci);
        assert((cj as u32 as char) as u32 == cj);
        assert(seq![ci as u32 as char][0] != seq![cj as u32 as char][0]);
    } else if is_served(cmap, order, empty, i) {
        assert(kept_text(cmap, order, j) != Some(seq![ci as u32 as char]));
    } else if is_served(cmap, order, empty, j) {
        assert(kept_text(cmap, order, i) != Some(seq![cj as u32 as char]));
    } else {
        if kept_text(cmap, order, j) is Some {
            if i < j {
                assert(cmap[order[i]].1 != cmap[order[j]].1);
            } else {
                assert(cmap[order[j]].1 != cmap[order[i]].1);
            }
        }
    }
}

/// After the pass no two codes have the same text, unless the pass handed
/// out a private-use character that the map already used as text.
pub proof fn lemma_unique_texts(cmap: Map<u16, Mapping>, order: Seq<u16>, empty: Set<u32>)
    requires
        is_glyph_order(order, cmap),
        !collides_in(cmap, order, empty),
    ensures
        distinct_texts(insert_some(Map::empty(), unique_steps(cmap, order, empty))),
{
    let result = insert_some(Map::<u16, Mapping>::empty(), unique_steps(cmap, order, empty));
    assert forall|a: u16, b: u16|
        a != b && result.contains_key(a) && result.contains_key(b) && (#[trigger] result[a]).1
            is Some implies result[a].1 != (#[trigger] result[b]).1 by {
        lemma_unique_domain(cmap, order, empty, a);
        lemma_unique_domain(cmap, order, empty, b);
        assert(order.contains(a));
        assert(order.contains(b));
        let i = choose|i: int| 0 <= i < order.len() && order[i] == a;
        let j = choose|j: int| 0 <= j < order.len() && order[j] == b;
        lemma_unique_entry(cmap, order, empty, i);
        lemma_unique_entry(cmap, order, empty, j);
        lemma_texts_differ(cmap, order, empty, i, j);
    }
}

broadcast use vstd::std_specs::hash::group_hash_axioms;

/// The codes of a list of pairs (glyph, code).
pub open spec fn codes_of(pairs: Seq<(u32, u16)>) -> Seq<u16> {
    Seq::new(pairs.len(), |i: int| pairs[i].1)
}

spec fn pair_before(a: (u32, u16), b: (u32, u16)) -> bool {
    a.0 < b.0 || (a.0 == b.0 && a.1 < b.1)
}

/// The codes of `cmap` with their glyphs, in glyph order.
fn sorted_codes(cmap: &HashMap<u16, (u32, Option<String>)>) -> (order: Vec<(u32, u16)>)
    ensures
        is_glyph_order(codes_of(order@), cmap_view(cmap@)),
        forall|i: int|
            0 <= i < order@.len() ==> (#[trigger] order@[i]).0 == cmap_view(cmap@)[order@[i].1].0,
{
    let mut order: Vec<(u32, u16)> = Vec::new();
    let ghost view = cmap_view(cmap@);
    let mut code: u32 = 0;
    while code <= 0xffff
        invariant
            code <= 0x1_0000,
            view == cmap_view(cmap@),
            forall|i: int|
                0 <= i < order@.len() ==> {
                    let e = #[trigger] order@[i];
                    e.1 < code && view.contains_key(e.1) && e.0 == view[e.1].0
                },
            forall|k: u16|
                k < code && view.contains_key(k) ==> exists|i: int|
                    0 <= i < order@.len() && (#[trigger] order@[i]).1 == k,
            forall|i: int, j: int|
                0 <= i < j < order@.len() ==> pair_before(#[trigger] order@[i], #[trigger] order@[j]),
        decreases 0x1_0000 - code,
    {
        let key: u16 = code as u16;
        match cmap.get(&key) {
            Some(entry) => {
                let gid: u32 = entry.0;
                assert(view[key] == entry_view(*entry));
                let mut p: usize = order.len();
                while p > 0 && order[p - 1].0 > gid
                    invariant
                        p <= order.len(),
                        forall|q: int| p <= q < order@.len() ==> (#[trigger] order@[q]).0 > gid,
                    decreases p,
                {
                    p -= 1;
                }
                let ghost before = order@;
                order.insert(p, (gid, key));
                assert forall|i: int, j: int| 0 <= i < j < order@.len() implies pair_before(
                    #[trigger] order@[i],
                    #[trigger] order@[j],
                ) by {
                    if j < p {
                        assert(order@[i] == before[i] && order@[j] == before[j]);
                    } else if j == p {
                        assert(order@[i] == before[i]);
                        if p > 0 {
                            if i < p - 1 {
                                assert(pair_before(before[i], before[p - 1]));
                            }
                        }
                    } else if i < p {
                        assert(order@[i] == before[i] && order@[j] == before[j - 1]);
                    } else if i == p {
                        assert(order@[j] == before[j - 1]);
                    } else {
                        assert(order@[i] == before[i - 1] && order@[j] == before[j - 1]);
                    }
                }
                assert forall|i: int| 0 <= i < order@.len() implies {
                    let e = #[trigger] order@[i];
                    e.1 < code + 1 && view.contains_key(e.1) && e.0 == view[e.1].0
                } by {
                    if i < p {
                        assert(order@[i] == before[i]);
                    } else if i > p {
                        assert(order@[i] == before[i - 1]);
                    }
                }
                assert forall|k: u16| k < code + 1 && view.contains_key(k) implies exists|i: int|
                    0 <= i < order@.len() && (#[trigger] order@[i]).1 == k by {
                    if k == key {
                        assert(order@[p as int].1 == k);
                    } else {
                        let i = choose|i: int| 0 <= i < before.len() && (#[trigger] before[i]).1 == k;
                        if i < p {
                            assert(order@[i].1 == k);
                        } else {
                            assert(order@[i + 1] == before[i]);
                        }
                    }
                }
            },
            None => {},
        }
        code += 1;
    }
    proof {
        let codes = codes_of(order@);
        assert forall|k: u16| view.contains_key(k) implies codes.contains(k) by {
            let i = choose|i: int| 0 <= i < order@.len() && (#[trigger] order@[i]).1 == k;
            assert(codes[i] == k);
        }
        assert forall|i: int, j: int| 0 <= i < j < codes.len() implies glyph_before(
            view,
            #[trigger] codes[i],
            #[trigger] codes[j],
        ) by {
            assert(pair_before(order@[i], order@[j]));
        }
        assert forall|i: int| 0 <= i < codes.len() implies view.contains_key(
            #[trigger] codes[i],
        ) by {
            assert(view.contains_key(order@[i].1));
        }
    }
    order
}

/// For every private-use code that may be handed out, whether it is the
/// number of a glyph of the map.
fn reserved_bits(order: &Vec<(u32, u16)>, Ghost(view): Ghost<Map<u16, Mapping>>) -> (bits: Vec<bool>)
    requires
        is_glyph_order(codes_of(order@), view),
        forall|i: int| 0 <= i < order@.len() ==> (#[trigger] order@[i]).0 == view[order@[i].1].0,
    ensures
        bits@.len() == 0x1800,
        forall|c: int|
            0 <= c < 0x1800 ==> #[trigger] bits@[c] == reserved(view).contains((0xE000 + c) as u32),
{
    let mut bits: Vec<bool> = Vec::new();
    let mut c: usize = 0;
    while c < 0x1800
        invariant
            c <= 0x1800,
            bits@.len() == c,
            forall|d: int| 0 <= d < c ==> !(#[trigger] bits@[d]),
        decreases 0x1800 - c,
    {
        bits.push(false);
        c += 1;
    }
    let ghost codes = codes_of(order@);
    let mut i: usize = 0;
    while i < order.len()
        invariant
            i <= order.len(),
            bits@.len() == 0x1800,
            codes == codes_of(order@),
            is_glyph_order(codes, view),
            forall|j: int| 0 <= j < order@.len() ==> (#[trigger] order@[j]).0 == view[order@[j].1].0,
            forall|d: int|
                0 <= d < 0x1800 ==> (#[trigger] bits@[d] <==> exists|j: int|
                    0 <= j < i && (#[trigger] order@[j]).0 == 0xE000 + d),
        decreases order.len() - i,
    {
        let gid: u32 = order[i].0;
        if 0xE000 <= gid && gid < 0xF800 {
            let at: usize = (gid - 0xE000) as usize;
            let ghost before = bits@;
            bits[at] = true;
            assert forall|d: int| 0 <= d < 0x1800 implies (#[trigger] bits@[d] <==> exists|j: int|
                0 <= j < i + 1 && (#[trigger] order@[j]).0 == 0xE000 + d) by {
                if d == at {
                    assert(order@[i as int].0 == 0xE000 + d);
                } else {
                    assert(bits@[d] == before[d]);
                    if before[d] {
                        let j = choose|j: int| 0 <= j < i && (#[trigger] order@[j]).0 == 0xE000 + d;
                        assert(0 <= j < i + 1 && order@[j].0 == 0xE000 + d);
                    }
                }
            }
        } else {
            assert forall|d: int| 0 <= d < 0x1800 implies (#[trigger] bits@[d] <==> exists|j: int|
                0 <= j < i + 1 && (#[trigger] order@[j]).0 == 0xE000 + d) by {
                if bits@[d] {
                    let j = choose|j: int| 0 <= j < i && (#[trigger] order@[j]).0 == 0xE000 + d;
                    assert(0 <= j < i + 1 && order@[j].0 == 0xE000 + d);
                }
            }
        }
        i += 1;
    }
    assert forall|c: int| 0 <= c < 0x1800 implies #[trigger] bits@[c] == reserved(view).contains(
        (0xE000 + c) as u32,
    ) by {
        let g = (0xE000 + c) as u32;
        if bits@[c] {
            let j = choose|j: int| 0 <= j < order@.len() && (#[trigger] order@[j]).0 == 0xE000 + c;
            assert(view.contains_key(codes[j]));
            assert(view[codes[j]].0 == g);
        }
        if reserved(view).contains(g) {
            let k = choose|k: u16| view.contains_key(k) && (#[trigger] view[k]).0 == g;
            assert(codes.contains(k));
            let j = choose|j: int| 0 <= j < codes.len() && codes[j] == k;
            assert(order@[j].0 == 0xE000 + c);
        }
    }
    bits
}

/// The first code from `code` on that is free.
fn advance(code: u32, bits: &Vec<bool>, Ghost(reserved): Ghost<Set<u32>>) -> (r: u32)
    requires
        0xE000 <= code <= 0xF800,
        bits@.len() == 0x1800,
        forall|c: int| 0 <= c < 0x1800 ==> #[trigger] bits@[c] == reserved.contains((0xE000 + c) as u32),
    ensures
        r == next_free(code as int, reserved),
        code <= r <= 0xF800,
{
    let mut r: u32 = code;
    while r < 0xF800 && bits[(r - 0xE000) as usize]
        invariant
            code <= r <= 0xF800,
            0xE000 <= code,
            bits@.len() == 0x1800,
            forall|c: int|
                0 <= c < 0x1800 ==> #[trigger] bits@[c] == reserved.contains((0xE000 + c) as u32),
            next_free(code as int, reserved) == next_free(r as int, reserved),
        decreases 0xF800 - r,
    {
        assert(bits@[r - 0xE000] == reserved.contains((0xE000 + (r - 0xE000)) as u32));
        r += 1;
    }
    proof {
        if r < 0xF800 {
            assert(bits@[r - 0xE000] == reserved.contains((0xE000 + (r - 0xE000)) as u32));
        }
    }
    r
}

/// Whether two optional texts are the same.
fn same_text(a: &Option<String>, b: &Option<String>) -> (r: bool)
    ensures
        r == (text_of(*a) == text_of(*b)),
{
    match (a, b) {
        (Some(x), Some(y)) => *x == *y,
        (None, None) => true,
        _ => false,
    }
}

/// Whether `x` occurs in `v`.
fn contains_u32(v: &Vec<u32>, x: u32) -> (r: bool)
    ensures
        r == v@.contains(x),
{
    let mut i: usize = 0;
    while i < v.len()
        invariant
            i <= v.len(),
            forall|j: int| 0 <= j < i ==> v@[j] != x,
        decreases v.len() - i,
    {
        if v[i] == x {
            return true;
        }
        i += 1;
    }
    false
}

/// The code of the first character of a text, by which equal texts are
/// found again.
spec fn text_key(text: Option<Seq<char>>) -> Option<u32> {
    match text {
        Some(t) => if t.len() > 0 {
            Some(t[0] as u32)
        } else {
            None
        },
        None => None,
    }
}

/// Whether position `j` is found from position `from` by going back along
/// `prev`.
spec fn reaches(prev: Seq<Option<usize>>, from: int, j: int) -> bool
    decreases from,
{
    from == j || (0 <= from < prev.len() && prev[from] is Some && prev[from]->0 < from
        && reaches(prev, prev[from]->0 as int, j))
}

proof fn lemma_reaches_longer(prev: Seq<Option<usize>>, more: Option<usize>, from: int, j: int)
    requires
        0 <= from < prev.len(),
    ensures
        reaches(prev.push(more), from, j) == reaches(prev, from, j),
    decreases from,
{
    assert(prev.push(more)[from] == prev[from]);
    if from != j && prev[from] is Some && prev[from]->0 < from {
        lemma_reaches_longer(prev, more, prev[from]->0 as int, j);
    }
}

/// Whether the text at position `i` occurs at no earlier position, where
/// `heads` and `prev` link the positions of texts with the same first
/// character.
fn is_first_use(
    texts: &Vec<Option<String>>,
    heads: &HashMap<u32, usize>,
    prev: &Vec<Option<usize>>,
    empty_seen: bool,
    i: usize,
) -> (first: bool)
    requires
        i < texts@.len(),
        texts@[i as int] is Some,
        prev@.len() == i,
        linked(texts@, heads@, prev@, empty_seen, i as int),
    ensures
        first == forall|j: int| 0 <= j < i ==> text_of(#[trigger] texts@[j]) != text_of(texts@[i as int]),
{
    let key: Option<char> = match &texts[i] {
        Some(t) => first_char(t),
        None => None,
    };
    match key {
        None => {
            proof {
                assert(text_of(texts@[i as int])->0 =~= Seq::<char>::empty());
                if empty_seen {
                    let j = choose|j: int|
                        0 <= j < i && text_of(#[trigger] texts@[j]) == Some(Seq::<char>::empty());
                    assert(text_of(texts@[j]) == text_of(texts@[i as int]));
                }
            }
            !empty_seen
        },
        Some(c) => {
            let k: u32 = c as u32;
            let mut cur: Option<usize> = match heads.get(&k) {
                Some(h) => Some(*h),
                None => None,
            };
            let mut first: bool = true;
            while cur.is_some() && first
                invariant
                    i < texts@.len(),
                    prev@.len() == i,
                    text_key(text_of(texts@[i as int])) == Some(k),
                    linked(texts@, heads@, prev@, empty_seen, i as int),
                    cur is Some ==> cur->0 < i && text_key(text_of(texts@[cur->0 as int])) == Some(k),
                    first ==> forall|j: int|
                        0 <= j < i && text_of(#[trigger] texts@[j]) == text_of(texts@[i as int])
                            ==> cur is Some && reaches(prev@, cur->0 as int, j),
                    !first ==> exists|j: int|
                        0 <= j < i && text_of(#[trigger] texts@[j]) == text_of(texts@[i as int]),
                decreases
                        (if first {
                            1int
                        } else {
                            0int
                        }),
                        (match cur {
                            Some(c) => c as int + 1,
                            None => 0,
                        }),
            {
                let at: usize = cur.unwrap();
                if same_text(&texts[at], &texts[i]) {
                    first = false;
                } else {
                    cur = prev[at];
                }
            }
            first
        },
    }
}

/// Whether `heads` and `prev` link the first `i` positions of `texts` by
/// the first character of their text: `heads` gives for every first
/// character the last position with it, and `prev` for every position the
/// one before it with the same first character.
spec fn linked(
    texts: Seq<Option<String>>,
    heads: Map<u32, usize>,
    prev: Seq<Option<usize>>,
    empty_seen: bool,
    i: int,
) -> bool {
    &&& prev.len() == i
    &&& i <= texts.len()
    &&& forall|x: int|
        0 <= x < i && (#[trigger] prev[x]) is Some ==> prev[x]->0 < x && text_key(
            text_of(texts[prev[x]->0 as int]),
        ) == text_key(text_of(texts[x]))
    &&& forall|k: u32|
        heads.contains_key(k) ==> (#[trigger] heads[k]) < i && text_key(
            text_of(texts[heads[k] as int]),
        ) == Some(k)
    &&& forall|j: int|
        0 <= j < i && text_key(text_of(#[trigger] texts[j])) is Some ==> {
            let k = text_key(text_of(texts[j]))->0;
            heads.contains_key(k) && reaches(prev, heads[k] as int, j)
        }
    &&& empty_seen == exists|j: int|
        0 <= j < i && text_of(#[trigger] texts[j]) == Some(Seq::<char>::empty())
}

/// Links position `i` to the earlier positions with the same first
/// character.
fn link(
    texts: &Vec<Option<String>>,
    heads: &mut HashMap<u32, usize>,
    prev: &mut Vec<Option<usize>>,
    empty_seen: &mut bool,
    i: usize,
)
    requires
        i < texts@.len(),
        linked(texts@, old(heads)@, old(prev)@, *old(empty_seen), i as int),
    ensures
        linked(texts@, final(heads)@, final(prev)@, *final(empty_seen), i + 1),
{
    let ghost heads0 = heads@;
    let ghost prev0 = prev@;
    let ghost seen0 = *empty_seen;
    let key: Option<char> = match &texts[i] {
        Some(t) => first_char(t),
        None => None,
    };
    match key {
        Some(c) => {
            let k: u32 = c as u32;
            let before: Option<usize> = match heads.get(&k) {
                Some(h) => Some(*h),
                None => None,
            };
            prev.push(before);
            heads.insert(k, i);
            proof {
                assert forall|j: int|
                    0 <= j < i + 1 && text_key(text_of(#[trigger] texts@[j])) is Some implies {
                    let kj = text_key(text_of(texts@[j]))->0;
                    heads@.contains_key(kj) && reaches(prev@, heads@[kj] as int, j)
                } by {
                    let kj = text_key(text_of(texts@[j]))->0;
                    if j < i {
                        assert(heads0.contains_key(kj) && reaches(prev0, heads0[kj] as int, j));
                        lemma_reaches_longer(prev0, before, heads0[kj] as int, j);
                        if kj == k {
                            assert(prev@[i as int] == before);
                        }
                    }
                }
                assert forall|x: int| 0 <= x < i + 1 && (#[trigger] prev@[x]) is Some implies prev@[x]->0
                    < x && text_key(text_of(texts@[prev@[x]->0 as int])) == text_key(
                    text_of(texts@[x]),
                ) by {
                    if x < i {
                        assert(prev@[x] == prev0[x]);
                    }
                }
                assert(seen0 == exists|j: int|
                    0 <= j < i + 1 && text_of(#[trigger] texts@[j]) == Some(Seq::<char>::empty())) by {
                    if exists|j: int|
                        0 <= j < i + 1 && text_of(#[trigger] texts@[j]) == Some(
                            Seq::<char>::empty(),
                        ) {
                        let j = choose|j: int|
                            0 <= j < i + 1 && text_of(#[trigger] texts@[j]) == Some(
                                Seq::<char>::empty(),
                            );
                        assert(j != i);
                    }
                }
            }
        },
        None => {
            prev.push(None);
            let empty: bool = texts[i].is_some();
            if empty {
                *empty_seen = true;
            }
            proof {
                assert forall|j: int|
                    0 <= j < i + 1 && text_key(text_of(#[trigger] texts@[j])) is Some implies {
                    let kj = text_key(text_of(texts@[j]))->0;
                    heads@.contains_key(kj) && reaches(prev@, heads@[kj] as int, j)
                } by {
                    let kj = text_key(text_of(texts@[j]))->0;
                    assert(j < i);
                    assert(heads0.contains_key(kj) && reaches(prev0, heads0[kj] as int, j));
                    lemma_reaches_longer(prev0, None, heads0[kj] as int, j);
                }
                assert forall|x: int| 0 <= x < i + 1 && (#[trigger] prev@[x]) is Some implies prev@[x]->0
                    < x && text_key(text_of(texts@[prev@[x]->0 as int])) == text_key(
                    text_of(texts@[x]),
                ) by {
                    if x < i {
                        assert(prev@[x] == prev0[x]);
                    }
                }
                if empty {
                    assert(text_of(texts@[i as int])->0 =~= Seq::<char>::empty());
                    assert(text_of(texts@[i as int]) == Some(Seq::<char>::empty()));
                } else {
                    assert(*empty_seen == exists|j: int|
                        0 <= j < i + 1 && text_of(#[trigger] texts@[j]) == Some(
                            Seq::<char>::empty(),
                        )) by {
                        if exists|j: int|
                            0 <= j < i + 1 && text_of(#[trigger] texts@[j]) == Some(
                                Seq::<char>::empty(),
                            ) {
                            let j = choose|j: int|
                                0 <= j < i + 1 && text_of(#[trigger] texts@[j]) == Some(
                                    Seq::<char>::empty(),
                                );
                            assert(j != i);
                        }
                    }
                }
            }
        },
    }
}

/// Gives the character map unique text; see [`unique_map`]. `empty_glyphs`
/// lists the glyphs without outline, which get no character.
pub fn make_unique(cmap: &CharMap, empty_glyphs: &Vec<u32>) -> (out: CharMap)
    ensures
        cmap_view(out@) == unique_map(cmap_view(cmap@), empty_glyphs@.to_set()),
        is_glyph_order(glyph_order(cmap_view(cmap@)), cmap_view(cmap@)),
        !collides(cmap_view(cmap@), empty_glyphs@.to_set()) ==> distinct_texts(cmap_view(out@)),
{
    let order: Vec<(u32, u16)> = sorted_codes(cmap);
    let ghost view = cmap_view(cmap@);
    let ghost codes = codes_of(order@);
    let ghost empty = empty_glyphs@.to_set();
    proof {
        lemma_glyph_order_unique(glyph_order(view), codes, view);
    }
    let bits: Vec<bool> = reserved_bits(&order, Ghost(view));
    let n: usize = order.len();
    let mut texts: Vec<Option<String>> = Vec::new();
    let mut t: usize = 0;
    while t < n
        invariant
            t <= n,
            n == order@.len(),
            view == cmap_view(cmap@),
            codes == codes_of(order@),
            is_glyph_order(codes, view),
            texts@.len() == t,
            forall|j: int| 0 <= j < t ==> text_of(#[trigger] texts@[j]) == view[codes[j]].1,
        decreases n - t,
    {
        let code: u16 = order[t].1;
        assert(view.contains_key(codes[t as int]));
        match cmap.get(&code) {
            Some(entry) => {
                assert(view[code] == entry_view(*entry));
                texts.push(copy_text(&entry.1));
            },
            None => {
                texts.push(None);
            },
        }
        t += 1;
    }
    let mut out: CharMap = HashMap::new();
    let ghost steps = unique_steps(view, codes, empty);
    assert(steps.take(0) =~= Seq::empty());
    assert(cmap_view(out@) =~= Map::empty());
    let mut next: u32 = advance(0xE000, &bits, Ghost(reserved(view)));
    let mut heads: HashMap<u32, usize> = HashMap::new();
    let mut prev: Vec<Option<usize>> = Vec::new();
    let mut empty_seen: bool = false;
    let mut i: usize = 0;
    while i < n
        invariant
            i <= n,
            linked(texts@, heads@, prev@, empty_seen, i as int),
            n == order@.len(),
            view == cmap_view(cmap@),
            codes == codes_of(order@),
            empty == empty_glyphs@.to_set(),
            is_glyph_order(codes, view),
            forall|j: int| 0 <= j < order@.len() ==> (#[trigger] order@[j]).0 == view[order@[j].1].0,
            texts@.len() == n,
            forall|j: int| 0 <= j < n ==> text_of(#[trigger] texts@[j]) == view[codes[j]].1,
            bits@.len() == 0x1800,
            forall|c: int|
                0 <= c < 0x1800 ==> #[trigger] bits@[c] == reserved(view).contains(
                    (0xE000 + c) as u32,
                ),
            0xE000 <= next <= 0xF800,
            next == cursor(view, codes, empty, i as int),
            steps == unique_steps(view, codes, empty),
            cmap_view(out@) == insert_some(Map::empty(), steps.take(i as int)),
        decreases n - i,
    {
        proof {
            lemma_insert_some_step(Map::<u16, Mapping>::empty(), steps, i as int);
        }
        let (gid, code): (u32, u16) = order[i];
        let kept: Option<String> = match &texts[i] {
            None => None,
            Some(text) => {
                let first: bool = is_first_use(&texts, &heads, &prev, empty_seen, i);
                assert(first == first_use(view, codes, i as int)) by {
                    assert forall|j: int| 0 <= j < i implies (text_of(#[trigger] texts@[j])
                        != text_of(texts@[i as int])) == (view[codes[j]].1 != view[codes[i as int]].1) by {}
                    if first {
                        assert forall|j: int| 0 <= j < i implies view[#[trigger] codes[j]].1
                            != view[codes[i as int]].1 by {
                            assert(text_of(texts@[j]) != text_of(texts@[i as int]));
                        }
                    } else {
                        let j = choose|j: int|
                            0 <= j < i && !(text_of(#[trigger] texts@[j]) != text_of(
                                texts@[i as int],
                            ));
                        assert(view[codes[j]].1 == view[codes[i as int]].1);
                    }
                }
                if first {
                    Some(text.clone())
                } else {
                    None
                }
            },
        };
        assert(text_of(kept) == kept_text(view, codes, i as int));
        link(&texts, &mut heads, &mut prev, &mut empty_seen, i);
        let wants: bool = kept.is_none() && !contains_u32(empty_glyphs, gid);
        assert(wants == wants_code(view, codes, empty, i as int));
        let unicode: Option<String> = if wants && next < 0xF800 {
            match char_from_u32(next) {
                Some(c) => {
                    let text: String = string_from_char(c);
                    next = advance(next + 1, &bits, Ghost(reserved(view)));
                    Some(text)
                },
                None => kept,
            }
        } else {
            kept
        };
        assert(text_of(unicode) == unique_text(view, codes, empty, i as int));
        put(&mut out, code, gid, unicode);
        i += 1;
    }
    assert(steps.take(n as int) =~= steps);
    proof {
        if !collides(view, empty) {
            assert(!collides_in(view, codes, empty));
            lemma_unique_texts(view, codes, empty);
        }
    }
    out
}

} // verus!
