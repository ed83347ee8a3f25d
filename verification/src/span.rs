//! Text spans: the text of one text operator with the place of each
//! character in it.

use vstd::prelude::*;
use vstd::string::StringSliceAdditionalSpecFns;
use vstd::utf8::{
    encode_utf8, encode_utf8_valid_utf8, is_char_boundary,
    is_char_boundary_iff_not_is_continuation_byte, is_char_boundary_start_end_of_seq, valid_utf8,
    valid_utf8_split,
};

verus! {

/// A size: a width and a height in whatever unit `T` counts.
#[derive(Debug, Clone, Copy, PartialEq, Eq, Hash, Default)]
pub struct Size<T> {
    /// The width.
    pub width: T,
    /// The height.
    pub height: T,
}

impl<T> Size<T> {
    /// The size with the given width and height.
    pub fn new(width: T, height: T) -> (size: Self)
        ensures
            size.width == width,
            size.height == height,
    {
        Size { width, height }
    }
}

/// One character of a span: where its text begins in the text of the span,
/// counted in bytes, where it stands along the baseline, and how wide it is.
#[derive(Debug, Clone, Copy)]
pub struct TextChar<S> {
    pub offset: usize,
    pub pos: S,
    pub width: S,
}

/// One character of a span with its text.
#[derive(Debug, Clone, Copy)]
pub struct Part<'a, S> {
    pub text: &'a str,
    pub pos: S,
    pub width: S,
    pub offset: usize,
}

/// The text of one text operator: its width, its text, its characters, and
/// whatever else `span` the caller keeps of it.
#[derive(Debug, Clone)]
pub struct TextSpan<S, X> {
    pub width: S,
    pub text: String,
    pub chars: Vec<TextChar<S>>,
    pub span: X,
}

/// Where the text of character `i` ends: where the next character begins,
/// and at the end of the text for the last one.
pub open spec fn end_of<S>(chars: Seq<TextChar<S>>, len: int, i: int) -> int {
    if i + 1 < chars.len() {
        chars[i + 1].offset as int
    } else {
        len
    }
}

/// Whether the characters divide the text: their offsets do not decrease,
/// none lies beyond the end of the text, and each falls between two
/// characters of it.
pub open spec fn divides<S>(chars: Seq<TextChar<S>>, text: Seq<char>) -> bool {
    let bytes = encode_utf8(text);
    &&& forall|i: int|
        0 <= i < chars.len() ==> (#[trigger] chars[i]).offset <= end_of(
            chars,
            bytes.len() as int,
            i,
        )
    &&& forall|i: int|
        0 <= i < chars.len() ==> chars[i].offset <= bytes.len() && is_char_boundary(
            bytes,
            (#[trigger] chars[i]).offset as int,
        )
}

/// Whether `part` is character `i` of the span with its text.
pub open spec fn is_part<S>(part: Part<S>, chars: Seq<TextChar<S>>, text: Seq<char>, i: int) -> bool {
    &&& part.pos == chars[i].pos
    &&& part.width == chars[i].width
    &&& part.offset == chars[i].offset
    &&& part.text.spec_bytes() == encode_utf8(text).subrange(
        chars[i].offset as int,
        end_of(chars, encode_utf8(text).len() as int, i),
    )
}

proof fn lemma_boundary_in_prefix(bytes: Seq<u8>, a: int, b: int)
    requires
        valid_utf8(bytes),
        0 <= a <= b <= bytes.len(),
        is_char_boundary(bytes, a),
        is_char_boundary(bytes, b),
    ensures
        valid_utf8(bytes.subrange(0, b)),
        is_char_boundary(bytes.subrange(0, b), a),
{
    valid_utf8_split(bytes, b);
    let head = bytes.subrange(0, b);
    if a == b {
        is_char_boundary_start_end_of_seq(head);
    } else if a > 0 {
        is_char_boundary_iff_not_is_continuation_byte(bytes, a);
        is_char_boundary_iff_not_is_continuation_byte(head, a);
    }
}

/// The piece of `s` from byte `a` to byte `b`.
fn slice<'a>(s: &'a str, a: usize, b: usize) -> (r: &'a str)
    requires
        a <= b <= s.spec_bytes().len(),
        is_char_boundary(s.spec_bytes(), a as int),
        is_char_boundary(s.spec_bytes(), b as int),
    ensures
        r.spec_bytes() == s.spec_bytes().subrange(a as int, b as int),
{
    proof {
        encode_utf8_valid_utf8(s@);
        lemma_boundary_in_prefix(s.spec_bytes(), a as int, b as int);
    }
    let (head, _) = s.split_at(b);
    let (_, part) = head.split_at(a);
    assert(head.spec_bytes().subrange(a as int, head.spec_bytes().len() as int) =~= s.spec_bytes().subrange(
        a as int,
        b as int,
    ));
    part
}

/// The characters that a run of glyphs leaves in a span: one for every
/// glyph with a place in the text, with that place, its position and its
/// width.
pub open spec fn placed_chars<S>(placed: Seq<(Option<usize>, S, S)>) -> Seq<TextChar<S>>
    decreases placed.len(),
{
    if placed.len() == 0 {
        Seq::empty()
    } else {
        let before = placed_chars(placed.drop_last());
        match placed.last().0 {
            Some(offset) => before.push(
                TextChar { offset, pos: placed.last().1, width: placed.last().2 },
            ),
            None => before,
        }
    }
}

/// Lists the characters of a span from its glyphs, each given as the
/// place of its text in the text of the span, if it has one, its position
/// and its width; see [`placed_chars`].
pub fn span_chars<S: Copy>(placed: &Vec<(Option<usize>, S, S)>) -> (chars: Vec<TextChar<S>>)
    ensures
        chars@ == placed_chars(placed@),
{
    let mut chars: Vec<TextChar<S>> = Vec::new();
    let mut i: usize = 0;
    assert(placed@.take(0) =~= Seq::empty());
    while i < placed.len()
        invariant
            i <= placed.len(),
            chars@ == placed_chars(placed@.take(i as int)),
        decreases placed.len() - i,
    {
        assert(placed@.take(i + 1).drop_last() =~= placed@.take(i as int));
        let (offset, pos, width): (Option<usize>, S, S) = placed[i];
        match offset {
            Some(offset) => chars.push(TextChar { offset, pos, width }),
            None => {},
        }
        i += 1;
    }
    assert(placed@.take(placed@.len() as int) =~= placed@);
    chars
}

/// The bytes of a text that is made of two are those of the first followed
/// by those of the second.
pub proof fn lemma_encode_concat(a: Seq<char>, b: Seq<char>)
    ensures
        encode_utf8(a + b) == encode_utf8(a) + encode_utf8(b),
    decreases a.len(),
{
    if a.len() == 0 {
        assert(a + b =~= b);
        assert(encode_utf8(a) + encode_utf8(b) =~= encode_utf8(b));
    } else {
        lemma_encode_concat(a.drop_first(), b);
        assert((a + b).drop_first() =~= a.drop_first() + b);
        assert((a + b)[0] == a[0]);
        assert(encode_utf8(a + b) =~= encode_utf8(a) + encode_utf8(b));
    }
}

/// Where a text ends, a text that continues it has a boundary between two
/// characters, and so it has wherever the shorter text has one.
pub proof fn lemma_boundary_extends(a: Seq<char>, b: Seq<char>, index: int)
    requires
        0 <= index <= encode_utf8(a).len(),
        is_char_boundary(encode_utf8(a), index),
    ensures
        is_char_boundary(encode_utf8(a + b), index),
        index <= encode_utf8(a + b).len(),
{
    lemma_encode_concat(a, b);
    let x = encode_utf8(a);
    let y = encode_utf8(b);
    let whole = x + y;
    encode_utf8_valid_utf8(a);
    encode_utf8_valid_utf8(b);
    encode_utf8_valid_utf8(a + b);
    if index == whole.len() {
        is_char_boundary_start_end_of_seq(whole);
    } else if index == 0 {
    } else if index < x.len() {
        is_char_boundary_iff_not_is_continuation_byte(x, index);
        is_char_boundary_iff_not_is_continuation_byte(whole, index);
        assert(whole[index] == x[index]);
    } else {
        is_char_boundary_start_end_of_seq(y);
        is_char_boundary_iff_not_is_continuation_byte(y, 0);
        is_char_boundary_iff_not_is_continuation_byte(whole, index);
        assert(whole[index] == y[0]);
    }
}

/// Characters that divide a text divide the text continued.
pub proof fn lemma_divides_longer<S>(chars: Seq<TextChar<S>>, text: Seq<char>, addition: Seq<char>)
    requires
        divides(chars, text),
    ensures
        divides(chars, text + addition),
{
    let old_len = encode_utf8(text).len() as int;
    let new_len = encode_utf8(text + addition).len() as int;
    lemma_encode_concat(text, addition);
    assert forall|i: int| 0 <= i < chars.len() implies chars[i].offset <= new_len
        && is_char_boundary(encode_utf8(text + addition), (#[trigger] chars[i]).offset as int) by {
        lemma_boundary_extends(text, addition, chars[i].offset as int);
    }
    assert forall|i: int| 0 <= i < chars.len() implies (#[trigger] chars[i]).offset <= end_of(
        chars,
        new_len,
        i,
    ) by {
        assert(chars[i].offset <= end_of(chars, old_len, i));
    }
}

/// Characters that divide a text divide the text continued together with
/// one more character that begins where the shorter text ends.
pub proof fn lemma_divides_extends<S>(
    chars: Seq<TextChar<S>>,
    text: Seq<char>,
    addition: Seq<char>,
    next: TextChar<S>,
)
    requires
        divides(chars, text),
        next.offset == encode_utf8(text).len(),
    ensures
        divides(chars.push(next), text + addition),
{
    let old_len = encode_utf8(text).len() as int;
    let new_len = encode_utf8(text + addition).len() as int;
    lemma_encode_concat(text, addition);
    encode_utf8_valid_utf8(text);
    is_char_boundary_start_end_of_seq(encode_utf8(text));
    lemma_boundary_extends(text, addition, old_len);
    lemma_divides_longer(chars, text, addition);
    let longer = chars.push(next);
    assert forall|i: int| 0 <= i < longer.len() implies longer[i].offset <= new_len
        && is_char_boundary(encode_utf8(text + addition), (#[trigger] longer[i]).offset as int) by {
        if i < chars.len() {
            assert(longer[i] == chars[i]);
        }
    }
    assert forall|i: int| 0 <= i < longer.len() implies (#[trigger] longer[i]).offset <= end_of(
        longer,
        new_len,
        i,
    ) by {
        if i < chars.len() {
            assert(longer[i] == chars[i]);
            assert(chars[i].offset <= end_of(chars, old_len, i));
            if i + 1 < chars.len() {
                assert(longer[i + 1] == chars[i + 1]);
            }
        }
    }
}

impl<S: Copy, X> TextSpan<S, X> {
    /// Whether the characters divide the text of the span; see [`divides`].
    pub open spec fn wf(&self) -> bool {
        divides(self.chars@, self.text@)
    }

    /// The characters of the span, each with its text, first to last.
    pub fn parts(&self) -> (parts: Vec<Part<'_, S>>)
        requires
            self.wf(),
        ensures
            parts@.len() == self.chars@.len(),
            forall|i: int|
                0 <= i < parts@.len() ==> is_part(#[trigger] parts@[i], self.chars@, self.text@, i),
    {
        let s: &str = self.text.as_str();
        let len: usize = s.as_bytes().len();
        let n: usize = self.chars.len();
        proof {
            encode_utf8_valid_utf8(self.text@);
            is_char_boundary_start_end_of_seq(s.spec_bytes());
        }
        let mut parts: Vec<Part<'_, S>> = Vec::new();
        let mut i: usize = 0;
        while i < n
            invariant
                i <= n,
                n == self.chars@.len(),
                self.wf(),
                s@ == self.text@,
                len == s.spec_bytes().len(),
                is_char_boundary(s.spec_bytes(), len as int),
                parts@.len() == i,
                forall|j: int|
                    0 <= j < i ==> is_part(#[trigger] parts@[j], self.chars@, self.text@, j),
            decreases n - i,
        {
            let c: TextChar<S> = self.chars[i];
            let end: usize = if i + 1 < n {
                self.chars[i + 1].offset
            } else {
                len
            };
            assert(self.chars@[i as int].offset <= end_of(self.chars@, len as int, i as int));
            parts.push(Part { text: slice(s, c.offset, end), pos: c.pos, width: c.width, offset: c.offset });
            i += 1;
        }
        parts
    }

    /// The characters of the span, each with its text, last to first.
    pub fn rparts(&self) -> (parts: Vec<Part<'_, S>>)
        requires
            self.wf(),
        ensures
            parts@.len() == self.chars@.len(),
            forall|i: int|
                0 <= i < parts@.len() ==> is_part(
                    #[trigger] parts@[i],
                    self.chars@,
                    self.text@,
                    parts@.len() - 1 - i,
                ),
    {
        let s: &str = self.text.as_str();
        let len: usize = s.as_bytes().len();
        let n: usize = self.chars.len();
        proof {
            encode_utf8_valid_utf8(self.text@);
            is_char_boundary_start_end_of_seq(s.spec_bytes());
        }
        let mut parts: Vec<Part<'_, S>> = Vec::new();
        let mut i: usize = 0;
        while i < n
            invariant
                i <= n,
                n == self.chars@.len(),
                self.wf(),
                s@ == self.text@,
                len == s.spec_bytes().len(),
                is_char_boundary(s.spec_bytes(), len as int),
                parts@.len() == i,
                forall|j: int|
                    0 <= j < i ==> is_part(#[trigger] parts@[j], self.chars@, self.text@, n - 1 - j),
            decreases n - i,
        {
            let at: usize = n - 1 - i;
            let c: TextChar<S> = self.chars[at];
            let end: usize = if at + 1 < n {
                self.chars[at + 1].offset
            } else {
                len
            };
            assert(self.chars@[at as int].offset <= end_of(self.chars@, len as int, at as int));
            parts.push(Part { text: slice(s, c.offset, end), pos: c.pos, width: c.width, offset: c.offset });
            i += 1;
        }
        parts
    }
}

} // verus!
