//! Single-byte text encodings and the glyph list, as tables to consult.

use vstd::prelude::*;

verus! {

/// The encodings whose tables are known.
#[derive(Debug, Copy, Clone, Hash, PartialEq, Eq, Structural)]
pub enum Encoding {
    Unicode,
    AdobeStandard,
    AdobeExpert,
    AdobeSymbol,
    AdobeZdingbat,
    WinAnsiEncoding,
    MacRomanEncoding,
}

/// Whether `code` is a Unicode scalar value.
pub open spec fn is_scalar(code: u32) -> bool {
    code < 0xD800 || (0xE000 <= code && code <= 0x10FFFF)
}

/// The code `code` of `source` expressed in `dest`, where both tables have it.
pub uninterp spec fn transcoded(source: Encoding, dest: Encoding, code: u32) -> Option<u32>;

/// The character that byte `byte` stands for in `encoding`.
pub uninterp spec fn forward_mapped(encoding: Encoding, byte: u8) -> Option<char>;

/// The text that the Adobe glyph list gives for a glyph name.
pub uninterp spec fn glyph_list_unicode(name: Seq<char>) -> Option<Seq<char>>;

/// Calls `pdf_encoding::Encoding::to` and, where that gives a transcoder,
/// `Transcoder::translate` on `code`. The result is a matter of the crate's
/// tables alone and is named [`transcoded`].
#[verifier::external_body]
pub(crate) fn transcode(source: Encoding, dest: Encoding, code: u32) -> (r: Option<u32>)
    ensures
        r == transcoded(source, dest, code),
{
    let all = [
        pdf_encoding::Encoding::Unicode,
        pdf_encoding::Encoding::AdobeStandard,
        pdf_encoding::Encoding::AdobeExpert,
        pdf_encoding::Encoding::AdobeSymbol,
        pdf_encoding::Encoding::AdobeZdingbat,
        pdf_encoding::Encoding::WinAnsiEncoding,
        pdf_encoding::Encoding::MacRomanEncoding,
    ];
    all[source as usize].to(all[dest as usize])?.translate(code)
}

/// Calls `pdf_encoding::Encoding::forward_map` and, where the encoding has
/// a table, `ForwardMap::get` on `byte`. The result is named
/// [`forward_mapped`].
#[verifier::external_body]
pub(crate) fn forward_char(encoding: Encoding, byte: u8) -> (r: Option<char>)
    ensures
        r == forward_mapped(encoding, byte),
{
    let all = [
        pdf_encoding::Encoding::Unicode,
        pdf_encoding::Encoding::AdobeStandard,
        pdf_encoding::Encoding::AdobeExpert,
        pdf_encoding::Encoding::AdobeSymbol,
        pdf_encoding::Encoding::AdobeZdingbat,
        pdf_encoding::Encoding::WinAnsiEncoding,
        pdf_encoding::Encoding::MacRomanEncoding,
    ];
    all[encoding as usize].forward_map()?.get(byte)
}

/// Calls `pdf_encoding::glyphname_to_unicode`, a lookup in the Adobe glyph
/// list. The result is named [`glyph_list_unicode`]; every entry of the
/// list holds at least one character.
#[verifier::external_body]
pub(crate) fn glyphname_to_unicode(name: &str) -> (r: Option<String>)
    ensures
        match r {
            Some(s) => glyph_list_unicode(name@) == Some(s@) && s@.len() > 0,
            None => glyph_list_unicode(name@) is None,
        },
{
    pdf_encoding::glyphname_to_unicode(name).map(String::from)
}

/// Calls `char::from_u32`, which gives the character with the code `code`
/// where `code` is a Unicode scalar value and nothing otherwise.
#[verifier::external_body]
pub(crate) fn char_from_u32(code: u32) -> (r: Option<char>)
    ensures
        r == (if is_scalar(code) {
            Some(code as char)
        } else {
            None
        }),
{
    char::from_u32(code)
}

/// Calls `String::from` on a character: the text of that one character.
#[verifier::external_body]
pub(crate) fn string_from_char(c: char) -> (s: String)
    ensures
        s@ == seq![c],
{
    String::from(c)
}

} // verus!
