//! Fonts that are not embedded: which file stands in for a standard font,
//! and what to do with the data of fonts that are.

use vstd::prelude::*;
use vstd::string::{StrSliceExecFns, StringExecFns};
use crate::names::{find, position};

verus! {

/// When the data of an embedded font is written out for inspection.
#[derive(Debug, Copy, Clone, Hash, PartialEq, Eq, Structural)]
pub enum Dump {
    Never,
    OnError,
    Always,
}

/// The setting that a value of the dump variable stands for: `always`,
/// `error`, and never for anything else or no value.
pub open spec fn dump_setting(value: Option<Seq<char>>) -> Dump {
    match value {
        Some(v) => if v == "always"@ {
            Dump::Always
        } else if v == "error"@ {
            Dump::OnError
        } else {
            Dump::Never
        },
        None => Dump::Never,
    }
}

impl Dump {
    /// Reads the setting from the value of the dump variable; see
    /// [`dump_setting`].
    pub fn from_setting(value: Option<&String>) -> (dump: Dump)
        ensures
            dump == dump_setting(
                match value {
                    Some(v) => Some(v@),
                    None => None,
                },
            ),
    {
        match value {
            Some(v) => {
                if *v == String::from_str("always") {
                    Dump::Always
                } else if *v == String::from_str("error") {
                    Dump::OnError
                } else {
                    Dump::Never
                }
            },
            None => Dump::Never,
        }
    }

    /// Whether the data of a font is written out, given whether parsing it
    /// failed: always, or on failure only, or never.
    pub fn applies(self, failed: bool) -> (r: bool)
        ensures
            r == (self == Dump::Always || (self == Dump::OnError && failed)),
    {
        match self {
            Dump::Always => true,
            Dump::OnError => failed,
            Dump::Never => false,
        }
    }
}

/// The name of the file that the data of a font is written to.
pub open spec fn dump_name(name: Option<Seq<char>>) -> Seq<char> {
    "font_"@ + match name {
        Some(n) => n,
        None => "unnamed"@,
    }
}

/// The name of the file that the data of the font `name` is written to;
/// see [`dump_name`].
pub fn dump_file_name(name: Option<&String>) -> (file: String)
    ensures
        file@ == dump_name(
            match name {
                Some(n) => Some(n@),
                None => None,
            },
        ),
{
    let mut file: String = String::from_str("font_");
    match name {
        Some(n) => file.append(n.as_str()),
        None => file.append("unnamed"),
    }
    file
}

/// The table of standard fonts parsed from JSON: the pairs of an object
/// whose values are strings, in the order of their names.
pub uninterp spec fn font_table_json(data: Seq<u8>) -> Option<Seq<(Seq<char>, Seq<char>)>>;

/// The pairs of a table as mathematical values.
pub open spec fn table_view(table: Seq<(String, String)>) -> Seq<(Seq<char>, Seq<char>)> {
    Seq::new(table.len(), |i: int| (table[i].0@, table[i].1@))
}

/// Calls `serde_json::from_slice` for a map from strings to strings and
/// lists its pairs. What comes of the bytes is named [`font_table_json`];
/// nothing comes of bytes that are no such JSON object.
#[verifier::external_body]
fn font_table_from_json(data: &Vec<u8>) -> (r: Option<Vec<(String, String)>>)
    ensures
        match r {
            Some(table) => font_table_json(data@) == Some(table_view(table@)),
            None => font_table_json(data@) is None,
        },
{
    let parsed: Option<std::collections::BTreeMap<String, String>> = serde_json::from_slice(
        data.as_slice(),
    ).ok();
    parsed.map(|m| m.into_iter().collect())
}

/// The table that says which font file stands in for which standard font.
#[derive(Debug, Clone, PartialEq, Eq)]
pub struct StandardFonts {
    pub fonts: Vec<(String, String)>,
}

/// The file that stands in for the font `name`: the one listed for that
/// name, else the one listed for Arial.
pub open spec fn standard_file(fonts: Seq<(String, String)>, name: Seq<char>) -> Option<
    Seq<char>,
> {
    match position(fonts, name) {
        Some(i) => Some(fonts[i].1@),
        None => match position(fonts, "Arial"@) {
            Some(i) => Some(fonts[i].1@),
            None => None,
        },
    }
}

impl StandardFonts {
    /// Reads the table from the bytes of its JSON file; nothing comes of
    /// bytes that are no JSON object with strings as values.
    pub fn parse(data: &Vec<u8>) -> (r: Option<StandardFonts>)
        ensures
            match r {
                Some(table) => font_table_json(data@) == Some(table_view(table.fonts@)),
                None => font_table_json(data@) is None,
            },
    {
        match font_table_from_json(data) {
            Some(fonts) => Some(StandardFonts { fonts }),
            None => None,
        }
    }

    /// The file that stands in for the font `name`; see [`standard_file`].
    pub fn file_for(&self, name: &String) -> (r: Option<&String>)
        ensures
            match r {
                Some(file) => standard_file(self.fonts@, name@) == Some(file@),
                None => standard_file(self.fonts@, name@) is None,
            },
    {
        match find(&self.fonts, name) {
            Some(i) => Some(&self.fonts[i].1),
            None => {
                let arial: String = String::from_str("Arial");
                match find(&self.fonts, &arial) {
                    Some(i) => Some(&self.fonts[i].1),
                    None => None,
                }
            },
        }
    }
}

/// Where the font program of a font comes from.
#[derive(Debug, Clone, PartialEq, Eq)]
pub enum FontSource {
    /// The data embedded in the document.
    Embedded,
    /// The file of this name in the directory of standard fonts.
    Standard(String),
    /// Nowhere: the font cannot be shown.
    Missing,
}

/// Where the font program of a font comes from: embedded data first; else
/// the standard font that the table lists for the name of the font; and
/// nowhere for a font without name.
pub open spec fn font_source(embedded: bool, name: Option<Seq<char>>, fonts: Seq<(String, String)>) -> Option<
    Seq<char>,
> {
    if embedded {
        None
    } else {
        match name {
            Some(n) => standard_file(fonts, n),
            None => None,
        }
    }
}

/// Decides where the font program of a font comes from; see
/// [`font_source`].
pub fn load_font(embedded: bool, name: Option<&String>, fonts: &StandardFonts) -> (r: FontSource)
    ensures
        embedded <==> r is Embedded,
        match r {
            FontSource::Standard(file) => font_source(
                embedded,
                match name {
                    Some(n) => Some(n@),
                    None => None,
                },
                fonts.fonts@,
            ) == Some(file@),
            _ => font_source(
                embedded,
                match name {
                    Some(n) => Some(n@),
                    None => None,
                },
                fonts.fonts@,
            ) is None,
        },
{
    if embedded {
        return FontSource::Embedded;
    }
    match name {
        Some(n) => match fonts.file_for(n) {
            Some(file) => FontSource::Standard(file.clone()),
            None => FontSource::Missing,
        },
        None => FontSource::Missing,
    }
}

/// The index of the first plus sign of `name` at or after `from`, or the
/// length of `name` where there is none.
pub open spec fn plus_at(name: Seq<char>, from: int) -> int
    decreases name.len() - from,
{
    if from < 0 || from >= name.len() || name[from] == '+' {
        from
    } else {
        plus_at(name, from + 1)
    }
}

/// The PostScript name of a font without the prefix that marks a subset:
/// what stands between the first plus sign and the next one or the end,
/// and the whole name where it holds no plus sign.
pub open spec fn postscript_name(name: Seq<char>) -> Seq<char> {
    let first = plus_at(name, 0);
    if first >= name.len() {
        name
    } else {
        name.subrange(first + 1, plus_at(name, first + 1))
    }
}

fn find_plus(s: &str, from: usize) -> (at: usize)
    requires
        from <= s@.len(),
    ensures
        at == plus_at(s@, from as int),
        from <= at <= s@.len(),
{
    let n: usize = s.unicode_len();
    let mut i: usize = from;
    while i < n && s.get_char(i) != '+'
        invariant
            from <= i <= n,
            n == s@.len(),
            plus_at(s@, from as int) == plus_at(s@, i as int),
        decreases n - i,
    {
        i += 1;
    }
    i
}

/// Strips the subset prefix from the name of a font; see
/// [`postscript_name`].
pub fn strip_subset_prefix(name: &String) -> (r: &str)
    ensures
        r@ == postscript_name(name@),
{
    let s: &str = name.as_str();
    let n: usize = s.unicode_len();
    let first: usize = find_plus(s, 0);
    if first >= n {
        s
    } else {
        let next: usize = find_plus(s, first + 1);
        s.substring_char(first + 1, next)
    }
}

} // verus!
