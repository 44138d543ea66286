//! Text decisions of the presentation reader: list markers, list levels and
//! run boundaries.

use vstd::prelude::*;

use crate::ir::elements::Run;
use crate::text_util::{chars_of, has_prefix, has_suffix, opt_chars, parse_i64, parsed_i64, str_eq, string_of};
use crate::xml::{attr_value, get_attr, XmlTag};

verus! {

/// The Typst numbering pattern of a DrawingML auto-numbering scheme.
pub open spec fn auto_numbering_pattern(numbering_type: Seq<char>) -> Option<Seq<char>> {
    if numbering_type == "arabicPeriod"@ {
        Some("1."@)
    } else if numbering_type == "arabicParenR"@ {
        Some("1)"@)
    } else if numbering_type == "arabicParenBoth"@ {
        Some("(1)"@)
    } else if numbering_type == "alphaLcPeriod"@ {
        Some("a."@)
    } else if numbering_type == "alphaUcPeriod"@ {
        Some("A."@)
    } else if numbering_type == "alphaLcParenR"@ {
        Some("a)"@)
    } else if numbering_type == "alphaUcParenR"@ {
        Some("A)"@)
    } else if numbering_type == "romanLcPeriod"@ {
        Some("i."@)
    } else if numbering_type == "romanUcPeriod"@ {
        Some("I."@)
    } else if numbering_type == "romanLcParenR"@ {
        Some("i)"@)
    } else if numbering_type == "romanUcParenR"@ {
        Some("I)"@)
    } else {
        None
    }
}

/// Map a DrawingML auto-numbering scheme (`a:buAutoNum type`) onto a Typst
/// numbering pattern.
pub fn pptx_auto_numbering_pattern(numbering_type: &str) -> (pattern: Option<&'static str>)
    ensures
        match pattern {
            Some(p) => auto_numbering_pattern(numbering_type@) == Some(p@),
            None => auto_numbering_pattern(numbering_type@) is None,
        },
{
    if str_eq(numbering_type, "arabicPeriod") {
        Some("1.")
    } else if str_eq(numbering_type, "arabicParenR") {
        Some("1)")
    } else if str_eq(numbering_type, "arabicParenBoth") {
        Some("(1)")
    } else if str_eq(numbering_type, "alphaLcPeriod") {
        Some("a.")
    } else if str_eq(numbering_type, "alphaUcPeriod") {
        Some("A.")
    } else if str_eq(numbering_type, "alphaLcParenR") {
        Some("a)")
    } else if str_eq(numbering_type, "alphaUcParenR") {
        Some("A)")
    } else if str_eq(numbering_type, "romanLcPeriod") {
        Some("i.")
    } else if str_eq(numbering_type, "romanUcPeriod") {
        Some("I.")
    } else if str_eq(numbering_type, "romanLcParenR") {
        Some("i)")
    } else if str_eq(numbering_type, "romanUcParenR") {
        Some("I)")
    } else {
        None
    }
}

/// Automatic numbering of a list paragraph.
#[derive(Debug, Clone, PartialEq, Eq)]
pub struct PptxAutoNumbering {
    pub level: u32,
    pub numbering_pattern: Option<String>,
    pub start_at: Option<u32>,
}

/// An integer attribute of a tag, where present and parsable as `i64`.
pub open spec fn tag_i64(tag: XmlTag, key: Seq<char>) -> Option<i64> {
    match attr_value(tag.attrs@, key) {
        Some(v) => parsed_i64(v),
        None => None,
    }
}

/// A tag's integer attribute, where present and parsable.
pub fn get_attr_i64(tag: &XmlTag, key: &str) -> (value: Option<i64>)
    ensures
        value == tag_i64(*tag, key@),
{
    match get_attr(tag, key) {
        Some(v) => parse_i64(v.as_str()),
        None => None,
    }
}

/// An `i64` as a `u32`, where it fits.
pub open spec fn as_u32(value: Option<i64>) -> Option<u32> {
    match value {
        Some(v) => if 0 <= v <= u32::MAX {
            Some(v as u32)
        } else {
            None
        },
        None => None,
    }
}

fn to_u32(value: Option<i64>) -> (r: Option<u32>)
    ensures
        r == as_u32(value),
{
    match value {
        Some(v) => if 0 <= v && v <= 4294967295i64 {
            Some(v as u32)
        } else {
            None
        },
        None => None,
    }
}

/// Read `a:buAutoNum`: its scheme's pattern, where known, and its start
/// number (`startAt`), where it fits a `u32`.
pub fn parse_pptx_auto_numbering(tag: &XmlTag, level: u32) -> (n: PptxAutoNumbering)
    ensures
        n.level == level,
        opt_chars(n.numbering_pattern) == match attr_value(tag.attrs@, "type"@) {
            Some(t) => auto_numbering_pattern(t),
            None => None,
        },
        n.start_at == as_u32(tag_i64(*tag, "startAt"@)),
{
    let numbering_pattern: Option<String> = match get_attr(tag, "type") {
        Some(t) => match pptx_auto_numbering_pattern(t.as_str()) {
            Some(p) => Some(p.to_string()),
            None => None,
        },
        None => None,
    };
    let start_at = to_u32(get_attr_i64(tag, "startAt"));
    PptxAutoNumbering { level, numbering_pattern, start_at }
}

/// The level of a paragraph (`a:pPr lvl`), 0 where absent or out of range.
pub fn extract_paragraph_level(tag: &XmlTag) -> (level: u32)
    ensures
        level == match as_u32(tag_i64(*tag, "lvl"@)) {
            Some(l) => l,
            None => 0,
        },
{
    match to_u32(get_attr_i64(tag, "lvl")) {
        Some(l) => l,
        None => 0,
    }
}

/// The kind of bullet of a list level.
#[derive(Debug, Clone, PartialEq, Eq)]
pub enum PptxBulletKind {
    /// No bullet (`a:buNone`).
    NoBullet,
    Character(String),
    AutoNumber(PptxAutoNumbering),
}

/// Read `a:buChar`: its character; where it names none, a disc at the top
/// level and nothing below.
pub fn parse_pptx_bullet_marker(tag: &XmlTag, level: u32) -> (kind: Option<PptxBulletKind>)
    ensures
        match attr_value(tag.attrs@, "char"@) {
            Some(c) => kind matches Some(PptxBulletKind::Character(s)) && s@ == c,
            None => if level == 0 {
                kind matches Some(PptxBulletKind::Character(s)) && s@ == "\u{2022}"@
            } else {
                kind is None
            },
        },
{
    match get_attr(tag, "char") {
        Some(c) => Some(PptxBulletKind::Character(c)),
        None => if level == 0 {
            Some(PptxBulletKind::Character("\u{2022}".to_string()))
        } else {
            None
        },
    }
}

/// The level of a list style paragraph properties element: `lvl1pPr`
/// through `lvl9pPr` give 0 through 8.
pub open spec fn list_style_level(name: Seq<char>) -> Option<u32> {
    if name.len() == 7 && name.take(3) == "lvl"@ && name.skip(4) == "pPr"@ && '1' <= name[3] <= '9' {
        Some((name[3] as u32 - '1' as u32) as u32)
    } else {
        None
    }
}

/// Which list style level an element name names.
pub fn parse_pptx_list_style_level(name: &str) -> (level: Option<u32>)
    ensures
        level == list_style_level(name@),
{
    let chars = chars_of(name);
    proof {
        reveal_strlit("lvl");
        reveal_strlit("pPr");
    }
    if chars.len() != 7 || chars[0] != 'l' || chars[1] != 'v' || chars[2] != 'l' || chars[4] != 'p'
        || chars[5] != 'P' || chars[6] != 'r' {
        proof {
            if chars@.len() == 7 {
                if chars@.take(3) == "lvl"@ {
                    assert(chars@.take(3)[0] == 'l' && chars@.take(3)[1] == 'v' && chars@.take(3)[2] == 'l');
                }
                if chars@.skip(4) == "pPr"@ {
                    assert(chars@.skip(4)[0] == 'p' && chars@.skip(4)[1] == 'P' && chars@.skip(4)[2] == 'r');
                }
            }
        }
        return None;
    }
    assert(chars@.take(3) =~= "lvl"@);
    assert(chars@.skip(4) =~= "pPr"@);
    let digit = chars[3];
    if digit < '1' || digit > '9' {
        return None;
    }
    Some((digit as u32) - ('1' as u32))
}

/// The paragraph container a list style parser is inside: the defaults or
/// one level.
#[derive(Debug, Clone, Copy, PartialEq, Eq, Structural)]
pub enum ParagraphTarget {
    Default,
    Level(u32),
}

impl ParagraphTarget {
    /// The numeric level (0 for the defaults).
    pub fn level(self) -> (level: u32)
        ensures
            level == match self {
                ParagraphTarget::Default => 0,
                ParagraphTarget::Level(l) => l,
            },
    {
        match self {
            Self::Default => 0,
            Self::Level(level) => level,
        }
    }
}

/// A character with the Unicode `White_Space` property (`char::is_whitespace`).
pub open spec fn is_white_space(c: char) -> bool {
    ('\u{9}' <= c <= '\u{d}') || c == ' ' || c == '\u{85}' || c == '\u{a0}' || c == '\u{1680}'
        || ('\u{2000}' <= c <= '\u{200a}') || c == '\u{2028}' || c == '\u{2029}' || c == '\u{202f}'
        || c == '\u{205f}' || c == '\u{3000}'
}

/// Whether a character has the Unicode `White_Space` property.
pub fn is_whitespace(c: char) -> (r: bool)
    ensures
        r == is_white_space(c),
{
    ('\u{9}' <= c && c <= '\u{d}') || c == ' ' || c == '\u{85}' || c == '\u{a0}' || c == '\u{1680}'
        || ('\u{2000}' <= c && c <= '\u{200a}') || c == '\u{2028}' || c == '\u{2029}' || c == '\u{202f}'
        || c == '\u{205f}' || c == '\u{3000}'
}

/// Punctuation after a run's leading space that makes the space worth
/// keeping as non-breaking.
pub open spec fn keeps_boundary_space(next_char: char) -> bool {
    next_char == '=' || next_char == '+' || next_char == '-' || next_char == '/' || next_char == '%'
        || next_char == ')' || next_char == ']' || next_char == '}' || next_char == ':' || next_char
        == ';' || next_char == ',' || next_char == '.'
}

/// Whether a run's leading space before this character is kept.
pub fn should_preserve_pptx_run_boundary_space(next_char: char) -> (r: bool)
    ensures
        r == keeps_boundary_space(next_char),
{
    next_char == '=' || next_char == '+' || next_char == '-' || next_char == '/' || next_char == '%'
        || next_char == ')' || next_char == ']' || next_char == '}' || next_char == ':' || next_char
        == ';' || next_char == ',' || next_char == '.'
}

/// A run's leading space becomes non-breaking when it follows a run of the
/// same link without footnotes whose text does not end in white space, and
/// the run continues with punctuation such as `=` or `)`: PowerPoint often
/// splits styled phrases into runs such as `K` + ` = 100)`.
pub open spec fn boundary_space_fixed<N>(previous: Option<Run<N>>, run: Run<N>) -> bool {
    match previous {
        None => false,
        Some(p) => {
            &&& opt_chars(p.href) == opt_chars(run.href)
            &&& p.footnote is None
            &&& run.footnote is None
            &&& !(p.text@.len() > 0 && is_white_space(p.text@.last()))
            &&& run.text@.len() >= 2
            &&& run.text@[0] == ' '
            &&& keeps_boundary_space(run.text@[1])
        },
    }
}

/// Optional strings with the same characters.
fn same_opt_string(a: &Option<String>, b: &Option<String>) -> (r: bool)
    ensures
        r == (opt_chars(*a) == opt_chars(*b)),
{
    match (a, b) {
        (Some(x), Some(y)) => str_eq(x.as_str(), y.as_str()),
        (None, None) => true,
        _ => false,
    }
}

/// Turn a run's leading space into a no-break space where the boundary with
/// the previous run calls for it.
pub fn normalize_pptx_run_boundary_spacing<N>(previous: Option<&Run<N>>, run: &mut Run<N>)
    ensures
        final(run).style == old(run).style,
        final(run).href == old(run).href,
        final(run).footnote == old(run).footnote,
        final(run).text@ == if boundary_space_fixed(
            match previous {
                Some(p) => Some(*p),
                None => None,
            },
            *old(run),
        ) {
            old(run).text@.update(0, '\u{a0}')
        } else {
            old(run).text@
        },
{
    let p = match previous {
        Some(p) => p,
        None => {
            return;
        },
    };
    if !same_opt_string(&p.href, &run.href) || p.footnote.is_some() || run.footnote.is_some() {
        return;
    }
    let prev_chars = chars_of(p.text.as_str());
    if prev_chars.len() > 0 && is_whitespace(prev_chars[prev_chars.len() - 1]) {
        return;
    }
    let mut chars = chars_of(run.text.as_str());
    if chars.len() < 2 {
        return;
    }
    if chars[0] == ' ' && should_preserve_pptx_run_boundary_space(chars[1]) {
        chars.set(0, '\u{a0}');
        run.text = string_of(chars.as_slice());
    }
}


/// The counter symbol of a numbering pattern: the character between the
/// parentheses of `(1)`, else the first one.
pub open spec fn pattern_counter(p: Seq<char>) -> char {
    if p.len() == 3 {
        p[1]
    } else {
        p[0]
    }
}

/// Each DrawingML auto-numbering scheme gives the pattern its name spells:
/// the family and case (`arabic` counts `1`, `alphaLc` `a`, `alphaUc` `A`,
/// `romanLc` `i`, `romanUc` `I`) and the punctuation (`Period` gives `1.`,
/// `ParenR` gives `1)`, `ParenBoth` gives `(1)`). So the upper- and
/// lower-case schemes of a family never give the same pattern.
pub proof fn lemma_auto_numbering_follows_name(t: Seq<char>)
    ensures
        match auto_numbering_pattern(t) {
            Some(p) => {
                &&& has_suffix(t, "Period"@) ==> p.len() == 2 && p[1] == '.'
                &&& has_suffix(t, "ParenR"@) ==> p.len() == 2 && p[1] == ')'
                &&& has_suffix(t, "ParenBoth"@) ==> p.len() == 3 && p[0] == '(' && p[2] == ')'
                &&& has_prefix(t, "arabic"@) ==> pattern_counter(p) == '1'
                &&& has_prefix(t, "alphaLc"@) ==> pattern_counter(p) == 'a'
                &&& has_prefix(t, "alphaUc"@) ==> pattern_counter(p) == 'A'
                &&& has_prefix(t, "romanLc"@) ==> pattern_counter(p) == 'i'
                &&& has_prefix(t, "romanUc"@) ==> pattern_counter(p) == 'I'
            },
            None => true,
        },
{
    reveal_strlit("arabicPeriod");
    reveal_strlit("arabicParenR");
    reveal_strlit("arabicParenBoth");
    reveal_strlit("alphaLcPeriod");
    reveal_strlit("alphaUcPeriod");
    reveal_strlit("alphaLcParenR");
    reveal_strlit("alphaUcParenR");
    reveal_strlit("romanLcPeriod");
    reveal_strlit("romanUcPeriod");
    reveal_strlit("romanLcParenR");
    reveal_strlit("romanUcParenR");
    reveal_strlit("1.");
    reveal_strlit("1)");
    reveal_strlit("(1)");
    reveal_strlit("a.");
    reveal_strlit("A.");
    reveal_strlit("a)");
    reveal_strlit("A)");
    reveal_strlit("i.");
    reveal_strlit("I.");
    reveal_strlit("i)");
    reveal_strlit("I)");
    reveal_strlit("Period");
    reveal_strlit("ParenR");
    reveal_strlit("ParenBoth");
    reveal_strlit("arabic");
    reveal_strlit("alphaLc");
    reveal_strlit("alphaUc");
    reveal_strlit("romanLc");
    reveal_strlit("romanUc");
    if auto_numbering_pattern(t) is Some {
        let n = t.len() as int;
        assert(n >= 12);
        assert(t.subrange(0, 6)[0] == t[0]);
        assert(t.subrange(0, 6)[1] == t[1]);
        assert(t.subrange(0, 6)[2] == t[2]);
        assert(t.subrange(0, 6)[3] == t[3]);
        assert(t.subrange(0, 6)[4] == t[4]);
        assert(t.subrange(0, 6)[5] == t[5]);
        assert(t.subrange(0, 7)[0] == t[0]);
        assert(t.subrange(0, 7)[1] == t[1]);
        assert(t.subrange(0, 7)[2] == t[2]);
        assert(t.subrange(0, 7)[3] == t[3]);
        assert(t.subrange(0, 7)[4] == t[4]);
        assert(t.subrange(0, 7)[5] == t[5]);
        assert(t.subrange(0, 7)[6] == t[6]);
        assert(t.subrange(n - 6, n)[0] == t[n - 6 + 0]);
        assert(t.subrange(n - 6, n)[1] == t[n - 6 + 1]);
        assert(t.subrange(n - 6, n)[2] == t[n - 6 + 2]);
        assert(t.subrange(n - 6, n)[3] == t[n - 6 + 3]);
        assert(t.subrange(n - 6, n)[4] == t[n - 6 + 4]);
        assert(t.subrange(n - 6, n)[5] == t[n - 6 + 5]);
        assert(t.subrange(n - 9, n)[0] == t[n - 9 + 0]);
        assert(t.subrange(n - 9, n)[1] == t[n - 9 + 1]);
        assert(t.subrange(n - 9, n)[2] == t[n - 9 + 2]);
        assert(t.subrange(n - 9, n)[3] == t[n - 9 + 3]);
        assert(t.subrange(n - 9, n)[4] == t[n - 9 + 4]);
        assert(t.subrange(n - 9, n)[5] == t[n - 9 + 5]);
        assert(t.subrange(n - 9, n)[6] == t[n - 9 + 6]);
        assert(t.subrange(n - 9, n)[7] == t[n - 9 + 7]);
        assert(t.subrange(n - 9, n)[8] == t[n - 9 + 8]);
    }
}
} // verus!
