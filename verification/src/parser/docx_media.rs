//! VML shape style strings of Word documents (`style="position:absolute;
//! mso-wrap-style:square;..."`).

use vstd::prelude::*;

use crate::ir::elements::WrapMode;
use crate::parser::pptx_text::{is_white_space, is_whitespace};
use crate::text_util::{chars_of, string_of};

verus! {

/// The position of the first occurrence of a character.
pub open spec fn first_index_of(s: Seq<char>, c: char) -> Option<int>
    decreases s.len(),
{
    if s.len() == 0 {
        None
    } else if s[0] == c {
        Some(0)
    } else {
        match first_index_of(s.drop_first(), c) {
            Some(i) => Some(i + 1),
            None => None,
        }
    }
}

/// The pieces of a string between separators (`str::split`), in order.
pub open spec fn split_on(s: Seq<char>, sep: char) -> Seq<Seq<char>>
    decreases s.len(),
{
    match first_index_of(s, sep) {
        None => seq![s],
        Some(i) => if 0 <= i < s.len() {
            seq![s.take(i)] + split_on(s.skip(i + 1), sep)
        } else {
            seq![s]
        },
    }
}

/// A string without leading white space.
pub open spec fn trim_start(s: Seq<char>) -> Seq<char>
    decreases s.len(),
{
    if s.len() > 0 && is_white_space(s[0]) {
        trim_start(s.drop_first())
    } else {
        s
    }
}

/// A string without trailing white space.
pub open spec fn trim_end(s: Seq<char>) -> Seq<char>
    decreases s.len(),
{
    if s.len() > 0 && is_white_space(s.last()) {
        trim_end(s.drop_last())
    } else {
        s
    }
}

/// A string without leading and trailing white space (`str::trim`).
pub open spec fn trim(s: Seq<char>) -> Seq<char> {
    trim_end(trim_start(s))
}

/// The value of a `name:value` declaration whose trimmed name is `key`.
pub open spec fn declaration_value(part: Seq<char>, key: Seq<char>) -> Option<Seq<char>> {
    match first_index_of(part, ':') {
        None => None,
        Some(i) => if trim(part.take(i)) == key {
            Some(trim(part.skip(i + 1)))
        } else {
            None
        },
    }
}

/// The value of the first declaration of `key` among the parts.
pub open spec fn first_declaration(parts: Seq<Seq<char>>, key: Seq<char>) -> Option<Seq<char>>
    decreases parts.len(),
{
    if parts.len() == 0 {
        None
    } else if declaration_value(parts[0], key) is Some {
        declaration_value(parts[0], key)
    } else {
        first_declaration(parts.drop_first(), key)
    }
}

/// The value of `key` in a VML style string: the first `;`-separated
/// declaration whose trimmed name is `key`, trimmed.
pub open spec fn vml_style_value(style: Seq<char>, key: Seq<char>) -> Option<Seq<char>> {
    first_declaration(split_on(style, ';'), key)
}

proof fn lemma_first_index_of(s: Seq<char>, c: char)
    ensures
        match first_index_of(s, c) {
            Some(i) => 0 <= i < s.len() && s[i] == c && forall|j: int| 0 <= j < i ==> s[j] != c,
            None => forall|j: int| 0 <= j < s.len() ==> s[j] != c,
        },
    decreases s.len(),
{
    if s.len() > 0 && s[0] != c {
        lemma_first_index_of(s.drop_first(), c);
        match first_index_of(s.drop_first(), c) {
            Some(i) => {
                assert forall|j: int| 0 <= j < i + 1 implies s[j] != c by {
                    if j > 0 {
                        assert(s[j] == s.drop_first()[j - 1]);
                    }
                }
            },
            None => {
                assert forall|j: int| 0 <= j < s.len() implies s[j] != c by {
                    if j > 0 {
                        assert(s[j] == s.drop_first()[j - 1]);
                    }
                }
            },
        }
    }
}

proof fn lemma_first_index_at(s: Seq<char>, c: char, i: int)
    requires
        0 <= i < s.len(),
        s[i] == c,
        forall|j: int| 0 <= j < i ==> s[j] != c,
    ensures
        first_index_of(s, c) == Some(i),
    decreases s.len(),
{
    if i > 0 {
        assert forall|j: int| 0 <= j < i - 1 implies s.drop_first()[j] != c by {
            assert(s.drop_first()[j] == s[j + 1]);
        }
        lemma_first_index_at(s.drop_first(), c, i - 1);
    }
}

proof fn lemma_first_index_none(s: Seq<char>, c: char)
    requires
        forall|j: int| 0 <= j < s.len() ==> s[j] != c,
    ensures
        first_index_of(s, c) is None,
    decreases s.len(),
{
    if s.len() > 0 {
        assert forall|j: int| 0 <= j < s.len() - 1 implies s.drop_first()[j] != c by {
            assert(s.drop_first()[j] == s[j + 1]);
        }
        lemma_first_index_none(s.drop_first(), c);
    }
}

/// The characters from `from` to `to`, without leading and trailing white
/// space.
pub(crate) fn trimmed(chars: &Vec<char>, from: usize, to: usize) -> (r: Vec<char>)
    requires
        from <= to <= chars@.len(),
    ensures
        r@ == trim(chars@.subrange(from as int, to as int)),
{
    let ghost s = chars@.subrange(from as int, to as int);
    let mut a = from;
    assert(chars@.subrange(a as int, to as int) =~= s);
    while a < to && is_whitespace(chars[a])
        invariant
            from <= a <= to <= chars@.len(),
            trim_start(s) == trim_start(chars@.subrange(a as int, to as int)),
        decreases to - a,
    {
        assert(chars@.subrange(a as int, to as int).drop_first() =~= chars@.subrange(a + 1, to as int));
        a = a + 1;
    }
    let ghost started = chars@.subrange(a as int, to as int);
    assert(trim_start(started) == started);
    let mut b = to;
    while b > a && is_whitespace(chars[b - 1])
        invariant
            a <= b <= to <= chars@.len(),
            trim_end(started) == trim_end(chars@.subrange(a as int, b as int)),
        decreases b - a,
    {
        assert(chars@.subrange(a as int, b as int).drop_last() =~= chars@.subrange(a as int, b - 1));
        b = b - 1;
    }
    let mut r: Vec<char> = Vec::new();
    let mut k = a;
    while k < b
        invariant
            a <= k <= b <= chars@.len(),
            r@ == chars@.subrange(a as int, k as int),
        decreases b - k,
    {
        r.push(chars[k]);
        k = k + 1;
        assert(r@ =~= chars@.subrange(a as int, k as int));
    }
    r
}

/// Characters equal to a string's.
fn chars_eq(a: &Vec<char>, b: &Vec<char>) -> (r: bool)
    ensures
        r == (a@ == b@),
{
    if a.len() != b.len() {
        return false;
    }
    let mut i: usize = 0;
    while i < a.len()
        invariant
            0 <= i <= a@.len(),
            a@.len() == b@.len(),
            forall|j: int| 0 <= j < i ==> a@[j] == b@[j],
        decreases a@.len() - i,
    {
        if a[i] != b[i] {
            return false;
        }
        i = i + 1;
    }
    assert(a@ =~= b@);
    true
}

/// The value of `key` in a VML style string.
pub fn extract_vml_style_value(style: &str, key: &str) -> (value: Option<String>)
    ensures
        match value {
            Some(v) => vml_style_value(style@, key@) == Some(v@),
            None => vml_style_value(style@, key@) is None,
        },
{
    let chars = chars_of(style);
    let key_chars = chars_of(key);
    let ghost s = chars@;
    let mut start: usize = 0;
    assert(s.subrange(0, s.len() as int) =~= s);
    loop
        invariant
            0 <= start <= chars@.len(),
            s == chars@,
            key_chars@ == key@,
            s == style@,
            vml_style_value(style@, key@) == first_declaration(
                split_on(s.subrange(start as int, s.len() as int), ';'),
                key@,
            ),
        decreases chars@.len() - start,
    {
        let ghost rest = s.subrange(start as int, s.len() as int);
        let mut end = start;
        while end < chars.len() && chars[end] != ';'
            invariant
                start <= end <= chars@.len(),
                forall|j: int| start <= j < end ==> chars@[j] != ';',
            decreases chars@.len() - end,
        {
            end = end + 1;
        }
        let ghost part = s.subrange(start as int, end as int);
        proof {
            if end < chars.len() {
                lemma_first_index_at(rest, ';', end - start);
                assert(rest.take(end - start) =~= part);
                assert(rest.skip(end - start + 1) =~= s.subrange(end + 1, s.len() as int));
                assert(split_on(rest, ';') == seq![part] + split_on(s.subrange(end + 1, s.len() as int), ';'));
            } else {
                assert forall|j: int| 0 <= j < rest.len() implies rest[j] != ';' by {
                    assert(rest[j] == s[start + j]);
                }
                lemma_first_index_none(rest, ';');
                assert(part =~= rest);
            }
        }
        let mut colon = start;
        while colon < end && chars[colon] != ':'
            invariant
                start <= colon <= end,
                end <= chars@.len(),
                forall|j: int| start <= j < colon ==> chars@[j] != ':',
            decreases end - colon,
        {
            colon = colon + 1;
        }
        let mut found: Option<String> = None;
        if colon < end {
            proof {
                lemma_first_index_at(part, ':', colon - start);
                assert(part.take(colon - start) =~= chars@.subrange(start as int, colon as int));
                assert(part.skip(colon - start + 1) =~= chars@.subrange(colon + 1, end as int));
            }
            let name = trimmed(&chars, start, colon);
            if chars_eq(&name, &key_chars) {
                let value = trimmed(&chars, colon + 1, end);
                found = Some(string_of(value.as_slice()));
            }
        } else {
            proof {
                assert forall|j: int| 0 <= j < part.len() implies part[j] != ':' by {
                    assert(part[j] == s[start + j]);
                }
                lemma_first_index_none(part, ':');
            }
        }
        assert(found is Some <==> declaration_value(part, key@) is Some);
        if found.is_some() {
            proof {
                if end < chars.len() {
                    assert((seq![part] + split_on(s.subrange(end + 1, s.len() as int), ';'))[0] == part);
                } else {
                    assert(split_on(rest, ';') == seq![part]);
                }
            }
            return found;
        }
        if end >= chars.len() {
            proof {
                assert(split_on(rest, ';') == seq![part]);
                assert(seq![part].drop_first() =~= Seq::<Seq<char>>::empty());
                assert(first_declaration(Seq::<Seq<char>>::empty(), key@) is None);
            }
            return None;
        }
        proof {
            assert((seq![part] + split_on(s.subrange(end + 1, s.len() as int), ';')).drop_first()
                =~= split_on(s.subrange(end + 1, s.len() as int), ';'));
        }
        start = end + 1;
    }
}

/// ASCII lower case of a character.
pub open spec fn ascii_lower(c: char) -> char {
    if 'A' <= c <= 'Z' {
        ((c as u8) + 32) as char
    } else {
        c
    }
}

/// Strings equal but for ASCII case (`str::eq_ignore_ascii_case`).
pub open spec fn eq_ignore_ascii_case(a: Seq<char>, b: Seq<char>) -> bool {
    a.len() == b.len() && forall|i: int| 0 <= i < a.len() ==> ascii_lower(#[trigger] a[i]) == ascii_lower(b[i])
}

fn lower(c: char) -> (r: char)
    ensures
        r == ascii_lower(c),
{
    if 'A' <= c && c <= 'Z' {
        let b: u8 = c as u8;
        (b + 32) as char
    } else {
        c
    }
}

/// Whether two strings are equal but for ASCII case.
pub fn equals_ignoring_ascii_case(a: &str, b: &str) -> (r: bool)
    ensures
        r == eq_ignore_ascii_case(a@, b@),
{
    let x = chars_of(a);
    let y = chars_of(b);
    if x.len() != y.len() {
        return false;
    }
    let mut i: usize = 0;
    while i < x.len()
        invariant
            0 <= i <= x@.len(),
            x@ == a@,
            y@ == b@,
            x@.len() == y@.len(),
            forall|j: int| 0 <= j < i ==> ascii_lower(#[trigger] x@[j]) == ascii_lower(y@[j]),
        decreases x@.len() - i,
    {
        if lower(x[i]) != lower(y[i]) {
            return false;
        }
        i = i + 1;
    }
    true
}

/// Whether `key` has the expected value (ignoring ASCII case) in a VML
/// style string.
pub fn has_vml_style_value(style: &str, key: &str, expected: &str) -> (r: bool)
    ensures
        r == match vml_style_value(style@, key@) {
            Some(v) => eq_ignore_ascii_case(v, expected@),
            None => false,
        },
{
    match extract_vml_style_value(style, key) {
        Some(v) => equals_ignoring_ascii_case(v.as_str(), expected),
        None => false,
    }
}

/// The wrap mode a VML `mso-wrap-style` value names (ignoring ASCII case).
pub open spec fn vml_wrap_mode(value: Seq<char>) -> Option<WrapMode> {
    if eq_ignore_ascii_case(value, "square"@) {
        Some(WrapMode::Square)
    } else if eq_ignore_ascii_case(value, "none"@) {
        Some(WrapMode::NoWrap)
    } else if eq_ignore_ascii_case(value, "tight"@) || eq_ignore_ascii_case(value, "through"@) {
        Some(WrapMode::Tight)
    } else if eq_ignore_ascii_case(value, "top-and-bottom"@) || eq_ignore_ascii_case(value, "topandbottom"@) {
        Some(WrapMode::TopAndBottom)
    } else {
        None
    }
}

/// The wrap mode of a VML shape's style (`mso-wrap-style`), where known.
pub fn extract_vml_style_wrap_mode(style: Option<&str>) -> (mode: Option<WrapMode>)
    ensures
        mode == match style {
            Some(s) => match vml_style_value(s@, "mso-wrap-style"@) {
                Some(v) => vml_wrap_mode(v),
                None => None,
            },
            None => None,
        },
{
    let style = match style {
        Some(s) => s,
        None => {
            return None;
        },
    };
    let value = match extract_vml_style_value(style, "mso-wrap-style") {
        Some(v) => v,
        None => {
            return None;
        },
    };
    let v: &str = value.as_str();
    if equals_ignoring_ascii_case(v, "square") {
        Some(WrapMode::Square)
    } else if equals_ignoring_ascii_case(v, "none") {
        Some(WrapMode::NoWrap)
    } else if equals_ignoring_ascii_case(v, "tight") || equals_ignoring_ascii_case(v, "through") {
        Some(WrapMode::Tight)
    } else if equals_ignoring_ascii_case(v, "top-and-bottom") || equals_ignoring_ascii_case(v, "topandbottom") {
        Some(WrapMode::TopAndBottom)
    } else {
        None
    }
}

} // verus!
