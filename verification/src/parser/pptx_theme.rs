//! What the text readers take from a presentation's theme: its color scheme,
//! the color map that names scheme colors for a slide, and its major and
//! minor fonts; and how DrawingML colors and typefaces resolve against them.

use vstd::prelude::*;

use crate::ir::style::{Color, TextStyle};
use crate::parser::pptx_text::{is_white_space, is_whitespace};
use crate::text_util::{chars_of, str_eq};
use crate::xml::{attr_value, get_attr, XmlTag};

verus! {

/// A theme's color scheme by name (`dk1`, `lt1`, `accent1`, ...) and its
/// major (heading) and minor (body) fonts.
#[derive(Debug, Clone)]
pub struct ThemeData {
    pub colors: Vec<(String, Color)>,
    pub major_font: Option<String>,
    pub minor_font: Option<String>,
}

/// A color map (`p:clrMap`): the scheme names a slide uses (`bg1`, `tx1`,
/// ...) onto the theme's color names (`lt1`, `dk1`, ...).
#[derive(Debug, Clone)]
pub struct ColorMapData {
    pub mappings: Vec<(String, String)>,
}

/// The first entry of `colors` named `name`.
pub open spec fn theme_color(colors: Seq<(String, Color)>, name: Seq<char>) -> Option<Color>
    decreases colors.len(),
{
    if colors.len() == 0 {
        None
    } else if colors[0].0@ == name {
        Some(colors[0].1)
    } else {
        theme_color(colors.drop_first(), name)
    }
}

/// The theme color name a scheme name maps to: the first mapping of it,
/// or the name itself where the map has none.
pub open spec fn mapped_name(mappings: Seq<(String, String)>, name: Seq<char>) -> Seq<char>
    decreases mappings.len(),
{
    if mappings.len() == 0 {
        name
    } else if mappings[0].0@ == name {
        mappings[0].1@
    } else {
        mapped_name(mappings.drop_first(), name)
    }
}

/// The value of a hexadecimal digit (either case).
pub open spec fn hex_value(c: char) -> Option<u8> {
    if '0' <= c <= '9' {
        Some((c as u32 - '0' as u32) as u8)
    } else if 'a' <= c <= 'f' {
        Some((c as u32 - 'a' as u32 + 10) as u8)
    } else if 'A' <= c <= 'F' {
        Some((c as u32 - 'A' as u32 + 10) as u8)
    } else {
        None
    }
}

/// The byte two hexadecimal digits spell.
pub open spec fn hex_byte(hi: char, lo: char) -> Option<u8> {
    match (hex_value(hi), hex_value(lo)) {
        (Some(h), Some(l)) => Some((h * 16 + l) as u8),
        _ => None,
    }
}

/// The color an `RRGGBB` hex string spells.
pub open spec fn hex_color(s: Seq<char>) -> Option<Color> {
    if s.len() == 6 {
        match (hex_byte(s[0], s[1]), hex_byte(s[2], s[3]), hex_byte(s[4], s[5])) {
            (Some(r), Some(g), Some(b)) => Some(Color { r, g, b }),
            _ => None,
        }
    } else {
        None
    }
}

/// The color element names of DrawingML that the readers resolve.
pub open spec fn is_color_element(name: Seq<char>) -> bool {
    name == "srgbClr"@ || name == "schemeClr"@ || name == "sysClr"@
}

/// The base color of a DrawingML color element: `srgbClr val` as hex,
/// `schemeClr val` through the color map into the theme, `sysClr lastClr`
/// as hex. Color modifiers among its children (`lumMod`, `tint`, ...) are
/// not applied.
pub open spec fn base_color(tag: XmlTag, theme: ThemeData, color_map: ColorMapData) -> Option<Color> {
    let name = tag.name@;
    if name == "srgbClr"@ {
        match attr_value(tag.attrs@, "val"@) {
            Some(v) => hex_color(v),
            None => None,
        }
    } else if name == "schemeClr"@ {
        match attr_value(tag.attrs@, "val"@) {
            Some(v) => theme_color(theme.colors@, mapped_name(color_map.mappings@, v)),
            None => None,
        }
    } else if name == "sysClr"@ {
        match attr_value(tag.attrs@, "lastClr"@) {
            Some(v) => hex_color(v),
            None => None,
        }
    } else {
        None
    }
}

fn hex_digit(c: char) -> (v: Option<u8>)
    ensures
        v == hex_value(c),
{
    if '0' <= c && c <= '9' {
        Some(((c as u32) - ('0' as u32)) as u8)
    } else if 'a' <= c && c <= 'f' {
        Some(((c as u32) - ('a' as u32) + 10) as u8)
    } else if 'A' <= c && c <= 'F' {
        Some(((c as u32) - ('A' as u32) + 10) as u8)
    } else {
        None
    }
}

fn hex_pair(hi: char, lo: char) -> (v: Option<u8>)
    ensures
        v == hex_byte(hi, lo),
{
    match (hex_digit(hi), hex_digit(lo)) {
        (Some(h), Some(l)) => Some(h * 16 + l),
        _ => None,
    }
}

/// Read an `RRGGBB` hex color.
pub fn parse_hex_color(s: &str) -> (c: Option<Color>)
    ensures
        c == hex_color(s@),
{
    let chars = chars_of(s);
    if chars.len() != 6 {
        return None;
    }
    match (hex_pair(chars[0], chars[1]), hex_pair(chars[2], chars[3]), hex_pair(chars[4], chars[5])) {
        (Some(r), Some(g), Some(b)) => Some(Color { r, g, b }),
        _ => None,
    }
}

fn lookup_theme_color(colors: &Vec<(String, Color)>, name: &str) -> (c: Option<Color>)
    ensures
        c == theme_color(colors@, name@),
{
    let mut i: usize = 0;
    assert(colors@.skip(0) =~= colors@);
    while i < colors.len()
        invariant
            0 <= i <= colors@.len(),
            theme_color(colors@, name@) == theme_color(colors@.skip(i as int), name@),
        decreases colors@.len() - i,
    {
        assert(colors@.skip(i as int).drop_first() =~= colors@.skip(i as int + 1));
        if str_eq(colors[i].0.as_str(), name) {
            return Some(colors[i].1);
        }
        i = i + 1;
    }
    None
}

fn map_scheme_name<'a>(mappings: &'a Vec<(String, String)>, name: &'a str) -> (r: &'a str)
    ensures
        r@ == mapped_name(mappings@, name@),
{
    let mut i: usize = 0;
    assert(mappings@.skip(0) =~= mappings@);
    while i < mappings.len()
        invariant
            0 <= i <= mappings@.len(),
            mapped_name(mappings@, name@) == mapped_name(mappings@.skip(i as int), name@),
        decreases mappings@.len() - i,
    {
        assert(mappings@.skip(i as int).drop_first() =~= mappings@.skip(i as int + 1));
        if str_eq(mappings[i].0.as_str(), name) {
            return mappings[i].1.as_str();
        }
        i = i + 1;
    }
    name
}

/// Resolve the base color of a DrawingML color element (see `base_color`).
pub fn resolve_base_color(tag: &XmlTag, theme: &ThemeData, color_map: &ColorMapData) -> (c: Option<Color>)
    ensures
        c == base_color(*tag, *theme, *color_map),
{
    let name = tag.name.as_str();
    if str_eq(name, "srgbClr") {
        match get_attr(tag, "val") {
            Some(v) => parse_hex_color(v.as_str()),
            None => None,
        }
    } else if str_eq(name, "schemeClr") {
        match get_attr(tag, "val") {
            Some(v) => lookup_theme_color(&theme.colors, map_scheme_name(&color_map.mappings, v.as_str())),
            None => None,
        }
    } else if str_eq(name, "sysClr") {
        match get_attr(tag, "lastClr") {
            Some(v) => parse_hex_color(v.as_str()),
            None => None,
        }
    } else {
        None
    }
}

/// The font a typeface names: the theme's major font for `+mj-lt`,
/// `+mj-ea` and `+mj-cs`, its minor font for `+mn-lt`, `+mn-ea` and
/// `+mn-cs` (where the theme has that font), else the typeface itself.
pub open spec fn theme_font(typeface: String, theme: ThemeData) -> String {
    let t = typeface@;
    if (t == "+mj-lt"@ || t == "+mj-ea"@ || t == "+mj-cs"@) && theme.major_font is Some {
        theme.major_font->0
    } else if (t == "+mn-lt"@ || t == "+mn-ea"@ || t == "+mn-cs"@) && theme.minor_font is Some {
        theme.minor_font->0
    } else {
        typeface
    }
}

/// Resolve a typeface against the theme (see `theme_font`).
pub fn resolve_theme_font(typeface: String, theme: &ThemeData) -> (font: String)
    ensures
        font == theme_font(typeface, *theme),
{
    let major = str_eq(typeface.as_str(), "+mj-lt") || str_eq(typeface.as_str(), "+mj-ea") || str_eq(
        typeface.as_str(),
        "+mj-cs",
    );
    let minor = str_eq(typeface.as_str(), "+mn-lt") || str_eq(typeface.as_str(), "+mn-ea") || str_eq(
        typeface.as_str(),
        "+mn-cs",
    );
    if major && theme.major_font.is_some() {
        clone_font(&theme.major_font)
    } else if minor && theme.minor_font.is_some() {
        clone_font(&theme.minor_font)
    } else {
        typeface
    }
}

fn clone_font(font: &Option<String>) -> (f: String)
    requires
        font is Some,
    ensures
        f == font->0,
{
    match font {
        Some(f) => f.clone(),
        None => String::new(),
    }
}

/// The attribute string of the first attribute named `key`.
pub open spec fn attr_string(attrs: Seq<crate::xml::XmlAttr>, key: Seq<char>) -> Option<String>
    decreases attrs.len(),
{
    if attrs.len() == 0 {
        None
    } else if attrs[0].name@ == key {
        Some(attrs[0].value)
    } else {
        attr_string(attrs.drop_first(), key)
    }
}

proof fn lemma_attr_string_view(attrs: Seq<crate::xml::XmlAttr>, key: Seq<char>)
    ensures
        match attr_string(attrs, key) {
            Some(s) => attr_value(attrs, key) == Some(s@),
            None => attr_value(attrs, key) is None,
        },
    decreases attrs.len(),
{
    if attrs.len() > 0 && attrs[0].name@ != key {
        lemma_attr_string_view(attrs.drop_first(), key);
    }
}

/// A tag's attribute, as the attribute's own string.
pub fn get_attr_string(tag: &XmlTag, key: &str) -> (value: Option<String>)
    ensures
        value == attr_string(tag.attrs@, key@),
{
    let mut i: usize = 0;
    assert(tag.attrs@.skip(0) =~= tag.attrs@);
    while i < tag.attrs.len()
        invariant
            0 <= i <= tag.attrs@.len(),
            attr_string(tag.attrs@, key@) == attr_string(tag.attrs@.skip(i as int), key@),
        decreases tag.attrs@.len() - i,
    {
        assert(tag.attrs@.skip(i as int).drop_first() =~= tag.attrs@.skip(i as int + 1));
        if str_eq(tag.attrs[i].name.as_str(), key) {
            return Some(tag.attrs[i].value.clone());
        }
        i = i + 1;
    }
    None
}

/// Whether a string is empty or white space only (`str::trim` leaves
/// nothing).
pub open spec fn is_blank(s: Seq<char>) -> bool {
    forall|i: int| 0 <= i < s.len() ==> is_white_space(#[trigger] s[i])
}

fn blank(s: &str) -> (r: bool)
    ensures
        r == is_blank(s@),
{
    let chars = chars_of(s);
    let mut i: usize = 0;
    while i < chars.len()
        invariant
            0 <= i <= chars@.len(),
            chars@ == s@,
            forall|j: int| 0 <= j < i ==> is_white_space(#[trigger] chars@[j]),
        decreases chars@.len() - i,
    {
        if !is_whitespace(chars[i]) {
            return false;
        }
        i = i + 1;
    }
    true
}

/// A text style with a typeface element's (`a:latin`, `a:ea`, `a:cs`)
/// font applied: only where its `typeface` is not blank and the style has
/// no font yet, resolved against the theme.
pub open spec fn typeface_applied<N>(style: TextStyle<N>, tag: XmlTag, theme: ThemeData) -> TextStyle<N> {
    match attr_string(tag.attrs@, "typeface"@) {
        Some(t) => if is_blank(t@) || style.font_family is Some {
            style
        } else {
            TextStyle { font_family: Some(theme_font(t, theme)), ..style }
        },
        None => style,
    }
}

/// Apply a typeface element to a text style (see `typeface_applied`).
pub fn apply_typeface_to_style<N>(tag: &XmlTag, style: &mut TextStyle<N>, theme: &ThemeData)
    ensures
        *final(style) == typeface_applied(*old(style), *tag, *theme),
{
    let typeface = match get_attr_string(tag, "typeface") {
        Some(t) => t,
        None => return,
    };
    if blank(typeface.as_str()) || style.font_family.is_some() {
        return;
    }
    style.font_family = Some(resolve_theme_font(typeface, theme));
}

} // verus!
