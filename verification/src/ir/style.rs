//! Text and paragraph styles, and colors.

use vstd::prelude::*;

verus! {

/// RGB color.
#[derive(Debug, Clone, Copy, PartialEq, Eq, Structural)]
pub struct Color {
    pub r: u8,
    pub g: u8,
    pub b: u8,
}

impl Color {
    /// Create a color from RGB components.
    pub fn new(r: u8, g: u8, b: u8) -> (c: Self)
        ensures
            c == (Color { r, g, b }),
    {
        Self { r, g, b }
    }

    /// Black (`#000000`).
    pub fn black() -> (c: Self)
        ensures
            c == (Color { r: 0, g: 0, b: 0 }),
    {
        Self { r: 0, g: 0, b: 0 }
    }

    /// White (`#FFFFFF`).
    pub fn white() -> (c: Self)
        ensures
            c == (Color { r: 255, g: 255, b: 255 }),
    {
        Self { r: 255, g: 255, b: 255 }
    }
}

/// Tab stop alignment type.
#[derive(Debug, Clone, Copy, PartialEq, Eq, Default, Structural)]
pub enum TabAlignment {
    #[default]
    Left,
    Center,
    Right,
    Decimal,
}

/// Leader character for a tab stop.
#[derive(Debug, Clone, Copy, PartialEq, Eq, Default, Structural)]
pub enum TabLeader {
    /// No leader (written `None` in OOXML).
    #[default]
    NoLeader,
    Dot,
    Hyphen,
    Underscore,
}

/// Text direction for bidirectional (BiDi) rendering.
#[derive(Debug, Clone, Copy, PartialEq, Eq, Structural)]
pub enum TextDirection {
    /// Left-to-right (default for Latin, CJK scripts).
    Ltr,
    /// Right-to-left (Arabic, Hebrew scripts).
    Rtl,
}

/// Text alignment.
#[derive(Debug, Clone, Copy, PartialEq, Eq, Structural)]
pub enum Alignment {
    Left,
    Center,
    Right,
    Justify,
}

/// Vertical alignment for superscript/subscript text.
#[derive(Debug, Clone, Copy, PartialEq, Eq, Structural)]
pub enum VerticalTextAlign {
    Superscript,
    Subscript,
}

/// A custom tab stop definition.
#[derive(Debug, Clone, Copy, PartialEq)]
pub struct TabStop<N> {
    /// Position in points from the left margin.
    pub position: N,
    /// Alignment of text at this tab stop.
    pub alignment: TabAlignment,
    /// Leader character filling the space before this tab stop.
    pub leader: TabLeader,
}

/// Line spacing specification.
#[derive(Debug, Clone, Copy, PartialEq)]
pub enum LineSpacing<N> {
    /// Multiplier (e.g. 1.0 = single, 1.5, 2.0 = double).
    Proportional(N),
    /// Exact spacing in points.
    Exact(N),
}

/// Font-relative line box metrics.
#[derive(Debug, Clone, Copy, PartialEq)]
pub struct LineBox<N> {
    /// Distance above the baseline, in em units.
    pub ascent_em: N,
    /// Distance below the baseline, in em units.
    pub descent_em: N,
}

/// Character-level formatting.
#[derive(Debug, Clone, Default, PartialEq)]
pub struct TextStyle<N> {
    pub font_family: Option<String>,
    pub font_size: Option<N>,
    pub bold: Option<bool>,
    pub italic: Option<bool>,
    pub underline: Option<bool>,
    pub strikethrough: Option<bool>,
    pub color: Option<Color>,
    /// Text highlight background color.
    pub highlight: Option<Color>,
    /// Superscript or subscript vertical alignment.
    pub vertical_align: Option<VerticalTextAlign>,
    /// All caps: render text in uppercase.
    pub all_caps: Option<bool>,
    /// Small caps: render lowercase letters as smaller uppercase.
    pub small_caps: Option<bool>,
    /// Character spacing (letter spacing / tracking) in points.
    pub letter_spacing: Option<N>,
}

/// A document's named styles.
#[derive(Debug, Clone, Default)]
pub struct StyleSheet<N> {
    pub styles: Vec<NamedStyle<N>>,
}

/// A named style that can be referenced by paragraphs/runs.
#[derive(Debug, Clone)]
pub struct NamedStyle<N> {
    pub id: String,
    pub name: String,
    pub paragraph: Option<ParagraphStyle<N>>,
    pub text: Option<TextStyle<N>>,
}

/// Paragraph-level formatting.
#[derive(Debug, Clone, Default, PartialEq)]
pub struct ParagraphStyle<N> {
    pub alignment: Option<Alignment>,
    pub indent_left: Option<N>,
    pub indent_right: Option<N>,
    pub indent_first_line: Option<N>,
    pub line_spacing: Option<LineSpacing<N>>,
    /// Font-relative top and bottom edges used to size each text line.
    pub line_box: Option<LineBox<N>>,
    pub space_before: Option<N>,
    pub space_after: Option<N>,
    /// Heading level (1 = H1, 2 = H2, ..., 6 = H6).
    pub heading_level: Option<u8>,
    /// Text direction for bidirectional rendering (RTL for Arabic/Hebrew).
    pub direction: Option<TextDirection>,
    /// Custom tab stop positions for this paragraph.
    pub tab_stops: Option<Vec<TabStop<N>>>,
    /// Paragraph-wide shading fill.
    pub background: Option<Color>,
    /// Paragraph borders, drawn around the full paragraph width.
    pub border: Option<super::elements::CellBorder<N>>,
}

/// `top` where it is set, else `base`: the rule by which a style layer
/// overrides the one beneath it.
pub open spec fn overlay<T>(base: Option<T>, top: Option<T>) -> Option<T> {
    if top is Some {
        top
    } else {
        base
    }
}

/// The text style `base` overlaid field by field with `top`.
pub open spec fn text_style_overlay<N>(base: TextStyle<N>, top: TextStyle<N>) -> TextStyle<N> {
    TextStyle {
        font_family: overlay(base.font_family, top.font_family),
        font_size: overlay(base.font_size, top.font_size),
        bold: overlay(base.bold, top.bold),
        italic: overlay(base.italic, top.italic),
        underline: overlay(base.underline, top.underline),
        strikethrough: overlay(base.strikethrough, top.strikethrough),
        color: overlay(base.color, top.color),
        highlight: overlay(base.highlight, top.highlight),
        vertical_align: overlay(base.vertical_align, top.vertical_align),
        all_caps: overlay(base.all_caps, top.all_caps),
        small_caps: overlay(base.small_caps, top.small_caps),
        letter_spacing: overlay(base.letter_spacing, top.letter_spacing),
    }
}

/// The paragraph style `base` overlaid field by field with `top`.
pub open spec fn paragraph_style_overlay<N>(
    base: ParagraphStyleView<N>,
    top: ParagraphStyleView<N>,
) -> ParagraphStyleView<N> {
    ParagraphStyleView {
        alignment: overlay(base.alignment, top.alignment),
        indent_left: overlay(base.indent_left, top.indent_left),
        indent_right: overlay(base.indent_right, top.indent_right),
        indent_first_line: overlay(base.indent_first_line, top.indent_first_line),
        line_spacing: overlay(base.line_spacing, top.line_spacing),
        line_box: overlay(base.line_box, top.line_box),
        space_before: overlay(base.space_before, top.space_before),
        space_after: overlay(base.space_after, top.space_after),
        heading_level: overlay(base.heading_level, top.heading_level),
        direction: overlay(base.direction, top.direction),
        tab_stops: overlay(base.tab_stops, top.tab_stops),
        background: overlay(base.background, top.background),
        border: overlay(base.border, top.border),
    }
}

/// The tab stops of an optional list, as a sequence.
pub open spec fn tab_stops_view<N>(stops: Option<Vec<TabStop<N>>>) -> Option<Seq<TabStop<N>>> {
    match stops {
        Some(v) => Some(v@),
        None => None,
    }
}

/// The values a paragraph style holds, its tab stops as a sequence.
pub ghost struct ParagraphStyleView<N> {
    pub alignment: Option<Alignment>,
    pub indent_left: Option<N>,
    pub indent_right: Option<N>,
    pub indent_first_line: Option<N>,
    pub line_spacing: Option<LineSpacing<N>>,
    pub line_box: Option<LineBox<N>>,
    pub space_before: Option<N>,
    pub space_after: Option<N>,
    pub heading_level: Option<u8>,
    pub direction: Option<TextDirection>,
    pub tab_stops: Option<Seq<TabStop<N>>>,
    pub background: Option<Color>,
    pub border: Option<super::elements::CellBorder<N>>,
}

impl<N> View for ParagraphStyle<N> {
    type V = ParagraphStyleView<N>;

    open spec fn view(&self) -> ParagraphStyleView<N> {
        ParagraphStyleView {
            alignment: self.alignment,
            indent_left: self.indent_left,
            indent_right: self.indent_right,
            indent_first_line: self.indent_first_line,
            line_spacing: self.line_spacing,
            line_box: self.line_box,
            space_before: self.space_before,
            space_after: self.space_after,
            heading_level: self.heading_level,
            direction: self.direction,
            tab_stops: tab_stops_view(self.tab_stops),
            background: self.background,
            border: self.border,
        }
    }
}

/// A text style with no field set.
pub open spec fn empty_text_style<N>() -> TextStyle<N> {
    TextStyle {
        font_family: None,
        font_size: None,
        bold: None,
        italic: None,
        underline: None,
        strikethrough: None,
        color: None,
        highlight: None,
        vertical_align: None,
        all_caps: None,
        small_caps: None,
        letter_spacing: None,
    }
}

/// A paragraph style with no field set.
pub open spec fn empty_paragraph_style<N>() -> ParagraphStyleView<N> {
    ParagraphStyleView {
        alignment: None,
        indent_left: None,
        indent_right: None,
        indent_first_line: None,
        line_spacing: None,
        line_box: None,
        space_before: None,
        space_after: None,
        heading_level: None,
        direction: None,
        tab_stops: None,
        background: None,
        border: None,
    }
}

/// A copy of an optional string.
pub fn clone_opt_string(s: &Option<String>) -> (c: Option<String>)
    ensures
        c == *s,
{
    match s {
        Some(v) => Some(v.clone()),
        None => None,
    }
}

/// A copy of a list of tab stops.
pub fn clone_tab_stops<N: Copy>(stops: &Vec<TabStop<N>>) -> (c: Vec<TabStop<N>>)
    ensures
        c@ == stops@,
{
    let mut out: Vec<TabStop<N>> = Vec::new();
    let mut i: usize = 0;
    while i < stops.len()
        invariant
            0 <= i <= stops@.len(),
            out@ == stops@.subrange(0, i as int),
        decreases stops@.len() - i,
    {
        let stop: TabStop<N> = TabStop {
            position: stops[i].position,
            alignment: stops[i].alignment,
            leader: stops[i].leader,
        };
        out.push(stop);
        i = i + 1;
    }
    assert(stops@.subrange(0, stops@.len() as int) =~= stops@);
    out
}

impl<N: Copy> TextStyle<N> {
    /// A text style with no field set.
    pub fn empty() -> (s: Self)
        ensures
            s == empty_text_style::<N>(),
    {
        TextStyle {
            font_family: None,
            font_size: None,
            bold: None,
            italic: None,
            underline: None,
            strikethrough: None,
            color: None,
            highlight: None,
            vertical_align: None,
            all_caps: None,
            small_caps: None,
            letter_spacing: None,
        }
    }

    /// A copy of this style.
    pub fn copy(&self) -> (s: Self)
        ensures
            s == *self,
    {
        TextStyle {
            font_family: clone_opt_string(&self.font_family),
            font_size: self.font_size,
            bold: self.bold,
            italic: self.italic,
            underline: self.underline,
            strikethrough: self.strikethrough,
            color: self.color,
            highlight: self.highlight,
            vertical_align: self.vertical_align,
            all_caps: self.all_caps,
            small_caps: self.small_caps,
            letter_spacing: self.letter_spacing,
        }
    }

    /// Merge fields from `other` into `self`. For each field, if `other` has
    /// `Some(value)`, it overwrites `self`'s value. Fields that are `None` in
    /// `other` are left unchanged.
    pub fn merge_from(&mut self, other: &TextStyle<N>)
        ensures
            *final(self) == text_style_overlay(*old(self), *other),
    {
        if other.font_family.is_some() {
            self.font_family = clone_opt_string(&other.font_family);
        }
        if other.font_size.is_some() {
            self.font_size = other.font_size;
        }
        if other.bold.is_some() {
            self.bold = other.bold;
        }
        if other.italic.is_some() {
            self.italic = other.italic;
        }
        if other.underline.is_some() {
            self.underline = other.underline;
        }
        if other.strikethrough.is_some() {
            self.strikethrough = other.strikethrough;
        }
        if other.color.is_some() {
            self.color = other.color;
        }
        if other.highlight.is_some() {
            self.highlight = other.highlight;
        }
        if other.vertical_align.is_some() {
            self.vertical_align = other.vertical_align;
        }
        if other.all_caps.is_some() {
            self.all_caps = other.all_caps;
        }
        if other.small_caps.is_some() {
            self.small_caps = other.small_caps;
        }
        if other.letter_spacing.is_some() {
            self.letter_spacing = other.letter_spacing;
        }
    }
}

impl<N: Copy> ParagraphStyle<N> {
    /// A paragraph style with no field set.
    pub fn empty() -> (s: Self)
        ensures
            s@ == empty_paragraph_style::<N>(),
    {
        ParagraphStyle {
            alignment: None,
            indent_left: None,
            indent_right: None,
            indent_first_line: None,
            line_spacing: None,
            line_box: None,
            space_before: None,
            space_after: None,
            heading_level: None,
            direction: None,
            tab_stops: None,
            background: None,
            border: None,
        }
    }

    /// A copy of this style.
    pub fn copy(&self) -> (s: Self)
        ensures
            s@ == self@,
    {
        ParagraphStyle {
            alignment: self.alignment,
            indent_left: self.indent_left,
            indent_right: self.indent_right,
            indent_first_line: self.indent_first_line,
            line_spacing: self.line_spacing,
            line_box: self.line_box,
            space_before: self.space_before,
            space_after: self.space_after,
            heading_level: self.heading_level,
            direction: self.direction,
            tab_stops: match &self.tab_stops {
                Some(stops) => Some(clone_tab_stops(stops)),
                None => None,
            },
            background: self.background,
            border: self.border,
        }
    }

    /// Merge fields from `other` into `self`. For each field, if `other` has
    /// `Some(value)`, it overwrites `self`'s value. Fields that are `None` in
    /// `other` are left unchanged.
    pub fn merge_from(&mut self, other: &ParagraphStyle<N>)
        ensures
            final(self)@ == paragraph_style_overlay(old(self)@, other@),
    {
        if other.alignment.is_some() {
            self.alignment = other.alignment;
        }
        if other.indent_left.is_some() {
            self.indent_left = other.indent_left;
        }
        if other.indent_right.is_some() {
            self.indent_right = other.indent_right;
        }
        if other.indent_first_line.is_some() {
            self.indent_first_line = other.indent_first_line;
        }
        if other.line_spacing.is_some() {
            self.line_spacing = other.line_spacing;
        }
        if other.line_box.is_some() {
            self.line_box = other.line_box;
        }
        if other.space_before.is_some() {
            self.space_before = other.space_before;
        }
        if other.space_after.is_some() {
            self.space_after = other.space_after;
        }
        if other.heading_level.is_some() {
            self.heading_level = other.heading_level;
        }
        if other.direction.is_some() {
            self.direction = other.direction;
        }
        match &other.tab_stops {
            Some(stops) => {
                self.tab_stops = Some(clone_tab_stops(stops));
            },
            None => {},
        }
        if other.background.is_some() {
            self.background = other.background;
        }
        if other.border.is_some() {
            self.border = other.border;
        }
    }
}

/// Overlaying text styles is associative: applying `b` then `c` on top of
/// `a` gives the same style as applying the overlay of `c` on `b` to `a`.
pub proof fn lemma_text_style_overlay_associative<N>(
    a: TextStyle<N>,
    b: TextStyle<N>,
    c: TextStyle<N>,
)
    ensures
        text_style_overlay(text_style_overlay(a, b), c) == text_style_overlay(
            a,
            text_style_overlay(b, c),
        ),
{
}

/// An empty text style changes nothing, on either side of an overlay, and
/// overlaying a style with itself gives it back.
pub proof fn lemma_text_style_overlay_identity<N>(a: TextStyle<N>)
    ensures
        text_style_overlay(a, empty_text_style()) == a,
        text_style_overlay(empty_text_style(), a) == a,
        text_style_overlay(a, a) == a,
{
}

/// Overlaying paragraph styles is associative.
pub proof fn lemma_paragraph_style_overlay_associative<N>(
    a: ParagraphStyleView<N>,
    b: ParagraphStyleView<N>,
    c: ParagraphStyleView<N>,
)
    ensures
        paragraph_style_overlay(paragraph_style_overlay(a, b), c) == paragraph_style_overlay(
            a,
            paragraph_style_overlay(b, c),
        ),
{
}

/// An empty paragraph style changes nothing, on either side of an overlay,
/// and overlaying a style with itself gives it back.
pub proof fn lemma_paragraph_style_overlay_identity<N>(a: ParagraphStyleView<N>)
    ensures
        paragraph_style_overlay(a, empty_paragraph_style()) == a,
        paragraph_style_overlay(empty_paragraph_style(), a) == a,
        paragraph_style_overlay(a, a) == a,
{
}

} // verus!
