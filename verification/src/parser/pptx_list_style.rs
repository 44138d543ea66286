//! The list style reader of presentation text bodies (`<a:lstStyle>` and the
//! master's `<p:txStyles>` buckets): paragraph, run and bullet defaults per
//! level; and the attribute readers it shares with text boxes and table
//! cells.
//!
//! Lengths and sizes stay in the integer units the file writes them in:
//! EMU for indents, insets and margins; thousandths of a percent for
//! proportional line spacing and percent bullet sizes; hundredths of a point
//! for exact line spacing, point bullet sizes and font sizes. Turning them
//! into points is left to the caller.

use vstd::prelude::*;

use crate::ir::elements::{CellVerticalAlign, Insets, TextBoxVerticalAlign};
use crate::ir::style::{Alignment, LineSpacing, ParagraphStyle, ParagraphStyleView, TextDirection, TextStyle};
use crate::parser::pptx_defaults::{
    DefaultsView, PptxMasterTextStyles, LevelTextView, PptxBulletColorSource, PptxBulletDefinition,
    PptxBulletFontSource, PptxBulletSizeSource, PptxTextBodyStyleDefaults, PptxTextLevelStyle,
};
use crate::parser::pptx_text::{
    as_u32, auto_numbering_pattern, get_attr_i64, list_style_level, parse_pptx_auto_numbering,
    parse_pptx_bullet_marker, parse_pptx_list_style_level, tag_i64, ParagraphTarget, PptxBulletKind,
};
use crate::parser::pptx_placeholders::MasterTextBucket;
use crate::parser::pptx_theme::{
    apply_typeface_to_style, attr_string, base_color, get_attr_string, is_color_element, resolve_base_color,
    resolve_theme_font, theme_font, typeface_applied, ColorMapData, ThemeData,
};
use crate::text_util::{opt_chars, str_eq};
use crate::xml::{attr_value, get_attr, open_xml, read_xml_event, xml_event_at, XmlCursor, XmlEvent, XmlTag};

verus! {

broadcast use {vstd::std_specs::btree::group_btree_axioms, vstd::laws_cmp::group_laws_cmp};

/// An OOXML boolean written as `1` or `true`.
pub open spec fn is_true_flag(value: Seq<char>) -> bool {
    value == "1"@ || value == "true"@
}

/// A text style with the run attributes of `tag` (`b`, `i`, `u`, `strike`,
/// `sz`) applied: each one present sets its field.
pub open spec fn rpr_applied(style: TextStyle<i64>, tag: XmlTag) -> TextStyle<i64> {
    TextStyle {
        bold: match attr_value(tag.attrs@, "b"@) {
            Some(v) => Some(is_true_flag(v)),
            None => style.bold,
        },
        italic: match attr_value(tag.attrs@, "i"@) {
            Some(v) => Some(is_true_flag(v)),
            None => style.italic,
        },
        underline: match attr_value(tag.attrs@, "u"@) {
            Some(v) => Some(v != "none"@),
            None => style.underline,
        },
        strikethrough: match attr_value(tag.attrs@, "strike"@) {
            Some(v) => Some(v != "noStrike"@),
            None => style.strikethrough,
        },
        font_size: match tag_i64(tag, "sz"@) {
            Some(sz) => Some(sz),
            None => style.font_size,
        },
        ..style
    }
}

fn is_true_value(value: &str) -> (r: bool)
    ensures
        r == is_true_flag(value@),
{
    str_eq(value, "1") || str_eq(value, "true")
}

/// Read the run attributes of `a:rPr` / `a:defRPr` into a text style: bold,
/// italic, underline (anything but `none`), strikethrough (anything but
/// `noStrike`) and the font size, in hundredths of a point.
pub fn extract_rpr_attributes(tag: &XmlTag, style: &mut TextStyle<i64>)
    ensures
        *final(style) == rpr_applied(*old(style), *tag),
{
    if let Some(val) = get_attr(tag, "b") {
        style.bold = Some(is_true_value(val.as_str()));
    }
    if let Some(val) = get_attr(tag, "i") {
        style.italic = Some(is_true_value(val.as_str()));
    }
    if let Some(val) = get_attr(tag, "u") {
        style.underline = Some(!str_eq(val.as_str(), "none"));
    }
    if let Some(val) = get_attr(tag, "strike") {
        style.strikethrough = Some(!str_eq(val.as_str(), "noStrike"));
    }
    if let Some(sz) = get_attr_i64(tag, "sz") {
        style.font_size = Some(sz);
    }
}

/// The alignment a DrawingML `algn` value names; other values name none.
pub open spec fn drawing_alignment(value: Seq<char>) -> Option<Alignment> {
    if value == "l"@ {
        Some(Alignment::Left)
    } else if value == "ctr"@ {
        Some(Alignment::Center)
    } else if value == "r"@ {
        Some(Alignment::Right)
    } else if value == "just"@ {
        Some(Alignment::Justify)
    } else {
        None
    }
}

/// A paragraph style with the paragraph attributes of `tag` applied:
/// `algn` (an unknown value clears the alignment), `rtl` (only a true
/// value sets it) and the indents `marL`, `marR` and `indent`, in EMU.
pub open spec fn ppr_applied(style: ParagraphStyleView<i64>, tag: XmlTag) -> ParagraphStyleView<i64> {
    ParagraphStyleView {
        alignment: match attr_value(tag.attrs@, "algn"@) {
            Some(v) => drawing_alignment(v),
            None => style.alignment,
        },
        direction: match attr_value(tag.attrs@, "rtl"@) {
            Some(v) => if is_true_flag(v) {
                Some(TextDirection::Rtl)
            } else {
                style.direction
            },
            None => style.direction,
        },
        indent_left: match tag_i64(tag, "marL"@) {
            Some(v) => Some(v),
            None => style.indent_left,
        },
        indent_right: match tag_i64(tag, "marR"@) {
            Some(v) => Some(v),
            None => style.indent_right,
        },
        indent_first_line: match tag_i64(tag, "indent"@) {
            Some(v) => Some(v),
            None => style.indent_first_line,
        },
        ..style
    }
}

fn read_drawing_alignment(value: &str) -> (a: Option<Alignment>)
    ensures
        a == drawing_alignment(value@),
{
    if str_eq(value, "l") {
        Some(Alignment::Left)
    } else if str_eq(value, "ctr") {
        Some(Alignment::Center)
    } else if str_eq(value, "r") {
        Some(Alignment::Right)
    } else if str_eq(value, "just") {
        Some(Alignment::Justify)
    } else {
        None
    }
}

/// Read the paragraph attributes of `a:pPr`, `a:defPPr` or `a:lvlNpPr`
/// into a paragraph style.
pub fn extract_paragraph_props(tag: &XmlTag, style: &mut ParagraphStyle<i64>)
    ensures
        final(style)@ == ppr_applied(old(style)@, *tag),
{
    if let Some(algn) = get_attr(tag, "algn") {
        style.alignment = read_drawing_alignment(algn.as_str());
    }
    if let Some(val) = get_attr(tag, "rtl") {
        if is_true_value(val.as_str()) {
            style.direction = Some(TextDirection::Rtl);
        }
    }
    if let Some(value) = get_attr_i64(tag, "marL") {
        style.indent_left = Some(value);
    }
    if let Some(value) = get_attr_i64(tag, "marR") {
        style.indent_right = Some(value);
    }
    if let Some(value) = get_attr_i64(tag, "indent") {
        style.indent_first_line = Some(value);
    }
}

/// A paragraph style with the line spacing of `a:spcPct` (`percent`) or
/// `a:spcPts` applied, where its `val` parses: proportional in thousandths
/// of a percent, or exact in hundredths of a point.
pub open spec fn line_spacing_applied(style: ParagraphStyleView<i64>, tag: XmlTag, percent: bool) -> ParagraphStyleView<i64> {
    match tag_i64(tag, "val"@) {
        Some(v) => ParagraphStyleView {
            line_spacing: Some(if percent {
                LineSpacing::Proportional(v)
            } else {
                LineSpacing::Exact(v)
            }),
            ..style
        },
        None => style,
    }
}

/// Read `a:spcPct` inside `a:lnSpc`: proportional line spacing.
pub fn extract_pptx_line_spacing_pct(tag: &XmlTag, style: &mut ParagraphStyle<i64>)
    ensures
        final(style)@ == line_spacing_applied(old(style)@, *tag, true),
{
    if let Some(value) = get_attr_i64(tag, "val") {
        style.line_spacing = Some(LineSpacing::Proportional(value));
    }
}

/// Read `a:spcPts` inside `a:lnSpc`: exact line spacing.
pub fn extract_pptx_line_spacing_pts(tag: &XmlTag, style: &mut ParagraphStyle<i64>)
    ensures
        final(style)@ == line_spacing_applied(old(style)@, *tag, false),
{
    if let Some(value) = get_attr_i64(tag, "val") {
        style.line_spacing = Some(LineSpacing::Exact(value));
    }
}

/// A text box vertical anchor (`a:bodyPr anchor`): `ctr` centers, `b`
/// bottom-aligns, anything else tops.
pub open spec fn text_box_anchor(value: Seq<char>) -> TextBoxVerticalAlign {
    if value == "ctr"@ {
        TextBoxVerticalAlign::Center
    } else if value == "b"@ {
        TextBoxVerticalAlign::Bottom
    } else {
        TextBoxVerticalAlign::Top
    }
}

/// An integer attribute laid over a value.
pub open spec fn i64_or(tag: XmlTag, key: Seq<char>, value: i64) -> i64 {
    match tag_i64(tag, key) {
        Some(v) => v,
        None => value,
    }
}

/// Read the text box properties of `a:bodyPr`: the insets `lIns`, `rIns`,
/// `tIns`, `bIns` (in EMU), the vertical anchor, and `wrap="none"`.
pub fn extract_pptx_text_box_body_props(
    tag: &XmlTag,
    padding: &mut Insets<i64>,
    vertical_align: &mut TextBoxVerticalAlign,
    no_wrap: &mut bool,
)
    ensures
        *final(padding) == (Insets {
            left: i64_or(*tag, "lIns"@, old(padding).left),
            right: i64_or(*tag, "rIns"@, old(padding).right),
            top: i64_or(*tag, "tIns"@, old(padding).top),
            bottom: i64_or(*tag, "bIns"@, old(padding).bottom),
        }),
        *final(vertical_align) == match attr_value(tag.attrs@, "anchor"@) {
            Some(a) => text_box_anchor(a),
            None => *old(vertical_align),
        },
        *final(no_wrap) == (*old(no_wrap) || attr_value(tag.attrs@, "wrap"@) == Some("none"@)),
{
    if let Some(value) = get_attr_i64(tag, "lIns") {
        padding.left = value;
    }
    if let Some(value) = get_attr_i64(tag, "rIns") {
        padding.right = value;
    }
    if let Some(value) = get_attr_i64(tag, "tIns") {
        padding.top = value;
    }
    if let Some(value) = get_attr_i64(tag, "bIns") {
        padding.bottom = value;
    }
    if let Some(anchor) = get_attr(tag, "anchor") {
        *vertical_align = if str_eq(anchor.as_str(), "ctr") {
            TextBoxVerticalAlign::Center
        } else if str_eq(anchor.as_str(), "b") {
            TextBoxVerticalAlign::Bottom
        } else {
            TextBoxVerticalAlign::Top
        };
    }
    if let Some(wrap) = get_attr(tag, "wrap") {
        if str_eq(wrap.as_str(), "none") {
            *no_wrap = true;
        }
    }
}

/// A table cell's vertical anchor (`a:tcPr anchor`).
pub open spec fn cell_anchor(value: Seq<char>) -> CellVerticalAlign {
    if value == "ctr"@ {
        CellVerticalAlign::Center
    } else if value == "b"@ {
        CellVerticalAlign::Bottom
    } else {
        CellVerticalAlign::Top
    }
}

/// Whether `a:tcPr` sets any of the cell margins.
pub open spec fn sets_cell_margin(tag: XmlTag) -> bool {
    tag_i64(tag, "marL"@) is Some || tag_i64(tag, "marR"@) is Some || tag_i64(tag, "marT"@) is Some
        || tag_i64(tag, "marB"@) is Some
}

/// Read the cell properties of `a:tcPr`: the vertical anchor and the
/// margins `marL`, `marR`, `marT`, `marB` (in EMU), laid over the padding
/// the cell has (zero where it has none); the padding changes only where
/// a margin is set.
pub fn extract_pptx_table_cell_props(
    tag: &XmlTag,
    vertical_align: &mut Option<CellVerticalAlign>,
    padding: &mut Option<Insets<i64>>,
)
    ensures
        *final(vertical_align) == match attr_value(tag.attrs@, "anchor"@) {
            Some(a) => Some(cell_anchor(a)),
            None => *old(vertical_align),
        },
        *final(padding) == if sets_cell_margin(*tag) {
            let base = match *old(padding) {
                Some(p) => p,
                None => Insets { top: 0i64, right: 0i64, bottom: 0i64, left: 0i64 },
            };
            Some(Insets {
                left: i64_or(*tag, "marL"@, base.left),
                right: i64_or(*tag, "marR"@, base.right),
                top: i64_or(*tag, "marT"@, base.top),
                bottom: i64_or(*tag, "marB"@, base.bottom),
            })
        } else {
            *old(padding)
        },
{
    if let Some(anchor) = get_attr(tag, "anchor") {
        *vertical_align = Some(
            if str_eq(anchor.as_str(), "ctr") {
                CellVerticalAlign::Center
            } else if str_eq(anchor.as_str(), "b") {
                CellVerticalAlign::Bottom
            } else {
                CellVerticalAlign::Top
            },
        );
    }
    let mut cell_padding = match *padding {
        Some(p) => p,
        None => Insets { top: 0, right: 0, bottom: 0, left: 0 },
    };
    let mut has_padding = false;
    if let Some(value) = get_attr_i64(tag, "marL") {
        cell_padding.left = value;
        has_padding = true;
    }
    if let Some(value) = get_attr_i64(tag, "marR") {
        cell_padding.right = value;
        has_padding = true;
    }
    if let Some(value) = get_attr_i64(tag, "marT") {
        cell_padding.top = value;
        has_padding = true;
    }
    if let Some(value) = get_attr_i64(tag, "marB") {
        cell_padding.bottom = value;
        has_padding = true;
    }
    if has_padding {
        *padding = Some(cell_padding);
    }
}

// ── The list style reader ─────────────────────────────────────────────

/// A bullet kind, its strings as characters.
pub ghost enum BulletKindView {
    NoBullet,
    Character(Seq<char>),
    AutoNumber { level: u32, pattern: Option<Seq<char>>, start_at: Option<u32> },
}

/// Where a bullet's font comes from, its name as characters.
pub ghost enum BulletFontView {
    FollowText,
    Explicit(Seq<char>),
}

/// A bullet definition, its strings as characters.
pub ghost struct BulletView {
    pub kind: Option<BulletKindView>,
    pub font: Option<BulletFontView>,
    pub color: Option<PptxBulletColorSource>,
    pub size: Option<PptxBulletSizeSource<i64>>,
}

/// The paragraph, run and bullet style of one list level, its bullet's
/// strings as characters.
pub ghost struct ListLevelView {
    pub paragraph: ParagraphStyleView<i64>,
    pub run: TextStyle<i64>,
    pub bullet: BulletView,
}

/// List style defaults, their bullets' strings as characters.
pub ghost struct ListDefaultsView {
    pub default_paragraph: ParagraphStyleView<i64>,
    pub default_run: TextStyle<i64>,
    pub default_bullet: BulletView,
    pub levels: Map<u32, ListLevelView>,
}

/// A bullet kind with its strings as characters.
pub open spec fn kind_view(kind: PptxBulletKind) -> BulletKindView {
    match kind {
        PptxBulletKind::NoBullet => BulletKindView::NoBullet,
        PptxBulletKind::Character(s) => BulletKindView::Character(s@),
        PptxBulletKind::AutoNumber(n) => BulletKindView::AutoNumber {
            level: n.level,
            pattern: opt_chars(n.numbering_pattern),
            start_at: n.start_at,
        },
    }
}

/// A bullet definition with its strings as characters.
pub open spec fn bullet_view(b: PptxBulletDefinition<i64>) -> BulletView {
    BulletView {
        kind: match b.kind {
            Some(k) => Some(kind_view(k)),
            None => None,
        },
        font: match b.font {
            Some(PptxBulletFontSource::FollowText) => Some(BulletFontView::FollowText),
            Some(PptxBulletFontSource::Explicit(s)) => Some(BulletFontView::Explicit(s@)),
            None => None,
        },
        color: b.color,
        size: b.size,
    }
}

/// A level style with its bullet's strings as characters.
pub open spec fn level_deep(l: LevelTextView<i64>) -> ListLevelView {
    ListLevelView { paragraph: l.paragraph, run: l.run, bullet: bullet_view(l.bullet) }
}

/// Text body defaults with their bullets' strings as characters.
pub open spec fn defaults_deep(d: DefaultsView<i64>) -> ListDefaultsView {
    ListDefaultsView {
        default_paragraph: d.default_paragraph,
        default_run: d.default_run,
        default_bullet: bullet_view(d.default_bullet),
        levels: d.levels.map_values(|l: LevelTextView<i64>| level_deep(l)),
    }
}

/// A bullet definition that sets nothing.
pub open spec fn empty_bullet_view() -> BulletView {
    BulletView { kind: None, font: None, color: None, size: None }
}

/// A level style that sets nothing.
pub open spec fn empty_list_level() -> ListLevelView {
    ListLevelView {
        paragraph: crate::ir::style::empty_paragraph_style(),
        run: crate::ir::style::empty_text_style(),
        bullet: empty_bullet_view(),
    }
}

/// The style a paragraph target currently has: the defaults, or a level's
/// (the empty one where the level has none yet).
pub open spec fn target_level(d: ListDefaultsView, t: ParagraphTarget) -> ListLevelView {
    match t {
        ParagraphTarget::Default => ListLevelView {
            paragraph: d.default_paragraph,
            run: d.default_run,
            bullet: d.default_bullet,
        },
        ParagraphTarget::Level(l) => if d.levels.contains_key(l) {
            d.levels[l]
        } else {
            empty_list_level()
        },
    }
}

/// The defaults with a paragraph target's style replaced; a level is
/// created where it had none.
pub open spec fn with_target_level(d: ListDefaultsView, t: ParagraphTarget, lv: ListLevelView) -> ListDefaultsView {
    match t {
        ParagraphTarget::Default => ListDefaultsView {
            default_paragraph: lv.paragraph,
            default_run: lv.run,
            default_bullet: lv.bullet,
            ..d
        },
        ParagraphTarget::Level(l) => ListDefaultsView { levels: d.levels.insert(l, lv), ..d },
    }
}

/// The numeric level of a target (0 for the defaults).
pub open spec fn target_number(t: ParagraphTarget) -> u32 {
    match t {
        ParagraphTarget::Default => 0,
        ParagraphTarget::Level(l) => l,
    }
}

/// The state of a list style read: the defaults so far, the paragraph
/// container and run defaults being read, and whether the reader is inside
/// `a:lnSpc`, a run's `a:solidFill` or `a:buClr`.
pub ghost struct ListStyleView {
    pub defaults: ListDefaultsView,
    pub paragraph_target: Option<ParagraphTarget>,
    pub run_target: Option<ParagraphTarget>,
    pub in_line_spacing: bool,
    pub in_run_fill: bool,
    pub in_bullet_fill: bool,
}

/// A list style read before its first event: nothing set, outside every
/// container.
pub open spec fn initial_list_style() -> ListStyleView {
    ListStyleView {
        defaults: ListDefaultsView {
            default_paragraph: crate::ir::style::empty_paragraph_style(),
            default_run: crate::ir::style::empty_text_style(),
            default_bullet: empty_bullet_view(),
            levels: Map::empty(),
        },
        paragraph_target: None,
        run_target: None,
        in_line_spacing: false,
        in_run_fill: false,
        in_bullet_fill: false,
    }
}

/// The state with a target's level style replaced.
pub open spec fn set_level(s: ListStyleView, t: ParagraphTarget, lv: ListLevelView) -> ListStyleView {
    ListStyleView { defaults: with_target_level(s.defaults, t, lv), ..s }
}

/// Paragraph attributes read into a target's paragraph style.
pub open spec fn paragraph_props_step(s: ListStyleView, t: ParagraphTarget, tag: XmlTag) -> ListStyleView {
    let lv = target_level(s.defaults, t);
    set_level(s, t, ListLevelView { paragraph: ppr_applied(lv.paragraph, tag), ..lv })
}

/// Run attributes read into a target's run style.
pub open spec fn run_props_step(s: ListStyleView, t: ParagraphTarget, tag: XmlTag) -> ListStyleView {
    let lv = target_level(s.defaults, t);
    set_level(s, t, ListLevelView { run: rpr_applied(lv.run, tag), ..lv })
}

/// `a:spcPct` / `a:spcPts` read into the current paragraph target.
pub open spec fn line_spacing_step(s: ListStyleView, tag: XmlTag, percent: bool) -> ListStyleView {
    match s.paragraph_target {
        Some(t) => {
            let lv = target_level(s.defaults, t);
            set_level(s, t, ListLevelView { paragraph: line_spacing_applied(lv.paragraph, tag, percent), ..lv })
        },
        None => s,
    }
}

/// The marker `a:buChar` gives at a level (see `parse_pptx_bullet_marker`).
pub open spec fn bullet_marker_view(tag: XmlTag, level: u32) -> Option<BulletKindView> {
    match attr_value(tag.attrs@, "char"@) {
        Some(c) => Some(BulletKindView::Character(c)),
        None => if level == 0 {
            Some(BulletKindView::Character("\u{2022}"@))
        } else {
            None
        },
    }
}

/// A bullet definition after a bullet element, where the element is one
/// this reader takes; `None` for any other element.
pub open spec fn bullet_applied(b: BulletView, tag: XmlTag, level: u32, theme: ThemeData) -> Option<BulletView> {
    let name = tag.name@;
    if name == "buAutoNum"@ {
        Some(BulletView {
            kind: Some(BulletKindView::AutoNumber {
                level,
                pattern: match attr_value(tag.attrs@, "type"@) {
                    Some(t) => auto_numbering_pattern(t),
                    None => None,
                },
                start_at: as_u32(tag_i64(tag, "startAt"@)),
            }),
            ..b
        })
    } else if name == "buChar"@ {
        Some(BulletView { kind: bullet_marker_view(tag, level), ..b })
    } else if name == "buNone"@ {
        Some(BulletView { kind: Some(BulletKindView::NoBullet), ..b })
    } else if name == "buFontTx"@ {
        Some(BulletView { font: Some(BulletFontView::FollowText), ..b })
    } else if name == "buFont"@ {
        match attr_string(tag.attrs@, "typeface"@) {
            Some(t) => Some(BulletView { font: Some(BulletFontView::Explicit(theme_font(t, theme)@)), ..b }),
            None => None,
        }
    } else if name == "buClrTx"@ {
        Some(BulletView { color: Some(PptxBulletColorSource::FollowText), ..b })
    } else if name == "buSzTx"@ {
        Some(BulletView { size: Some(PptxBulletSizeSource::FollowText), ..b })
    } else if name == "buSzPct"@ {
        match tag_i64(tag, "val"@) {
            Some(v) => Some(BulletView { size: Some(PptxBulletSizeSource::Percent(v)), ..b }),
            None => None,
        }
    } else if name == "buSzPts"@ {
        match tag_i64(tag, "val"@) {
            Some(v) => Some(BulletView { size: Some(PptxBulletSizeSource::Points(v)), ..b }),
            None => None,
        }
    } else {
        None
    }
}

/// A bullet element read into the current paragraph target's bullet.
pub open spec fn bullet_element_step(s: ListStyleView, tag: XmlTag, theme: ThemeData) -> ListStyleView {
    match s.paragraph_target {
        Some(t) => {
            let lv = target_level(s.defaults, t);
            match bullet_applied(lv.bullet, tag, target_number(t), theme) {
                Some(b) => set_level(s, t, ListLevelView { bullet: b, ..lv }),
                None => s,
            }
        },
        None => s,
    }
}

/// A run color read into the run target's style: the element's base color,
/// or none where it resolves to none.
pub open spec fn run_color_step(s: ListStyleView, tag: XmlTag, theme: ThemeData, color_map: ColorMapData) -> ListStyleView {
    match s.run_target {
        Some(t) => {
            let lv = target_level(s.defaults, t);
            set_level(s, t, ListLevelView { run: TextStyle { color: base_color(tag, theme, color_map), ..lv.run }, ..lv })
        },
        None => s,
    }
}

/// A bullet color read into the paragraph target's bullet.
pub open spec fn bullet_color_step(s: ListStyleView, tag: XmlTag, theme: ThemeData, color_map: ColorMapData) -> ListStyleView {
    match s.paragraph_target {
        Some(t) => {
            let lv = target_level(s.defaults, t);
            let color = match base_color(tag, theme, color_map) {
                Some(c) => Some(PptxBulletColorSource::Explicit(c)),
                None => None,
            };
            set_level(s, t, ListLevelView { bullet: BulletView { color, ..lv.bullet }, ..lv })
        },
        None => s,
    }
}

/// The typeface elements of run defaults.
pub open spec fn is_typeface_element(name: Seq<char>) -> bool {
    name == "latin"@ || name == "ea"@ || name == "cs"@
}

/// A color element (inside a run's fill, else inside a bullet's), a
/// typeface element of the run defaults, or a bullet element.
#[verifier::opaque]
pub open spec fn color_or_bullet_step(s: ListStyleView, tag: XmlTag, theme: ThemeData, color_map: ColorMapData) -> ListStyleView {
    let name = tag.name@;
    if is_color_element(name) && s.in_run_fill {
        run_color_step(s, tag, theme, color_map)
    } else if is_typeface_element(name) && s.run_target is Some {
        let t = s.run_target->0;
        let lv = target_level(s.defaults, t);
        set_level(s, t, ListLevelView { run: typeface_applied(lv.run, tag, theme), ..lv })
    } else if is_color_element(name) && s.in_bullet_fill {
        bullet_color_step(s, tag, theme, color_map)
    } else {
        bullet_element_step(s, tag, theme)
    }
}

/// A start tag.
#[verifier::opaque]
pub open spec fn list_style_start(s: ListStyleView, tag: XmlTag, theme: ThemeData, color_map: ColorMapData) -> ListStyleView {
    let name = tag.name@;
    if name == "defPPr"@ {
        paragraph_props_step(
            ListStyleView { paragraph_target: Some(ParagraphTarget::Default), ..s },
            ParagraphTarget::Default,
            tag,
        )
    } else if list_style_level(name) is Some {
        let t = ParagraphTarget::Level(list_style_level(name)->0);
        paragraph_props_step(ListStyleView { paragraph_target: Some(t), ..s }, t, tag)
    } else if name == "lnSpc"@ && s.paragraph_target is Some {
        ListStyleView { in_line_spacing: true, ..s }
    } else if name == "spcPct"@ && s.in_line_spacing {
        line_spacing_step(s, tag, true)
    } else if name == "spcPts"@ && s.in_line_spacing {
        line_spacing_step(s, tag, false)
    } else if name == "buClr"@ && s.paragraph_target is Some {
        ListStyleView { in_bullet_fill: true, ..s }
    } else if name == "defRPr"@ && s.paragraph_target is Some {
        run_props_step(
            ListStyleView { run_target: s.paragraph_target, ..s },
            s.paragraph_target->0,
            tag,
        )
    } else if name == "solidFill"@ && s.run_target is Some {
        ListStyleView { in_run_fill: true, ..s }
    } else {
        color_or_bullet_step(s, tag, theme, color_map)
    }
}

/// A self-closing tag.
#[verifier::opaque]
pub open spec fn list_style_empty(s: ListStyleView, tag: XmlTag, theme: ThemeData, color_map: ColorMapData) -> ListStyleView {
    let name = tag.name@;
    if name == "defPPr"@ {
        paragraph_props_step(s, ParagraphTarget::Default, tag)
    } else if list_style_level(name) is Some {
        paragraph_props_step(s, ParagraphTarget::Level(list_style_level(name)->0), tag)
    } else if name == "spcPct"@ && s.in_line_spacing {
        line_spacing_step(s, tag, true)
    } else if name == "spcPts"@ && s.in_line_spacing {
        line_spacing_step(s, tag, false)
    } else if name == "defRPr"@ && s.paragraph_target is Some {
        run_props_step(s, s.paragraph_target->0, tag)
    } else {
        color_or_bullet_step(s, tag, theme, color_map)
    }
}

/// The elements whose end closes a list style: `a:lstStyle` and the
/// master's `p:otherStyle`, `p:titleStyle` and `p:bodyStyle`.
pub open spec fn is_list_style_close(name: Seq<char>) -> bool {
    name == "lstStyle"@ || name == "otherStyle"@ || name == "titleStyle"@ || name == "bodyStyle"@
}

/// An end tag (other than one that closes the list style).
pub open spec fn list_style_end(s: ListStyleView, name: Seq<char>) -> ListStyleView {
    if name == "defPPr"@ || list_style_level(name) is Some {
        ListStyleView { paragraph_target: None, in_line_spacing: false, ..s }
    } else if name == "defRPr"@ {
        ListStyleView { run_target: None, in_run_fill: false, ..s }
    } else if name == "solidFill"@ && s.in_run_fill {
        ListStyleView { in_run_fill: false, ..s }
    } else if name == "buClr"@ && s.in_bullet_fill {
        ListStyleView { in_bullet_fill: false, ..s }
    } else if name == "lnSpc"@ && s.in_line_spacing {
        ListStyleView { in_line_spacing: false, ..s }
    } else {
        s
    }
}

/// The events on which a list style read stops: the close of the list
/// style, the end of input, and malformed input.
pub open spec fn list_style_stops(event: XmlEvent) -> bool {
    match event {
        XmlEvent::End(name) => is_list_style_close(name@),
        XmlEvent::Eof | XmlEvent::Error => true,
        _ => false,
    }
}

/// One event of a list style read.
pub open spec fn list_style_step(s: ListStyleView, event: XmlEvent, theme: ThemeData, color_map: ColorMapData) -> ListStyleView {
    if list_style_stops(event) {
        s
    } else {
        match event {
            XmlEvent::Start(tag) => list_style_start(s, tag, theme, color_map),
            XmlEvent::Empty(tag) => list_style_empty(s, tag, theme, color_map),
            XmlEvent::End(name) => list_style_end(s, name@),
            _ => s,
        }
    }
}

/// The list style read after the `n` events of `source` from index `start`.
pub open spec fn list_style_after(source: Seq<char>, start: nat, n: nat, theme: ThemeData, color_map: ColorMapData) -> ListStyleView
    decreases n,
{
    if n == 0 {
        initial_list_style()
    } else {
        list_style_step(
            list_style_after(source, start, (n - 1) as nat, theme, color_map),
            xml_event_at(source, (start + n - 1) as nat),
            theme,
            color_map,
        )
    }
}

/// A list style read from index `start` of `source` stops at its `m`-th
/// event: the first on which it stops.
pub open spec fn list_style_ends_at(source: Seq<char>, start: nat, m: nat) -> bool {
    &&& list_style_stops(xml_event_at(source, start + m))
    &&& forall|k: nat| k < m ==> !list_style_stops(#[trigger] xml_event_at(source, start + k))
}

/// The number of events a list style read from index `start` takes
/// before the one on which it stops.
pub open spec fn list_style_length(source: Seq<char>, start: nat) -> nat {
    choose|m: nat| list_style_ends_at(source, start, m)
}

/// A list style read stops at one event only: the first on which it stops.
pub proof fn lemma_list_style_end_unique(source: Seq<char>, start: nat, m1: nat, m2: nat)
    requires
        list_style_ends_at(source, start, m1),
        list_style_ends_at(source, start, m2),
    ensures
        m1 == m2,
{
    if m1 < m2 {
        assert(!list_style_stops(xml_event_at(source, start + m1)));
    } else if m2 < m1 {
        assert(!list_style_stops(xml_event_at(source, start + m2)));
    }
}

/// The bullet elements the reader dispatches on.
pub open spec fn is_bullet_element(name: Seq<char>) -> bool {
    name == "buAutoNum"@ || name == "buChar"@ || name == "buNone"@ || name == "buFontTx"@
        || name == "buFont"@ || name == "buClrTx"@ || name == "buSzTx"@ || name == "buSzPct"@
        || name == "buSzPts"@
}

/// What the reader holds while it walks the children of a list style.
pub struct ListStyleParseState {
    defaults: PptxTextBodyStyleDefaults<i64>,
    active_paragraph_target: Option<ParagraphTarget>,
    active_run_target: Option<ParagraphTarget>,
    is_in_line_spacing: bool,
    is_in_run_fill: bool,
    is_in_bullet_fill: bool,
}

impl View for ListStyleParseState {
    type V = ListStyleView;

    closed spec fn view(&self) -> ListStyleView {
        ListStyleView {
            defaults: defaults_deep(self.defaults@),
            paragraph_target: self.active_paragraph_target,
            run_target: self.active_run_target,
            in_line_spacing: self.is_in_line_spacing,
            in_run_fill: self.is_in_run_fill,
            in_bullet_fill: self.is_in_bullet_fill,
        }
    }
}

proof fn lemma_empty_level_deep()
    ensures
        level_deep(crate::parser::pptx_defaults::empty_level::<i64>()) == empty_list_level(),
{
}

impl ListStyleParseState {
    pub fn new() -> (s: Self)
        ensures
            s@ == initial_list_style(),
    {
        let s = ListStyleParseState {
            defaults: PptxTextBodyStyleDefaults::empty(),
            active_paragraph_target: None,
            active_run_target: None,
            is_in_line_spacing: false,
            is_in_run_fill: false,
            is_in_bullet_fill: false,
        };
        assert(s@.defaults.levels =~= Map::<u32, ListLevelView>::empty());
        s
    }

    /// A copy of a target's current style.
    fn level_copy(&self, target: ParagraphTarget) -> (lv: PptxTextLevelStyle<i64>)
        ensures
            level_deep(lv@) == target_level(self@.defaults, target),
    {
        match target {
            ParagraphTarget::Default => PptxTextLevelStyle {
                paragraph: self.defaults.default_paragraph.copy(),
                run: self.defaults.default_run.copy(),
                bullet: self.defaults.default_bullet.copy(),
            },
            ParagraphTarget::Level(level) => match self.defaults.levels.get(&level) {
                Some(existing) => existing.copy(),
                None => {
                    proof {
                        lemma_empty_level_deep();
                    }
                    PptxTextLevelStyle::empty()
                },
            },
        }
    }

    /// Replace a target's style.
    fn put_level(&mut self, target: ParagraphTarget, lv: PptxTextLevelStyle<i64>)
        ensures
            final(self)@ == set_level(old(self)@, target, level_deep(lv@)),
    {
        let ghost deep = level_deep(lv@);
        match target {
            ParagraphTarget::Default => {
                self.defaults.default_paragraph = lv.paragraph;
                self.defaults.default_run = lv.run;
                self.defaults.default_bullet = lv.bullet;
            },
            ParagraphTarget::Level(level) => {
                self.defaults.levels.insert(level, lv);
                assert(self@.defaults.levels =~= old(self)@.defaults.levels.insert(level, deep));
            },
        }
    }

    /// Read paragraph attributes into a target's paragraph style.
    fn paragraph_props(&mut self, target: ParagraphTarget, tag: &XmlTag)
        ensures
            final(self)@ == paragraph_props_step(old(self)@, target, *tag),
    {
        let mut lv = self.level_copy(target);
        extract_paragraph_props(tag, &mut lv.paragraph);
        self.put_level(target, lv);
    }

    /// Enter `a:defPPr` or `a:lvlNpPr` and read its attributes.
    fn enter_paragraph_target(&mut self, target: ParagraphTarget, tag: &XmlTag)
        ensures
            final(self)@ == paragraph_props_step(
                ListStyleView { paragraph_target: Some(target), ..old(self)@ },
                target,
                *tag,
            ),
    {
        self.active_paragraph_target = Some(target);
        self.paragraph_props(target, tag);
    }

    /// Read `a:spcPct` / `a:spcPts` inside `a:lnSpc`.
    fn handle_line_spacing_element(&mut self, tag: &XmlTag, is_pct: bool)
        ensures
            final(self)@ == line_spacing_step(old(self)@, *tag, is_pct),
    {
        if let Some(target) = self.active_paragraph_target {
            let mut lv = self.level_copy(target);
            if is_pct {
                extract_pptx_line_spacing_pct(tag, &mut lv.paragraph);
            } else {
                extract_pptx_line_spacing_pts(tag, &mut lv.paragraph);
            }
            self.put_level(target, lv);
        }
    }

    /// Read run attributes into a target's run style.
    fn run_props(&mut self, target: ParagraphTarget, tag: &XmlTag)
        ensures
            final(self)@ == run_props_step(old(self)@, target, *tag),
    {
        let mut lv = self.level_copy(target);
        extract_rpr_attributes(tag, &mut lv.run);
        self.put_level(target, lv);
    }

    /// Read a bullet element into the current paragraph target's bullet;
    /// true where it is a bullet element and there is a target.
    fn dispatch_bullet_element(&mut self, tag: &XmlTag, theme: &ThemeData) -> (handled: bool)
        ensures
            final(self)@ == bullet_element_step(old(self)@, *tag, *theme),
            handled == (old(self)@.paragraph_target is Some && is_bullet_element(tag.name@)),
    {
        let target = match self.active_paragraph_target {
            Some(t) => t,
            None => return false,
        };
        let level = target.level();
        let name = tag.name.as_str();
        let mut lv = self.level_copy(target);
        if str_eq(name, "buAutoNum") {
            lv.bullet.kind = Some(PptxBulletKind::AutoNumber(parse_pptx_auto_numbering(tag, level)));
        } else if str_eq(name, "buChar") {
            lv.bullet.kind = parse_pptx_bullet_marker(tag, level);
        } else if str_eq(name, "buNone") {
            lv.bullet.kind = Some(PptxBulletKind::NoBullet);
        } else if str_eq(name, "buFontTx") {
            lv.bullet.font = Some(PptxBulletFontSource::FollowText);
        } else if str_eq(name, "buFont") {
            match get_attr_string(tag, "typeface") {
                Some(t) => {
                    let font = resolve_theme_font(t, theme);
                    lv.bullet.font = Some(PptxBulletFontSource::Explicit(font));
                },
                None => return true,
            }
        } else if str_eq(name, "buClrTx") {
            lv.bullet.color = Some(PptxBulletColorSource::FollowText);
        } else if str_eq(name, "buSzTx") {
            lv.bullet.size = Some(PptxBulletSizeSource::FollowText);
        } else if str_eq(name, "buSzPct") {
            match get_attr_i64(tag, "val") {
                Some(v) => lv.bullet.size = Some(PptxBulletSizeSource::Percent(v)),
                None => return true,
            }
        } else if str_eq(name, "buSzPts") {
            match get_attr_i64(tag, "val") {
                Some(v) => lv.bullet.size = Some(PptxBulletSizeSource::Points(v)),
                None => return true,
            }
        } else {
            return false;
        }
        self.put_level(target, lv);
        true
    }

    /// A color element, a typeface element or a bullet element (see
    /// `color_or_bullet_step`).
    fn color_or_bullet(&mut self, tag: &XmlTag, theme: &ThemeData, color_map: &ColorMapData)
        ensures
            final(self)@ == color_or_bullet_step(old(self)@, *tag, *theme, *color_map),
    {
        reveal(color_or_bullet_step);
        let name = tag.name.as_str();
        let is_color = str_eq(name, "srgbClr") || str_eq(name, "schemeClr") || str_eq(name, "sysClr");
        if is_color && self.is_in_run_fill {
            if let Some(target) = self.active_run_target {
                let mut lv = self.level_copy(target);
                lv.run.color = resolve_base_color(tag, theme, color_map);
                self.put_level(target, lv);
            }
        } else if (str_eq(name, "latin") || str_eq(name, "ea") || str_eq(name, "cs")) && self.active_run_target.is_some() {
            let target = self.active_run_target.unwrap();
            let mut lv = self.level_copy(target);
            apply_typeface_to_style(tag, &mut lv.run, theme);
            self.put_level(target, lv);
        } else if is_color && self.is_in_bullet_fill {
            if let Some(target) = self.active_paragraph_target {
                let mut lv = self.level_copy(target);
                lv.bullet.color = match resolve_base_color(tag, theme, color_map) {
                    Some(c) => Some(PptxBulletColorSource::Explicit(c)),
                    None => None,
                };
                self.put_level(target, lv);
            }
        } else {
            self.dispatch_bullet_element(tag, theme);
        }
    }

    /// A start tag.
    pub fn handle_start(&mut self, tag: &XmlTag, theme: &ThemeData, color_map: &ColorMapData)
        ensures
            final(self)@ == list_style_start(old(self)@, *tag, *theme, *color_map),
    {
        reveal(list_style_start);
        let name = tag.name.as_str();
        if str_eq(name, "defPPr") {
            self.enter_paragraph_target(ParagraphTarget::Default, tag);
            return;
        }
        if let Some(level) = parse_pptx_list_style_level(name) {
            self.enter_paragraph_target(ParagraphTarget::Level(level), tag);
            return;
        }
        if str_eq(name, "lnSpc") && self.active_paragraph_target.is_some() {
            self.is_in_line_spacing = true;
        } else if str_eq(name, "spcPct") && self.is_in_line_spacing {
            self.handle_line_spacing_element(tag, true);
        } else if str_eq(name, "spcPts") && self.is_in_line_spacing {
            self.handle_line_spacing_element(tag, false);
        } else if str_eq(name, "buClr") && self.active_paragraph_target.is_some() {
            self.is_in_bullet_fill = true;
        } else if str_eq(name, "defRPr") && self.active_paragraph_target.is_some() {
            let target = self.active_paragraph_target.unwrap();
            self.active_run_target = Some(target);
            self.run_props(target, tag);
        } else if str_eq(name, "solidFill") && self.active_run_target.is_some() {
            self.is_in_run_fill = true;
        } else {
            self.color_or_bullet(tag, theme, color_map);
        }
    }

    /// A self-closing tag.
    pub fn handle_empty(&mut self, tag: &XmlTag, theme: &ThemeData, color_map: &ColorMapData)
        ensures
            final(self)@ == list_style_empty(old(self)@, *tag, *theme, *color_map),
    {
        reveal(list_style_empty);
        let name = tag.name.as_str();
        if str_eq(name, "defPPr") {
            self.paragraph_props(ParagraphTarget::Default, tag);
            return;
        }
        if let Some(level) = parse_pptx_list_style_level(name) {
            self.paragraph_props(ParagraphTarget::Level(level), tag);
            return;
        }
        if str_eq(name, "spcPct") && self.is_in_line_spacing {
            self.handle_line_spacing_element(tag, true);
        } else if str_eq(name, "spcPts") && self.is_in_line_spacing {
            self.handle_line_spacing_element(tag, false);
        } else if str_eq(name, "defRPr") && self.active_paragraph_target.is_some() {
            let target = self.active_paragraph_target.unwrap();
            self.run_props(target, tag);
        } else {
            self.color_or_bullet(tag, theme, color_map);
        }
    }

    /// An end tag; true where it closes the list style.
    pub fn handle_end_element(&mut self, name: &str) -> (closes: bool)
        ensures
            closes == is_list_style_close(name@),
            closes ==> final(self)@ == old(self)@,
            !closes ==> final(self)@ == list_style_end(old(self)@, name@),
    {
        if str_eq(name, "lstStyle") || str_eq(name, "otherStyle") || str_eq(name, "titleStyle")
            || str_eq(name, "bodyStyle") {
            return true;
        }
        if str_eq(name, "defPPr") || parse_pptx_list_style_level(name).is_some() {
            self.active_paragraph_target = None;
            self.is_in_line_spacing = false;
        } else if str_eq(name, "defRPr") {
            self.active_run_target = None;
            self.is_in_run_fill = false;
        } else if str_eq(name, "solidFill") && self.is_in_run_fill {
            self.is_in_run_fill = false;
        } else if str_eq(name, "buClr") && self.is_in_bullet_fill {
            self.is_in_bullet_fill = false;
        } else if str_eq(name, "lnSpc") && self.is_in_line_spacing {
            self.is_in_line_spacing = false;
        }
        false
    }
}

/// Read a list style (`a:lstStyle`, or a master's `p:titleStyle`,
/// `p:bodyStyle` or `p:otherStyle`) whose start tag the cursor has just
/// read, up to and including its end tag (or the end of input): the
/// paragraph attributes, line spacing, run attributes and bullets of the
/// defaults (`a:defPPr`) and of each level (`a:lvl1pPr` to `a:lvl9pPr`).
/// Run and bullet colors resolve through the color map into the theme, and
/// typefaces against the theme's fonts.
pub fn parse_pptx_list_style(cursor: &mut XmlCursor, theme: &ThemeData, color_map: &ColorMapData) -> (defaults: PptxTextBodyStyleDefaults<i64>)
    ensures
        final(cursor).source() == old(cursor).source(),
        final(cursor).remaining() <= old(cursor).remaining(),
        exists|m: nat|
            list_style_ends_at(old(cursor).source(), old(cursor).consumed(), m)
                && final(cursor).consumed() == old(cursor).consumed() + m + 1
                && defaults_deep(defaults@) == #[trigger] list_style_after(
                old(cursor).source(),
                old(cursor).consumed(),
                m,
                *theme,
                *color_map,
            ).defaults,
{
    let ghost source = cursor.source();
    let ghost start = cursor.consumed();
    let mut state = ListStyleParseState::new();
    let ghost mut end: nat = 0;
    loop
        invariant_except_break
            cursor.source() == source,
            cursor.remaining() <= old(cursor).remaining(),
            start <= cursor.consumed(),
            state@ == list_style_after(source, start, (cursor.consumed() - start) as nat, *theme, *color_map),
            forall|k: nat| k < cursor.consumed() - start ==> !list_style_stops(#[trigger] xml_event_at(source, start + k)),
        ensures
            cursor.source() == source,
            cursor.remaining() <= old(cursor).remaining(),
            list_style_ends_at(source, start, end),
            cursor.consumed() == start + end + 1,
            state@ == list_style_after(source, start, end, *theme, *color_map),
        decreases cursor.remaining(),
    {
        let ghost n: nat = (cursor.consumed() - start) as nat;
        let event = read_xml_event(cursor);
        assert(event == xml_event_at(source, start + n));
        let stop = match &event {
            XmlEvent::Start(tag) => {
                state.handle_start(tag, theme, color_map);
                false
            },
            XmlEvent::Empty(tag) => {
                state.handle_empty(tag, theme, color_map);
                false
            },
            XmlEvent::End(name) => state.handle_end_element(name.as_str()),
            XmlEvent::Eof | XmlEvent::Error => true,
            XmlEvent::Text(_) | XmlEvent::Other => false,
        };
        if stop {
            proof {
                end = n;
            }
            break;
        }
        assert(list_style_after(source, start, n + 1, *theme, *color_map) == list_style_step(
            list_style_after(source, start, n, *theme, *color_map),
            event,
            *theme,
            *color_map,
        ));
    }
    state.defaults
}

// ── Laws ─────────────────────────────────────────────────────────────

/// A paragraph target that names one of the nine list levels, if any.
pub open spec fn target_in_range(t: Option<ParagraphTarget>) -> bool {
    match t {
        Some(ParagraphTarget::Level(l)) => l < 9,
        _ => true,
    }
}

/// The levels and targets of a list style read are among the nine list
/// levels.
pub open spec fn levels_in_range(s: ListStyleView) -> bool {
    &&& forall|l: u32| #[trigger] s.defaults.levels.contains_key(l) ==> l < 9
    &&& target_in_range(s.paragraph_target)
    &&& target_in_range(s.run_target)
}

proof fn lemma_list_style_level_below_nine(name: Seq<char>)
    ensures
        list_style_level(name) matches Some(l) ==> l < 9,
{
}

proof fn lemma_step_keeps_levels_in_range(s: ListStyleView, event: XmlEvent, theme: ThemeData, color_map: ColorMapData)
    requires
        levels_in_range(s),
    ensures
        levels_in_range(list_style_step(s, event, theme, color_map)),
{
    reveal(list_style_start);
    reveal(list_style_empty);
    reveal(color_or_bullet_step);
    match event {
        XmlEvent::Start(tag) => lemma_list_style_level_below_nine(tag.name@),
        XmlEvent::Empty(tag) => lemma_list_style_level_below_nine(tag.name@),
        _ => {},
    }
}

/// A list style only ever holds styles for the nine list levels
/// (`a:lvl1pPr` to `a:lvl9pPr`, levels 0 to 8), however many events it
/// reads.
pub proof fn lemma_list_style_levels_in_range(source: Seq<char>, start: nat, n: nat, theme: ThemeData, color_map: ColorMapData)
    ensures
        forall|l: u32| #[trigger] list_style_after(source, start, n, theme, color_map).defaults.levels.contains_key(l) ==> l < 9,
{
    lemma_list_style_levels_in_range_state(source, start, n, theme, color_map);
}

proof fn lemma_list_style_levels_in_range_state(source: Seq<char>, start: nat, n: nat, theme: ThemeData, color_map: ColorMapData)
    ensures
        levels_in_range(list_style_after(source, start, n, theme, color_map)),
    decreases n,
{
    if n > 0 {
        lemma_list_style_levels_in_range_state(source, start, (n - 1) as nat, theme, color_map);
        lemma_step_keeps_levels_in_range(
            list_style_after(source, start, (n - 1) as nat, theme, color_map),
            xml_event_at(source, (start + n - 1) as nat),
            theme,
            color_map,
        );
    }
}

// ── A master's text styles ──────────────────────────────────────────

/// The text style bucket a master element holds: `p:titleStyle`,
/// `p:bodyStyle` or `p:otherStyle`.
pub open spec fn master_bucket(name: Seq<char>) -> Option<MasterTextBucket> {
    if name == "titleStyle"@ {
        Some(MasterTextBucket::Title)
    } else if name == "bodyStyle"@ {
        Some(MasterTextBucket::Body)
    } else if name == "otherStyle"@ {
        Some(MasterTextBucket::Other)
    } else {
        None
    }
}

/// A master's text styles, their bullets' strings as characters.
pub ghost struct MasterStylesView {
    pub title: ListDefaultsView,
    pub body: ListDefaultsView,
    pub other: ListDefaultsView,
}

/// A master's text styles as `MasterStylesView`.
pub open spec fn master_styles_view(styles: PptxMasterTextStyles<i64>) -> MasterStylesView {
    MasterStylesView {
        title: defaults_deep(styles.title@),
        body: defaults_deep(styles.body@),
        other: defaults_deep(styles.other@),
    }
}

/// The styles with one bucket replaced.
pub open spec fn with_bucket(styles: MasterStylesView, bucket: MasterTextBucket, d: ListDefaultsView) -> MasterStylesView {
    match bucket {
        MasterTextBucket::Title => MasterStylesView { title: d, ..styles },
        MasterTextBucket::Body => MasterStylesView { body: d, ..styles },
        MasterTextBucket::Other => MasterStylesView { other: d, ..styles },
    }
}

/// A read of a master's text styles, and the index of the next event it
/// reads.
pub ghost struct MasterScanAt {
    pub styles: MasterStylesView,
    pub next: nat,
}

/// One turn of a master read: the next event is read; where it starts a
/// bucket, the bucket's list style is read to its end and kept.
pub open spec fn master_scan_turn(source: Seq<char>, theme: ThemeData, color_map: ColorMapData, s: MasterScanAt) -> MasterScanAt {
    match xml_event_at(source, s.next) {
        XmlEvent::Start(tag) => match master_bucket(tag.name@) {
            Some(bucket) => {
                let start = s.next + 1;
                let m = list_style_length(source, start);
                MasterScanAt {
                    styles: with_bucket(s.styles, bucket, list_style_after(source, start, m, theme, color_map).defaults),
                    next: start + m + 1,
                }
            },
            None => MasterScanAt { next: s.next + 1, ..s },
        },
        _ => MasterScanAt { next: s.next + 1, ..s },
    }
}

/// The master read of `source` after `turns` turns.
pub open spec fn master_scan_run(source: Seq<char>, theme: ThemeData, color_map: ColorMapData, turns: nat) -> MasterScanAt
    decreases turns,
{
    if turns == 0 {
        let empty = initial_list_style().defaults;
        MasterScanAt { styles: MasterStylesView { title: empty, body: empty, other: empty }, next: 0 }
    } else {
        master_scan_turn(source, theme, color_map, master_scan_run(source, theme, color_map, (turns - 1) as nat))
    }
}

/// The master read of `source` ends on its `turns`-th turn: the first
/// whose event is the end of input or an error.
pub open spec fn master_scan_ends(source: Seq<char>, theme: ThemeData, color_map: ColorMapData, turns: nat) -> bool {
    &&& xml_event_at(source, master_scan_run(source, theme, color_map, turns).next).is_terminal()
    &&& forall|k: nat| k < turns ==> !xml_event_at(source, #[trigger] master_scan_run(source, theme, color_map, k).next).is_terminal()
}

proof fn lemma_empty_defaults_deep()
    ensures
        defaults_deep(crate::parser::pptx_defaults::empty_defaults::<i64>()) == initial_list_style().defaults,
{
    assert(defaults_deep(crate::parser::pptx_defaults::empty_defaults::<i64>()).levels =~= Map::<u32, ListLevelView>::empty());
}

/// Read a master's text styles (`p:txStyles`): the list style of each of
/// `p:titleStyle`, `p:bodyStyle` and `p:otherStyle` (a later one of the
/// same bucket replaces an earlier); a bucket the master lacks sets
/// nothing.
pub fn parse_master_text_styles(xml: &str, theme: &ThemeData, color_map: &ColorMapData) -> (styles: PptxMasterTextStyles<i64>)
    ensures
        exists|turns: nat|
            master_scan_ends(xml@, *theme, *color_map, turns) && master_styles_view(styles) == #[trigger] master_scan_run(xml@, *theme, *color_map, turns).styles,
{
    let mut cursor = open_xml(xml);
    let mut styles: PptxMasterTextStyles<i64> = PptxMasterTextStyles::empty();
    proof {
        lemma_empty_defaults_deep();
    }
    let ghost mut turns: nat = 0;
    loop
        invariant_except_break
            cursor.source() == xml@,
            master_styles_view(styles) == master_scan_run(xml@, *theme, *color_map, turns).styles,
            cursor.consumed() == master_scan_run(xml@, *theme, *color_map, turns).next,
            forall|k: nat| k < turns ==> !xml_event_at(xml@, #[trigger] master_scan_run(xml@, *theme, *color_map, k).next).is_terminal(),
        ensures
            master_scan_ends(xml@, *theme, *color_map, turns),
            master_styles_view(styles) == master_scan_run(xml@, *theme, *color_map, turns).styles,
        decreases cursor.remaining(),
    {
        let event = read_xml_event(&mut cursor);
        let bucket: Option<MasterTextBucket> = match &event {
            XmlEvent::Eof | XmlEvent::Error => {
                break;
            },
            XmlEvent::Start(tag) => {
                let name = tag.name.as_str();
                if str_eq(name, "titleStyle") {
                    Some(MasterTextBucket::Title)
                } else if str_eq(name, "bodyStyle") {
                    Some(MasterTextBucket::Body)
                } else if str_eq(name, "otherStyle") {
                    Some(MasterTextBucket::Other)
                } else {
                    None
                }
            },
            _ => None,
        };
        if let Some(b) = bucket {
            let ghost start = cursor.consumed();
            let defaults = parse_pptx_list_style(&mut cursor, theme, color_map);
            proof {
                let m = choose|m: nat|
                    list_style_ends_at(xml@, start, m) && cursor.consumed() == start + m + 1
                        && defaults_deep(defaults@) == #[trigger] list_style_after(xml@, start, m, *theme, *color_map).defaults;
                lemma_list_style_end_unique(xml@, start, m, list_style_length(xml@, start));
            }
            match b {
                MasterTextBucket::Title => {
                    styles.title = defaults;
                },
                MasterTextBucket::Body => {
                    styles.body = defaults;
                },
                MasterTextBucket::Other => {
                    styles.other = defaults;
                },
            }
        }
        proof {
            turns = turns + 1;
        }
    }
    styles
}

} // verus!
