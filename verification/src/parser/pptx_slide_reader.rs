//! Reading a slide layer (`p:sld`, `p:sldLayout`, `p:sldMaster`): the
//! shapes and connectors of its shape tree, with their properties and
//! text, turned into fixed elements. Lengths stay in EMU and text sizes in
//! the units the file writes.

use vstd::prelude::*;

use crate::error::{parse_err, ConvertError};
use crate::ir::elements::{ArrowHead, BorderLineStyle, Insets, Paragraph, Run, TextBoxVerticalAlign};
use crate::ir::fixed::{blocks_view, elements_view, SlideElement, SlideElementKindView};
use crate::ir::style::{paragraph_style_overlay, text_style_overlay, Color, ParagraphStyle, ParagraphStyleView, TextStyle};
use crate::parser::docx_lists::GroupedBlock;
use crate::parser::pptx_defaults::{
    bullet_overlay, defaults_overlay, levels_with_color, DefaultsView, PptxBulletColorSource, PptxBulletDefinition,
    PptxBulletFontSource, PptxBulletSizeSource, PptxTextBodyStyleDefaults,
};
use crate::parser::pptx_list_style::{
    defaults_deep, extract_paragraph_props, extract_pptx_line_spacing_pct, extract_pptx_line_spacing_pts,
    extract_pptx_text_box_body_props, extract_rpr_attributes, lemma_list_style_end_unique, line_spacing_applied,
    list_style_after, list_style_ends_at, list_style_length, parse_pptx_list_style, ppr_applied, rpr_applied,
    text_box_anchor, i64_or,
};
use crate::parser::pptx_lists::{
    marker_for_bullet, marker_style_resolved, push_pptx_run, push_pptx_soft_line_break, resolve_pptx_list_marker,
    run_pushed, soft_line_break_text, PptxParagraphEntry,
};
use crate::parser::pptx_placeholders::{layout_view_of, opt_str, spec_lookup, spec_text_defaults, PlaceholderGeometry, PlaceholderGeometryMap};
use crate::parser::pptx_shape_elements::{
    has_text, inherited_frame, finish_slide_shape, finished_as, lemma_shape_elements_keep_rotation, placed, shape_elements, ShapeProps,
    TextBodyLayout,
};
use crate::parser::pptx_shapes::{arrow_head, dash_style, parse_arrow_head, pptx_dash_to_border_style};
use crate::parser::pptx_text::{
    as_u32, auto_numbering_pattern, extract_paragraph_level, get_attr_i64, parse_pptx_auto_numbering,
    parse_pptx_bullet_marker, tag_i64, PptxBulletKind,
};
use crate::parser::pptx_theme::{
    apply_typeface_to_style, attr_string, base_color, get_attr_string, resolve_base_color, resolve_theme_font,
    theme_font, typeface_applied, ColorMapData, ThemeData,
};
use crate::text_util::{chars_of, concat2, opt_chars, parse_i64, parsed_i64, str_eq, string_of};
use crate::xml::{attr_value, get_attr, open_xml, read_xml_event, xml_event_at, XmlCursor, XmlEvent, XmlTag};

verus! {

/// What a slide layer is read against: the theme and color map that colors
/// and fonts resolve through, the text defaults of shapes that are not
/// placeholders, the layout and master placeholders that placeholders
/// inherit frames and text defaults from, whether placeholders are left
/// out (as on layout and master layers), and the theme's line style widths.
pub struct SlideContext {
    pub theme: ThemeData,
    pub color_map: ColorMapData,
    pub inherited_defaults: PptxTextBodyStyleDefaults<i64>,
    pub placeholders: Option<PlaceholderGeometryMap<i64>>,
    pub skip_placeholders: bool,
    pub theme_line_widths: Vec<i64>,
}

/// The shape being read: its properties, placeholder, whether it has its own frame, which of `spPr`, `xfrm` and `ln` is open, and its style references.
pub struct ShapeScan {
    pub geom: ShapeGeom,
    pub paint: ShapePaint,
    pub placeholder: Option<(Option<String>, Option<String>)>,
    pub has_explicit_xfrm: bool,
    pub in_sp_pr: bool,
    pub in_xfrm: bool,
    pub in_ln: bool,
    pub style_font_color: Option<Color>,
    pub in_style_ln_ref: bool,
    pub in_style_fill_ref: bool,
    pub in_style_font_ref: bool,
}

/// The text body being read: its paragraphs so far, layout and text defaults.
pub struct BodyScan {
    pub in_txbody: bool,
    pub paragraphs: Vec<PptxParagraphEntry<i64>>,
    pub body: TextBodyLayout<i64>,
    pub defaults: PptxTextBodyStyleDefaults<i64>,
}

/// The paragraph being read: its style, level, default and end run styles, bullet, open spacing elements and runs so far.
pub struct ParaScan {
    pub in_para: bool,
    pub para_style: ParagraphStyle<i64>,
    pub para_level: u32,
    pub default_run: TextStyle<i64>,
    pub end_run: TextStyle<i64>,
    pub bullet: PptxBulletDefinition<i64>,
    pub in_ln_spc: bool,
    pub in_spc_bef: bool,
    pub in_spc_aft: bool,
    pub runs: Vec<Run<i64>>,
}

/// The run being read: its style and text, and which of `t`, `rPr`, `endParaRPr` and a text outline is open.
pub struct RunScan {
    pub in_run: bool,
    pub run_style: TextStyle<i64>,
    pub run_text: String,
    pub in_text: bool,
    pub in_rpr: bool,
    pub rpr_typeface: bool,
    pub in_end_para_rpr: bool,
    pub in_text_line: bool,
}

/// The frame, rotation (60000ths of a degree), flips, preset geometry
/// with adjust values and arrowheads read of a shape.
pub struct ShapeGeom {
    pub x: i64,
    pub y: i64,
    pub cx: i64,
    pub cy: i64,
    pub rotation_deg: Option<i64>,
    pub flip_h: bool,
    pub flip_v: bool,
    pub prst_geom: Option<String>,
    pub adj_values: Vec<i64>,
    pub head_end: ArrowHead,
    pub tail_end: ArrowHead,
}

/// The fill and outline read of a shape, with its style's fallbacks.
pub struct ShapePaint {
    pub fill: Option<Color>,
    pub explicit_no_fill: bool,
    pub style_fill_color: Option<Color>,
    pub ln_width_emu: i64,
    pub ln_color: Option<Color>,
    pub ln_dash_style: BorderLineStyle,
    pub style_ln_color: Option<Color>,
    pub style_ln_idx: Option<usize>,
}

/// Nothing read into a shape yet.
pub open spec fn is_fresh_parts(sh: ShapeScan) -> bool {
    &&& sh.geom.x == 0 && sh.geom.y == 0 && sh.geom.cx == 0 && sh.geom.cy == 0
    &&& sh.geom.rotation_deg is None && !sh.geom.flip_h && !sh.geom.flip_v
    &&& sh.geom.prst_geom is None && sh.geom.adj_values@ == Seq::<i64>::empty()
    &&& sh.geom.head_end == ArrowHead::NoHead && sh.geom.tail_end == ArrowHead::NoHead
    &&& sh.paint.fill is None && !sh.paint.explicit_no_fill && sh.paint.style_fill_color is None
    &&& sh.paint.ln_width_emu == 0 && sh.paint.ln_color is None && sh.paint.ln_dash_style == BorderLineStyle::Solid
    &&& sh.paint.style_ln_color is None && sh.paint.style_ln_idx is None
}

/// The shape read, as `finalize_shape` takes it: no opacity, shadow or
/// gradient are read.
pub open spec fn props_of(sh: ShapeScan) -> ShapeProps<i64> {
    ShapeProps {
        x: sh.geom.x,
        y: sh.geom.y,
        cx: sh.geom.cx,
        cy: sh.geom.cy,
        rotation_deg: sh.geom.rotation_deg,
        flip_h: sh.geom.flip_h,
        flip_v: sh.geom.flip_v,
        opacity: None,
        shadow: None,
        prst_geom: sh.geom.prst_geom,
        adj_values: sh.geom.adj_values,
        head_end: sh.geom.head_end,
        tail_end: sh.geom.tail_end,
        fill: sh.paint.fill,
        gradient_fill: None,
        explicit_no_fill: sh.paint.explicit_no_fill,
        style_fill_color: sh.paint.style_fill_color,
        ln_width_emu: sh.paint.ln_width_emu,
        ln_color: sh.paint.ln_color,
        ln_dash_style: sh.paint.ln_dash_style,
        style_ln_color: sh.paint.style_ln_color,
        style_ln_idx: sh.paint.style_ln_idx,
    }
}

/// Which color a `solidFill` being read sets.
#[derive(Debug, Clone, Copy, PartialEq, Eq, Structural)]
pub enum FillTarget {
    NoTarget,
    ShapeFill,
    LineFill,
    RunFill,
    EndParaFill,
    BulletFill,
}

/// The state of a slide read, in values: the elements so far; how deep the
/// reader is inside an element it passes over; the shape being read (its
/// properties, placeholder, frame flags and style references); its text
/// body (paragraphs, layout, text defaults); the paragraph, run and text
/// being read; and which color a `solidFill` sets.
pub ghost struct SlideView {
    pub elements: Vec<SlideElement<i64>>,
    pub skip: usize,
    pub in_shape: bool,
    pub depth: usize,
    pub fill: FillTarget,
    pub sh: ShapeScan,
    pub tb: BodyScan,
    pub pa: ParaScan,
    pub ru: RunScan,
}

/// Two states agree field by field.
pub open spec fn agree(a: SlideView, b: SlideView) -> bool {
    &&& a.elements == b.elements
    &&& a.skip == b.skip
    &&& a.in_shape == b.in_shape
    &&& a.depth == b.depth
    &&& a.fill == b.fill
    &&& a.sh == b.sh
    &&& a.tb == b.tb
    &&& a.pa == b.pa
    &&& a.ru == b.ru
}


/// A text body's layout before `a:bodyPr` is read: the default insets
/// (0.1 inch left and right, 0.05 inch top and bottom), text at the top,
/// wrapping, no autofit, no text rotation.
pub open spec fn default_body() -> TextBodyLayout<i64> {
    TextBodyLayout {
        padding: Insets { top: 45720, right: 91440, bottom: 45720, left: 91440 },
        vertical_align: TextBoxVerticalAlign::Top,
        no_wrap: false,
        auto_fit: false,
        text_rotation_deg: None,
    }
}

/// The state before anything is read (`shape` is any fresh shape).
pub open spec fn slide_initial(s: SlideView) -> bool {
    &&& s.elements@ == Seq::<SlideElement<i64>>::empty() && s.skip == 0 && !s.in_shape && s.depth == 0
    &&& is_fresh_parts(s.sh) && s.sh.placeholder is None && !s.sh.has_explicit_xfrm
    &&& !s.sh.in_sp_pr && !s.sh.in_xfrm && !s.sh.in_ln && s.sh.style_font_color is None
    &&& !s.sh.in_style_ln_ref && !s.sh.in_style_fill_ref && !s.sh.in_style_font_ref && s.fill == FillTarget::NoTarget
    &&& !s.tb.in_txbody && s.tb.paragraphs@ == Seq::<PptxParagraphEntry<i64>>::empty() && s.tb.body == default_body()
    &&& !s.pa.in_para && s.pa.runs@ == Seq::<Run<i64>>::empty() && !s.ru.in_run && s.ru.run_text@ == Seq::<char>::empty()
    &&& !s.ru.in_text && !s.ru.in_rpr && !s.ru.in_end_para_rpr && !s.ru.in_text_line && !s.pa.in_ln_spc && !s.pa.in_spc_bef && !s.pa.in_spc_aft
}

/// One level deeper, saturating.
pub open spec fn deeper(d: usize) -> usize {
    if d < usize::MAX {
        (d + 1) as usize
    } else {
        d
    }
}

/// One level shallower, saturating.
pub open spec fn shallower(d: usize) -> usize {
    if d > 0 {
        (d - 1) as usize
    } else {
        0
    }
}

/// `1` or `true`.
pub open spec fn flag_set(v: Option<Seq<char>>) -> bool {
    v == Some("1"@) || v == Some("true"@)
}

/// The text defaults a text body starts from: for a placeholder, those its
/// layout and master give (none where there is no inheritance table); for
/// any other shape, the inherited ones; in either case with the style's
/// font color, where it names one, laid over every level.
pub open spec fn body_defaults(s: SlideView, ctx: SlideContext) -> DefaultsView<i64> {
    let base = match s.sh.placeholder {
        Some((t, i)) => match ctx.placeholders {
            Some(map) => spec_text_defaults(
                layout_view_of(&map.layout),
                layout_view_of(&map.master),
                map.master_text_styles,
                opt_chars(t),
                opt_chars(i),
            ),
            None => crate::parser::pptx_defaults::empty_defaults::<i64>(),
        },
        None => ctx.inherited_defaults@,
    };
    match s.sh.style_font_color {
        Some(c) => DefaultsView {
            default_run: TextStyle { color: Some(c), ..base.default_run },
            levels: levels_with_color(base.levels, c),
            ..base
        },
        None => base,
    }
}

/// The paragraph style the text defaults give a level.
pub open spec fn level_paragraph(d: DefaultsView<i64>, level: u32) -> ParagraphStyleView<i64> {
    if d.levels.contains_key(level) {
        paragraph_style_overlay(d.default_paragraph, d.levels[level].paragraph)
    } else {
        d.default_paragraph
    }
}

/// The run style the text defaults give a level.
pub open spec fn level_run(d: DefaultsView<i64>, level: u32) -> TextStyle<i64> {
    if d.levels.contains_key(level) {
        text_style_overlay(d.default_run, d.levels[level].run)
    } else {
        d.default_run
    }
}

/// The bullet the text defaults give a level.
pub open spec fn level_bullet(d: DefaultsView<i64>, level: u32) -> PptxBulletDefinition<i64> {
    if d.levels.contains_key(level) {
        bullet_overlay(d.default_bullet, d.levels[level].bullet)
    } else {
        d.default_bullet
    }
}

/// A paragraph started at a level: its style, default and end run styles
/// and bullet from the text defaults; everything else as in `s`, but for
/// what `rest` sets.
pub open spec fn at_level_ok(s: SlideView, level: u32, a: SlideView) -> bool {
    &&& a.pa.para_style@ == level_paragraph(s.tb.defaults@, level)
    &&& a.pa.para_level == level
    &&& a.pa.default_run == level_run(s.tb.defaults@, level)
    &&& a.pa.end_run == level_run(s.tb.defaults@, level)
    &&& a.pa.bullet == level_bullet(s.tb.defaults@, level)
}

/// `a` is `s` but for the paragraph level, style, run styles and bullet.
pub open spec fn same_but_level(s: SlideView, a: SlideView) -> bool {
    agree(a, SlideView { pa: ParaScan { para_level: a.pa.para_level, para_style: a.pa.para_style, default_run: a.pa.default_run, end_run: a.pa.end_run, bullet: a.pa.bullet, ..s.pa }, ..s })
}

/// A color laid on what the open `solidFill` colors.
pub open spec fn color_applied(s: SlideView, c: Option<Color>) -> SlideView {
    match s.fill {
        FillTarget::ShapeFill => SlideView { sh: ShapeScan { paint: ShapePaint { fill: c, ..s.sh.paint }, ..s.sh }, ..s },
        FillTarget::LineFill => SlideView { sh: ShapeScan { paint: ShapePaint { ln_color: c, ..s.sh.paint }, ..s.sh }, ..s },
        FillTarget::RunFill => SlideView { ru: RunScan { run_style: TextStyle { color: c, ..s.ru.run_style }, ..s.ru }, ..s },
        FillTarget::EndParaFill => SlideView { pa: ParaScan { end_run: TextStyle { color: c, ..s.pa.end_run }, ..s.pa }, ..s },
        FillTarget::BulletFill => SlideView { pa: ParaScan { bullet: PptxBulletDefinition {
                color: match c {
                    Some(x) => Some(PptxBulletColorSource::Explicit(x)),
                    None => None,
                },
                ..s.pa.bullet
            }, ..s.pa }, ..s },
        FillTarget::NoTarget => s,
    }
}

/// A color element (`srgbClr`, `schemeClr`, `sysClr`).
pub open spec fn is_color_name(n: Seq<char>) -> bool {
    n == "srgbClr"@ || n == "schemeClr"@ || n == "sysClr"@
}

/// The index of `a:lnRef`, where it is a positive number.
pub open spec fn ln_ref_index(tag: XmlTag) -> Option<usize> {
    match tag_i64(tag, "idx"@) {
        Some(v) => if 0 < v && v <= usize::MAX {
            Some(v as usize)
        } else {
            None
        },
        None => None,
    }
}

/// Paragraph properties, spacing and bullets, read alike from start and
/// self-closing tags; `None` where the tag is none of these or does not
/// apply.
pub open spec fn paragraph_step(s: SlideView, tag: XmlTag, ctx: SlideContext, a: SlideView) -> Option<bool> {
    let n = tag.name@;
    let in_props = s.pa.in_para && !s.ru.in_run;
    if n == "pPr"@ && in_props {
        let level = match as_u32(tag_i64(tag, "lvl"@)) {
            Some(l) => l,
            None => 0,
        };
        Some(same_but_level(s, a) && a.pa.para_level == level && a.pa.default_run == level_run(s.tb.defaults@, level)
            && a.pa.end_run == level_run(s.tb.defaults@, level) && a.pa.bullet == level_bullet(s.tb.defaults@, level)
            && a.pa.para_style@ == ppr_applied(level_paragraph(s.tb.defaults@, level), tag))
    } else if n == "lnSpc"@ && in_props {
        Some(agree(a, SlideView { pa: ParaScan { in_ln_spc: true, ..s.pa }, ..s }))
    } else if n == "spcBef"@ && in_props {
        Some(agree(a, SlideView { pa: ParaScan { in_spc_bef: true, ..s.pa }, ..s }))
    } else if n == "spcAft"@ && in_props {
        Some(agree(a, SlideView { pa: ParaScan { in_spc_aft: true, ..s.pa }, ..s }))
    } else if n == "spcPct"@ && s.pa.in_ln_spc {
        Some(agree(a, SlideView { pa: ParaScan { para_style: a.pa.para_style, ..s.pa }, ..s }) && a.pa.para_style@ == line_spacing_applied(s.pa.para_style@, tag, true))
    } else if n == "spcPts"@ && s.pa.in_ln_spc {
        Some(agree(a, SlideView { pa: ParaScan { para_style: a.pa.para_style, ..s.pa }, ..s }) && a.pa.para_style@ == line_spacing_applied(s.pa.para_style@, tag, false))
    } else if n == "buAutoNum"@ && in_props {
        Some(agree(a, SlideView { pa: ParaScan { bullet: PptxBulletDefinition { kind: a.pa.bullet.kind, ..s.pa.bullet }, ..s.pa }, ..s }) && match a.pa.bullet.kind {
            Some(PptxBulletKind::AutoNumber(auto)) => auto.level == s.pa.para_level && opt_chars(auto.numbering_pattern) == match attr_value(tag.attrs@, "type"@) {
                Some(t) => auto_numbering_pattern(t),
                None => None,
            } && auto.start_at == as_u32(tag_i64(tag, "startAt"@)),
            _ => false,
        })
    } else if n == "buChar"@ && in_props {
        Some(agree(a, SlideView { pa: ParaScan { bullet: PptxBulletDefinition { kind: a.pa.bullet.kind, ..s.pa.bullet }, ..s.pa }, ..s }) && match attr_value(tag.attrs@, "char"@) {
            Some(c) => a.pa.bullet.kind matches Some(PptxBulletKind::Character(x)) && x@ == c,
            None => if s.pa.para_level == 0 {
                a.pa.bullet.kind matches Some(PptxBulletKind::Character(x)) && x@ == "\u{2022}"@
            } else {
                a.pa.bullet.kind is None
            },
        })
    } else if n == "buNone"@ && in_props {
        Some(agree(a, SlideView { pa: ParaScan { bullet: PptxBulletDefinition { kind: Some(PptxBulletKind::NoBullet), ..s.pa.bullet }, ..s.pa }, ..s }))
    } else if n == "buFontTx"@ && in_props {
        Some(agree(a, SlideView { pa: ParaScan { bullet: PptxBulletDefinition { font: Some(PptxBulletFontSource::FollowText), ..s.pa.bullet }, ..s.pa }, ..s }))
    } else if n == "buFont"@ && in_props {
        Some(match attr_string(tag.attrs@, "typeface"@) {
            Some(t) => agree(a, SlideView { pa: ParaScan { bullet: PptxBulletDefinition { font: Some(PptxBulletFontSource::Explicit(theme_font(t, ctx.theme))), ..s.pa.bullet }, ..s.pa }, ..s }),
            None => agree(a, s),
        })
    } else if n == "buClrTx"@ && in_props {
        Some(agree(a, SlideView { pa: ParaScan { bullet: PptxBulletDefinition { color: Some(PptxBulletColorSource::FollowText), ..s.pa.bullet }, ..s.pa }, ..s }))
    } else if n == "buClr"@ && in_props {
        Some(agree(a, SlideView { fill: FillTarget::BulletFill, ..s }))
    } else if n == "buSzTx"@ && in_props {
        Some(agree(a, SlideView { pa: ParaScan { bullet: PptxBulletDefinition { size: Some(PptxBulletSizeSource::FollowText), ..s.pa.bullet }, ..s.pa }, ..s }))
    } else if n == "buSzPct"@ && in_props {
        Some(match tag_i64(tag, "val"@) {
            Some(v) => agree(a, SlideView { pa: ParaScan { bullet: PptxBulletDefinition { size: Some(PptxBulletSizeSource::Percent(v)), ..s.pa.bullet }, ..s.pa }, ..s }),
            None => agree(a, s),
        })
    } else if n == "buSzPts"@ && in_props {
        Some(match tag_i64(tag, "val"@) {
            Some(v) => agree(a, SlideView { pa: ParaScan { bullet: PptxBulletDefinition { size: Some(PptxBulletSizeSource::Points(v)), ..s.pa.bullet }, ..s.pa }, ..s }),
            None => agree(a, s),
        })
    } else if n == "br"@ && in_props {
        Some(agree(a, SlideView { pa: ParaScan { runs: a.pa.runs, ..s.pa }, ..s }) && exists|run: Run<i64>, joined: bool|
            run.text@ == soft_line_break_text() && run.style == s.pa.default_run && run.href is None && run.footnote is None
                && #[trigger] run_pushed(s.pa.runs@, a.pa.runs@, run, joined))
    } else {
        None
    }
}

/// A shape opened: everything read of the previous one is dropped.
pub open spec fn shape_opened(s: SlideView, a: SlideView) -> bool {
    &&& is_fresh_parts(a.sh)
    &&& agree(a, SlideView { in_shape: true, depth: 1, sh: ShapeScan { geom: a.sh.geom, paint: a.sh.paint, placeholder: None, has_explicit_xfrm: false, in_sp_pr: false, in_xfrm: false, in_ln: false, style_font_color: None, ..s.sh }, tb: BodyScan { in_txbody: false, paragraphs: a.tb.paragraphs, body: default_body(), ..s.tb }, ..s })
    &&& a.tb.paragraphs@ == Seq::<PptxParagraphEntry<i64>>::empty()
}

/// The start tag of an element other than a shape's list style.
/// Which branch of a start tag's reading applies: the shape tags first,
/// then text bodies, paragraphs, runs, colors, style references and `t`;
/// anything else is read by `paragraph_step` and `shared_step`.
pub open spec fn start_arm(n: Seq<char>) -> nat {
    if n == "grpSp"@ {
        0
    } else if n == "sp"@ || n == "cxnSp"@ {
        1
    } else if n == "spPr"@ {
        2
    } else if n == "xfrm"@ {
        3
    } else if n == "noFill"@ {
        4
    } else if n == "solidFill"@ {
        5
    } else if n == "gradFill"@ {
        6
    } else if n == "effectLst"@ {
        7
    } else if n == "extLst"@ {
        8
    } else if n == "ln"@ {
        9
    } else if n == "txBody"@ {
        10
    } else if n == "p"@ {
        11
    } else if n == "r"@ {
        12
    } else if n == "rPr"@ {
        13
    } else if n == "endParaRPr"@ {
        14
    } else if is_color_name(n) {
        15
    } else if n == "lnRef"@ || n == "fillRef"@ || n == "fontRef"@ {
        16
    } else if n == "t"@ {
        17
    } else {
        18
    }
}

pub open spec fn slide_start_ok(s: SlideView, tag: XmlTag, ctx: SlideContext, a: SlideView) -> bool {
    let n = tag.name@;
    if s.skip > 0 {
        agree(a, SlideView { skip: deeper(s.skip), ..s })
    } else {
        let k = start_arm(n);
        if k == 0 {
            if !s.in_shape {
                agree(a, SlideView { skip: 1, ..s })
            } else {
                agree(a, s)
            }
        } else if k == 1 {
            if !s.in_shape {
                shape_opened(s, a)
            } else {
                agree(a, SlideView { depth: deeper(s.depth), ..s })
            }
        } else if k == 2 {
            if s.in_shape && !s.tb.in_txbody {
                agree(a, SlideView { sh: ShapeScan { in_sp_pr: true, ..s.sh }, ..s })
            } else {
                agree(a, s)
            }
        } else if k == 3 {
            if s.in_shape && s.sh.in_sp_pr {
                agree(a, SlideView { sh: ShapeScan { in_xfrm: true, has_explicit_xfrm: true, geom: ShapeGeom { rotation_deg: match tag_i64(tag, "rot"@) {
                            Some(r) => Some(r),
                            None => s.sh.geom.rotation_deg,
                        }, flip_h: flag_set(attr_value(tag.attrs@, "flipH"@)), flip_v: flag_set(attr_value(tag.attrs@, "flipV"@)), ..s.sh.geom }, ..s.sh }, ..s })
            } else {
                agree(a, s)
            }
        } else if k == 4 {
            if s.sh.in_sp_pr && !s.sh.in_ln && !s.ru.in_rpr {
                agree(a, SlideView { sh: ShapeScan { paint: ShapePaint { explicit_no_fill: true, ..s.sh.paint }, ..s.sh }, ..s })
            } else {
                agree(a, s)
            }
        } else if k == 5 {
            if s.sh.in_sp_pr && !s.sh.in_ln && !s.ru.in_rpr {
                agree(a, SlideView { fill: FillTarget::ShapeFill, ..s })
            } else if s.sh.in_ln {
                agree(a, SlideView { fill: FillTarget::LineFill, ..s })
            } else if s.ru.in_rpr && !s.ru.in_text_line {
                agree(a, SlideView { fill: FillTarget::RunFill, ..s })
            } else if s.ru.in_end_para_rpr && !s.ru.in_text_line {
                agree(a, SlideView { fill: FillTarget::EndParaFill, ..s })
            } else {
                agree(a, s)
            }
        } else if k == 6 {
            if s.sh.in_sp_pr && !s.sh.in_ln && !s.ru.in_rpr {
                agree(a, SlideView { skip: 1, ..s })
            } else {
                agree(a, s)
            }
        } else if k == 7 {
            if s.sh.in_sp_pr && !s.sh.in_ln {
                agree(a, SlideView { skip: 1, ..s })
            } else {
                agree(a, s)
            }
        } else if k == 8 {
            if s.sh.in_sp_pr && !s.tb.in_txbody {
                agree(a, SlideView { skip: 1, ..s })
            } else {
                agree(a, s)
            }
        } else if k == 9 {
            if s.sh.in_sp_pr {
                agree(a, SlideView { sh: ShapeScan { in_ln: true, paint: ShapePaint { ln_width_emu: i64_or(tag, "w"@, 12700), ln_dash_style: BorderLineStyle::Solid, ..s.sh.paint }, ..s.sh }, ..s })
            } else if s.ru.in_rpr || s.ru.in_end_para_rpr {
                agree(a, SlideView { ru: RunScan { in_text_line: true, ..s.ru }, ..s })
            } else {
                agree(a, s)
            }
        } else if k == 10 {
            if s.in_shape {
                agree(a, SlideView { tb: BodyScan { in_txbody: true, defaults: a.tb.defaults, ..s.tb }, ..s }) && a.tb.defaults@ == body_defaults(s, ctx)
            } else {
                agree(a, s)
            }
        } else if k == 11 {
            if s.tb.in_txbody {
                at_level_ok(s, 0, a) && a.pa.runs@ == Seq::<Run<i64>>::empty() && agree(a, SlideView { pa: ParaScan { in_para: true, in_ln_spc: false, runs: a.pa.runs, para_level: a.pa.para_level, para_style: a.pa.para_style, default_run: a.pa.default_run, end_run: a.pa.end_run, bullet: a.pa.bullet, ..s.pa }, ..s })
            } else {
                agree(a, s)
            }
        } else if k == 12 {
            if s.pa.in_para {
                agree(a, SlideView { ru: RunScan { in_run: true, run_style: s.pa.default_run, run_text: a.ru.run_text, ..s.ru }, ..s }) && a.ru.run_text@ == Seq::<char>::empty()
            } else {
                agree(a, s)
            }
        } else if k == 13 {
            if s.ru.in_run {
                agree(a, SlideView { ru: RunScan { in_rpr: true, rpr_typeface: false, run_style: rpr_applied(s.ru.run_style, tag), ..s.ru }, ..s })
            } else {
                agree(a, s)
            }
        } else if k == 14 {
            if s.pa.in_para && !s.ru.in_run {
                agree(a, SlideView { ru: RunScan { in_end_para_rpr: true, rpr_typeface: false, ..s.ru }, pa: ParaScan { end_run: rpr_applied(s.pa.default_run, tag), ..s.pa }, ..s })
            } else {
                agree(a, s)
            }
        } else if k == 15 {
            let c = base_color(tag, ctx.theme, ctx.color_map);
            if s.fill != FillTarget::NoTarget {
                agree(a, color_applied(s, c))
            } else if s.sh.in_style_ln_ref {
                agree(a, SlideView { sh: ShapeScan { paint: ShapePaint { style_ln_color: c, ..s.sh.paint }, ..s.sh }, ..s })
            } else if s.sh.in_style_fill_ref {
                agree(a, SlideView { sh: ShapeScan { paint: ShapePaint { style_fill_color: c, ..s.sh.paint }, ..s.sh }, ..s })
            } else if s.sh.in_style_font_ref {
                agree(a, SlideView { sh: ShapeScan { style_font_color: c, ..s.sh }, ..s })
            } else {
                agree(a, s)
            }
        } else if k == 16 {
            if s.in_shape && !s.sh.in_sp_pr && !s.tb.in_txbody {
                if n == "lnRef"@ {
                    agree(a, SlideView { sh: ShapeScan { in_style_ln_ref: true, paint: ShapePaint { style_ln_idx: ln_ref_index(tag), ..s.sh.paint }, ..s.sh }, ..s })
                } else if n == "fillRef"@ {
                    agree(a, SlideView { sh: ShapeScan { in_style_fill_ref: true, ..s.sh }, ..s })
                } else {
                    agree(a, SlideView { sh: ShapeScan { in_style_font_ref: true, ..s.sh }, ..s })
                }
            } else {
                agree(a, s)
            }
        } else if k == 17 {
            if s.ru.in_run {
                agree(a, SlideView { ru: RunScan { in_text: true, ..s.ru }, ..s })
            } else {
                agree(a, s)
            }
        } else {
            match paragraph_step(s, tag, ctx, a) {
                Some(ok) => ok,
                None => shared_step(s, tag, a),
            }
        }
    }
}

/// Tags read alike from start and self-closing tags: the placeholder, the
/// body properties and autofit, the preset and custom geometry, and the
/// outline's dash and arrowheads.
pub open spec fn shared_step(s: SlideView, tag: XmlTag, a: SlideView) -> bool {
    let n = tag.name@;
    if n == "ph"@ && s.in_shape {
        agree(a, SlideView { sh: ShapeScan { placeholder: Some((attr_string(tag.attrs@, "type"@), attr_string(tag.attrs@, "idx"@))), ..s.sh }, ..s })
    } else if (n == "bodyPr"@ || n == "spAutoFit"@ || n == "normAutofit"@) && s.in_shape && s.tb.in_txbody {
        agree(a, SlideView { tb: BodyScan { body: body_after(s.tb.body, tag), ..s.tb }, ..s })
    } else {
        agree(a, SlideView { sh: a.sh, ..s }) && geometry_ok(s.sh, tag, a.sh)
    }
}

/// A text body's layout after `bodyPr` (its insets, anchor and `wrap`),
/// `spAutoFit` or `normAutofit`.
pub open spec fn body_after(body: TextBodyLayout<i64>, tag: XmlTag) -> TextBodyLayout<i64> {
    if tag.name@ == "bodyPr"@ {
        TextBodyLayout {
            padding: Insets {
                left: i64_or(tag, "lIns"@, body.padding.left),
                right: i64_or(tag, "rIns"@, body.padding.right),
                top: i64_or(tag, "tIns"@, body.padding.top),
                bottom: i64_or(tag, "bIns"@, body.padding.bottom),
            },
            vertical_align: match attr_value(tag.attrs@, "anchor"@) {
                Some(x) => text_box_anchor(x),
                None => body.vertical_align,
            },
            no_wrap: body.no_wrap || attr_value(tag.attrs@, "wrap"@) == Some("none"@),
            ..body
        }
    } else {
        TextBodyLayout { auto_fit: true, ..body }
    }
}

/// The preset and custom geometry, and the outline's dash and arrowheads.
pub open spec fn geometry_ok(s: ShapeScan, tag: XmlTag, a: ShapeScan) -> bool {
    let n = tag.name@;
    if n == "prstGeom"@ && s.in_sp_pr {
        match attr_string(tag.attrs@, "prst"@) {
            Some(p) => a == ShapeScan { geom: ShapeGeom { prst_geom: Some(p), ..s.geom }, ..s },
            None => a == s,
        }
    } else if n == "custGeom"@ && s.in_sp_pr && s.geom.prst_geom is None {
        a == ShapeScan { geom: ShapeGeom { prst_geom: a.geom.prst_geom, ..s.geom }, ..s } && opt_chars(a.geom.prst_geom) == Some("rect"@)
    } else if n == "prstDash"@ && s.in_ln {
        a == ShapeScan {
            paint: ShapePaint {
                ln_dash_style: match attr_value(tag.attrs@, "val"@) {
                    Some(v) => dash_style(v),
                    None => BorderLineStyle::Solid,
                },
                ..s.paint
            },
            ..s
        }
    } else if n == "tailEnd"@ && s.in_ln {
        a == ShapeScan { geom: ShapeGeom { tail_end: arrow_head(attr_value(tag.attrs@, "type"@)), ..s.geom }, ..s }
    } else if n == "headEnd"@ && s.in_ln {
        a == ShapeScan { geom: ShapeGeom { head_end: arrow_head(attr_value(tag.attrs@, "type"@)), ..s.geom }, ..s }
    } else {
        a == s
    }
}

/// The adjust value a `gd` formula `val N` gives.
pub open spec fn adjust_value(fmla: Option<Seq<char>>) -> Option<i64> {
    match fmla {
        Some(f) => if f.len() >= 4 && f.take(4) == "val "@ {
            parsed_i64(f.skip(4))
        } else {
            None
        },
        None => None,
    }
}

/// A run's style after a typeface element of its `rPr`: the first
/// typeface of the `rPr` replaces the inherited family.
pub open spec fn typeface_step(style: TextStyle<i64>, applied: bool, tag: XmlTag, theme: ThemeData) -> TextStyle<i64> {
    let base = if !applied {
        TextStyle { font_family: None, ..style }
    } else {
        style
    };
    typeface_applied(base, tag, theme)
}

/// A self-closing tag.
/// Which branch of a self-closing tag's reading applies.
pub open spec fn empty_arm(n: Seq<char>) -> nat {
    if n == "off"@ {
        0
    } else if n == "ext"@ {
        1
    } else if n == "ln"@ {
        2
    } else if n == "gd"@ {
        3
    } else if n == "noFill"@ {
        4
    } else if is_color_name(n) {
        5
    } else if n == "rPr"@ {
        6
    } else if n == "endParaRPr"@ {
        7
    } else if n == "latin"@ || n == "ea"@ || n == "cs"@ {
        8
    } else {
        9
    }
}

pub open spec fn slide_empty_ok(s: SlideView, tag: XmlTag, ctx: SlideContext, a: SlideView) -> bool {
    let n = tag.name@;
    if s.skip > 0 {
        agree(a, s)
    } else {
        let k = empty_arm(n);
        if k == 0 {
            if s.sh.in_xfrm {
                agree(a, SlideView { sh: ShapeScan { geom: ShapeGeom { x: i64_or(tag, "x"@, 0), y: i64_or(tag, "y"@, 0), ..s.sh.geom }, ..s.sh }, ..s })
            } else {
                agree(a, s)
            }
        } else if k == 1 {
            if s.sh.in_xfrm {
                agree(a, SlideView { sh: ShapeScan { geom: ShapeGeom { cx: i64_or(tag, "cx"@, 0), cy: i64_or(tag, "cy"@, 0), ..s.sh.geom }, ..s.sh }, ..s })
            } else {
                agree(a, s)
            }
        } else if k == 2 {
            if s.sh.in_sp_pr {
                agree(a, SlideView { sh: ShapeScan { paint: ShapePaint { ln_width_emu: i64_or(tag, "w"@, 12700), ..s.sh.paint }, ..s.sh }, ..s })
            } else if s.ru.in_rpr || s.ru.in_end_para_rpr {
                agree(a, SlideView { ru: RunScan { in_text_line: true, ..s.ru }, ..s })
            } else {
                agree(a, s)
            }
        } else if k == 3 {
            if s.in_shape && s.sh.in_sp_pr {
                match adjust_value(attr_value(tag.attrs@, "fmla"@)) {
                    Some(v) => agree(a, SlideView { sh: ShapeScan { geom: ShapeGeom { adj_values: a.sh.geom.adj_values, ..s.sh.geom }, ..s.sh }, ..s })
                        && a.sh.geom.adj_values@ == s.sh.geom.adj_values@.push(v),
                    None => agree(a, s),
                }
            } else {
                agree(a, s)
            }
        } else if k == 4 {
            if s.sh.in_sp_pr && !s.sh.in_ln {
                agree(a, SlideView { sh: ShapeScan { paint: ShapePaint { explicit_no_fill: true, ..s.sh.paint }, ..s.sh }, ..s })
            } else {
                agree(a, s)
            }
        } else if k == 5 {
            let c = base_color(tag, ctx.theme, ctx.color_map);
            if s.sh.in_style_font_ref {
                agree(a, SlideView { sh: ShapeScan { style_font_color: c, ..s.sh }, ..s })
            } else if s.sh.in_style_fill_ref {
                agree(a, SlideView { sh: ShapeScan { paint: ShapePaint { style_fill_color: c, ..s.sh.paint }, ..s.sh }, ..s })
            } else if s.sh.in_style_ln_ref {
                agree(a, SlideView { sh: ShapeScan { paint: ShapePaint { style_ln_color: c, ..s.sh.paint }, ..s.sh }, ..s })
            } else if s.fill != FillTarget::NoTarget {
                agree(a, color_applied(s, c))
            } else {
                agree(a, s)
            }
        } else if k == 6 {
            if s.ru.in_run {
                agree(a, SlideView { ru: RunScan { run_style: rpr_applied(s.ru.run_style, tag), ..s.ru }, ..s })
            } else {
                agree(a, s)
            }
        } else if k == 7 {
            if s.pa.in_para && !s.ru.in_run {
                agree(a, SlideView { pa: ParaScan { end_run: rpr_applied(s.pa.default_run, tag), ..s.pa }, ..s })
            } else {
                agree(a, s)
            }
        } else if k == 8 {
            if s.ru.in_rpr {
                let st = typeface_step(s.ru.run_style, s.ru.rpr_typeface, tag, ctx.theme);
                agree(a, SlideView { ru: RunScan { run_style: st, rpr_typeface: s.ru.rpr_typeface || st.font_family is Some, ..s.ru }, ..s })
            } else if s.ru.in_end_para_rpr {
                let st = typeface_step(s.pa.end_run, s.ru.rpr_typeface, tag, ctx.theme);
                agree(a, SlideView { pa: ParaScan { end_run: st, ..s.pa }, ru: RunScan { rpr_typeface: s.ru.rpr_typeface || st.font_family is Some, ..s.ru }, ..s })
            } else {
                agree(a, s)
            }
        } else {
            match paragraph_step(s, tag, ctx, a) {
                Some(ok) => ok,
                None => shared_step(s, tag, a),
            }
        }
    }
}

/// The frame a placeholder without its own takes from the layout or
/// master.
pub open spec fn placeholder_frame(s: SlideView, ctx: SlideContext) -> Option<PlaceholderGeometry> {
    shape_frame(s.sh, ctx)
}

/// The frame a placeholder shape without its own takes (see
/// `placeholder_frame`).
pub open spec fn shape_frame(sh: ShapeScan, ctx: SlideContext) -> Option<PlaceholderGeometry> {
    match (ctx.placeholders, sh.placeholder) {
        (Some(map), Some((t, i))) => if sh.has_explicit_xfrm {
            None
        } else {
            spec_lookup(layout_view_of(&map.layout), layout_view_of(&map.master), opt_chars(t), opt_chars(i))
        },
        _ => None,
    }
}

/// The elements a finished shape adds: none for a placeholder of a layer
/// whose placeholders are left out; otherwise those `finalize_shape` gives
/// for the shape placed in its frame.
pub open spec fn shape_elements_added(s: SlideView, ctx: SlideContext, e: Seq<SlideElement<i64>>) -> bool {
    if ctx.skip_placeholders && s.sh.placeholder is Some {
        e.len() == 0
    } else {
        exists|blocks: Seq<GroupedBlock<i64, Paragraph<i64>>>|
            #[trigger] finished_as(
                placed(props_of(s.sh), placeholder_frame(s, ctx)),
                s.tb.paragraphs@,
                s.tb.body,
                ctx.theme_line_widths@,
                elements_view(e),
                blocks,
            )
    }
}

/// An end tag.
/// Which branch of an end tag's reading applies.
pub open spec fn end_arm(s: SlideView, name: Seq<char>) -> nat {
    if (name == "sp"@ || name == "cxnSp"@) && s.in_shape {
        0
    } else if name == "spPr"@ && s.sh.in_sp_pr {
        1
    } else if name == "xfrm"@ && s.sh.in_xfrm {
        2
    } else if name == "ln"@ && s.sh.in_ln {
        3
    } else if name == "txBody"@ && s.tb.in_txbody {
        4
    } else if name == "p"@ && s.pa.in_para {
        5
    } else if name == "r"@ && s.ru.in_run {
        6
    } else if name == "rPr"@ && s.ru.in_rpr {
        7
    } else if name == "endParaRPr"@ && s.ru.in_end_para_rpr {
        8
    } else if name == "ln"@ && s.ru.in_text_line {
        9
    } else if name == "lnSpc"@ && s.pa.in_ln_spc {
        10
    } else if name == "spcBef"@ && s.pa.in_spc_bef {
        11
    } else if name == "spcAft"@ && s.pa.in_spc_aft {
        12
    } else if name == "solidFill"@ && s.fill != FillTarget::NoTarget {
        13
    } else if name == "lnRef"@ && s.sh.in_style_ln_ref {
        14
    } else if name == "fillRef"@ && s.sh.in_style_fill_ref {
        15
    } else if name == "fontRef"@ && s.sh.in_style_font_ref {
        16
    } else if name == "t"@ && s.ru.in_text {
        17
    } else {
        18
    }
}

pub open spec fn slide_end_ok<F: Fn(i64, i64) -> i64>(s: SlideView, name: Seq<char>, ctx: SlideContext, scale: F, a: SlideView) -> bool {
    if s.skip > 0 {
        agree(a, SlideView { skip: (s.skip - 1) as usize, ..s })
    } else {
        let k = end_arm(s, name);
        if k == 0 {
            if shallower(s.depth) == 0 {
                exists|e: Seq<SlideElement<i64>>|
                    #[trigger] shape_elements_added(s, ctx, e) && is_fresh_parts(a.sh) && a.elements@ == s.elements@ + e
                        && a.tb.paragraphs@ == Seq::<PptxParagraphEntry<i64>>::empty() && agree(a, SlideView { elements: a.elements, in_shape: false, depth: 0, sh: ShapeScan { geom: a.sh.geom, paint: a.sh.paint, ..s.sh }, tb: BodyScan { paragraphs: a.tb.paragraphs, ..s.tb }, ..s })
            } else {
                agree(a, SlideView { depth: shallower(s.depth), ..s })
            }
        } else if k == 1 {
            agree(a, SlideView { sh: ShapeScan { in_sp_pr: false, ..s.sh }, ..s })
        } else if k == 2 {
            agree(a, SlideView { sh: ShapeScan { in_xfrm: false, ..s.sh }, ..s })
        } else if k == 3 {
            agree(a, SlideView { sh: ShapeScan { in_ln: false, ..s.sh }, ..s })
        } else if k == 4 {
            agree(a, SlideView { tb: BodyScan { in_txbody: false, ..s.tb }, ..s })
        } else if k == 5 {
            agree(a, SlideView { tb: BodyScan { paragraphs: a.tb.paragraphs, ..s.tb }, pa: ParaScan { runs: a.pa.runs, in_para: false, ..s.pa }, ..s }) && a.pa.runs@ == Seq::<Run<i64>>::empty()
                && a.tb.paragraphs@.len() == s.tb.paragraphs@.len() + 1 && a.tb.paragraphs@.drop_last() == s.tb.paragraphs@
                && a.tb.paragraphs@.last().paragraph.style@ == s.pa.para_style@ && a.tb.paragraphs@.last().paragraph.runs@ == s.pa.runs@
                && exists|ms: Option<TextStyle<i64>>|
                    #[trigger] marker_style_resolved(s.pa.bullet, s.pa.runs@, s.pa.end_run, s.pa.default_run, scale, ms)
                        && a.tb.paragraphs@.last().list_marker == marker_for_bullet(s.pa.bullet.kind, s.pa.para_level, ms)
        } else if k == 6 {
            if s.ru.run_text@.len() > 0 {
                agree(a, SlideView { pa: ParaScan { runs: a.pa.runs, ..s.pa }, ru: RunScan { run_text: a.ru.run_text, in_run: false, ..s.ru }, ..s }) && a.ru.run_text@ == Seq::<char>::empty()
                    && exists|run: Run<i64>, joined: bool|
                    run.text@ == s.ru.run_text@ && run.style == s.ru.run_style && run.href is None && run.footnote is None
                        && #[trigger] run_pushed(s.pa.runs@, a.pa.runs@, run, joined)
            } else {
                agree(a, SlideView { ru: RunScan { in_run: false, ..s.ru }, ..s })
            }
        } else if k == 7 {
            agree(a, SlideView { ru: RunScan { in_rpr: false, ..s.ru }, ..s })
        } else if k == 8 {
            agree(a, SlideView { ru: RunScan { in_end_para_rpr: false, ..s.ru }, ..s })
        } else if k == 9 {
            agree(a, SlideView { ru: RunScan { in_text_line: false, ..s.ru }, ..s })
        } else if k == 10 {
            agree(a, SlideView { pa: ParaScan { in_ln_spc: false, ..s.pa }, ..s })
        } else if k == 11 {
            agree(a, SlideView { pa: ParaScan { in_spc_bef: false, ..s.pa }, ..s })
        } else if k == 12 {
            agree(a, SlideView { pa: ParaScan { in_spc_aft: false, ..s.pa }, ..s })
        } else if k == 13 {
            agree(a, SlideView { fill: FillTarget::NoTarget, ..s })
        } else if k == 14 {
            agree(a, SlideView { sh: ShapeScan { in_style_ln_ref: false, ..s.sh }, ..s })
        } else if k == 15 {
            agree(a, SlideView { sh: ShapeScan { in_style_fill_ref: false, ..s.sh }, ..s })
        } else if k == 16 {
            agree(a, SlideView { sh: ShapeScan { in_style_font_ref: false, ..s.sh }, ..s })
        } else if k == 17 {
            agree(a, SlideView { ru: RunScan { in_text: false, ..s.ru }, ..s })
        } else {
            agree(a, s)
        }
    }
}

/// Text: added to the run's text where a run's `a:t` is open.
pub open spec fn slide_text_ok(s: SlideView, text: Seq<char>, a: SlideView) -> bool {
    if s.skip == 0 && s.ru.in_text {
        agree(a, SlideView { ru: RunScan { run_text: a.ru.run_text, ..s.ru }, ..s }) && a.ru.run_text@ == s.ru.run_text@ + text
    } else {
        agree(a, s)
    }
}

/// One event, other than the start of a shape's list style.
#[verifier::opaque]
pub open spec fn slide_step_ok<F: Fn(i64, i64) -> i64>(s: SlideView, event: XmlEvent, ctx: SlideContext, scale: F, a: SlideView) -> bool {
    match event {
        XmlEvent::Start(tag) => slide_start_ok(s, tag, ctx, a),
        XmlEvent::Empty(tag) => slide_empty_ok(s, tag, ctx, a),
        XmlEvent::End(name) => slide_end_ok(s, name@, ctx, scale, a),
        XmlEvent::Text(text) => slide_text_ok(s, text@, a),
        _ => agree(a, s),
    }
}

/// A slide read, and the index of the next event it reads.
pub ghost struct SlideAt {
    pub scan: SlideView,
    pub next: nat,
}

/// Whether an event starts the list style of a shape's text body.
pub open spec fn starts_body_list_style(s: SlideView, event: XmlEvent) -> bool {
    event matches XmlEvent::Start(tag) && tag.name@ == "lstStyle"@ && s.skip == 0 && s.in_shape && s.tb.in_txbody
}

/// One turn of a slide read: the next event, which is neither the end of
/// input nor an error, is read; where it starts a text body's list style,
/// the list style is read to its end and laid over the body's defaults.
#[verifier::opaque]
pub open spec fn slide_turn_ok<F: Fn(i64, i64) -> i64>(
    source: Seq<char>,
    ctx: SlideContext,
    scale: F,
    b: SlideAt,
    a: SlideAt,
) -> bool {
    let event = xml_event_at(source, b.next);
    &&& !event.is_terminal()
    &&& if starts_body_list_style(b.scan, event) {
        let start = b.next + 1;
        let m = list_style_length(source, start);
        &&& a.next == start + m + 1
        &&& exists|d: PptxTextBodyStyleDefaults<i64>|
            #[trigger] defaults_deep(d@) == list_style_after(source, start, m, ctx.theme, ctx.color_map).defaults
                && a.scan.tb.defaults@ == defaults_overlay(b.scan.tb.defaults@, d@) && agree(a.scan, SlideView { tb: BodyScan { defaults: a.scan.tb.defaults, ..b.scan.tb }, ..b.scan })
    } else {
        &&& a.next == b.next + 1
        &&& slide_step_ok(b.scan, event, ctx, scale, a.scan)
    }
}

/// `trace` is a read of `source` from its start: the reader's state after
/// each turn, each following from the one before by `slide_turn_ok`.
pub open spec fn slide_run_ok<F: Fn(i64, i64) -> i64>(source: Seq<char>, ctx: SlideContext, scale: F, trace: Seq<SlideAt>) -> bool {
    &&& trace.len() > 0
    &&& trace[0].next == 0
    &&& slide_initial(trace[0].scan)
    &&& forall|i: int| 0 <= i < trace.len() - 1 ==> #[trigger] slide_turn_ok(source, ctx, scale, trace[i], trace[i + 1])
}


/// The reader's state, in exec values (see `SlideView`).
pub struct SlideScan {
    elements: Vec<SlideElement<i64>>,
    skip: usize,
    in_shape: bool,
    depth: usize,
    fill: FillTarget,
    sh: ShapeScan,
    tb: BodyScan,
    pa: ParaScan,
    ru: RunScan,
}

impl View for SlideScan {
    type V = SlideView;

    closed spec fn view(&self) -> SlideView {
        SlideView {
            elements: self.elements,
            skip: self.skip,
            in_shape: self.in_shape,
            depth: self.depth,
            fill: self.fill,
            sh: self.sh,
            tb: self.tb,
            pa: self.pa,
            ru: self.ru,
        }
    }
}

/// The frame and geometry of a shape with nothing read into it.
fn fresh_geom() -> (g: ShapeGeom)
    ensures
        g.x == 0 && g.y == 0 && g.cx == 0 && g.cy == 0 && g.rotation_deg is None && !g.flip_h && !g.flip_v,
        g.prst_geom is None && g.adj_values@ == Seq::<i64>::empty() && g.head_end == ArrowHead::NoHead
            && g.tail_end == ArrowHead::NoHead,
{
    ShapeGeom {
        x: 0,
        y: 0,
        cx: 0,
        cy: 0,
        rotation_deg: None,
        flip_h: false,
        flip_v: false,
        prst_geom: None,
        adj_values: Vec::new(),
        head_end: ArrowHead::NoHead,
        tail_end: ArrowHead::NoHead,
    }
}

/// The paint of a shape with nothing read into it.
fn fresh_paint() -> (p: ShapePaint)
    ensures
        p.fill is None && !p.explicit_no_fill && p.style_fill_color is None && p.ln_width_emu == 0 && p.ln_color is None,
        p.ln_dash_style == BorderLineStyle::Solid && p.style_ln_color is None && p.style_ln_idx is None,
{
    ShapePaint {
        fill: None,
        explicit_no_fill: false,
        style_fill_color: None,
        ln_width_emu: 0,
        ln_color: None,
        ln_dash_style: BorderLineStyle::Solid,
        style_ln_color: None,
        style_ln_idx: None,
    }
}


/// The layout of a text body before `a:bodyPr`.
fn fresh_body() -> (b: TextBodyLayout<i64>)
    ensures
        b == default_body(),
{
    TextBodyLayout {
        padding: Insets { top: 45720, right: 91440, bottom: 45720, left: 91440 },
        vertical_align: TextBoxVerticalAlign::Top,
        no_wrap: false,
        auto_fit: false,
        text_rotation_deg: None,
    }
}

/// An integer attribute, or a default.
fn attr_i64_or(tag: &XmlTag, key: &str, default: i64) -> (v: i64)
    ensures
        v == i64_or(*tag, key@, default),
{
    match get_attr_i64(tag, key) {
        Some(v) => v,
        None => default,
    }
}

/// Whether an attribute is `1` or `true`.
fn attr_flag(tag: &XmlTag, key: &str) -> (r: bool)
    ensures
        r == flag_set(attr_value(tag.attrs@, key@)),
{
    match get_attr(tag, key) {
        Some(v) => str_eq(v.as_str(), "1") || str_eq(v.as_str(), "true"),
        None => false,
    }
}

/// Whether a name is that of a color element.
fn color_name(n: &str) -> (r: bool)
    ensures
        r == is_color_name(n@),
{
    str_eq(n, "srgbClr") || str_eq(n, "schemeClr") || str_eq(n, "sysClr")
}

/// The index of `a:lnRef` (see `ln_ref_index`).
fn read_ln_ref_index(tag: &XmlTag) -> (r: Option<usize>)
    ensures
        r == ln_ref_index(*tag),
{
    match get_attr_i64(tag, "idx") {
        Some(v) => if 0 < v && v as u64 <= usize::MAX as u64 {
            Some(v as usize)
        } else {
            None
        },
        None => None,
    }
}

/// The adjust value of a `gd` formula (see `adjust_value`).
fn read_adjust_value(tag: &XmlTag) -> (r: Option<i64>)
    ensures
        r == adjust_value(attr_value(tag.attrs@, "fmla"@)),
{
    match get_attr(tag, "fmla") {
        Some(f) => {
            let chars = chars_of(f.as_str());
            if chars.len() >= 4 && chars[0] == 'v' && chars[1] == 'a' && chars[2] == 'l' && chars[3] == ' ' {
                proof {
                    reveal_strlit("val ");
                    assert(f@.take(4) =~= "val "@);
                }
                let mut rest: Vec<char> = Vec::new();
                let mut i: usize = 4;
                while i < chars.len()
                    invariant
                        4 <= i <= chars@.len(),
                        rest@ == chars@.subrange(4, i as int),
                    decreases chars@.len() - i,
                {
                    rest.push(chars[i]);
                    i = i + 1;
                    assert(rest@ =~= chars@.subrange(4, i as int));
                }
                let tail = string_of(rest.as_slice());
                assert(tail@ =~= f@.skip(4));
                parse_i64(tail.as_str())
            } else {
                proof {
                    reveal_strlit("val ");
                    if f@.len() >= 4 && f@.take(4) == "val "@ {
                        assert(f@[0] == f@.take(4)[0]);
                        assert(f@[1] == f@.take(4)[1]);
                        assert(f@[2] == f@.take(4)[2]);
                        assert(f@[3] == f@.take(4)[3]);
                    }
                }
                None
            }
        },
        None => None,
    }
}

/// Which branch of a start tag's reading applies (see `start_arm`).
fn start_arm_of(n: &str) -> (k: usize)
    ensures
        k == start_arm(n@),
{
    if str_eq(n, "grpSp") {
        0
    } else if str_eq(n, "sp") || str_eq(n, "cxnSp") {
        1
    } else if str_eq(n, "spPr") {
        2
    } else if str_eq(n, "xfrm") {
        3
    } else if str_eq(n, "noFill") {
        4
    } else if str_eq(n, "solidFill") {
        5
    } else if str_eq(n, "gradFill") {
        6
    } else if str_eq(n, "effectLst") {
        7
    } else if str_eq(n, "extLst") {
        8
    } else if str_eq(n, "ln") {
        9
    } else if str_eq(n, "txBody") {
        10
    } else if str_eq(n, "p") {
        11
    } else if str_eq(n, "r") {
        12
    } else if str_eq(n, "rPr") {
        13
    } else if str_eq(n, "endParaRPr") {
        14
    } else if color_name(n) {
        15
    } else if str_eq(n, "lnRef") || str_eq(n, "fillRef") || str_eq(n, "fontRef") {
        16
    } else if str_eq(n, "t") {
        17
    } else {
        18
    }
}

/// Which branch of a self-closing tag's reading applies (see `empty_arm`).
fn empty_arm_of(n: &str) -> (k: usize)
    ensures
        k == empty_arm(n@),
{
    if str_eq(n, "off") {
        0
    } else if str_eq(n, "ext") {
        1
    } else if str_eq(n, "ln") {
        2
    } else if str_eq(n, "gd") {
        3
    } else if str_eq(n, "noFill") {
        4
    } else if color_name(n) {
        5
    } else if str_eq(n, "rPr") {
        6
    } else if str_eq(n, "endParaRPr") {
        7
    } else if str_eq(n, "latin") || str_eq(n, "ea") || str_eq(n, "cs") {
        8
    } else {
        9
    }
}

/// Read an optional string as a string slice.
fn opt_as_str(o: &Option<String>) -> (r: Option<&str>)
    ensures
        opt_str(r) == opt_chars(*o),
{
    match o {
        Some(s) => Some(s.as_str()),
        None => None,
    }
}

/// The elements a finished shape adds (see `shape_elements_added`).
fn shape_elements_for(
    props: ShapeProps<i64>,
    entries: Vec<PptxParagraphEntry<i64>>,
    sh: &ShapeScan,
    body: &TextBodyLayout<i64>,
    ctx: &SlideContext,
) -> (e: Vec<SlideElement<i64>>)
    ensures
        ctx.skip_placeholders && sh.placeholder is Some ==> e@.len() == 0,
        !(ctx.skip_placeholders && sh.placeholder is Some) ==> exists|blocks: Seq<GroupedBlock<i64, Paragraph<i64>>>|
            #[trigger] finished_as(placed(props, shape_frame(*sh, *ctx)), entries@, *body, ctx.theme_line_widths@, elements_view(e@), blocks),
{
    let ph = match &sh.placeholder {
        Some((t, i)) => Some((opt_as_str(t), opt_as_str(i))),
        None => None,
    };
    let map = match &ctx.placeholders {
        Some(m) => Some(m),
        None => None,
    };
    proof {
        assert(inherited_frame(map, ph, sh.has_explicit_xfrm) == shape_frame(*sh, *ctx));
    }
    finish_slide_shape(props, ph, sh.has_explicit_xfrm, map, ctx.skip_placeholders, entries, body, &ctx.theme_line_widths)
}

/// A text body's layout after `bodyPr`, `spAutoFit` or `normAutofit`.
fn body_props(body: &mut TextBodyLayout<i64>, tag: &XmlTag)
    ensures
        *final(body) == body_after(*old(body), *tag),
{
    if str_eq(tag.name.as_str(), "bodyPr") {
        extract_pptx_text_box_body_props(tag, &mut body.padding, &mut body.vertical_align, &mut body.no_wrap);
    } else {
        body.auto_fit = true;
    }
}

/// The preset and custom geometry, and the outline's dash and arrowheads
/// (see `geometry_ok`).
fn geometry_tag(sh: &mut ShapeScan, tag: &XmlTag)
    ensures
        geometry_ok(*old(sh), *tag, *final(sh)),
{
    let n = tag.name.as_str();
    if str_eq(n, "prstGeom") && sh.in_sp_pr {
        if let Some(p) = get_attr_string(tag, "prst") {
            sh.geom.prst_geom = Some(p);
        }
    } else if str_eq(n, "custGeom") && sh.in_sp_pr && sh.geom.prst_geom.is_none() {
        sh.geom.prst_geom = Some(String::from_str("rect"));
        proof {
            reveal_strlit("rect");
        }
    } else if str_eq(n, "prstDash") && sh.in_ln {
        sh.paint.ln_dash_style = match get_attr(tag, "val") {
            Some(v) => pptx_dash_to_border_style(v.as_str()),
            None => BorderLineStyle::Solid,
        };
    } else if str_eq(n, "tailEnd") && sh.in_ln {
        let t = get_attr(tag, "type");
        sh.geom.tail_end = parse_arrow_head(opt_as_str(&t));
    } else if str_eq(n, "headEnd") && sh.in_ln {
        let t = get_attr(tag, "type");
        sh.geom.head_end = parse_arrow_head(opt_as_str(&t));
    }
}

impl SlideScan {
    /// A read that has seen nothing.
    pub fn new() -> (s: Self)
        ensures
            slide_initial(s@),
    {
        let s = SlideScan {
            elements: Vec::new(),
            skip: 0,
            in_shape: false,
            depth: 0,
            fill: FillTarget::NoTarget,
            sh: ShapeScan {
                geom: fresh_geom(),
                paint: fresh_paint(),
                placeholder: None,
                has_explicit_xfrm: false,
                in_sp_pr: false,
                in_xfrm: false,
                in_ln: false,
                style_font_color: None,
                in_style_ln_ref: false,
                in_style_fill_ref: false,
                in_style_font_ref: false,
            },
            tb: BodyScan { in_txbody: false, paragraphs: Vec::new(), body: fresh_body(), defaults: PptxTextBodyStyleDefaults::empty() },
            pa: ParaScan {
                in_para: false,
                para_style: ParagraphStyle::empty(),
                para_level: 0,
                default_run: TextStyle::empty(),
                end_run: TextStyle::empty(),
                bullet: PptxBulletDefinition::empty(),
                in_ln_spc: false,
                in_spc_bef: false,
                in_spc_aft: false,
                runs: Vec::new(),
            },
            ru: RunScan {
                in_run: false,
                run_style: TextStyle::empty(),
                run_text: String::new(),
                in_text: false,
                in_rpr: false,
                rpr_typeface: false,
                in_end_para_rpr: false,
                in_text_line: false,
            },
        };

        s
    }

    /// The elements read so far.
    pub fn elements(&self) -> (r: &Vec<SlideElement<i64>>)
        ensures
            r@ == self@.elements@,
    {
        &self.elements
    }

    /// Lay a color on what the open `solidFill` colors.
    fn apply_color(&mut self, c: Option<Color>)
        ensures
            agree(final(self)@, color_applied(old(self)@, c)),
    {
        let ghost o = self@;
        match self.fill {
            FillTarget::ShapeFill => {
                self.sh.paint.fill = c;
            },
            FillTarget::LineFill => {
                self.sh.paint.ln_color = c;
            },
            FillTarget::RunFill => {
                self.ru.run_style.color = c;
            },
            FillTarget::EndParaFill => {
                self.pa.end_run.color = c;
            },
            FillTarget::BulletFill => {
                let color = match c {
                    Some(x) => Some(PptxBulletColorSource::Explicit(x)),
                    None => None,
                };
                self.pa.bullet.color = color;
            },
            FillTarget::NoTarget => {},
        }
    }

    /// Start a paragraph's styles at a level.
    fn set_level(&mut self, level: u32)
        ensures
            at_level_ok(old(self)@, level, final(self)@),
            same_but_level(old(self)@, final(self)@),
    {
        self.pa.para_level = level;
        self.pa.para_style = self.tb.defaults.paragraph_style_for_level(level);
        self.pa.default_run = self.tb.defaults.run_style_for_level(level);
        self.pa.end_run = self.tb.defaults.run_style_for_level(level);
        self.pa.bullet = self.tb.defaults.bullet_for_level(level);
    }

    /// The text defaults a text body starts from (see `body_defaults`).
    fn open_body_defaults(&self, ctx: &SlideContext) -> (d: PptxTextBodyStyleDefaults<i64>)
        ensures
            d@ == body_defaults(self@, *ctx),
    {
        let mut d = match &self.sh.placeholder {
            Some((t, i)) => match &ctx.placeholders {
                Some(map) => map.text_defaults(opt_as_str(t), opt_as_str(i)),
                None => PptxTextBodyStyleDefaults::empty(),
            },
            None => ctx.inherited_defaults.copy(),
        };
        proof {
            assert(d@.levels =~= d@.levels);
        }
        if let Some(c) = self.sh.style_font_color {
            d.apply_default_color(c);
        }
        d
    }

    /// Paragraph properties, spacing and bullets (see `paragraph_step`);
    /// whether the tag was one of these.
    fn paragraph_tag(&mut self, tag: &XmlTag, ctx: &SlideContext) -> (handled: bool)
        ensures
            handled == (paragraph_step(old(self)@, *tag, *ctx, final(self)@) is Some),
            handled ==> paragraph_step(old(self)@, *tag, *ctx, final(self)@)->0,
            !handled ==> agree(final(self)@, old(self)@),
    {
        let n = tag.name.as_str();
        let in_props = self.pa.in_para && !self.ru.in_run;
        if str_eq(n, "pPr") && in_props {
            let level = extract_paragraph_level(tag);
            self.set_level(level);
            extract_paragraph_props(tag, &mut self.pa.para_style);
        } else if str_eq(n, "lnSpc") && in_props {
            self.pa.in_ln_spc = true;
        } else if str_eq(n, "spcBef") && in_props {
            self.pa.in_spc_bef = true;
        } else if str_eq(n, "spcAft") && in_props {
            self.pa.in_spc_aft = true;
        } else if str_eq(n, "spcPct") && self.pa.in_ln_spc {
            extract_pptx_line_spacing_pct(tag, &mut self.pa.para_style);
        } else if str_eq(n, "spcPts") && self.pa.in_ln_spc {
            extract_pptx_line_spacing_pts(tag, &mut self.pa.para_style);
        } else if str_eq(n, "buAutoNum") && in_props {
            self.pa.bullet.kind = Some(PptxBulletKind::AutoNumber(parse_pptx_auto_numbering(tag, self.pa.para_level)));
        } else if str_eq(n, "buChar") && in_props {
            self.pa.bullet.kind = parse_pptx_bullet_marker(tag, self.pa.para_level);
        } else if str_eq(n, "buNone") && in_props {
            self.pa.bullet.kind = Some(PptxBulletKind::NoBullet);
        } else if str_eq(n, "buFontTx") && in_props {
            self.pa.bullet.font = Some(PptxBulletFontSource::FollowText);
        } else if str_eq(n, "buFont") && in_props {
            if let Some(t) = get_attr_string(tag, "typeface") {
                self.pa.bullet.font = Some(PptxBulletFontSource::Explicit(resolve_theme_font(t, &ctx.theme)));
            }
        } else if str_eq(n, "buClrTx") && in_props {
            self.pa.bullet.color = Some(PptxBulletColorSource::FollowText);
        } else if str_eq(n, "buClr") && in_props {
            self.fill = FillTarget::BulletFill;
        } else if str_eq(n, "buSzTx") && in_props {
            self.pa.bullet.size = Some(PptxBulletSizeSource::FollowText);
        } else if str_eq(n, "buSzPct") && in_props {
            if let Some(v) = get_attr_i64(tag, "val") {
                self.pa.bullet.size = Some(PptxBulletSizeSource::Percent(v));
            }
        } else if str_eq(n, "buSzPts") && in_props {
            if let Some(v) = get_attr_i64(tag, "val") {
                self.pa.bullet.size = Some(PptxBulletSizeSource::Points(v));
            }
        } else if str_eq(n, "br") && in_props {
            push_pptx_soft_line_break(&mut self.pa.runs, &self.pa.default_run);
        } else {
            return false;
        }
        true
    }

    /// Tags read alike from start and self-closing tags (see `shared_step`).
    fn shared_tag(&mut self, tag: &XmlTag)
        ensures
            shared_step(old(self)@, *tag, final(self)@),
    {
        let n = tag.name.as_str();
        if str_eq(n, "ph") && self.in_shape {
            self.sh.placeholder = Some((get_attr_string(tag, "type"), get_attr_string(tag, "idx")));
        } else if (str_eq(n, "bodyPr") || str_eq(n, "spAutoFit") || str_eq(n, "normAutofit")) && self.in_shape && self.tb.in_txbody {
            let mut body = self.tb.body;
            body_props(&mut body, tag);
            self.tb.body = body;
        } else {
            geometry_tag(&mut self.sh, tag);
        }
    }

    /// Open a shape: everything read of the previous one is dropped.
    fn open_shape(&mut self)
        ensures
            shape_opened(old(self)@, final(self)@),
    {
        self.in_shape = true;
        self.depth = 1;
        self.sh.geom = fresh_geom();
        self.sh.paint = fresh_paint();
        self.sh.placeholder = None;
        self.sh.has_explicit_xfrm = false;
        self.sh.in_sp_pr = false;
        self.sh.in_xfrm = false;
        self.sh.in_ln = false;
        self.sh.style_font_color = None;
        self.tb.in_txbody = false;
        self.tb.paragraphs = Vec::new();
        self.tb.body = fresh_body();
    }

    fn start_grpsp(&mut self, tag: &XmlTag)
        requires
            old(self)@.skip == 0,
            start_arm(tag.name@) == 0,
        ensures
            forall|ctx: SlideContext| slide_start_ok(old(self)@, *tag, ctx, final(self)@),
    {
        let n = tag.name.as_str();
        if !self.in_shape {
                self.skip = 1;
            }
    }

    fn start_sp(&mut self, tag: &XmlTag)
        requires
            old(self)@.skip == 0,
            start_arm(tag.name@) == 1,
        ensures
            forall|ctx: SlideContext| slide_start_ok(old(self)@, *tag, ctx, final(self)@),
    {
        let n = tag.name.as_str();
        if !self.in_shape {
                self.open_shape();
            } else if self.depth < usize::MAX {
                self.depth = self.depth + 1;
            }
    }

    fn start_sppr(&mut self, tag: &XmlTag)
        requires
            old(self)@.skip == 0,
            start_arm(tag.name@) == 2,
        ensures
            forall|ctx: SlideContext| slide_start_ok(old(self)@, *tag, ctx, final(self)@),
    {
        let n = tag.name.as_str();
        if self.in_shape && !self.tb.in_txbody {
                self.sh.in_sp_pr = true;
            }
    }

    fn start_xfrm(&mut self, tag: &XmlTag)
        requires
            old(self)@.skip == 0,
            start_arm(tag.name@) == 3,
        ensures
            forall|ctx: SlideContext| slide_start_ok(old(self)@, *tag, ctx, final(self)@),
    {
        let n = tag.name.as_str();
        if self.in_shape && self.sh.in_sp_pr {
                self.sh.in_xfrm = true;
                self.sh.has_explicit_xfrm = true;
                if let Some(r) = get_attr_i64(tag, "rot") {
                    self.sh.geom.rotation_deg = Some(r);
                }
                self.sh.geom.flip_h = attr_flag(tag, "flipH");
                self.sh.geom.flip_v = attr_flag(tag, "flipV");
            }
    }

    fn start_nofill(&mut self, tag: &XmlTag)
        requires
            old(self)@.skip == 0,
            start_arm(tag.name@) == 4,
        ensures
            forall|ctx: SlideContext| slide_start_ok(old(self)@, *tag, ctx, final(self)@),
    {
        let n = tag.name.as_str();
        if self.sh.in_sp_pr && !self.sh.in_ln && !self.ru.in_rpr {
                self.sh.paint.explicit_no_fill = true;
            }
    }

    fn start_solidfill(&mut self, tag: &XmlTag)
        requires
            old(self)@.skip == 0,
            start_arm(tag.name@) == 5,
        ensures
            forall|ctx: SlideContext| slide_start_ok(old(self)@, *tag, ctx, final(self)@),
    {
        let n = tag.name.as_str();
        if self.sh.in_sp_pr && !self.sh.in_ln && !self.ru.in_rpr {
                self.fill = FillTarget::ShapeFill;
            } else if self.sh.in_ln {
                self.fill = FillTarget::LineFill;
            } else if self.ru.in_rpr && !self.ru.in_text_line {
                self.fill = FillTarget::RunFill;
            } else if self.ru.in_end_para_rpr && !self.ru.in_text_line {
                self.fill = FillTarget::EndParaFill;
            }
    }

    fn start_gradfill(&mut self, tag: &XmlTag)
        requires
            old(self)@.skip == 0,
            start_arm(tag.name@) == 6,
        ensures
            forall|ctx: SlideContext| slide_start_ok(old(self)@, *tag, ctx, final(self)@),
    {
        let n = tag.name.as_str();
        if self.sh.in_sp_pr && !self.sh.in_ln && !self.ru.in_rpr {
                self.skip = 1;
            }
    }

    fn start_effectlst(&mut self, tag: &XmlTag)
        requires
            old(self)@.skip == 0,
            start_arm(tag.name@) == 7,
        ensures
            forall|ctx: SlideContext| slide_start_ok(old(self)@, *tag, ctx, final(self)@),
    {
        let n = tag.name.as_str();
        if self.sh.in_sp_pr && !self.sh.in_ln {
                self.skip = 1;
            }
    }

    fn start_extlst(&mut self, tag: &XmlTag)
        requires
            old(self)@.skip == 0,
            start_arm(tag.name@) == 8,
        ensures
            forall|ctx: SlideContext| slide_start_ok(old(self)@, *tag, ctx, final(self)@),
    {
        let n = tag.name.as_str();
        if self.sh.in_sp_pr && !self.tb.in_txbody {
                self.skip = 1;
            }
    }

    fn start_ln(&mut self, tag: &XmlTag)
        requires
            old(self)@.skip == 0,
            start_arm(tag.name@) == 9,
        ensures
            forall|ctx: SlideContext| slide_start_ok(old(self)@, *tag, ctx, final(self)@),
    {
        if self.sh.in_sp_pr {
            self.sh.in_ln = true;
            self.sh.paint.ln_width_emu = attr_i64_or(tag, "w", 12700);
            self.sh.paint.ln_dash_style = BorderLineStyle::Solid;
        } else if self.ru.in_rpr || self.ru.in_end_para_rpr {
            self.ru.in_text_line = true;
        }
    }

    fn start_txbody(&mut self, tag: &XmlTag, ctx: &SlideContext)
        requires
            old(self)@.skip == 0,
            start_arm(tag.name@) == 10,
        ensures
            slide_start_ok(old(self)@, *tag, *ctx, final(self)@),
    {
        let n = tag.name.as_str();
        if self.in_shape {
                let d = self.open_body_defaults(ctx);
                self.tb.defaults = d;
                self.tb.in_txbody = true;
            }
    }

    fn start_p(&mut self, tag: &XmlTag, ctx: &SlideContext)
        requires
            old(self)@.skip == 0,
            start_arm(tag.name@) == 11,
        ensures
            slide_start_ok(old(self)@, *tag, *ctx, final(self)@),
    {
        let n = tag.name.as_str();
        if self.tb.in_txbody {
                self.set_level(0);
                self.pa.in_para = true;
                self.pa.in_ln_spc = false;
                self.pa.runs = Vec::new();
            }
    }

    fn start_r(&mut self, tag: &XmlTag, ctx: &SlideContext)
        requires
            old(self)@.skip == 0,
            start_arm(tag.name@) == 12,
        ensures
            slide_start_ok(old(self)@, *tag, *ctx, final(self)@),
    {
        let n = tag.name.as_str();
        if self.pa.in_para {
                self.ru.in_run = true;
                self.ru.run_style = self.pa.default_run.copy();
                self.ru.run_text = String::new();
            }
    }

    fn start_rpr(&mut self, tag: &XmlTag, ctx: &SlideContext)
        requires
            old(self)@.skip == 0,
            start_arm(tag.name@) == 13,
        ensures
            slide_start_ok(old(self)@, *tag, *ctx, final(self)@),
    {
        let n = tag.name.as_str();
        if self.ru.in_run {
                self.ru.in_rpr = true;
                self.ru.rpr_typeface = false;
                extract_rpr_attributes(tag, &mut self.ru.run_style);
            }
    }

    fn start_endpararpr(&mut self, tag: &XmlTag, ctx: &SlideContext)
        requires
            old(self)@.skip == 0,
            start_arm(tag.name@) == 14,
        ensures
            slide_start_ok(old(self)@, *tag, *ctx, final(self)@),
    {
        let n = tag.name.as_str();
        if self.pa.in_para && !self.ru.in_run {
                self.ru.in_end_para_rpr = true;
                self.ru.rpr_typeface = false;
                let mut end = self.pa.default_run.copy();
                extract_rpr_attributes(tag, &mut end);
                self.pa.end_run = end;
            }
    }

    fn start_color(&mut self, tag: &XmlTag, ctx: &SlideContext)
        requires
            old(self)@.skip == 0,
            start_arm(tag.name@) == 15,
        ensures
            slide_start_ok(old(self)@, *tag, *ctx, final(self)@),
    {
        let n = tag.name.as_str();
        let c = resolve_base_color(tag, &ctx.theme, &ctx.color_map);
            if self.fill != FillTarget::NoTarget {
                self.apply_color(c);
            } else if self.sh.in_style_ln_ref {
                self.sh.paint.style_ln_color = c;
            } else if self.sh.in_style_fill_ref {
                self.sh.paint.style_fill_color = c;
            } else if self.sh.in_style_font_ref {
                self.sh.style_font_color = c;
            }
    }

    fn start_lnref(&mut self, tag: &XmlTag, ctx: &SlideContext)
        requires
            old(self)@.skip == 0,
            start_arm(tag.name@) == 16,
        ensures
            slide_start_ok(old(self)@, *tag, *ctx, final(self)@),
    {
        let n = tag.name.as_str();
        if self.in_shape && !self.sh.in_sp_pr && !self.tb.in_txbody {
                if str_eq(n, "lnRef") {
                    self.sh.in_style_ln_ref = true;
                    self.sh.paint.style_ln_idx = read_ln_ref_index(tag);
                } else if str_eq(n, "fillRef") {
                    self.sh.in_style_fill_ref = true;
                } else {
                    self.sh.in_style_font_ref = true;
                }
            }
    }

    fn start_t(&mut self, tag: &XmlTag, ctx: &SlideContext)
        requires
            old(self)@.skip == 0,
            start_arm(tag.name@) == 17,
        ensures
            slide_start_ok(old(self)@, *tag, *ctx, final(self)@),
    {
        if self.ru.in_run {
            self.ru.in_text = true;
        }
    }

    /// Read a start tag other than that of a shape's list style (see
    /// `slide_start_ok`).
    pub fn handle_start(&mut self, tag: &XmlTag, ctx: &SlideContext)
        ensures
            slide_start_ok(old(self)@, *tag, *ctx, final(self)@),
    {
        if self.skip > 0 {
            if self.skip < usize::MAX {
                self.skip = self.skip + 1;
            }
            return;
        }
        let k = start_arm_of(tag.name.as_str());
        if k == 0 {
            self.start_grpsp(tag);
        } else if k == 1 {
            self.start_sp(tag);
        } else if k == 2 {
            self.start_sppr(tag);
        } else if k == 3 {
            self.start_xfrm(tag);
        } else if k == 4 {
            self.start_nofill(tag);
        } else if k == 5 {
            self.start_solidfill(tag);
        } else if k == 6 {
            self.start_gradfill(tag);
        } else if k == 7 {
            self.start_effectlst(tag);
        } else if k == 8 {
            self.start_extlst(tag);
        } else if k == 9 {
            self.start_ln(tag);
        } else if k == 10 {
            self.start_txbody(tag, ctx);
        } else if k == 11 {
            self.start_p(tag, ctx);
        } else if k == 12 {
            self.start_r(tag, ctx);
        } else if k == 13 {
            self.start_rpr(tag, ctx);
        } else if k == 14 {
            self.start_endpararpr(tag, ctx);
        } else if k == 15 {
            self.start_color(tag, ctx);
        } else if k == 16 {
            self.start_lnref(tag, ctx);
        } else if k == 17 {
            self.start_t(tag, ctx);
        } else if !self.paragraph_tag(tag, ctx) {
            self.shared_tag(tag);
        }
    }
    fn empty_off(&mut self, tag: &XmlTag)
        requires
            old(self)@.skip == 0,
            empty_arm(tag.name@) == 0,
        ensures
            forall|ctx: SlideContext| slide_empty_ok(old(self)@, *tag, ctx, final(self)@),
    {
        if self.sh.in_xfrm {
            self.sh.geom.x = attr_i64_or(tag, "x", 0);
            self.sh.geom.y = attr_i64_or(tag, "y", 0);
        }
    }

    fn empty_ext(&mut self, tag: &XmlTag)
        requires
            old(self)@.skip == 0,
            empty_arm(tag.name@) == 1,
        ensures
            forall|ctx: SlideContext| slide_empty_ok(old(self)@, *tag, ctx, final(self)@),
    {
        if self.sh.in_xfrm {
            self.sh.geom.cx = attr_i64_or(tag, "cx", 0);
            self.sh.geom.cy = attr_i64_or(tag, "cy", 0);
        }
    }

    fn empty_ln(&mut self, tag: &XmlTag)
        requires
            old(self)@.skip == 0,
            empty_arm(tag.name@) == 2,
        ensures
            forall|ctx: SlideContext| slide_empty_ok(old(self)@, *tag, ctx, final(self)@),
    {
        if self.sh.in_sp_pr {
            self.sh.paint.ln_width_emu = attr_i64_or(tag, "w", 12700);
        } else if self.ru.in_rpr || self.ru.in_end_para_rpr {
            self.ru.in_text_line = true;
        }
    }

    fn empty_gd(&mut self, tag: &XmlTag)
        requires
            old(self)@.skip == 0,
            empty_arm(tag.name@) == 3,
        ensures
            forall|ctx: SlideContext| slide_empty_ok(old(self)@, *tag, ctx, final(self)@),
    {
        if self.in_shape && self.sh.in_sp_pr {
            if let Some(v) = read_adjust_value(tag) {
                self.sh.geom.adj_values.push(v);
            }
        }
    }

    fn empty_nofill(&mut self, tag: &XmlTag)
        requires
            old(self)@.skip == 0,
            empty_arm(tag.name@) == 4,
        ensures
            forall|ctx: SlideContext| slide_empty_ok(old(self)@, *tag, ctx, final(self)@),
    {
        if self.sh.in_sp_pr && !self.sh.in_ln {
            self.sh.paint.explicit_no_fill = true;
        }
    }

    fn empty_color(&mut self, tag: &XmlTag, ctx: &SlideContext)
        requires
            old(self)@.skip == 0,
            empty_arm(tag.name@) == 5,
        ensures
            slide_empty_ok(old(self)@, *tag, *ctx, final(self)@),
    {
        let c = resolve_base_color(tag, &ctx.theme, &ctx.color_map);
        if self.sh.in_style_font_ref {
            self.sh.style_font_color = c;
        } else if self.sh.in_style_fill_ref {
            self.sh.paint.style_fill_color = c;
        } else if self.sh.in_style_ln_ref {
            self.sh.paint.style_ln_color = c;
        } else if self.fill != FillTarget::NoTarget {
            self.apply_color(c);
        }
    }

    fn empty_rpr(&mut self, tag: &XmlTag)
        requires
            old(self)@.skip == 0,
            empty_arm(tag.name@) == 6,
        ensures
            forall|ctx: SlideContext| slide_empty_ok(old(self)@, *tag, ctx, final(self)@),
    {
        if self.ru.in_run {
            extract_rpr_attributes(tag, &mut self.ru.run_style);
        }
    }

    fn empty_endpararpr(&mut self, tag: &XmlTag)
        requires
            old(self)@.skip == 0,
            empty_arm(tag.name@) == 7,
        ensures
            forall|ctx: SlideContext| slide_empty_ok(old(self)@, *tag, ctx, final(self)@),
    {
        if self.pa.in_para && !self.ru.in_run {
            let mut end = self.pa.default_run.copy();
            extract_rpr_attributes(tag, &mut end);
            self.pa.end_run = end;
        }
    }

    fn empty_typeface(&mut self, tag: &XmlTag, ctx: &SlideContext)
        requires
            old(self)@.skip == 0,
            empty_arm(tag.name@) == 8,
        ensures
            slide_empty_ok(old(self)@, *tag, *ctx, final(self)@),
    {
        if self.ru.in_rpr {
            let mut st = self.ru.run_style.copy();
            if !self.ru.rpr_typeface {
                st.font_family = None;
            }
            apply_typeface_to_style(tag, &mut st, &ctx.theme);
            self.ru.rpr_typeface = self.ru.rpr_typeface || st.font_family.is_some();
            self.ru.run_style = st;
        } else if self.ru.in_end_para_rpr {
            let mut st = self.pa.end_run.copy();
            if !self.ru.rpr_typeface {
                st.font_family = None;
            }
            apply_typeface_to_style(tag, &mut st, &ctx.theme);
            self.ru.rpr_typeface = self.ru.rpr_typeface || st.font_family.is_some();
            self.pa.end_run = st;
        }
    }

    /// Read a self-closing tag (see `slide_empty_ok`).
    pub fn handle_empty(&mut self, tag: &XmlTag, ctx: &SlideContext)
        ensures
            slide_empty_ok(old(self)@, *tag, *ctx, final(self)@),
    {
        if self.skip > 0 {
            return;
        }
        let k = empty_arm_of(tag.name.as_str());
        if k == 0 {
            self.empty_off(tag);
        } else if k == 1 {
            self.empty_ext(tag);
        } else if k == 2 {
            self.empty_ln(tag);
        } else if k == 3 {
            self.empty_gd(tag);
        } else if k == 4 {
            self.empty_nofill(tag);
        } else if k == 5 {
            self.empty_color(tag, ctx);
        } else if k == 6 {
            self.empty_rpr(tag);
        } else if k == 7 {
            self.empty_endpararpr(tag);
        } else if k == 8 {
            self.empty_typeface(tag, ctx);
        } else if !self.paragraph_tag(tag, ctx) {
            self.shared_tag(tag);
        }
    }

    fn end_flag_1<F: Fn(i64, i64) -> i64>(&mut self, name: &str)
        requires
            old(self)@.skip == 0,
            end_arm(old(self)@, name@) == 1,
        ensures
            forall|ctx: SlideContext, scale: F| slide_end_ok::<F>(old(self)@, name@, ctx, scale, final(self)@),
    {
        self.sh.in_sp_pr = false;
    }

    fn end_flag_2<F: Fn(i64, i64) -> i64>(&mut self, name: &str)
        requires
            old(self)@.skip == 0,
            end_arm(old(self)@, name@) == 2,
        ensures
            forall|ctx: SlideContext, scale: F| slide_end_ok::<F>(old(self)@, name@, ctx, scale, final(self)@),
    {
        self.sh.in_xfrm = false;
    }

    fn end_flag_3<F: Fn(i64, i64) -> i64>(&mut self, name: &str)
        requires
            old(self)@.skip == 0,
            end_arm(old(self)@, name@) == 3,
        ensures
            forall|ctx: SlideContext, scale: F| slide_end_ok::<F>(old(self)@, name@, ctx, scale, final(self)@),
    {
        self.sh.in_ln = false;
    }

    fn end_flag_4<F: Fn(i64, i64) -> i64>(&mut self, name: &str)
        requires
            old(self)@.skip == 0,
            end_arm(old(self)@, name@) == 4,
        ensures
            forall|ctx: SlideContext, scale: F| slide_end_ok::<F>(old(self)@, name@, ctx, scale, final(self)@),
    {
        self.tb.in_txbody = false;
    }

    fn end_flag_7<F: Fn(i64, i64) -> i64>(&mut self, name: &str)
        requires
            old(self)@.skip == 0,
            end_arm(old(self)@, name@) == 7,
        ensures
            forall|ctx: SlideContext, scale: F| slide_end_ok::<F>(old(self)@, name@, ctx, scale, final(self)@),
    {
        self.ru.in_rpr = false;
    }

    fn end_flag_8<F: Fn(i64, i64) -> i64>(&mut self, name: &str)
        requires
            old(self)@.skip == 0,
            end_arm(old(self)@, name@) == 8,
        ensures
            forall|ctx: SlideContext, scale: F| slide_end_ok::<F>(old(self)@, name@, ctx, scale, final(self)@),
    {
        self.ru.in_end_para_rpr = false;
    }

    fn end_flag_9<F: Fn(i64, i64) -> i64>(&mut self, name: &str)
        requires
            old(self)@.skip == 0,
            end_arm(old(self)@, name@) == 9,
        ensures
            forall|ctx: SlideContext, scale: F| slide_end_ok::<F>(old(self)@, name@, ctx, scale, final(self)@),
    {
        self.ru.in_text_line = false;
    }

    fn end_flag_10<F: Fn(i64, i64) -> i64>(&mut self, name: &str)
        requires
            old(self)@.skip == 0,
            end_arm(old(self)@, name@) == 10,
        ensures
            forall|ctx: SlideContext, scale: F| slide_end_ok::<F>(old(self)@, name@, ctx, scale, final(self)@),
    {
        self.pa.in_ln_spc = false;
    }

    fn end_flag_11<F: Fn(i64, i64) -> i64>(&mut self, name: &str)
        requires
            old(self)@.skip == 0,
            end_arm(old(self)@, name@) == 11,
        ensures
            forall|ctx: SlideContext, scale: F| slide_end_ok::<F>(old(self)@, name@, ctx, scale, final(self)@),
    {
        self.pa.in_spc_bef = false;
    }

    fn end_flag_12<F: Fn(i64, i64) -> i64>(&mut self, name: &str)
        requires
            old(self)@.skip == 0,
            end_arm(old(self)@, name@) == 12,
        ensures
            forall|ctx: SlideContext, scale: F| slide_end_ok::<F>(old(self)@, name@, ctx, scale, final(self)@),
    {
        self.pa.in_spc_aft = false;
    }

    fn end_flag_13<F: Fn(i64, i64) -> i64>(&mut self, name: &str)
        requires
            old(self)@.skip == 0,
            end_arm(old(self)@, name@) == 13,
        ensures
            forall|ctx: SlideContext, scale: F| slide_end_ok::<F>(old(self)@, name@, ctx, scale, final(self)@),
    {
        self.fill = FillTarget::NoTarget;
    }

    fn end_flag_14<F: Fn(i64, i64) -> i64>(&mut self, name: &str)
        requires
            old(self)@.skip == 0,
            end_arm(old(self)@, name@) == 14,
        ensures
            forall|ctx: SlideContext, scale: F| slide_end_ok::<F>(old(self)@, name@, ctx, scale, final(self)@),
    {
        self.sh.in_style_ln_ref = false;
    }

    fn end_flag_15<F: Fn(i64, i64) -> i64>(&mut self, name: &str)
        requires
            old(self)@.skip == 0,
            end_arm(old(self)@, name@) == 15,
        ensures
            forall|ctx: SlideContext, scale: F| slide_end_ok::<F>(old(self)@, name@, ctx, scale, final(self)@),
    {
        self.sh.in_style_fill_ref = false;
    }

    fn end_flag_16<F: Fn(i64, i64) -> i64>(&mut self, name: &str)
        requires
            old(self)@.skip == 0,
            end_arm(old(self)@, name@) == 16,
        ensures
            forall|ctx: SlideContext, scale: F| slide_end_ok::<F>(old(self)@, name@, ctx, scale, final(self)@),
    {
        self.sh.in_style_font_ref = false;
    }

    fn end_flag_17<F: Fn(i64, i64) -> i64>(&mut self, name: &str)
        requires
            old(self)@.skip == 0,
            end_arm(old(self)@, name@) == 17,
        ensures
            forall|ctx: SlideContext, scale: F| slide_end_ok::<F>(old(self)@, name@, ctx, scale, final(self)@),
    {
        self.ru.in_text = false;
    }

    /// The end of a shape: one level up, and, where it closes the shape,
    /// its elements are added.
    fn end_shape<F: Fn(i64, i64) -> i64>(&mut self, name: &str, ctx: &SlideContext)
        requires
            old(self)@.skip == 0,
            end_arm(old(self)@, name@) == 0,
        ensures
            forall|scale: F| slide_end_ok::<F>(old(self)@, name@, *ctx, scale, final(self)@),
    {
        let d = if self.depth > 0 { self.depth - 1 } else { 0 };
        if d > 0 {
            self.depth = d;
            return;
        }
        let ghost old_view = self@;
        let (props, entries) = self.take_shape();
        let mut added = shape_elements_for(props, entries, &self.sh, &self.tb.body, ctx);
        proof {
            assert(shape_elements_added(old_view, *ctx, added@));
        }
        self.elements.append(&mut added);
        self.in_shape = false;
        self.depth = 0;
    }

    /// Take the shape read, and its paragraphs, out of the state.
    fn take_shape(&mut self) -> (r: (ShapeProps<i64>, Vec<PptxParagraphEntry<i64>>))
        ensures
            r.0 == props_of(old(self)@.sh),
            r.1@ == old(self)@.tb.paragraphs@,
            is_fresh_parts(final(self)@.sh),
            final(self)@.tb.paragraphs@ == Seq::<PptxParagraphEntry<i64>>::empty(),
            agree(final(self)@, SlideView {
                sh: ShapeScan { geom: final(self)@.sh.geom, paint: final(self)@.sh.paint, ..old(self)@.sh },
                tb: BodyScan { paragraphs: final(self)@.tb.paragraphs, ..old(self)@.tb },
                ..old(self)@
            }),
    {
        let mut geom = fresh_geom();
        std::mem::swap(&mut geom, &mut self.sh.geom);
        let mut paint = fresh_paint();
        std::mem::swap(&mut paint, &mut self.sh.paint);
        let props = ShapeProps {
            x: geom.x,
            y: geom.y,
            cx: geom.cx,
            cy: geom.cy,
            rotation_deg: geom.rotation_deg,
            flip_h: geom.flip_h,
            flip_v: geom.flip_v,
            opacity: None,
            shadow: None,
            prst_geom: geom.prst_geom,
            adj_values: geom.adj_values,
            head_end: geom.head_end,
            tail_end: geom.tail_end,
            fill: paint.fill,
            gradient_fill: None,
            explicit_no_fill: paint.explicit_no_fill,
            style_fill_color: paint.style_fill_color,
            ln_width_emu: paint.ln_width_emu,
            ln_color: paint.ln_color,
            ln_dash_style: paint.ln_dash_style,
            style_ln_color: paint.style_ln_color,
            style_ln_idx: paint.style_ln_idx,
        };
        let mut entries: Vec<PptxParagraphEntry<i64>> = Vec::new();
        std::mem::swap(&mut entries, &mut self.tb.paragraphs);
        (props, entries)
    }

    /// The end of a paragraph: it is added with its list marker.
    fn end_paragraph<F: Fn(i64, i64) -> i64>(&mut self, name: &str, ctx: &SlideContext, scale: &F)
        requires
            old(self)@.skip == 0,
            end_arm(old(self)@, name@) == 5,
            forall|a: i64, b: i64| call_requires(*scale, (a, b)),
        ensures
            slide_end_ok::<F>(old(self)@, name@, *ctx, *scale, final(self)@),
    {
        let marker = resolve_pptx_list_marker(&self.pa.bullet, self.pa.para_level, &self.pa.runs, &self.pa.end_run, &self.pa.default_run, scale);
        let mut runs: Vec<Run<i64>> = Vec::new();
        std::mem::swap(&mut runs, &mut self.pa.runs);
        let ghost ms = choose|ms: Option<TextStyle<i64>>|
            marker_style_resolved(old(self)@.pa.bullet, old(self)@.pa.runs@, old(self)@.pa.end_run, old(self)@.pa.default_run, *scale, ms)
                && marker == marker_for_bullet(old(self)@.pa.bullet.kind, old(self)@.pa.para_level, ms);
        let entry = PptxParagraphEntry { paragraph: Paragraph { style: self.pa.para_style.copy(), runs }, list_marker: marker };
        self.tb.paragraphs.push(entry);
        self.pa.in_para = false;
        proof {
            assert(self.tb.paragraphs@.drop_last() =~= old(self)@.tb.paragraphs@);
            assert(marker_style_resolved(old(self)@.pa.bullet, old(self)@.pa.runs@, old(self)@.pa.end_run, old(self)@.pa.default_run, *scale, ms));
        }
    }

    /// The end of a run: its text, where it has any, is added to the
    /// paragraph's runs.
    fn end_run<F: Fn(i64, i64) -> i64>(&mut self, name: &str)
        requires
            old(self)@.skip == 0,
            end_arm(old(self)@, name@) == 6,
        ensures
            forall|ctx: SlideContext, scale: F| slide_end_ok::<F>(old(self)@, name@, ctx, scale, final(self)@),
    {
        if self.ru.run_text.as_str().unicode_len() > 0 {
            let mut text = String::new();
            std::mem::swap(&mut text, &mut self.ru.run_text);
            let run = Run { text, style: self.ru.run_style.copy(), href: None, footnote: None };
            push_pptx_run(&mut self.pa.runs, run);
        }
        self.ru.in_run = false;
    }

    /// Read an end tag (see `slide_end_ok`); `scale` applies a bullet's
    /// size percentage to a font size.
    pub fn handle_end<F: Fn(i64, i64) -> i64>(&mut self, name: &str, ctx: &SlideContext, scale: &F)
        requires
            forall|a: i64, b: i64| call_requires(*scale, (a, b)),
        ensures
            slide_end_ok::<F>(old(self)@, name@, *ctx, *scale, final(self)@),
    {
        if self.skip > 0 {
            self.skip = self.skip - 1;
            return;
        }
        let k = self.end_arm_of(name);
        if k == 0 {
            self.end_shape::<F>(name, ctx);
        } else if k == 5 {
            self.end_paragraph(name, ctx, scale);
        } else if k == 6 {
            self.end_run::<F>(name);
        } else if k == 1 {
            self.end_flag_1::<F>(name);
        } else if k == 2 {
            self.end_flag_2::<F>(name);
        } else if k == 3 {
            self.end_flag_3::<F>(name);
        } else if k == 4 {
            self.end_flag_4::<F>(name);
        } else if k == 7 {
            self.end_flag_7::<F>(name);
        } else if k == 8 {
            self.end_flag_8::<F>(name);
        } else if k == 9 {
            self.end_flag_9::<F>(name);
        } else if k == 10 {
            self.end_flag_10::<F>(name);
        } else if k == 11 {
            self.end_flag_11::<F>(name);
        } else if k == 12 {
            self.end_flag_12::<F>(name);
        } else if k == 13 {
            self.end_flag_13::<F>(name);
        } else if k == 14 {
            self.end_flag_14::<F>(name);
        } else if k == 15 {
            self.end_flag_15::<F>(name);
        } else if k == 16 {
            self.end_flag_16::<F>(name);
        } else if k == 17 {
            self.end_flag_17::<F>(name);
        }
    }

    /// Which branch of an end tag's reading applies (see `end_arm`).
    fn end_arm_of(&self, name: &str) -> (k: usize)
        ensures
            k == end_arm(self@, name@),
    {
        if (str_eq(name, "sp") || str_eq(name, "cxnSp")) && self.in_shape {
            0
        } else if str_eq(name, "spPr") && self.sh.in_sp_pr {
            1
        } else if str_eq(name, "xfrm") && self.sh.in_xfrm {
            2
        } else if str_eq(name, "ln") && self.sh.in_ln {
            3
        } else if str_eq(name, "txBody") && self.tb.in_txbody {
            4
        } else if str_eq(name, "p") && self.pa.in_para {
            5
        } else if str_eq(name, "r") && self.ru.in_run {
            6
        } else if str_eq(name, "rPr") && self.ru.in_rpr {
            7
        } else if str_eq(name, "endParaRPr") && self.ru.in_end_para_rpr {
            8
        } else if str_eq(name, "ln") && self.ru.in_text_line {
            9
        } else if str_eq(name, "lnSpc") && self.pa.in_ln_spc {
            10
        } else if str_eq(name, "spcBef") && self.pa.in_spc_bef {
            11
        } else if str_eq(name, "spcAft") && self.pa.in_spc_aft {
            12
        } else if str_eq(name, "solidFill") && self.fill != FillTarget::NoTarget {
            13
        } else if str_eq(name, "lnRef") && self.sh.in_style_ln_ref {
            14
        } else if str_eq(name, "fillRef") && self.sh.in_style_fill_ref {
            15
        } else if str_eq(name, "fontRef") && self.sh.in_style_font_ref {
            16
        } else if str_eq(name, "t") && self.ru.in_text {
            17
        } else {
            18
        }
    }

    /// Read text (see `slide_text_ok`).
    pub fn handle_text(&mut self, text: &String)
        ensures
            slide_text_ok(old(self)@, text@, final(self)@),
    {
        if self.skip == 0 && self.ru.in_text {
            self.ru.run_text = concat2(self.ru.run_text.as_str(), text.as_str());
        }
    }

}

/// How a slide read ends: at the end of input with the elements read, or
/// at an XML error.
pub open spec fn slide_read_result(source: Seq<char>, at: SlideAt, r: Result<Vec<SlideElement<i64>>, ConvertError>) -> bool {
    match r {
        Ok(e) => xml_event_at(source, at.next) is Eof && e@ == at.scan.elements@,
        Err(err) => xml_event_at(source, at.next) is Error && err is Parse,
    }
}

/// Read one event that is neither the end of input nor the start of a
/// text body's list style (see `slide_step_ok`).
fn step_slide<F: Fn(i64, i64) -> i64>(scan: &mut SlideScan, event: &XmlEvent, ctx: &SlideContext, scale: &F)
    requires
        forall|a: i64, b: i64| call_requires(*scale, (a, b)),
    ensures
        slide_step_ok(old(scan)@, *event, *ctx, *scale, final(scan)@),
{
    proof {
        reveal(slide_step_ok);
    }
    match event {
        XmlEvent::Start(tag) => scan.handle_start(tag, ctx),
        XmlEvent::Empty(tag) => scan.handle_empty(tag, ctx),
        XmlEvent::End(name) => scan.handle_end(name.as_str(), ctx, scale),
        XmlEvent::Text(text) => scan.handle_text(text),
        _ => {},
    }
}

proof fn lemma_run_extend<F: Fn(i64, i64) -> i64>(source: Seq<char>, ctx: SlideContext, scale: F, trace: Seq<SlideAt>, a: SlideAt)
    requires
        slide_run_ok(source, ctx, scale, trace),
        slide_turn_ok(source, ctx, scale, trace.last(), a),
    ensures
        slide_run_ok(source, ctx, scale, trace.push(a)),
{
    let t = trace.push(a);
    assert forall|i: int| 0 <= i < t.len() - 1 implies #[trigger] slide_turn_ok(source, ctx, scale, t[i], t[i + 1]) by {
        assert(t[i] == trace[i]);
        if i < trace.len() - 1 {
            assert(t[i + 1] == trace[i + 1]);
            assert(slide_turn_ok(source, ctx, scale, trace[i], trace[i + 1]));
        } else {
            assert(t[i + 1] == a);
        }
    }
}

proof fn lemma_step_turn<F: Fn(i64, i64) -> i64>(source: Seq<char>, ctx: SlideContext, scale: F, trace: Seq<SlideAt>, a: SlideAt)
    requires
        slide_run_ok(source, ctx, scale, trace),
        !xml_event_at(source, trace.last().next).is_terminal(),
        !starts_body_list_style(trace.last().scan, xml_event_at(source, trace.last().next)),
        a.next == trace.last().next + 1,
        slide_step_ok(trace.last().scan, xml_event_at(source, trace.last().next), ctx, scale, a.scan),
    ensures
        slide_run_ok(source, ctx, scale, trace.push(a)),
{
    let b = trace.last();
    assert(slide_turn_ok(source, ctx, scale, b, a)) by {
        reveal(slide_turn_ok);
    }
    lemma_run_extend(source, ctx, scale, trace, a);
}

proof fn lemma_list_style_turn<F: Fn(i64, i64) -> i64>(
    source: Seq<char>,
    ctx: SlideContext,
    scale: F,
    trace: Seq<SlideAt>,
    a: SlideAt,
    d: PptxTextBodyStyleDefaults<i64>,
)
    requires
        slide_run_ok(source, ctx, scale, trace),
        starts_body_list_style(trace.last().scan, xml_event_at(source, trace.last().next)),
        a.next == trace.last().next + 1 + list_style_length(source, trace.last().next + 1) + 1,
        defaults_deep(d@) == list_style_after(source, trace.last().next + 1, list_style_length(source, trace.last().next + 1), ctx.theme, ctx.color_map).defaults,
        a.scan.tb.defaults@ == defaults_overlay(trace.last().scan.tb.defaults@, d@),
        agree(a.scan, SlideView { tb: BodyScan { defaults: a.scan.tb.defaults, ..trace.last().scan.tb }, ..trace.last().scan }),
    ensures
        slide_run_ok(source, ctx, scale, trace.push(a)),
{
    let b = trace.last();
    assert(slide_turn_ok(source, ctx, scale, b, a)) by {
        reveal(slide_turn_ok);
    }
    lemma_run_extend(source, ctx, scale, trace, a);
}

/// A shape's rotation is the `rot` of its frame: where the start tag of an
/// `a:xfrm` inside a shape's `spPr` carries a parsable `rot`, the shape
/// read so far takes that rotation (in 60000ths of a degree) and is marked
/// as having a frame of its own.
pub proof fn lemma_xfrm_sets_rotation(s: SlideView, tag: XmlTag, ctx: SlideContext, a: SlideView, r: i64)
    requires
        slide_start_ok(s, tag, ctx, a),
        s.skip == 0,
        s.in_shape,
        s.sh.in_sp_pr,
        tag.name@ == "xfrm"@,
        tag_i64(tag, "rot"@) == Some(r),
    ensures
        a.sh.geom.rotation_deg == Some(r),
        a.sh.has_explicit_xfrm,
{
    reveal_strlit("xfrm");
    reveal_strlit("grpSp");
    reveal_strlit("sp");
    reveal_strlit("cxnSp");
    reveal_strlit("spPr");
    assert("xfrm"@.len() == 4 && "xfrm"@[0] == 'x');
    assert("grpSp"@.len() == 5 && "sp"@.len() == 2 && "cxnSp"@.len() == 5 && "spPr"@[0] == 's');
    assert(start_arm(tag.name@) == 3);
}

/// Within a shape, no start tag but an `a:xfrm` changes the shape's rotation.
proof fn lemma_start_keeps_rotation(s: SlideView, tag: XmlTag, ctx: SlideContext, a: SlideView)
    requires
        slide_start_ok(s, tag, ctx, a),
        s.in_shape,
        tag.name@ != "xfrm"@,
    ensures
        a.sh.geom.rotation_deg == s.sh.geom.rotation_deg,
{
}

/// No self-closing tag changes the shape's rotation.
proof fn lemma_empty_keeps_rotation(s: SlideView, tag: XmlTag, ctx: SlideContext, a: SlideView)
    requires
        slide_empty_ok(s, tag, ctx, a),
    ensures
        a.sh.geom.rotation_deg == s.sh.geom.rotation_deg,
{
}

/// No end tag that leaves the shape open changes the shape's rotation.
proof fn lemma_end_keeps_rotation<F: Fn(i64, i64) -> i64>(s: SlideView, name: Seq<char>, ctx: SlideContext, scale: F, a: SlideView)
    requires
        slide_end_ok(s, name, ctx, scale, a),
        a.in_shape,
    ensures
        a.sh.geom.rotation_deg == s.sh.geom.rotation_deg,
{
}

/// While a shape stays open, every turn of a slide read but the start of an
/// `a:xfrm` keeps the shape's rotation.
pub proof fn lemma_turn_keeps_rotation<F: Fn(i64, i64) -> i64>(
    source: Seq<char>,
    ctx: SlideContext,
    scale: F,
    b: SlideAt,
    a: SlideAt,
)
    requires
        slide_turn_ok(source, ctx, scale, b, a),
        b.scan.in_shape,
        a.scan.in_shape,
        !(xml_event_at(source, b.next) matches XmlEvent::Start(tag) && tag.name@ == "xfrm"@),
    ensures
        a.scan.sh.geom.rotation_deg == b.scan.sh.geom.rotation_deg,
{
    reveal(slide_turn_ok);
    let event = xml_event_at(source, b.next);
    if !starts_body_list_style(b.scan, event) {
        reveal(slide_step_ok);
        match event {
            XmlEvent::Start(tag) => lemma_start_keeps_rotation(b.scan, tag, ctx, a.scan),
            XmlEvent::Empty(tag) => lemma_empty_keeps_rotation(b.scan, tag, ctx, a.scan),
            XmlEvent::End(name) => lemma_end_keeps_rotation(b.scan, name@, ctx, scale, a.scan),
            _ => {},
        }
    }
}

/// The rotation stays from turn `v` to turn `u` of a read where the shape
/// stays open and no `a:xfrm` starts in between.
proof fn lemma_rotation_kept_until<F: Fn(i64, i64) -> i64>(
    source: Seq<char>,
    ctx: SlideContext,
    scale: F,
    trace: Seq<SlideAt>,
    v: int,
    u: int,
    r: i64,
)
    requires
        slide_run_ok(source, ctx, scale, trace),
        0 <= v <= u,
        u < trace.len(),
        trace[v].scan.sh.geom.rotation_deg == Some(r),
        forall|w: int| v <= w < u ==> !(xml_event_at(source, (#[trigger] trace[w]).next) matches XmlEvent::Start(tag) && tag.name@ == "xfrm"@),
        forall|w: int| v <= w <= u ==> (#[trigger] trace[w]).scan.in_shape,
    ensures
        trace[u].scan.sh.geom.rotation_deg == Some(r),
    decreases u - v,
{
    if v < u {
        assert(slide_turn_ok(source, ctx, scale, trace[v], trace[v + 1]));
        assert(trace[v].scan.in_shape && trace[v + 1].scan.in_shape);
        assert(!(xml_event_at(source, trace[v].next) matches XmlEvent::Start(tag) && tag.name@ == "xfrm"@));
        lemma_turn_keeps_rotation(source, ctx, scale, trace[v], trace[v + 1]);
        lemma_rotation_kept_until(source, ctx, scale, trace, v + 1, u, r);
    }
}

/// A shape read from a slide is drawn with the rotation of its frame: where
/// a turn of the read takes the start of an `a:xfrm` with a parsable `rot`
/// inside a shape's `spPr`, and that shape stays open, with no other
/// `a:xfrm` started, until a turn takes its end tag (`p:sp` or `p:cxnSp`)
/// at the top of the shape tree, every drawn shape that end adds to the
/// elements carries that rotation.
pub proof fn lemma_read_shape_rotation<F: Fn(i64, i64) -> i64>(
    source: Seq<char>,
    ctx: SlideContext,
    scale: F,
    trace: Seq<SlideAt>,
    t: int,
    u: int,
    r: i64,
)
    requires
        slide_run_ok(source, ctx, scale, trace),
        0 <= t < u,
        u + 1 < trace.len(),
        xml_event_at(source, trace[t].next) matches XmlEvent::Start(tag) && tag.name@ == "xfrm"@ && tag_i64(tag, "rot"@) == Some(r),
        trace[t].scan.skip == 0,
        trace[t].scan.in_shape,
        trace[t].scan.sh.in_sp_pr,
        forall|v: int| t < v < u ==> !(xml_event_at(source, (#[trigger] trace[v]).next) matches XmlEvent::Start(tag) && tag.name@ == "xfrm"@),
        forall|v: int| t < v <= u ==> (#[trigger] trace[v]).scan.in_shape,
        xml_event_at(source, trace[u].next) matches XmlEvent::End(name) && (name@ == "sp"@ || name@ == "cxnSp"@),
        trace[u].scan.skip == 0,
        trace[u].scan.depth <= 1,
    ensures
        forall|i: int|
            trace[u].scan.elements@.len() <= i < trace[u + 1].scan.elements@.len() ==> match (#[trigger] elements_view(
                trace[u + 1].scan.elements@,
            )[i]).kind {
                SlideElementKindView::Shape(d) => d.rotation_deg == Some(r),
                SlideElementKindView::TextBox(_) => true,
            },
{
    let tag = xml_event_at(source, trace[t].next)->Start_0;
    assert(slide_turn_ok(source, ctx, scale, trace[t], trace[t + 1]));
    assert(!starts_body_list_style(trace[t].scan, xml_event_at(source, trace[t].next))) by {
        reveal_strlit("xfrm");
        reveal_strlit("lstStyle");
        assert("xfrm"@.len() != "lstStyle"@.len());
    }
    assert(slide_step_ok(trace[t].scan, xml_event_at(source, trace[t].next), ctx, scale, trace[t + 1].scan)) by {
        reveal(slide_turn_ok);
    }
    assert(slide_start_ok(trace[t].scan, tag, ctx, trace[t + 1].scan)) by {
        reveal(slide_step_ok);
    }
    lemma_xfrm_sets_rotation(trace[t].scan, tag, ctx, trace[t + 1].scan, r);
    lemma_rotation_kept_until(source, ctx, scale, trace, t + 1, u, r);
    let name = xml_event_at(source, trace[u].next)->End_0;
    assert(slide_turn_ok(source, ctx, scale, trace[u], trace[u + 1]));
    assert(!starts_body_list_style(trace[u].scan, xml_event_at(source, trace[u].next)));
    assert(slide_step_ok(trace[u].scan, xml_event_at(source, trace[u].next), ctx, scale, trace[u + 1].scan)) by {
        reveal(slide_turn_ok);
    }
    assert(slide_end_ok(trace[u].scan, name@, ctx, scale, trace[u + 1].scan)) by {
        reveal(slide_step_ok);
    }
    lemma_shape_end_keeps_rotation(trace[u].scan, name@, ctx, scale, trace[u + 1].scan);
}

/// A finished shape draws with the rotation read for it: at the end tag of
/// a shape (`p:sp` or `p:cxnSp`) at the top of the shape tree, every drawn
/// shape it adds to the elements carries the rotation of the shape read.
pub proof fn lemma_shape_end_keeps_rotation<F: Fn(i64, i64) -> i64>(
    s: SlideView,
    name: Seq<char>,
    ctx: SlideContext,
    scale: F,
    a: SlideView,
)
    requires
        slide_end_ok(s, name, ctx, scale, a),
        s.skip == 0,
        name == "sp"@ || name == "cxnSp"@,
        s.in_shape,
        s.depth <= 1,
    ensures
        a.elements@.len() >= s.elements@.len(),
        a.elements@.subrange(0, s.elements@.len() as int) == s.elements@,
        forall|i: int|
            s.elements@.len() <= i < a.elements@.len() ==> match (#[trigger] elements_view(a.elements@)[i]).kind {
                SlideElementKindView::Shape(d) => d.rotation_deg == s.sh.geom.rotation_deg,
                SlideElementKindView::TextBox(_) => true,
            },
{
    assert(end_arm(s, name) == 0);
    assert(shallower(s.depth) == 0);
    let e = choose|e: Seq<SlideElement<i64>>|
        #[trigger] shape_elements_added(s, ctx, e) && is_fresh_parts(a.sh) && a.elements@ == s.elements@ + e
            && a.tb.paragraphs@ == Seq::<PptxParagraphEntry<i64>>::empty() && agree(a, SlideView { elements: a.elements, in_shape: false, depth: 0, sh: ShapeScan { geom: a.sh.geom, paint: a.sh.paint, ..s.sh }, tb: BodyScan { paragraphs: a.tb.paragraphs, ..s.tb }, ..s });
    assert(a.elements@.subrange(0, s.elements@.len() as int) =~= s.elements@);
    assert forall|i: int|
        s.elements@.len() <= i < a.elements@.len() implies match (#[trigger] elements_view(a.elements@)[i]).kind {
            SlideElementKindView::Shape(d) => d.rotation_deg == s.sh.geom.rotation_deg,
            SlideElementKindView::TextBox(_) => true,
        } by {
        let j = i - s.elements@.len();
        assert(a.elements@[i] == e[j]);
        assert(elements_view(a.elements@)[i] == elements_view(e)[j]);
        if !(ctx.skip_placeholders && s.sh.placeholder is Some) {
            let shp = placed(props_of(s.sh), placeholder_frame(s, ctx));
            let blocks = choose|blocks: Seq<GroupedBlock<i64, Paragraph<i64>>>|
                #[trigger] finished_as(shp, s.tb.paragraphs@, s.tb.body, ctx.theme_line_widths@, elements_view(e), blocks);
            assert(elements_view(e) == shape_elements(shp, s.tb.body, ctx.theme_line_widths@, has_text(s.tb.paragraphs@), blocks_view(blocks)));
            lemma_shape_elements_keep_rotation(shp, s.tb.body, ctx.theme_line_widths@, has_text(s.tb.paragraphs@), blocks_view(blocks));
            assert(shp.rotation_deg == s.sh.geom.rotation_deg);
            assert(elements_view(e)[j] == shape_elements(shp, s.tb.body, ctx.theme_line_widths@, has_text(s.tb.paragraphs@), blocks_view(blocks))[j]);
        }
    }
}

/// Read a slide layer's shape tree into fixed elements: every shape and
/// connector (`p:sp`, `p:cxnSp`) with its frame, geometry, fill, outline,
/// style references, placeholder and text, in document order, finished as
/// `finish_slide_shape` does. The read goes event by event (see
/// `slide_run_ok`) to the end of input, and fails exactly where the XML is
/// malformed. `scale` applies a bullet's size percentage to a font size.
#[verifier::rlimit(50)]
pub fn parse_slide_xml<F: Fn(i64, i64) -> i64>(xml: &str, ctx: &SlideContext, scale: &F) -> (r: Result<Vec<SlideElement<i64>>, ConvertError>)
    requires
        forall|a: i64, b: i64| call_requires(*scale, (a, b)),
    ensures
        exists|trace: Seq<SlideAt>|
            #[trigger] slide_run_ok(xml@, *ctx, *scale, trace) && slide_read_result(xml@, trace.last(), r),
{
    let mut cursor = open_xml(xml);
    let mut scan = SlideScan::new();
    let ghost mut trace: Seq<SlideAt> = seq![SlideAt { scan: scan@, next: 0 }];
    assert(slide_run_ok(xml@, *ctx, *scale, trace));
    loop
        invariant
            cursor.source() == xml@,
            forall|a: i64, b: i64| call_requires(*scale, (a, b)),
            slide_run_ok(xml@, *ctx, *scale, trace),
            trace.last() == (SlideAt { scan: scan@, next: cursor.consumed() }),
        decreases cursor.remaining(),
    {
        let event = read_xml_event(&mut cursor);
        match &event {
            XmlEvent::Eof => {
                let r = Ok(scan.elements);
                assert(slide_run_ok(xml@, *ctx, *scale, trace) && slide_read_result(xml@, trace.last(), r));
                return r;
            },
            XmlEvent::Error => {
                let r = Err(parse_err("XML error in slide"));
                assert(slide_run_ok(xml@, *ctx, *scale, trace) && slide_read_result(xml@, trace.last(), r));
                return r;
            },
            _ => {},
        }
        let opens_list_style = match &event {
            XmlEvent::Start(tag) => str_eq(tag.name.as_str(), "lstStyle") && scan.skip == 0 && scan.in_shape && scan.tb.in_txbody,
            _ => false,
        };
        if opens_list_style {
            let ghost start = cursor.consumed();
            let d = parse_pptx_list_style(&mut cursor, &ctx.theme, &ctx.color_map);
            proof {
                let m = choose|m: nat|
                    list_style_ends_at(xml@, start, m) && cursor.consumed() == start + m + 1
                        && defaults_deep(d@) == #[trigger] list_style_after(xml@, start, m, ctx.theme, ctx.color_map).defaults;
                lemma_list_style_end_unique(xml@, start, m, list_style_length(xml@, start));
            }
            scan.tb.defaults.merge_from(&d);
            proof {
                let after = SlideAt { scan: scan@, next: cursor.consumed() };
                lemma_list_style_turn(xml@, *ctx, *scale, trace, after, d);
                trace = trace.push(after);
            }
        } else {
            step_slide(&mut scan, &event, ctx, scale);
            proof {
                let after = SlideAt { scan: scan@, next: cursor.consumed() };
                lemma_step_turn(xml@, *ctx, *scale, trace, after);
                trace = trace.push(after);
            }
        }
    }
}

} // verus!
